use jarchive::crawler::{is_missing_episode, CrawlerError, JArchiveCrawler, JArchiveScraper};
use jarchive::errors::ScrapingError;
use jarchive::reporter::{progress_symbol, ReporterBuilder};

#[test]
fn detects_the_missing_episode_sentinel() {
    let page = "<html><body>ERROR: No game 7515 in database.</body></html>";
    assert!(is_missing_episode(page, 7515));
    assert!(!is_missing_episode(page, 7516));
    assert!(!is_missing_episode("<html><body>a real page</body></html>", 7515));
}

#[test]
fn sentinel_renders_every_episode_number() {
    assert!(is_missing_episode("ERROR: No game 0 in database.", 0));
    assert!(is_missing_episode("ERROR: No game 10 in database.", 10));
    assert!(is_missing_episode(
        "ERROR: No game 4294967295 in database.",
        u32::MAX
    ));
    // the sentinel must name the episode exactly
    assert!(!is_missing_episode("ERROR: No game 100 in database.", 10));
    assert!(is_missing_episode("xxERROR: No game 10 in database.xx", 10));
}

#[test]
fn crawler_error_carries_its_description() {
    let err = CrawlerError::new("Failed to get HTML for episode 3");
    assert_eq!(err.msg, "Failed to get HTML for episode 3");
    assert_eq!(err.message(), "Failed to get HTML for episode 3");
}

#[test]
fn scraping_error_names_the_episode() {
    let err = ScrapingError::new(123);
    assert_eq!(err.episode_no, 123);
}

#[test]
fn constructors_build_the_unit_workers() {
    let _crawler = JArchiveCrawler::new();
    let _scraper = JArchiveScraper::new();
}

#[test]
fn reporter_builder_keeps_the_outfile() {
    let mut builder = ReporterBuilder::new();
    builder.set_outfile(Some("out.json".to_string()));
    let reporter = builder.build().unwrap();
    assert_eq!(reporter.outfile, Some("out.json".to_string()));

    let builder = ReporterBuilder::new();
    let reporter = builder.build().unwrap();
    assert_eq!(reporter.outfile, None);
}

#[test]
fn progress_symbols_cycle() {
    assert_eq!(progress_symbol(0), "\\");
    assert_eq!(progress_symbol(1), "|");
    assert_eq!(progress_symbol(2), "/");
    assert_eq!(progress_symbol(3), "―");
    assert_eq!(progress_symbol(4), "\\");
}
