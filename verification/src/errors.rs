use vstd::prelude::*;

verus! {

/// The error the scrape loop reports: which episode could not be scraped.
#[derive(Debug, Clone, Copy)]
pub struct ScrapingError {
    pub episode_no: u32,
}

impl ScrapingError {
    /// Creates an error naming the episode.
    pub fn new(episode_no: u32) -> (r: ScrapingError)
        ensures
            r.episode_no == episode_no,
    {
        ScrapingError { episode_no }
    }
}

} // verus!
