use vstd::prelude::*;

use crate::sanitizer::{chars_of, contains_pat, lemma_contains_at, matches_at};

verus! {

/// Crawls consecutive episodes into full episode records. The fetch loop
/// around the library does the network work; the decisions — above all
/// whether a fetched page says the episode does not exist — live here.
pub struct JArchiveCrawler;

impl JArchiveCrawler {
    /// Creates a new instance of the crawler.
    pub fn new() -> Self {
        JArchiveCrawler
    }
}

/// Scrapes consecutive episodes into flat question lists — the older
/// shape of the crawl, kept for callers that want questions without the
/// surrounding episode record. The fetch loop around the library drives
/// it.
pub struct JArchiveScraper;

impl JArchiveScraper {
    /// Creates a new instance of the scraper.
    pub fn new() -> Self {
        JArchiveScraper
    }
}

/// The error the crawl loop reports for one episode.
#[derive(Debug, Clone)]
pub struct CrawlerError {
    pub msg: String,
}

impl CrawlerError {
    /// Creates an error carrying the given description.
    pub fn new(msg: &str) -> (r: CrawlerError)
        ensures
            r.msg@ == msg@,
    {
        CrawlerError { msg: msg.to_owned() }
    }

    /// The human-readable description of the failure.
    pub fn message(&self) -> (r: String)
        ensures
            r@ == self.msg@,
    {
        self.msg.clone()
    }
}

/// The character standing for one decimal digit.
pub open spec fn digit_char(d: nat) -> char {
    if d == 0 {
        '0'
    } else if d == 1 {
        '1'
    } else if d == 2 {
        '2'
    } else if d == 3 {
        '3'
    } else if d == 4 {
        '4'
    } else if d == 5 {
        '5'
    } else if d == 6 {
        '6'
    } else if d == 7 {
        '7'
    } else if d == 8 {
        '8'
    } else {
        '9'
    }
}

/// The decimal rendering of a number, most significant digit first.
pub open spec fn spec_decimal(n: nat) -> Seq<char>
    decreases n,
{
    if n < 10 {
        seq![digit_char(n)]
    } else {
        spec_decimal(n / 10) + seq![digit_char(n % 10)]
    }
}

/// The character standing for one decimal digit.
fn digit_char_exec(d: u32) -> (r: char)
    requires
        d < 10,
    ensures
        r == digit_char(d as nat),
{
    if d == 0 {
        '0'
    } else if d == 1 {
        '1'
    } else if d == 2 {
        '2'
    } else if d == 3 {
        '3'
    } else if d == 4 {
        '4'
    } else if d == 5 {
        '5'
    } else if d == 6 {
        '6'
    } else if d == 7 {
        '7'
    } else if d == 8 {
        '8'
    } else {
        '9'
    }
}

/// Appends the decimal rendering of `n` to `out`.
fn push_decimal(n: u32, out: &mut Vec<char>)
    ensures
        final(out)@ == old(out)@ + spec_decimal(n as nat),
    decreases n,
{
    if n < 10 {
        out.push(digit_char_exec(n));
    } else {
        push_decimal(n / 10, out);
        out.push(digit_char_exec(n % 10));
        proof {
            assert(old(out)@ + spec_decimal((n / 10) as nat) + seq![digit_char((n % 10) as nat)]
                =~= old(out)@ + (spec_decimal((n / 10) as nat) + seq![
                digit_char((n % 10) as nat),
            ]));
        }
    }
}

/// Whether `pat` occurs anywhere in `s`.
fn contains_chars(s: &Vec<char>, pat: &Vec<char>) -> (r: bool)
    ensures
        r == contains_pat(s@, pat@),
{
    if pat.len() == 0 {
        proof {
            assert(s@.subrange(0, 0 + pat@.len() as int) =~= pat@);
            lemma_contains_at(s@, pat@, 0);
        }
        return true;
    }
    let mut i: usize = 0;
    while i < s.len()
        invariant
            i <= s@.len(),
            pat@.len() > 0,
            forall|j: int|
                0 <= j < i && j + pat@.len() <= s@.len() ==> #[trigger] s@.subrange(
                    j,
                    j + pat@.len(),
                ) != pat@,
        decreases s@.len() - i,
    {
        if matches_at(s, pat, i) {
            proof {
                lemma_contains_at(s@, pat@, i as int);
            }
            return true;
        }
        i = i + 1;
    }
    false
}

/// The sentinel text the archive serves in place of an episode it does
/// not have.
pub open spec fn spec_missing_sentinel(episode_no: u32) -> Seq<char> {
    "ERROR: No game "@ + spec_decimal(episode_no as nat) + " in database."@
}

/// Whether a fetched page says the episode is absent from the archive:
/// the raw markup contains the sentinel naming this episode number. The
/// crawl loop must not attempt a parse of such a page.
pub fn is_missing_episode(raw_html: &str, episode_no: u32) -> (r: bool)
    ensures
        r == contains_pat(raw_html@, spec_missing_sentinel(episode_no)),
{
    let mut sentinel = chars_of("ERROR: No game ");
    push_decimal(episode_no, &mut sentinel);
    let mut suffix = chars_of(" in database.");
    sentinel.append(&mut suffix);
    proof {
        assert(sentinel@ =~= spec_missing_sentinel(episode_no));
    }

    let haystack = chars_of(raw_html);
    contains_chars(&haystack, &sentinel)
}

} // verus!
