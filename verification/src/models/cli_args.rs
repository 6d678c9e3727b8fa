use vstd::prelude::*;

verus! {

/// The run's arguments: the first episode number to parse, how many
/// consecutive episodes to crawl, and where to write the results (absent
/// means the console). The command-line front end fills this in.
#[derive(Debug, Clone)]
pub struct CliArgs {
    pub episode_no: u32,
    pub iterations: u16,
    pub outfile: Option<String>,
}

} // verus!
