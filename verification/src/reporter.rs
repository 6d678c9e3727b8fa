use vstd::prelude::*;

use crate::models::error::Error;

verus! {

/// Reports crawl results: to the file named here, or to the console when
/// no file was named. The writing itself happens outside the library.
#[derive(Debug)]
pub struct Reporter {
    pub outfile: Option<String>,
}

/// Staged constructor of a reporter. Its one field is optional, so
/// building never fails.
#[derive(Debug)]
pub struct ReporterBuilder {
    pub outfile: Option<String>,
}

impl ReporterBuilder {
    /// Creates a builder with no destination set.
    pub fn new() -> (r: Self)
        ensures
            r.outfile is None,
    {
        ReporterBuilder { outfile: None }
    }

    /// Sets the destination file, present or absent.
    pub fn set_outfile(&mut self, outfile: Option<String>)
        ensures
            *final(self) == (ReporterBuilder { outfile }),
    {
        self.outfile = outfile;
    }

    /// Builds the reporter; every field is optional, so this always
    /// succeeds.
    pub fn build(self) -> (r: Result<Reporter, Error>)
        ensures
            r matches Ok(rep) && rep.outfile == self.outfile,
    {
        Ok(Reporter { outfile: self.outfile })
    }
}

/// The spinner frame shown while the given iteration is crawled.
pub open spec fn spec_progress_symbol(curr: int) -> Seq<char> {
    if curr % 4 == 0 {
        "\\"@
    } else if curr % 4 == 1 {
        "|"@
    } else if curr % 4 == 2 {
        "/"@
    } else {
        "―"@
    }
}

/// The spinner frame shown while the given iteration is crawled.
pub fn progress_symbol(curr: usize) -> (r: &'static str)
    ensures
        r@ == spec_progress_symbol(curr as int),
{
    let m = curr % 4;
    if m == 0 {
        "\\"
    } else if m == 1 {
        "|"
    } else if m == 2 {
        "/"
    } else {
        "―"
    }
}

} // verus!
