use vstd::prelude::*;

verus! {

/// A structural failure while turning a document into an episode record.
///
/// `MissingRoundTable`: a round's table anchor is absent from the document,
/// so the whole parse fails and no partial episode is produced.
/// `MissingField` names a required builder field that was never set before
/// `build` was called.
/// `MalformedValue` is the defensive case: positional arithmetic produced a
/// category index that the extracted category list cannot serve; it cannot
/// occur on a well-formed board.
#[derive(Debug, Clone, Copy)]
pub enum Error {
    MissingRoundTable,
    MissingField(&'static str),
    MalformedValue,
}

} // verus!
