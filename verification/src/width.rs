//! Widths of texts in terminal columns.
use vstd::prelude::*;

verus! {

/// The number of terminal columns that a text takes up, as the `console`
/// crate measures it: escape sequences count for nothing, wide characters
/// for two columns.
pub uninterp spec fn text_width(text: Seq<char>) -> nat;

/// Calls `console::measure_text_width`, which strips escape sequences from
/// the text and adds up the widths of what is left. Its result depends on
/// the text alone; the contract only gives that result its name.
#[verifier::external_body]
pub(crate) fn measure(text: &str) -> (width: usize)
    ensures
        width == text_width(text@),
{
    console::measure_text_width(text)
}

} // verus!
