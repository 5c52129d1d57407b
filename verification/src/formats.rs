//! The format parsers this crate implements itself, and the dispatcher
//! that tries them against one buffer.

pub mod webm;

use vstd::prelude::*;
use crate::enums::SniffOutcome;
use crate::enums::SniffView;
use crate::formats::webm::model::spec_get_information;

verus! {

/// What trying every self-implemented parser against one buffer yields,
/// with the dispatcher precedence: the first `Complete` wins; otherwise
/// the `Incomplete` candidates are aggregated; with no candidate at all
/// the buffer is `Unknown`.
pub open spec fn spec_get_format(input: Seq<u8>) -> SniffView {
    match spec_get_information(input) {
        SniffView::Complete(m) => SniffView::Complete(m),
        SniffView::Incomplete(c) => if c.len() == 0 {
            SniffView::Unknown
        } else {
            SniffView::Incomplete(c)
        },
        SniffView::Unknown => SniffView::Unknown,
    }
}

/// Tries every format parser this crate implements itself against the
/// buffer and merges their verdicts.
pub fn get_format(i: &[u8]) -> (r: SniffOutcome)
    ensures
        r@ == spec_get_format(i@),
{
    match webm::get_information(i) {
        SniffOutcome::Complete(m) => SniffOutcome::Complete(m),
        SniffOutcome::Incomplete(candidates) => {
            if candidates.len() == 0 {
                SniffOutcome::Unknown
            } else {
                SniffOutcome::Incomplete(candidates)
            }
        },
        SniffOutcome::Unknown => SniffOutcome::Unknown,
    }
}

} // verus!
