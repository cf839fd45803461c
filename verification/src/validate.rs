//! The rule that every record has as many fields as the first one.

use vstd::prelude::*;

verus! {

/// What happens to a record whose width differs from the established one.
#[derive(Clone, Copy, Debug, PartialEq, Eq, Structural)]
pub enum WidthPolicy {
    /// The run fails.
    Fail,
    /// The record is dropped with a warning; the established width stays.
    SoftIgnore,
    /// The record is dropped, and its width becomes the established one.
    HardIgnore,
}

/// What the validator says of one record.
#[derive(Clone, Copy, Debug, PartialEq, Eq, Structural)]
pub enum WidthVerdict {
    /// No width was established yet: this record sets it.
    Establish,
    /// The record has the established width.
    Accept,
    /// The widths differ and the run fails.
    Mismatch,
    /// The widths differ and the record is dropped.
    Drop,
    /// The widths differ, the record is dropped, and its width is the new
    /// established width.
    Rebase,
}

/// The verdict on a record of `found` fields.
pub open spec fn width_verdict(
    established: Option<usize>,
    found: usize,
    policy: WidthPolicy,
) -> WidthVerdict {
    match established {
        None => WidthVerdict::Establish,
        Some(width) => if width == found {
            WidthVerdict::Accept
        } else {
            match policy {
                WidthPolicy::Fail => WidthVerdict::Mismatch,
                WidthPolicy::SoftIgnore => WidthVerdict::Drop,
                WidthPolicy::HardIgnore => WidthVerdict::Rebase,
            }
        },
    }
}

/// The established width after a record of `found` fields was seen.
pub open spec fn width_after(
    established: Option<usize>,
    found: usize,
    policy: WidthPolicy,
) -> Option<usize> {
    match width_verdict(established, found, policy) {
        WidthVerdict::Establish => Some(found),
        WidthVerdict::Rebase => Some(found),
        _ => established,
    }
}

/// Compares the width of a record with the established width.
pub fn check_width(established: Option<usize>, found: usize, policy: WidthPolicy) -> (verdict:
    WidthVerdict)
    ensures
        verdict == width_verdict(established, found, policy),
{
    match established {
        None => WidthVerdict::Establish,
        Some(width) => {
            if width == found {
                WidthVerdict::Accept
            } else {
                match policy {
                    WidthPolicy::Fail => WidthVerdict::Mismatch,
                    WidthPolicy::SoftIgnore => WidthVerdict::Drop,
                    WidthPolicy::HardIgnore => WidthVerdict::Rebase,
                }
            }
        },
    }
}

/// Once a width is established, only the hard-ignore policy changes it, and
/// only to the width of a record that did not match.
pub proof fn lemma_width_is_locked(established: usize, found: usize, policy: WidthPolicy)
    ensures
        policy != WidthPolicy::HardIgnore ==> width_after(Some(established), found, policy)
            == Some(established),
        found == established ==> width_after(Some(established), found, policy) == Some(
            established,
        ),
        policy == WidthPolicy::HardIgnore ==> width_after(Some(established), found, policy)
            == Some(found),
        width_after(None, found, policy) == Some(found),
{
}

} // verus!
