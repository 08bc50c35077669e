//! The order of buffers and texts: that of their bytes, read left to right.
use std::cmp::Ordering;
use vstd::prelude::*;
use crate::buffer::ByteBuffer;
use crate::bytes::mismatch;
use crate::text::StyledText;

verus! {

/// The least index at or after `from` at which `a` and `b` differ or one of
/// them ends.
pub open spec fn first_difference(a: Seq<u8>, b: Seq<u8>, from: int) -> int
    decreases a.len() - from,
{
    if from < 0 || from >= a.len() || from >= b.len() || a[from] != b[from] {
        from
    } else {
        first_difference(a, b, from + 1)
    }
}

/// How `a` stands to `b`: the byte at which they first differ decides, and
/// where one is the beginning of the other the shorter comes first.
pub open spec fn compare_bytes(a: Seq<u8>, b: Seq<u8>) -> Ordering {
    let at = first_difference(a, b, 0);
    if at >= a.len() && at >= b.len() {
        Ordering::Equal
    } else if at >= a.len() {
        Ordering::Less
    } else if at >= b.len() {
        Ordering::Greater
    } else if a[at] < b[at] {
        Ordering::Less
    } else {
        Ordering::Greater
    }
}

/// How the bytes of `a` stand to those of `b`.
pub fn order_of(a: &[u8], b: &[u8]) -> (order: Ordering)
    ensures
        order == compare_bytes(a@, b@),
{
    let at = mismatch(a, b);
    if at >= a.len() && at >= b.len() {
        Ordering::Equal
    } else if at >= a.len() {
        Ordering::Less
    } else if at >= b.len() {
        Ordering::Greater
    } else if a[at] < b[at] {
        Ordering::Less
    } else {
        Ordering::Greater
    }
}

/// Buffers are ordered by their bytes; the capacity does not count.
impl PartialOrd for ByteBuffer {
    fn partial_cmp(&self, other: &Self) -> (order: Option<Ordering>) {
        Some(order_of(self.as_slice(), other.as_slice()))
    }
}

impl vstd::std_specs::cmp::PartialOrdSpecImpl for ByteBuffer {
    open spec fn obeys_partial_cmp_spec() -> bool {
        true
    }

    open spec fn partial_cmp_spec(&self, other: &Self) -> Option<Ordering> {
        Some(compare_bytes(self@, other@))
    }
}

/// Texts are ordered by their contents; the baseline does not count.
impl PartialOrd for StyledText {
    fn partial_cmp(&self, other: &Self) -> (order: Option<Ordering>) {
        Some(order_of(self.bytes().as_slice(), other.bytes().as_slice()))
    }
}

impl vstd::std_specs::cmp::PartialOrdSpecImpl for StyledText {
    open spec fn obeys_partial_cmp_spec() -> bool {
        true
    }

    open spec fn partial_cmp_spec(&self, other: &Self) -> Option<Ordering> {
        Some(compare_bytes(self@, other@))
    }
}

} // verus!
