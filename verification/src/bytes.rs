//! Byte constants of the markup grammar and searching in byte sequences.
use vstd::prelude::*;

verus! {

/// The escape byte that opens an ANSI sequence.
pub const ESC: u8 = 27;

/// `[`
pub const LEFT_SQUARE: u8 = 91;

/// `m`
pub const LOWER_M: u8 = 109;

/// `0`
pub const DIGIT_ZERO: u8 = 48;

/// `<`
pub const LESS_THAN: u8 = 60;

/// `>`
pub const GREATER_THAN: u8 = 62;

/// `/`
pub const SLASH: u8 = 47;

/// `:`
pub const COLON: u8 = 58;

/// `$`
pub const DOLLAR: u8 = 36;

/// `=`
pub const EQUALS_SIGN: u8 = 61;

/// ` `
pub const SPACE: u8 = 32;

/// `h`
pub const LOWER_H: u8 = 104;

/// `1`
pub const DIGIT_ONE: u8 = 49;

/// `6`
pub const DIGIT_SIX: u8 = 54;

/// The five bytes that `u8::is_ascii_whitespace` accepts: space, tab, line
/// feed, form feed and carriage return.
pub open spec fn is_ascii_whitespace(b: u8) -> bool {
    b == 32 || b == 9 || b == 10 || b == 12 || b == 13
}

/// `needle` stands in `hay` at index `at`.
pub open spec fn occurs_at(hay: Seq<u8>, needle: Seq<u8>, at: int) -> bool {
    &&& 0 <= at
    &&& at + needle.len() <= hay.len()
    &&& hay.subrange(at, at + needle.len()) == needle
}

/// The least index `i >= from` at which `needle` stands in `hay`, if there is
/// one.
pub open spec fn first_occurrence(hay: Seq<u8>, needle: Seq<u8>, from: int) -> Option<int>
    decreases hay.len() - from + 1,
{
    if from < 0 || from + needle.len() > hay.len() {
        None
    } else if occurs_at(hay, needle, from) {
        Some(from)
    } else {
        first_occurrence(hay, needle, from + 1)
    }
}

/// The least index `i >= from` at which `hay[i] == b`, if there is one.
pub open spec fn index_of_byte(hay: Seq<u8>, b: u8, from: int) -> Option<int>
    decreases hay.len() - from,
{
    if from < 0 || from >= hay.len() {
        None
    } else if hay[from] == b {
        Some(from)
    } else {
        index_of_byte(hay, b, from + 1)
    }
}

/// The greatest index `i < below` at which `hay[i] == b`, if there is one.
pub open spec fn last_index_of_byte(hay: Seq<u8>, b: u8, below: int) -> Option<int>
    decreases below,
{
    if below <= 0 || below > hay.len() {
        None
    } else if hay[below - 1] == b {
        Some(below - 1)
    } else {
        last_index_of_byte(hay, b, below - 1)
    }
}

/// `index_of_byte` gives the least index at or after `from` that holds `b`,
/// and `None` exactly when no index there holds it.
pub proof fn lemma_index_of_byte(hay: Seq<u8>, b: u8, from: int)
    requires
        0 <= from,
    ensures
        match index_of_byte(hay, b, from) {
            Some(i) => {
                &&& from <= i < hay.len()
                &&& hay[i] == b
                &&& forall|j: int| from <= j < i ==> hay[j] != b
            },
            None => forall|j: int| from <= j < hay.len() ==> hay[j] != b,
        },
    decreases hay.len() - from,
{
    if from < hay.len() && hay[from] != b {
        lemma_index_of_byte(hay, b, from + 1);
    }
}

/// `last_index_of_byte` gives the greatest index below `below` that holds `b`,
/// and `None` exactly when no index there holds it.
pub proof fn lemma_last_index_of_byte(hay: Seq<u8>, b: u8, below: int)
    requires
        below <= hay.len(),
    ensures
        match last_index_of_byte(hay, b, below) {
            Some(i) => {
                &&& 0 <= i < below
                &&& hay[i] == b
                &&& forall|j: int| i < j < below ==> hay[j] != b
            },
            None => forall|j: int| 0 <= j < below ==> hay[j] != b,
        },
    decreases below,
{
    if below > 0 && hay[below - 1] != b {
        lemma_last_index_of_byte(hay, b, below - 1);
    }
}

/// `first_occurrence` returns the least match at or after `from`, and `None`
/// exactly when there is no match there.
pub proof fn lemma_first_occurrence(hay: Seq<u8>, needle: Seq<u8>, from: int)
    requires
        0 <= from,
    ensures
        match first_occurrence(hay, needle, from) {
            Some(i) => {
                &&& from <= i
                &&& occurs_at(hay, needle, i)
                &&& forall|j: int| from <= j < i ==> !occurs_at(hay, needle, j)
            },
            None => forall|j: int| from <= j ==> !occurs_at(hay, needle, j),
        },
    decreases hay.len() - from + 1,
{
    if from + needle.len() > hay.len() {
    } else if occurs_at(hay, needle, from) {
    } else {
        lemma_first_occurrence(hay, needle, from + 1);
    }
}

/// Whether `b` is ASCII whitespace.
pub fn is_whitespace_byte(b: u8) -> (white: bool)
    ensures
        white == is_ascii_whitespace(b),
{
    b == 32 || b == 9 || b == 10 || b == 12 || b == 13
}

/// Whether two slices hold the same bytes.
pub fn bytes_eq(a: &[u8], b: &[u8]) -> (same: bool)
    ensures
        same == (a@ == b@),
{
    if a.len() != b.len() {
        return false;
    }
    let mut i: usize = 0;
    while i < a.len()
        invariant
            a.len() == b.len(),
            i <= a.len(),
            a@.subrange(0, i as int) == b@.subrange(0, i as int),
        decreases a.len() - i,
    {
        if a[i] != b[i] {
            return false;
        }
        i += 1;
        assert(a@.subrange(0, i as int) == a@.subrange(0, i - 1).push(a@[i - 1]));
        assert(b@.subrange(0, i as int) == b@.subrange(0, i - 1).push(b@[i - 1]));
    }
    assert(a@.subrange(0, i as int) == a@);
    assert(b@.subrange(0, i as int) == b@);
    true
}

/// The first index at which `a` and `b` differ or one of them ends.
pub fn mismatch(a: &[u8], b: &[u8]) -> (at: usize)
    ensures
        at == crate::order::first_difference(a@, b@, 0),
        at <= a@.len(),
        at <= b@.len(),
{
    let mut i: usize = 0;
    while i < a.len() && i < b.len() && a[i] == b[i]
        invariant
            i <= a.len(),
            i <= b.len(),
            crate::order::first_difference(a@, b@, 0) == crate::order::first_difference(
                a@,
                b@,
                i as int,
            ),
        decreases a.len() - i,
    {
        i += 1;
    }
    i
}

/// Whether `needle` stands in `hay` at index `at`.
pub fn stands_at(hay: &[u8], needle: &[u8], at: usize) -> (found: bool)
    ensures
        found == occurs_at(hay@, needle@, at as int),
{
    if at > hay.len() || needle.len() > hay.len() - at {
        return false;
    }
    let mut k: usize = 0;
    while k < needle.len()
        invariant
            at + needle.len() <= hay.len(),
            k <= needle.len(),
            hay@.subrange(at as int, at + k) == needle@.subrange(0, k as int),
        decreases needle.len() - k,
    {
        if hay[at + k] != needle[k] {
            assert(hay@.subrange(at as int, at + needle.len())[k as int] != needle@[k as int]);
            return false;
        }
        k += 1;
        assert(hay@.subrange(at as int, at + k) == hay@.subrange(at as int, at + k - 1).push(
            hay@[at + k - 1],
        ));
        assert(needle@.subrange(0, k as int) == needle@.subrange(0, k - 1).push(needle@[k - 1]));
    }
    assert(needle@.subrange(0, k as int) == needle@);
    true
}

/// The first index at or after `from` that holds `b`.
pub fn find_byte(hay: &[u8], b: u8, from: usize) -> (found: Option<usize>)
    ensures
        match found {
            Some(i) => index_of_byte(hay@, b, from as int) == Some(i as int),
            None => index_of_byte(hay@, b, from as int).is_none(),
        },
{
    let mut i: usize = from;
    while i < hay.len()
        invariant
            from <= i,
            index_of_byte(hay@, b, from as int) == index_of_byte(hay@, b, i as int),
        decreases hay.len() - i,
    {
        if hay[i] == b {
            return Some(i);
        }
        i += 1;
    }
    None
}

/// The last index below `below` that holds `b`.
pub fn rfind_byte(hay: &[u8], b: u8, below: usize) -> (found: Option<usize>)
    requires
        below <= hay.len(),
    ensures
        match found {
            Some(i) => last_index_of_byte(hay@, b, below as int) == Some(i as int),
            None => last_index_of_byte(hay@, b, below as int).is_none(),
        },
{
    let mut i: usize = below;
    while i > 0
        invariant
            i <= below <= hay.len(),
            last_index_of_byte(hay@, b, below as int) == last_index_of_byte(hay@, b, i as int),
        decreases i,
    {
        if hay[i - 1] == b {
            return Some(i - 1);
        }
        i -= 1;
    }
    None
}

/// The first index at or after `from` at which `needle` stands in `hay`.
pub fn find_from(hay: &[u8], needle: &[u8], from: usize) -> (found: Option<usize>)
    ensures
        match found {
            Some(i) => first_occurrence(hay@, needle@, from as int) == Some(i as int),
            None => first_occurrence(hay@, needle@, from as int).is_none(),
        },
{
    if needle.len() > hay.len() || from > hay.len() - needle.len() {
        return None;
    }
    let last: usize = hay.len() - needle.len();
    let mut i: usize = from;
    loop
        invariant
            last == hay.len() - needle.len(),
            from <= i <= last,
            first_occurrence(hay@, needle@, from as int) == first_occurrence(
                hay@,
                needle@,
                i as int,
            ),
        decreases last - i,
    {
        if stands_at(hay, needle, i) {
            return Some(i);
        }
        if i == last {
            assert(first_occurrence(hay@, needle@, i + 1).is_none());
            return None;
        }
        i += 1;
    }
}

} // verus!
