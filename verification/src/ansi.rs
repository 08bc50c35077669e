//! What of a rendered text is visible: the bytes that remain when the escape
//! sequences are taken out.
use vstd::prelude::*;
use crate::bytes::{ESC, LEFT_SQUARE, LOWER_M};
use crate::effect::{decimal, escape_bytes, StyleEffect};
use crate::stack::escape_sequence;

verus! {

/// `b` is one of the digits `0` to `9`.
pub open spec fn is_digit(b: u8) -> bool {
    48 <= b <= 57
}

/// The end of the run of digits that begins at `from`.
pub open spec fn digits_end(s: Seq<u8>, from: int) -> int
    decreases s.len() - from,
{
    if from < 0 || from >= s.len() || !is_digit(s[from]) {
        from
    } else {
        digits_end(s, from + 1)
    }
}

/// The length of the escape sequence `ESC [ digits m` that `s` begins with,
/// or 0 where it begins with none.
pub open spec fn escape_len(s: Seq<u8>) -> nat {
    if s.len() >= 2 && s[0] == ESC && s[1] == LEFT_SQUARE {
        let end = digits_end(s, 2);
        if end > 2 && end < s.len() && s[end] == LOWER_M {
            (end + 1) as nat
        } else {
            0
        }
    } else {
        0
    }
}

/// `s` without its escape sequences.
pub open spec fn visible(s: Seq<u8>) -> Seq<u8>
    decreases s.len(),
{
    if s.len() == 0 {
        Seq::empty()
    } else if escape_len(s) > 0 {
        visible(s.skip(escape_len(s) as int))
    } else {
        seq![s[0]] + visible(s.skip(1))
    }
}

/// `s` holds no escape byte.
pub open spec fn is_plain(s: Seq<u8>) -> bool {
    forall|i: int| 0 <= i < s.len() ==> s[i] != ESC
}

/// Every escape byte of `s` begins a complete escape sequence.
pub open spec fn is_styled(s: Seq<u8>) -> bool
    decreases s.len(),
{
    if s.len() == 0 {
        true
    } else if escape_len(s) > 0 {
        is_styled(s.skip(escape_len(s) as int))
    } else {
        s[0] != ESC && is_styled(s.skip(1))
    }
}

/// The run of digits that begins at `from` ends at or after `from`, within
/// `s`.
pub proof fn lemma_digits_end(s: Seq<u8>, from: int)
    requires
        0 <= from <= s.len(),
    ensures
        from <= digits_end(s, from) <= s.len(),
        forall|j: int| from <= j < digits_end(s, from) ==> is_digit(s[j]),
        digits_end(s, from) < s.len() ==> !is_digit(s[digits_end(s, from)]),
    decreases s.len() - from,
{
    if from < s.len() && is_digit(s[from]) {
        lemma_digits_end(s, from + 1);
    }
}

/// A run of digits that ends within `a` is the same run in `a + b`.
pub proof fn lemma_digits_end_prefix(a: Seq<u8>, b: Seq<u8>, from: int)
    requires
        0 <= from <= a.len(),
        digits_end(a, from) < a.len(),
    ensures
        digits_end(a + b, from) == digits_end(a, from),
    decreases a.len() - from,
{
    if from < a.len() && is_digit(a[from]) {
        lemma_digits_end_prefix(a, b, from + 1);
    }
}

/// An escape sequence that `a` begins with is the one that `a + b` begins
/// with.
pub proof fn lemma_escape_len_prefix(a: Seq<u8>, b: Seq<u8>)
    requires
        escape_len(a) > 0,
    ensures
        escape_len(a + b) == escape_len(a),
        escape_len(a) <= a.len(),
{
    lemma_digits_end(a, 2);
    lemma_digits_end_prefix(a, b, 2);
}

/// Of a text whose first part is styled, the visible bytes are those of the
/// first part followed by those of the second; and both parts styled make a
/// styled whole.
pub proof fn lemma_visible_concat(a: Seq<u8>, b: Seq<u8>)
    requires
        is_styled(a),
    ensures
        visible(a + b) == visible(a) + visible(b),
        is_styled(b) ==> is_styled(a + b),
    decreases a.len(),
{
    if a.len() == 0 {
        assert(a + b =~= b);
        assert(visible(a) + visible(b) =~= visible(b));
    } else if escape_len(a) > 0 {
        lemma_escape_len_prefix(a, b);
        let n = escape_len(a) as int;
        assert((a + b).skip(n) =~= a.skip(n) + b);
        lemma_visible_concat(a.skip(n), b);
    } else {
        assert((a + b).skip(1) =~= a.skip(1) + b);
        assert(escape_len(a + b) == 0);
        lemma_visible_concat(a.skip(1), b);
        assert(visible(a + b) =~= visible(a) + visible(b));
    }
}

/// A text without escape bytes is styled, and all of it is visible.
pub proof fn lemma_visible_plain(s: Seq<u8>)
    requires
        is_plain(s),
    ensures
        is_styled(s),
        visible(s) == s,
    decreases s.len(),
{
    if s.len() > 0 {
        lemma_visible_plain(s.skip(1));
        assert(seq![s[0]] + s.skip(1) =~= s);
    }
}

/// The digits of a code are a run of one to three digits.
pub proof fn lemma_decimal_digits(code: u8)
    ensures
        1 <= decimal(code as nat).len() <= 3,
        forall|i: int| 0 <= i < decimal(code as nat).len() ==> is_digit(decimal(code as nat)[i]),
{
    let n = code as nat;
    reveal_with_fuel(decimal, 3);
    if n >= 100 {
        assert(decimal(n / 100) =~= seq![(48 + n / 100) as u8]);
        assert(decimal(n / 10) =~= decimal(n / 100).push((48 + (n / 10) % 10) as u8));
    } else if n >= 10 {
        assert(decimal(n / 10) =~= seq![(48 + n / 10) as u8]);
    }
}

/// An escape sequence is styled and nothing of it is visible.
pub proof fn lemma_visible_escape(code: u8)
    ensures
        is_styled(escape_bytes(code)),
        visible(escape_bytes(code)) == Seq::<u8>::empty(),
        escape_len(escape_bytes(code)) == escape_bytes(code).len(),
{
    let s = escape_bytes(code);
    let digits = decimal(code as nat);
    lemma_decimal_digits(code);
    assert(s.len() == digits.len() + 3);
    assert(s[0] == ESC && s[1] == LEFT_SQUARE);
    assert forall|j: int| 2 <= j < 2 + digits.len() implies is_digit(s[j]) by {
        assert(s[j] == digits[j - 2]);
    }
    let end = 2 + digits.len() as int;
    assert(s[end] == LOWER_M);
    lemma_digits_run(s, 2, end);
    assert(escape_len(s) == s.len());
    let rest = s.skip(escape_len(s) as int);
    assert(rest.len() == 0);
    assert(is_styled(rest));
    assert(visible(rest) =~= Seq::<u8>::empty());
}

/// A stretch of digits that is followed by another byte is a run of digits.
pub proof fn lemma_digits_run(s: Seq<u8>, from: int, end: int)
    requires
        0 <= from <= end < s.len(),
        forall|j: int| from <= j < end ==> is_digit(s[j]),
        !is_digit(s[end]),
    ensures
        digits_end(s, from) == end,
    decreases end - from,
{
    if from < end {
        lemma_digits_run(s, from + 1, end);
    }
}

/// The escape sequences of a stack are styled and nothing of them is visible.
pub proof fn lemma_visible_escape_sequence(effects: Seq<StyleEffect>)
    ensures
        is_styled(escape_sequence(effects)),
        visible(escape_sequence(effects)) == Seq::<u8>::empty(),
    decreases effects.len(),
{
    if effects.len() > 0 {
        let below = escape_sequence(effects.drop_last());
        let top = effects.last().escape_spec();
        lemma_visible_escape_sequence(effects.drop_last());
        lemma_visible_escape(effects.last().code_spec());
        lemma_visible_concat(below, top);
        assert(visible(below) + visible(top) =~= Seq::<u8>::empty());
    }
}

} // verus!
