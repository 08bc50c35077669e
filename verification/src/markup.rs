//! The markup grammar: what stands at a position of a text.
//!
//! A text is read left to right as a run of segments. `<<` and `>>` stand for
//! one angle bracket; `<name>` and `</name>` are tags; `:name:` and a word
//! `$name` are lexicon tokens; `==...==` is a highlighted span. Everything else
//! is copied as it stands, except a single `>`, which is dropped.
use vstd::prelude::*;
use vstd::slice::slice_subrange;
use crate::bytes::{
    find_byte, index_of_byte, is_ascii_whitespace, is_whitespace_byte, lemma_index_of_byte,
    COLON, DIGIT_ONE, DIGIT_SIX, DOLLAR, EQUALS_SIGN, GREATER_THAN, LESS_THAN, LOWER_H, SLASH,
};
use crate::effect::StyleEffect;
use crate::lexicon::LexiconToken;

verus! {

/// What the scan finds at a position, and how many bytes of the text it takes
/// up (`width`).
#[derive(Clone, Copy, Debug, PartialEq, Eq, Structural)]
pub enum Segment {
    /// The first `len` bytes at the position go to the output unchanged.
    Copy { len: usize, width: usize },
    /// `<name>`, where `name` is an effect.
    Open { effect: StyleEffect, width: usize },
    /// `</name>`, where `name` is an effect.
    Close { effect: StyleEffect, width: usize },
    /// `<h1>` to `<h6>`.
    HeaderOpen { width: usize },
    /// `</h1>` to `</h6>`.
    HeaderClose { width: usize },
    /// `:name:` or the word `$name`, where `name` is a lexicon token.
    Token { token: LexiconToken, width: usize },
    /// `==...==`; the span lies between the two delimiters.
    Highlight { width: usize },
}

impl Segment {
    /// The number of bytes that the segment takes up in the text.
    pub open spec fn spec_width(&self) -> usize {
        match *self {
            Segment::Copy { width, .. } => width,
            Segment::Open { width, .. } => width,
            Segment::Close { width, .. } => width,
            Segment::HeaderOpen { width } => width,
            Segment::HeaderClose { width } => width,
            Segment::Token { width, .. } => width,
            Segment::Highlight { width } => width,
        }
    }

    /// The number of bytes that the segment takes up in the text.
    #[verifier::when_used_as_spec(spec_width)]
    pub fn width(&self) -> (width: usize)
        ensures
            width == self.spec_width(),
    {
        match self {
            Segment::Copy { width, .. } => *width,
            Segment::Open { width, .. } => *width,
            Segment::Close { width, .. } => *width,
            Segment::HeaderOpen { width } => *width,
            Segment::HeaderClose { width } => *width,
            Segment::Token { width, .. } => *width,
            Segment::Highlight { width } => *width,
        }
    }
}

/// `name` is one of `h1` to `h6`.
pub open spec fn is_header_name(name: Seq<u8>) -> bool {
    name.len() == 2 && name[0] == LOWER_H && DIGIT_ONE <= name[1] <= DIGIT_SIX
}

/// A byte that ends a word: ASCII whitespace, or the `<` of a tag.
pub open spec fn ends_word(b: u8) -> bool {
    is_ascii_whitespace(b) || b == LESS_THAN
}

/// Whether a word can begin at `at`: at the start of the text, after ASCII
/// whitespace, or after the `>` of a tag.
pub open spec fn begins_word(text: Seq<u8>, at: int) -> bool {
    at == 0 || (0 < at <= text.len() && (is_ascii_whitespace(text[at - 1]) || text[at - 1]
        == GREATER_THAN))
}

/// The end of the word that runs from `from`: the least index at or after
/// `from` that holds a byte that ends a word, or the length of the text.
pub open spec fn word_end(text: Seq<u8>, from: int) -> int
    decreases text.len() - from,
{
    if from < 0 || from >= text.len() || ends_word(text[from]) {
        from
    } else {
        word_end(text, from + 1)
    }
}

/// Where the span that opens before `from` closes: the least index `k >= from`
/// that holds `==`, provided no `<` comes before it.
pub open spec fn highlight_end(text: Seq<u8>, from: int) -> Option<int>
    decreases text.len() - from,
{
    if from < 0 || from + 1 >= text.len() || text[from] == LESS_THAN {
        None
    } else if text[from] == EQUALS_SIGN && text[from + 1] == EQUALS_SIGN {
        Some(from)
    } else {
        highlight_end(text, from + 1)
    }
}

/// The tag that runs from the `<` at `at` to the `>` at `end`.
pub open spec fn tag_segment(text: Seq<u8>, at: int, end: int) -> Segment {
    let closing = at + 1 < end && text[at + 1] == SLASH;
    let name = if closing {
        text.subrange(at + 2, end)
    } else {
        text.subrange(at + 1, end)
    };
    let width = (end + 1 - at) as usize;
    match StyleEffect::from_name_spec(name) {
        Some(effect) => if closing {
            Segment::Close { effect, width }
        } else {
            Segment::Open { effect, width }
        },
        None => if is_header_name(name) {
            if closing {
                Segment::HeaderClose { width }
            } else {
                Segment::HeaderOpen { width }
            }
        } else {
            Segment::Copy { len: width, width }
        },
    }
}

/// One byte that is copied as it stands.
pub open spec fn literal() -> Segment {
    Segment::Copy { len: 1, width: 1 }
}

/// What stands at the `<` at `at`.
pub open spec fn segment_at_less_than(text: Seq<u8>, at: int) -> Segment {
    if at + 1 < text.len() && text[at + 1] == LESS_THAN {
        Segment::Copy { len: 1, width: 2 }
    } else {
        match index_of_byte(text, GREATER_THAN, at + 1) {
            Some(end) => tag_segment(text, at, end),
            None => literal(),
        }
    }
}

/// What stands at the `:` at `at`.
pub open spec fn segment_at_colon(text: Seq<u8>, at: int) -> Segment {
    match index_of_byte(text, COLON, at + 1) {
        Some(end) => match LexiconToken::from_name_spec(text.subrange(at + 1, end)) {
            Some(token) => Segment::Token { token, width: (end + 1 - at) as usize },
            None => literal(),
        },
        None => literal(),
    }
}

/// What stands at the `$` at `at`.
pub open spec fn segment_at_dollar(text: Seq<u8>, at: int) -> Segment {
    let end = word_end(text, at + 1);
    if begins_word(text, at) {
        match LexiconToken::from_name_spec(text.subrange(at + 1, end)) {
            Some(token) => Segment::Token { token, width: (end - at) as usize },
            None => literal(),
        }
    } else {
        literal()
    }
}

/// What stands at the `==` at `at`.
pub open spec fn segment_at_equals(text: Seq<u8>, at: int) -> Segment {
    match highlight_end(text, at + 2) {
        Some(end) => Segment::Highlight { width: (end + 2 - at) as usize },
        None => Segment::Copy { len: 2, width: 2 },
    }
}

/// The segment that begins at index `at` of `text`. Tokens are recognised only
/// with `tokens`, highlighted spans only with `highlights`.
#[verifier::opaque]
pub open spec fn segment_at(text: Seq<u8>, at: int, tokens: bool, highlights: bool) -> Segment {
    let b = text[at];
    if b == LESS_THAN {
        segment_at_less_than(text, at)
    } else if b == GREATER_THAN {
        if at + 1 < text.len() && text[at + 1] == GREATER_THAN {
            Segment::Copy { len: 1, width: 2 }
        } else {
            Segment::Copy { len: 0, width: 1 }
        }
    } else if b == COLON && tokens {
        segment_at_colon(text, at)
    } else if b == DOLLAR && tokens {
        segment_at_dollar(text, at)
    } else if b == EQUALS_SIGN && highlights && at + 1 < text.len() && text[at + 1]
        == EQUALS_SIGN {
        segment_at_equals(text, at)
    } else {
        literal()
    }
}

/// The word that runs from `from` ends at or after `from`, within the text,
/// and holds no byte that ends a word.
pub proof fn lemma_word_end(text: Seq<u8>, from: int)
    requires
        0 <= from <= text.len(),
    ensures
        from <= word_end(text, from) <= text.len(),
        forall|j: int| from <= j < word_end(text, from) ==> !ends_word(text[j]),
        word_end(text, from) < text.len() ==> ends_word(text[word_end(text, from)]),
    decreases text.len() - from,
{
    if from < text.len() && !ends_word(text[from]) {
        lemma_word_end(text, from + 1);
    }
}

/// A span closes at a `==` that lies within the text, and neither a `<` nor
/// another `==` comes before it.
pub proof fn lemma_highlight_end(text: Seq<u8>, from: int)
    requires
        0 <= from,
    ensures
        match highlight_end(text, from) {
            Some(end) => {
                &&& from <= end
                &&& end + 1 < text.len()
                &&& text[end] == EQUALS_SIGN
                &&& text[end + 1] == EQUALS_SIGN
                &&& forall|j: int| from <= j < end ==> text[j] != LESS_THAN
                &&& forall|j: int|
                    from <= j < end ==> !(text[j] == EQUALS_SIGN && #[trigger] text[j + 1]
                        == EQUALS_SIGN)
            },
            None => true,
        },
    decreases text.len() - from,
{
    if from + 1 < text.len() && text[from] != LESS_THAN && !(text[from] == EQUALS_SIGN
        && text[from + 1] == EQUALS_SIGN) {
        lemma_highlight_end(text, from + 1);
    }
}

/// A segment takes up at least one byte and ends within the text; what it
/// copies lies within it, and a highlighted span holds both delimiters.
pub proof fn lemma_segment_bounds(text: Seq<u8>, at: int, tokens: bool, highlights: bool)
    requires
        0 <= at < text.len(),
        text.len() <= usize::MAX,
    ensures
        1 <= segment_at(text, at, tokens, highlights).spec_width(),
        at + segment_at(text, at, tokens, highlights).spec_width() <= text.len(),
        match segment_at(text, at, tokens, highlights) {
            Segment::Copy { len, width } => len <= width,
            Segment::Highlight { width } => width >= 4,
            _ => true,
        },
{
    reveal(segment_at);
    lemma_index_of_byte(text, GREATER_THAN, at + 1);
    lemma_index_of_byte(text, COLON, at + 1);
    lemma_word_end(text, at + 1);
    lemma_highlight_end(text, at + 2);
}

/// What earlier searches of a text have found out, so that no stretch of it
/// is searched in vain a second time.
#[derive(Clone, Copy, Debug)]
pub struct ScanMemo {
    /// No `>` stands at or after this index.
    no_close_from: usize,
}

impl ScanMemo {
    /// What the memo says is true of `text`.
    pub closed spec fn holds_for(&self, text: Seq<u8>) -> bool {
        index_of_byte(text, GREATER_THAN, self.no_close_from as int).is_none()
    }

    /// The memo that knows nothing yet.
    pub fn new(text: &[u8]) -> (memo: Self)
        ensures
            memo.holds_for(text@),
    {
        ScanMemo { no_close_from: text.len() }
    }
}

/// Where no byte `b` stands from `from` on, none stands from a later index
/// on.
pub proof fn lemma_index_of_byte_later(text: Seq<u8>, b: u8, from: int, later: int)
    requires
        0 <= from <= later,
        index_of_byte(text, b, from).is_none(),
    ensures
        index_of_byte(text, b, later).is_none(),
{
    lemma_index_of_byte(text, b, from);
    lemma_index_of_byte(text, b, later);
}

/// Whether `name` is one of `h1` to `h6`.
pub fn is_header(name: &[u8]) -> (header: bool)
    ensures
        header == is_header_name(name@),
{
    name.len() == 2 && name[0] == LOWER_H && DIGIT_ONE <= name[1] && name[1] <= DIGIT_SIX
}

/// The end of the word that runs from `from`.
fn find_word_end(text: &[u8], from: usize) -> (end: usize)
    requires
        from <= text.len(),
    ensures
        end == word_end(text@, from as int),
        from <= end <= text.len(),
{
    let mut i: usize = from;
    while i < text.len() && !(is_whitespace_byte(text[i]) || text[i] == LESS_THAN)
        invariant
            from <= i <= text.len(),
            word_end(text@, from as int) == word_end(text@, i as int),
        decreases text.len() - i,
    {
        i += 1;
    }
    i
}

/// Where the span that opens before `from` closes.
fn find_highlight_end(text: &[u8], from: usize) -> (end: Option<usize>)
    ensures
        match end {
            Some(k) => highlight_end(text@, from as int) == Some(k as int),
            None => highlight_end(text@, from as int).is_none(),
        },
{
    let mut i: usize = from;
    while i < text.len() && text.len() - i > 1
        invariant
            from <= i,
            highlight_end(text@, from as int) == highlight_end(text@, i as int),
        decreases text.len() - i,
    {
        if text[i] == LESS_THAN {
            return None;
        }
        if text[i] == EQUALS_SIGN && text[i + 1] == EQUALS_SIGN {
            return Some(i);
        }
        i += 1;
    }
    None
}

/// The tag that runs from the `<` at `at` to the `>` at `end`.
fn scan_tag(text: &[u8], at: usize, end: usize) -> (segment: Segment)
    requires
        at < end < text.len(),
    ensures
        segment == tag_segment(text@, at as int, end as int),
{
    let closing = at + 1 < end && text[at + 1] == SLASH;
    let name = if closing {
        slice_subrange(text, at + 2, end)
    } else {
        slice_subrange(text, at + 1, end)
    };
    let width = end + 1 - at;
    match StyleEffect::from_name(name) {
        Some(effect) => if closing {
            Segment::Close { effect, width }
        } else {
            Segment::Open { effect, width }
        },
        None => if is_header(name) {
            if closing {
                Segment::HeaderClose { width }
            } else {
                Segment::HeaderOpen { width }
            }
        } else {
            Segment::Copy { len: width, width }
        },
    }
}

/// Reads what stands at the `<` at `at`.
fn scan_less_than(text: &[u8], at: usize, memo: &mut ScanMemo) -> (segment: Segment)
    requires
        at < text.len(),
        old(memo).holds_for(text@),
    ensures
        segment == segment_at_less_than(text@, at as int),
        final(memo).holds_for(text@),
{
    proof {
        lemma_index_of_byte(text@, GREATER_THAN, at + 1);
    }
    if at + 1 < text.len() && text[at + 1] == LESS_THAN {
        Segment::Copy { len: 1, width: 2 }
    } else if at + 1 >= memo.no_close_from {
        proof {
            lemma_index_of_byte_later(
                text@,
                GREATER_THAN,
                memo.no_close_from as int,
                at + 1,
            );
        }
        Segment::Copy { len: 1, width: 1 }
    } else {
        match find_byte(text, GREATER_THAN, at + 1) {
            Some(end) => scan_tag(text, at, end),
            None => {
                memo.no_close_from = at + 1;
                Segment::Copy { len: 1, width: 1 }
            },
        }
    }
}

/// Reads what stands at the `:` at `at`.
fn scan_colon(text: &[u8], at: usize) -> (segment: Segment)
    requires
        at < text.len(),
    ensures
        segment == segment_at_colon(text@, at as int),
{
    proof {
        lemma_index_of_byte(text@, COLON, at + 1);
    }
    match find_byte(text, COLON, at + 1) {
        Some(end) => match LexiconToken::from_name(slice_subrange(text, at + 1, end)) {
            Some(token) => Segment::Token { token, width: end + 1 - at },
            None => Segment::Copy { len: 1, width: 1 },
        },
        None => Segment::Copy { len: 1, width: 1 },
    }
}

/// Reads what stands at the `$` at `at`.
fn scan_dollar(text: &[u8], at: usize) -> (segment: Segment)
    requires
        at < text.len(),
    ensures
        segment == segment_at_dollar(text@, at as int),
{
    let begins = at == 0 || is_whitespace_byte(text[at - 1]) || text[at - 1] == GREATER_THAN;
    if !begins {
        return Segment::Copy { len: 1, width: 1 };
    }
    let end = find_word_end(text, at + 1);
    match LexiconToken::from_name(slice_subrange(text, at + 1, end)) {
        Some(token) => Segment::Token { token, width: end - at },
        None => Segment::Copy { len: 1, width: 1 },
    }
}

/// Reads what stands at the `==` at `at`.
fn scan_equals(text: &[u8], at: usize) -> (segment: Segment)
    requires
        at + 1 < text.len(),
    ensures
        segment == segment_at_equals(text@, at as int),
{
    proof {
        lemma_highlight_end(text@, at + 2);
    }
    match find_highlight_end(text, at + 2) {
        Some(end) => Segment::Highlight { width: end + 2 - at },
        None => Segment::Copy { len: 2, width: 2 },
    }
}

/// Reads the segment that begins at index `at` of `text`. The memo keeps
/// what the searches find out, so that a text is read in time proportional
/// to its length.
pub fn scan(text: &[u8], at: usize, tokens: bool, highlights: bool, memo: &mut ScanMemo) -> (segment:
    Segment)
    requires
        at < text.len(),
        old(memo).holds_for(text@),
    ensures
        segment == segment_at(text@, at as int, tokens, highlights),
        1 <= segment.spec_width(),
        at + segment.spec_width() <= text.len(),
        final(memo).holds_for(text@),
{
    proof {
        reveal(segment_at);
        lemma_segment_bounds(text@, at as int, tokens, highlights);
    }
    let b = text[at];
    let followed = at + 1 < text.len();
    if b == LESS_THAN {
        scan_less_than(text, at, memo)
    } else if b == GREATER_THAN {
        if followed && text[at + 1] == GREATER_THAN {
            Segment::Copy { len: 1, width: 2 }
        } else {
            Segment::Copy { len: 0, width: 1 }
        }
    } else if b == COLON && tokens {
        scan_colon(text, at)
    } else if b == DOLLAR && tokens {
        scan_dollar(text, at)
    } else if b == EQUALS_SIGN && highlights && followed && text[at + 1] == EQUALS_SIGN {
        scan_equals(text, at)
    } else {
        Segment::Copy { len: 1, width: 1 }
    }
}

} // verus!
