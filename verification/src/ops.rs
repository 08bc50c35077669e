//! String operations on styled text: slicing, padding, trimming, searching,
//! replacing and splitting. All of them work on the raw bytes.
use vstd::prelude::*;
use vstd::slice::slice_subrange;
use vstd::string::StringSliceAdditionalSpecFns;
use vstd::utf8::encode_utf8;
use crate::bytes::{
    bytes_eq, find_byte, find_from, first_occurrence, index_of_byte, last_index_of_byte,
    lemma_first_occurrence, occurs_at, rfind_byte, stands_at, SPACE,
};
use crate::effect::StyleEffect;
use crate::text::StyledText;

verus! {

/// The smaller of `i` and `len`.
pub open spec fn at_most(i: int, len: int) -> int {
    if i < len {
        i
    } else {
        len
    }
}

/// The bytes from `start` up to `end`, or up to the end of `s` without an
/// `end`. Both bounds are cut down to the length of `s`; where they leave
/// nothing between them the result is empty.
pub open spec fn slice_spec(s: Seq<u8>, start: int, end: Option<int>) -> Seq<u8> {
    let stop = match end {
        Some(e) => at_most(e, s.len() as int),
        None => s.len() as int,
    };
    let begin = at_most(start, s.len() as int);
    if begin >= stop {
        Seq::empty()
    } else {
        s.subrange(begin, stop)
    }
}

/// The least index at or after `from` that holds no space, or the length of
/// `s`.
pub open spec fn skip_spaces(s: Seq<u8>, from: int) -> int
    decreases s.len() - from,
{
    if from < 0 || from >= s.len() || s[from] != SPACE {
        from
    } else {
        skip_spaces(s, from + 1)
    }
}

/// The least length `n <= below` such that only spaces lie between `n` and
/// `below`.
pub open spec fn drop_spaces(s: Seq<u8>, below: int) -> int
    decreases below,
{
    if below <= 0 || below > s.len() || s[below - 1] != SPACE {
        below
    } else {
        drop_spaces(s, below - 1)
    }
}

/// `s` without the spaces at its start.
pub open spec fn trim_start_spec(s: Seq<u8>) -> Seq<u8> {
    s.subrange(at_most(skip_spaces(s, 0), s.len() as int), s.len() as int)
}

/// `s` without the spaces at its end.
pub open spec fn trim_end_spec(s: Seq<u8>) -> Seq<u8> {
    s.subrange(0, drop_spaces(s, s.len() as int))
}

/// `s` without the spaces at its start and at its end.
pub open spec fn trim_spec(s: Seq<u8>) -> Seq<u8> {
    slice_spec(s, skip_spaces(s, 0), Some(drop_spaces(s, s.len() as int)))
}

/// `s` followed by the whole of `pad`, unless `s` has `target` bytes already.
pub open spec fn pad_end_spec(s: Seq<u8>, target: nat, pad: Seq<u8>) -> Seq<u8> {
    if s.len() >= target {
        s
    } else {
        s + pad
    }
}

/// The whole of `pad` followed by `s`, unless `s` has `target` bytes already.
pub open spec fn pad_start_spec(s: Seq<u8>, target: nat, pad: Seq<u8>) -> Seq<u8> {
    if s.len() >= target {
        s
    } else {
        pad + s
    }
}

/// `count` copies of `s`, one after the other.
pub open spec fn repeat_spec(s: Seq<u8>, count: nat) -> Seq<u8>
    decreases count,
{
    if count == 0 {
        Seq::empty()
    } else {
        repeat_spec(s, (count - 1) as nat) + s
    }
}

/// `s` with its first occurrence of `from` replaced by `to`; `s` itself where
/// `from` is empty or does not occur.
pub open spec fn replace_spec(s: Seq<u8>, from: Seq<u8>, to: Seq<u8>) -> Seq<u8> {
    if from.len() == 0 {
        s
    } else {
        match first_occurrence(s, from, 0) {
            Some(i) => s.take(i) + to + s.skip(i + from.len()),
            None => s,
        }
    }
}

/// `s` after replacing the first occurrence of `from` by `to` again and
/// again, until a replacement changes nothing or `passes` replacements are
/// made.
pub open spec fn replace_all_spec(s: Seq<u8>, from: Seq<u8>, to: Seq<u8>, passes: nat) -> Seq<u8>
    decreases passes,
{
    if passes == 0 || replace_spec(s, from, to) == s {
        s
    } else {
        replace_all_spec(replace_spec(s, from, to), from, to, (passes - 1) as nat)
    }
}

/// The pieces of `s` from index `from` on that lie between the occurrences of
/// `separator`, found left to right without overlap.
pub open spec fn split_from(s: Seq<u8>, separator: Seq<u8>, from: int) -> Seq<Seq<u8>>
    decreases s.len() - from,
    when separator.len() > 0 && 0 <= from
{
    match first_occurrence(s, separator, from) {
        Some(i) => {
            proof {
                lemma_first_occurrence(s, separator, from);
            }
            seq![s.subrange(from, i)] + split_from(s, separator, i + separator.len())
        },
        None => seq![s.subrange(from, s.len() as int)],
    }
}

/// The pieces of `s` that lie between the occurrences of `separator`.
pub open spec fn split_spec(s: Seq<u8>, separator: Seq<u8>) -> Seq<Seq<u8>> {
    split_from(s, separator, 0)
}

/// `b` in lower case, where it is an ASCII capital.
pub open spec fn ascii_lower(b: u8) -> u8 {
    if 65 <= b <= 90 {
        (b + 32) as u8
    } else {
        b
    }
}

/// `b` in upper case, where it is an ASCII small letter.
pub open spec fn ascii_upper(b: u8) -> u8 {
    if 97 <= b <= 122 {
        (b - 32) as u8
    } else {
        b
    }
}

/// The lowest eight bits of a character's code point.
pub open spec fn low_byte(c: char) -> u8 {
    (c as u32 % 256) as u8
}

/// `s` begins with `prefix`.
pub open spec fn has_prefix(s: Seq<u8>, prefix: Seq<u8>) -> bool {
    occurs_at(s, prefix, 0)
}

/// `s` ends with `suffix`.
pub open spec fn has_suffix(s: Seq<u8>, suffix: Seq<u8>) -> bool {
    occurs_at(s, suffix, s.len() - suffix.len())
}

/// A character with the Unicode property `White_Space`.
pub open spec fn is_white_space(c: char) -> bool {
    let code = c as u32;
    ||| 0x09 <= code <= 0x0D
    ||| code == 0x20
    ||| code == 0x85
    ||| code == 0xA0
    ||| code == 0x1680
    ||| 0x2000 <= code <= 0x200A
    ||| code == 0x2028
    ||| code == 0x2029
    ||| code == 0x202F
    ||| code == 0x205F
    ||| code == 0x3000
}

/// The least index at or after `from` that holds no white space, or the
/// length of `s`.
pub open spec fn skip_white_space(s: Seq<char>, from: int) -> int
    decreases s.len() - from,
{
    if from < 0 || from >= s.len() || !is_white_space(s[from]) {
        from
    } else {
        skip_white_space(s, from + 1)
    }
}

/// The least length `n <= below` such that only white space lies between `n`
/// and `below`.
pub open spec fn drop_white_space(s: Seq<char>, below: int) -> int
    decreases below,
{
    if below <= 0 || below > s.len() || !is_white_space(s[below - 1]) {
        below
    } else {
        drop_white_space(s, below - 1)
    }
}

/// `s` without the white space at its start and at its end.
pub open spec fn trim_white_space(s: Seq<char>) -> Seq<char> {
    let begin = skip_white_space(s, 0);
    let stop = drop_white_space(s, s.len() as int);
    if begin >= stop {
        Seq::empty()
    } else {
        s.subrange(begin, stop)
    }
}

/// Whether `s` includes `needle`. A needle that is blank or longer than `s`
/// is included only where it is the whole of `s`.
pub open spec fn includes_spec(s: Seq<u8>, needle: Seq<char>) -> bool {
    if trim_white_space(needle).len() == 0 || encode_utf8(needle).len() > s.len() {
        encode_utf8(needle) == s
    } else {
        first_occurrence(s, encode_utf8(needle), 0).is_some()
    }
}

/// `str::trim`: the string without the leading and trailing characters that
/// have the Unicode property `White_Space`.
#[verifier::external_body]
pub(crate) fn str_trim(text: &str) -> (trimmed: &str)
    ensures
        trimmed@ == trim_white_space(text@),
{
    text.trim()
}

/// `str::trim_end`: the string without the trailing characters that have the
/// Unicode property `White_Space`.
#[verifier::external_body]
pub(crate) fn str_trim_end(text: &str) -> (trimmed: &str)
    ensures
        trimmed@ == text@.subrange(0, drop_white_space(text@, text@.len() as int)),
{
    text.trim_end()
}

/// The bytes of `s` from `start` up to `end`, both cut down to its length.
fn clamped(s: &[u8], start: usize, end: usize) -> (piece: Vec<u8>)
    ensures
        piece@ == slice_spec(s@, start as int, Some(end as int)),
{
    let stop = if end < s.len() {
        end
    } else {
        s.len()
    };
    let begin = if start < s.len() {
        start
    } else {
        s.len()
    };
    let mut piece: Vec<u8> = Vec::new();
    if begin < stop {
        piece.extend_from_slice(slice_subrange(s, begin, stop));
        assert(piece@ =~= s@.subrange(begin as int, stop as int));
    }
    piece
}

/// The least index at or after `from` that holds no space.
fn find_non_space(s: &[u8], from: usize) -> (at: usize)
    requires
        from <= s.len(),
    ensures
        at == skip_spaces(s@, from as int),
        from <= at <= s.len(),
{
    let mut i: usize = from;
    while i < s.len() && s[i] == SPACE
        invariant
            from <= i <= s.len(),
            skip_spaces(s@, from as int) == skip_spaces(s@, i as int),
        decreases s.len() - i,
    {
        i += 1;
    }
    i
}

/// The least length below which only spaces lie up to `below`.
fn find_space_run(s: &[u8], below: usize) -> (at: usize)
    requires
        below <= s.len(),
    ensures
        at == drop_spaces(s@, below as int),
        at <= below,
{
    let mut i: usize = below;
    while i > 0 && s[i - 1] == SPACE
        invariant
            i <= below <= s.len(),
            drop_spaces(s@, below as int) == drop_spaces(s@, i as int),
        decreases i,
    {
        i -= 1;
    }
    i
}

/// `s` with its first occurrence of `from` replaced by `to`.
fn replace_first(s: &[u8], from: &[u8], to: &[u8]) -> (replaced: Vec<u8>)
    ensures
        replaced@ == replace_spec(s@, from@, to@),
{
    let mut replaced: Vec<u8> = Vec::new();
    if from.len() == 0 {
        replaced.extend_from_slice(s);
        assert(replaced@ =~= s@);
        return replaced;
    }
    match find_from(s, from, 0) {
        Some(i) => {
            proof {
                lemma_first_occurrence(s@, from@, 0);
                assert(occurs_at(s@, from@, i as int));
            }
            let end = s.len();
            let resume = i + from.len();
            replaced.extend_from_slice(slice_subrange(s, 0, i));
            replaced.extend_from_slice(to);
            replaced.extend_from_slice(slice_subrange(s, resume, end));
            assert(replaced@ =~= s@.take(i as int) + to@ + s@.skip(i + from.len()));
        },
        None => {
            replaced.extend_from_slice(s);
            assert(replaced@ =~= s@);
        },
    }
    replaced
}

impl StyledText {
    /// The bytes from `start` up to `end`, or up to the end of the text
    /// without an `end`. Both bounds are cut down to the length of the text,
    /// so no input fails. The result has no baseline effects.
    pub fn slice(&self, start: usize, end: Option<usize>) -> (piece: Self)
        ensures
            piece@ == slice_spec(
                self@,
                start as int,
                match end {
                    Some(e) => Some(e as int),
                    None => None,
                },
            ),
            piece.spec_baseline() == Seq::<StyleEffect>::empty(),
    {
        let stop = match end {
            Some(e) => e,
            None => self.len(),
        };
        StyledText::from(clamped(self.bytes().as_slice(), start, stop))
    }

    /// The bytes from `start` up to `end`, both cut down to the length of the
    /// text.
    pub fn substring(&self, start: usize, end: usize) -> (piece: Self)
        ensures
            piece@ == slice_spec(self@, start as int, Some(end as int)),
            piece.spec_baseline() == Seq::<StyleEffect>::empty(),
    {
        self.slice(start, Some(end))
    }

    /// The text without the spaces (0x20) at its start and at its end.
    pub fn trim(&self) -> (trimmed: Self)
        ensures
            trimmed@ == trim_spec(self@),
            trimmed.spec_baseline() == Seq::<StyleEffect>::empty(),
    {
        let bytes = self.bytes().as_slice();
        let start = find_non_space(bytes, 0);
        let end = find_space_run(bytes, bytes.len());
        self.substring(start, end)
    }

    /// The text without the spaces (0x20) at its end.
    pub fn trim_end(&self) -> (trimmed: Self)
        ensures
            trimmed@ == trim_end_spec(self@),
            trimmed.spec_baseline() == Seq::<StyleEffect>::empty(),
    {
        let bytes = self.bytes().as_slice();
        let end = find_space_run(bytes, bytes.len());
        let trimmed = self.substring(0, end);
        assert(trimmed@ =~= trim_end_spec(self@));
        trimmed
    }

    /// The text without the spaces (0x20) at its start.
    pub fn trim_start(&self) -> (trimmed: Self)
        ensures
            trimmed@ == trim_start_spec(self@),
            trimmed.spec_baseline() == Seq::<StyleEffect>::empty(),
    {
        let bytes = self.bytes().as_slice();
        let start = find_non_space(bytes, 0);
        let trimmed = self.substring(start, bytes.len());
        assert(trimmed@ =~= trim_start_spec(self@));
        trimmed
    }

    /// The text followed by the whole of `pad`, once. A text that has
    /// `target_length` bytes or more is returned as it is, baseline and all;
    /// a padded text has no baseline effects.
    pub fn pad_end(&self, target_length: usize, pad: &str) -> (padded: Self)
        ensures
            padded@ == pad_end_spec(self@, target_length as nat, pad.spec_bytes()),
            padded.spec_baseline() == (if self@.len() >= target_length {
                self.spec_baseline()
            } else {
                Seq::empty()
            }),
    {
        if self.len() >= target_length {
            return self.clone();
        }
        let mut bytes: Vec<u8> = Vec::new();
        bytes.extend_from_slice(self.bytes().as_slice());
        bytes.extend_from_slice(pad.as_bytes());
        assert(bytes@ =~= self@ + pad.spec_bytes());
        StyledText::from(bytes)
    }

    /// The whole of `pad`, once, followed by the text. A text that has
    /// `target_length` bytes or more is returned as it is, baseline and all;
    /// a padded text has no baseline effects.
    pub fn pad_start(&self, target_length: usize, pad: &str) -> (padded: Self)
        ensures
            padded@ == pad_start_spec(self@, target_length as nat, pad.spec_bytes()),
            padded.spec_baseline() == (if self@.len() >= target_length {
                self.spec_baseline()
            } else {
                Seq::empty()
            }),
    {
        if self.len() >= target_length {
            return self.clone();
        }
        let mut bytes: Vec<u8> = Vec::new();
        bytes.extend_from_slice(pad.as_bytes());
        bytes.extend_from_slice(self.bytes().as_slice());
        assert(bytes@ =~= pad.spec_bytes() + self@);
        StyledText::from(bytes)
    }

    /// `count` copies of the content, one after the other, without baseline
    /// effects.
    pub fn repeat(&self, count: usize) -> (repeated: Self)
        ensures
            repeated@ == repeat_spec(self@, count as nat),
            repeated.spec_baseline() == Seq::<StyleEffect>::empty(),
    {
        let mut bytes: Vec<u8> = Vec::new();
        let mut done: usize = 0;
        while done < count
            invariant
                done <= count,
                bytes@ == repeat_spec(self@, done as nat),
            decreases count - done,
        {
            bytes.extend_from_slice(self.bytes().as_slice());
            done += 1;
            assert(bytes@ =~= repeat_spec(self@, done as nat));
        }
        StyledText::from(bytes)
    }

    /// The content of this text followed by that of `other`, with the
    /// baseline of this text.
    pub fn concat(&self, other: &StyledText) -> (joined: Self)
        ensures
            joined@ == self@ + other@,
            joined.spec_baseline() == self.spec_baseline(),
    {
        let mut joined = self.clone();
        joined.append(other);
        joined
    }

    /// The byte at `index` as a character; `None` past the end.
    pub fn char_at(&self, index: usize) -> (c: Option<char>)
        ensures
            c == (if index < self@.len() {
                Some(self@[index as int] as char)
            } else {
                None
            }),
    {
        match self.buffer().byte_at(index) {
            Some(b) => Some(b as char),
            None => None,
        }
    }

    /// The first index that holds the low byte of `c`.
    pub fn index_of(&self, c: char) -> (index: Option<usize>)
        ensures
            match index {
                Some(i) => index_of_byte(self@, low_byte(c), 0) == Some(i as int),
                None => index_of_byte(self@, low_byte(c), 0).is_none(),
            },
    {
        find_byte(self.bytes().as_slice(), char_low_byte(c), 0)
    }

    /// The last index that holds the low byte of `c`.
    pub fn last_index_of(&self, c: char) -> (index: Option<usize>)
        ensures
            match index {
                Some(i) => last_index_of_byte(self@, low_byte(c), self@.len() as int) == Some(
                    i as int,
                ),
                None => last_index_of_byte(self@, low_byte(c), self@.len() as int).is_none(),
            },
    {
        let bytes = self.bytes().as_slice();
        rfind_byte(bytes, char_low_byte(c), bytes.len())
    }

    /// Whether some byte is the low byte of `c`.
    pub fn contains(&self, c: char) -> (found: bool)
        ensures
            found == index_of_byte(self@, low_byte(c), 0).is_some(),
    {
        self.index_of(c).is_some()
    }

    /// Whether the content begins with the bytes of `prefix`.
    pub fn starts_with(&self, prefix: &str) -> (found: bool)
        ensures
            found == has_prefix(self@, prefix.spec_bytes()),
    {
        stands_at(self.bytes().as_slice(), prefix.as_bytes(), 0)
    }

    /// Whether the content ends with the bytes of `suffix`.
    pub fn ends_with(&self, suffix: &str) -> (found: bool)
        ensures
            found == has_suffix(self@, suffix.spec_bytes()),
    {
        let bytes = self.bytes().as_slice();
        let tail = suffix.as_bytes();
        if tail.len() > bytes.len() {
            return false;
        }
        stands_at(bytes, tail, bytes.len() - tail.len())
    }

    /// The first index at which the bytes of `needle` stand.
    pub fn position(&self, needle: &str) -> (index: Option<usize>)
        requires
            needle.spec_bytes().len() > 0,
        ensures
            match index {
                Some(i) => first_occurrence(self@, needle.spec_bytes(), 0) == Some(i as int),
                None => first_occurrence(self@, needle.spec_bytes(), 0).is_none(),
            },
    {
        find_from(self.bytes().as_slice(), needle.as_bytes(), 0)
    }

    /// Whether the content includes the bytes of `needle`. A needle that is
    /// blank or longer than the content is included only where it is the
    /// whole content.
    pub fn includes(&self, needle: &str) -> (found: bool)
        ensures
            found == includes_spec(self@, needle@),
    {
        let bytes = self.bytes().as_slice();
        let wanted = needle.as_bytes();
        if str_trim(needle).is_empty() || wanted.len() > bytes.len() {
            return bytes_eq(wanted, bytes);
        }
        find_from(bytes, wanted, 0).is_some()
    }

    /// The text with the first occurrence of `from` replaced by `to`. With an
    /// empty `from` the text is returned as it is, baseline and all; any
    /// other result has no baseline effects.
    pub fn replace(&self, from: &str, to: &str) -> (replaced: Self)
        ensures
            replaced@ == replace_spec(self@, from.spec_bytes(), to.spec_bytes()),
            replaced.spec_baseline() == (if from.spec_bytes().len() == 0 {
                self.spec_baseline()
            } else {
                Seq::empty()
            }),
    {
        if from.as_bytes().len() == 0 {
            return self.clone();
        }
        StyledText::from(replace_first(self.bytes().as_slice(), from.as_bytes(), to.as_bytes()))
    }

    /// The text after replacing the first occurrence of `from` by `to` again
    /// and again until a replacement changes nothing. The number of
    /// replacements is capped at `usize::MAX`, so the loop ends also where
    /// `to` brings `from` back. With an empty `from` the text is returned as
    /// it is, baseline and all; any other result has no baseline effects.
    pub fn replace_all(&self, from: &str, to: &str) -> (replaced: Self)
        ensures
            replaced@ == replace_all_spec(
                self@,
                from.spec_bytes(),
                to.spec_bytes(),
                usize::MAX as nat,
            ),
            replaced.spec_baseline() == (if from.spec_bytes().len() == 0 {
                self.spec_baseline()
            } else {
                Seq::empty()
            }),
    {
        let pattern = from.as_bytes();
        let with = to.as_bytes();
        if pattern.len() == 0 {
            assert(replace_all_spec(self@, pattern@, with@, usize::MAX as nat) == self@);
            return self.clone();
        }
        let mut current: Vec<u8> = Vec::new();
        current.extend_from_slice(self.bytes().as_slice());
        assert(current@ =~= self@);
        let mut passes: usize = usize::MAX;
        while passes > 0
            invariant
                pattern@ == from.spec_bytes(),
                with@ == to.spec_bytes(),
                pattern@.len() > 0,
                replace_all_spec(self@, pattern@, with@, usize::MAX as nat) == replace_all_spec(
                    current@,
                    pattern@,
                    with@,
                    passes as nat,
                ),
            decreases passes,
        {
            let next = replace_first(current.as_slice(), pattern, with);
            if bytes_eq(next.as_slice(), current.as_slice()) {
                return StyledText::from(current);
            }
            current = next;
            passes -= 1;
        }
        StyledText::from(current)
    }

    /// The pieces of the text that lie between the occurrences of
    /// `separator`, found left to right without overlap. A text that does not
    /// hold the separator comes back whole, as the only piece. No piece has
    /// baseline effects.
    pub fn split(&self, separator: &str) -> (pieces: Vec<Self>)
        requires
            separator.spec_bytes().len() > 0,
        ensures
            pieces@.len() == split_spec(self@, separator.spec_bytes()).len(),
            forall|k: int|
                0 <= k < pieces@.len() ==> (#[trigger] pieces@[k])@ == split_spec(
                    self@,
                    separator.spec_bytes(),
                )[k] && pieces@[k].spec_baseline() == Seq::<StyleEffect>::empty(),
    {
        let bytes = self.bytes().as_slice();
        let mark = separator.as_bytes();
        let mut pieces: Vec<StyledText> = Vec::new();
        let mut last: usize = 0;
        let ghost mut found: Seq<Seq<u8>> = Seq::empty();
        loop
            invariant
                bytes@ == self@,
                mark@ == separator.spec_bytes(),
                mark@.len() > 0,
                last <= bytes.len(),
                pieces@.len() == found.len(),
                forall|k: int|
                    0 <= k < pieces@.len() ==> (#[trigger] pieces@[k])@ == found[k]
                        && pieces@[k].spec_baseline() == Seq::<StyleEffect>::empty(),
                split_spec(self@, mark@) == found + split_from(self@, mark@, last as int),
            decreases bytes.len() - last,
        {
            proof {
                lemma_first_occurrence(bytes@, mark@, last as int);
            }
            match find_from(bytes, mark, last) {
                Some(i) => {
                    let piece = self.slice(last, Some(i));
                    assert(piece@ =~= self@.subrange(last as int, i as int));
                    pieces.push(piece);
                    proof {
                        let rest = split_from(self@, mark@, i + mark@.len());
                        assert(found + (seq![self@.subrange(last as int, i as int)] + rest)
                            =~= found.push(self@.subrange(last as int, i as int)) + rest);
                        found = found.push(self@.subrange(last as int, i as int));
                    }
                    last = i + mark.len();
                },
                None => {
                    let piece = self.slice(last, None);
                    assert(piece@ =~= self@.subrange(last as int, self@.len() as int));
                    pieces.push(piece);
                    proof {
                        found = found.push(self@.subrange(last as int, self@.len() as int));
                        assert(split_spec(self@, mark@) =~= found);
                    }
                    return pieces;
                },
            }
        }
    }

    /// The text with every ASCII capital in lower case, without baseline
    /// effects.
    pub fn to_lowercase(&self) -> (lowered: Self)
        ensures
            lowered@ == self@.map_values(|b: u8| ascii_lower(b)),
            lowered.spec_baseline() == Seq::<StyleEffect>::empty(),
    {
        let bytes = self.bytes().as_slice();
        let mut lowered: Vec<u8> = Vec::new();
        let mut i: usize = 0;
        while i < bytes.len()
            invariant
                i <= bytes.len(),
                bytes@ == self@,
                lowered@ == self@.take(i as int).map_values(|b: u8| ascii_lower(b)),
            decreases bytes.len() - i,
        {
            let b = bytes[i];
            lowered.push(
                if 65 <= b && b <= 90 {
                    b + 32
                } else {
                    b
                },
            );
            i += 1;
            assert(lowered@ =~= self@.take(i as int).map_values(|b: u8| ascii_lower(b)));
        }
        assert(self@.take(i as int) =~= self@);
        StyledText::from(lowered)
    }

    /// The text with every ASCII small letter in upper case, without baseline
    /// effects.
    pub fn to_uppercase(&self) -> (raised: Self)
        ensures
            raised@ == self@.map_values(|b: u8| ascii_upper(b)),
            raised.spec_baseline() == Seq::<StyleEffect>::empty(),
    {
        let bytes = self.bytes().as_slice();
        let mut raised: Vec<u8> = Vec::new();
        let mut i: usize = 0;
        while i < bytes.len()
            invariant
                i <= bytes.len(),
                bytes@ == self@,
                raised@ == self@.take(i as int).map_values(|b: u8| ascii_upper(b)),
            decreases bytes.len() - i,
        {
            let b = bytes[i];
            raised.push(
                if 97 <= b && b <= 122 {
                    b - 32
                } else {
                    b
                },
            );
            i += 1;
            assert(raised@ =~= self@.take(i as int).map_values(|b: u8| ascii_upper(b)));
        }
        assert(self@.take(i as int) =~= self@);
        StyledText::from(raised)
    }
}

/// The lowest eight bits of the code point of `c`.
pub fn char_low_byte(c: char) -> (b: u8)
    ensures
        b == low_byte(c),
{
    let code = c as u32;
    (code % 256) as u8
}

} // verus!
