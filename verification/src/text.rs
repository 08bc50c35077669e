//! The styled text: raw bytes that may hold markup, and the baseline effects
//! that its rendering starts from.
use vstd::prelude::*;
use vstd::string::StringSliceAdditionalSpecFns;
use vstd::utf8::{decode_utf8, valid_utf8};
use crate::buffer::{ByteBuffer, CapacityError};
use crate::bytes::{bytes_eq, is_ascii_whitespace, is_whitespace_byte};
use crate::effect::StyleEffect;
use crate::render::{render_markup, render_text, MarkupError, NESTING};
use crate::stack::{pushed, EffectStack};

verus! {

/// Bytes that are not valid UTF-8 where text was asked for.
#[derive(Clone, Copy, Debug, PartialEq, Eq, Structural)]
pub struct InvalidUtf8;

/// The text that a lossy decoding of `bytes` gives: the decoded characters,
/// with U+FFFD in place of each sequence that is not valid UTF-8.
pub uninterp spec fn lossy_text(bytes: Seq<u8>) -> Seq<char>;

/// The declaration of `std::str::Utf8Error`, the error of `std::str::from_utf8`.
#[verifier::external_type_specification]
#[verifier::external_body]
pub struct ExUtf8Error(std::str::Utf8Error);

/// `std::str::from_utf8`: succeeds exactly on valid UTF-8, and the string it
/// returns then has the given bytes as its encoding.
#[verifier::external_body]
pub(crate) fn str_from_utf8(bytes: &[u8]) -> (outcome: Result<&str, std::str::Utf8Error>)
    ensures
        outcome.is_ok() == valid_utf8(bytes@),
        outcome matches Ok(text) ==> text.spec_bytes() == bytes@,
{
    std::str::from_utf8(bytes)
}

/// `String::from_utf8_lossy`: the lossy decoding of `bytes`, as an owned
/// string.
#[verifier::external_body]
pub(crate) fn string_from_utf8_lossy(bytes: &[u8]) -> (text: String)
    ensures
        text@ == lossy_text(bytes@),
{
    String::from_utf8_lossy(bytes).into_owned()
}

/// The text that a buffer's bytes are shown as: their decoding where they are
/// valid UTF-8, else their lossy decoding.
pub open spec fn shown_text(bytes: Seq<u8>) -> Seq<char> {
    if valid_utf8(bytes) {
        decode_utf8(bytes)
    } else {
        lossy_text(bytes)
    }
}

/// A string of bytes with inline markup and a stack of baseline effects.
///
/// The view is the raw content. Transformations return new texts; only
/// `push`, `push_slice`, `push_str`, `append` and `clear` work in place.
#[derive(Debug)]
pub struct StyledText {
    buffer: ByteBuffer,
    baseline: EffectStack,
}

impl View for StyledText {
    type V = Seq<u8>;

    closed spec fn view(&self) -> Seq<u8> {
        self.buffer@
    }
}

impl Clone for StyledText {
    fn clone(&self) -> (copy: Self)
        ensures
            copy@ == self@,
            copy.spec_baseline() == self.spec_baseline(),
            copy.spec_capacity() == self.spec_capacity(),
    {
        StyledText { buffer: self.buffer.clone(), baseline: self.baseline.clone() }
    }
}

impl Default for StyledText {
    fn default() -> (text: Self)
        ensures
            text@ == Seq::<u8>::empty(),
            text.spec_baseline() == Seq::<StyleEffect>::empty(),
    {
        StyledText::new()
    }
}

/// Texts are equal where their contents are; the baseline does not count.
impl PartialEq for StyledText {
    fn eq(&self, other: &Self) -> (same: bool) {
        bytes_eq(self.buffer.as_slice(), other.buffer.as_slice())
    }
}

impl Eq for StyledText {

}

impl vstd::std_specs::cmp::PartialEqSpecImpl for StyledText {
    open spec fn obeys_eq_spec() -> bool {
        true
    }

    open spec fn eq_spec(&self, other: &Self) -> bool {
        self@ == other@
    }
}

/// The text that holds `bytes`, without baseline effects.
impl From<Vec<u8>> for StyledText {
    fn from(bytes: Vec<u8>) -> (text: Self)
        ensures
            text@ == bytes@,
            text.spec_baseline() == Seq::<StyleEffect>::empty(),
    {
        StyledText { buffer: ByteBuffer::from(bytes), baseline: EffectStack::new() }
    }
}

/// What `from` returns is stated by `from` itself, over the views of the
/// text; nothing is claimed through `from_spec`.
impl vstd::std_specs::convert::FromSpecImpl<Vec<u8>> for StyledText {
    open spec fn obeys_from_spec() -> bool {
        false
    }

    closed spec fn from_spec(bytes: Vec<u8>) -> Self {
        arbitrary()
    }
}

/// The text that holds `buffer`, without baseline effects.
impl From<ByteBuffer> for StyledText {
    fn from(buffer: ByteBuffer) -> (text: Self)
        ensures
            text@ == buffer@,
            text.spec_baseline() == Seq::<StyleEffect>::empty(),
            text.spec_capacity() == buffer.spec_capacity(),
    {
        StyledText { buffer, baseline: EffectStack::new() }
    }
}

/// What `from` returns is stated by `from` itself, over the views of the
/// text; nothing is claimed through `from_spec`.
impl vstd::std_specs::convert::FromSpecImpl<ByteBuffer> for StyledText {
    open spec fn obeys_from_spec() -> bool {
        false
    }

    closed spec fn from_spec(buffer: ByteBuffer) -> Self {
        arbitrary()
    }
}

/// The text that holds the UTF-8 encoding of `text`, without baseline
/// effects.
impl<'a> From<&'a str> for StyledText {
    fn from(text: &'a str) -> (styled: Self)
        ensures
            styled@ == text.spec_bytes(),
            styled.spec_baseline() == Seq::<StyleEffect>::empty(),
    {
        StyledText::from_slice(text.as_bytes())
    }
}

/// What `from` returns is stated by `from` itself, over the views of the
/// text; nothing is claimed through `from_spec`.
impl<'a> vstd::std_specs::convert::FromSpecImpl<&'a str> for StyledText {
    open spec fn obeys_from_spec() -> bool {
        false
    }

    closed spec fn from_spec(text: &'a str) -> Self {
        arbitrary()
    }
}

/// The text that holds the UTF-8 encoding of `text`, without baseline
/// effects.
impl From<String> for StyledText {
    fn from(text: String) -> (styled: Self)
        ensures
            styled@ == vstd::utf8::encode_utf8(text@),
            styled.spec_baseline() == Seq::<StyleEffect>::empty(),
    {
        StyledText::from_slice(text.as_str().as_bytes())
    }
}

/// What `from` returns is stated by `from` itself, over the views of the
/// text; nothing is claimed through `from_spec`.
impl vstd::std_specs::convert::FromSpecImpl<String> for StyledText {
    open spec fn obeys_from_spec() -> bool {
        false
    }

    closed spec fn from_spec(text: String) -> Self {
        arbitrary()
    }
}

impl StyledText {
    /// The baseline effects, bottom first.
    pub closed spec fn spec_baseline(&self) -> Seq<StyleEffect> {
        self.baseline@
    }

    /// The capacity that is reserved for the content.
    pub closed spec fn spec_capacity(&self) -> nat {
        self.buffer.spec_capacity()
    }

    /// An empty text without baseline effects.
    pub fn new() -> (text: Self)
        ensures
            text@ == Seq::<u8>::empty(),
            text.spec_baseline() == Seq::<StyleEffect>::empty(),
    {
        StyledText { buffer: ByteBuffer::default(), baseline: EffectStack::new() }
    }

    /// The text that holds `buffer` and starts from the effects `baseline`.
    pub fn from_parts(buffer: ByteBuffer, baseline: EffectStack) -> (text: Self)
        ensures
            text@ == buffer@,
            text.spec_baseline() == baseline@,
            text.spec_capacity() == buffer.spec_capacity(),
    {
        StyledText { buffer, baseline }
    }

    /// An empty text with room for `capacity` bytes.
    pub fn with_capacity(capacity: usize) -> (text: Self)
        requires
            capacity <= isize::MAX,
        ensures
            text@ == Seq::<u8>::empty(),
            text.spec_baseline() == Seq::<StyleEffect>::empty(),
            text.spec_capacity() == capacity,
    {
        StyledText { buffer: ByteBuffer::with_capacity(capacity), baseline: EffectStack::new() }
    }

    /// The text that holds a copy of `bytes`.
    pub fn from_slice(bytes: &[u8]) -> (text: Self)
        ensures
            text@ == bytes@,
            text.spec_baseline() == Seq::<StyleEffect>::empty(),
    {
        let mut copy: Vec<u8> = Vec::new();
        copy.extend_from_slice(bytes);
        assert(copy@ =~= bytes@);
        StyledText::from(copy)
    }

    /// The text that holds `bytes`, provided they are valid UTF-8.
    pub fn from_utf8(bytes: Vec<u8>) -> (outcome: Result<Self, InvalidUtf8>)
        ensures
            outcome.is_ok() == valid_utf8(bytes@),
            outcome matches Ok(text) ==> text@ == bytes@ && text.spec_baseline() == Seq::<
                StyleEffect,
            >::empty(),
    {
        match str_from_utf8(bytes.as_slice()) {
            Ok(_) => Ok(StyledText::from(bytes)),
            Err(_) => Err(InvalidUtf8),
        }
    }

    /// A copy of this text.
    pub fn to_owned(&self) -> (copy: Self)
        ensures
            copy@ == self@,
            copy.spec_baseline() == self.spec_baseline(),
    {
        self.clone()
    }

    /// The buffer that holds the content.
    pub fn buffer(&self) -> (buffer: &ByteBuffer)
        ensures
            buffer@ == self@,
            buffer.spec_capacity() == self.spec_capacity(),
    {
        &self.buffer
    }

    /// The baseline effects.
    pub fn baseline(&self) -> (baseline: &EffectStack)
        ensures
            baseline@ == self.spec_baseline(),
    {
        &self.baseline
    }

    /// The content.
    pub fn bytes(&self) -> (bytes: &Vec<u8>)
        ensures
            bytes@ == self@,
    {
        self.buffer.bytes()
    }

    /// The number of bytes of the content.
    pub fn len(&self) -> (n: usize)
        ensures
            n == self@.len(),
    {
        self.buffer.size()
    }

    /// Whether the content is empty.
    pub fn is_empty(&self) -> (empty: bool)
        ensures
            empty == (self@.len() == 0),
    {
        self.buffer.is_empty()
    }

    /// Whether every byte is ASCII whitespace. An empty text is.
    pub fn is_whitespace(&self) -> (blank: bool)
        ensures
            blank == (forall|i: int| 0 <= i < self@.len() ==> is_ascii_whitespace(self@[i])),
    {
        let bytes = self.buffer.as_slice();
        let mut i: usize = 0;
        while i < bytes.len()
            invariant
                i <= bytes.len(),
                bytes@ == self@,
                forall|j: int| 0 <= j < i ==> is_ascii_whitespace(bytes@[j]),
            decreases bytes.len() - i,
        {
            if !is_whitespace_byte(bytes[i]) {
                return false;
            }
            i += 1;
        }
        true
    }

    /// The content as a string: decoded where it is valid UTF-8, else
    /// decoded lossily.
    pub fn to_string(&self) -> (text: String)
        ensures
            text@ == shown_text(self@),
    {
        match str_from_utf8(self.buffer.as_slice()) {
            Ok(text) => {
                proof {
                    vstd::utf8::encode_utf8_decode_utf8(text@);
                }
                text.to_owned()
            },
            Err(_) => string_from_utf8_lossy(self.buffer.as_slice()),
        }
    }

    /// Appends one byte, reserving room for it first where the buffer is
    /// full. On a failure the text is unchanged.
    pub fn push(&mut self, byte: u8) -> (outcome: Result<(), CapacityError>)
        ensures
            final(self).spec_baseline() == old(self).spec_baseline(),
            old(self)@.len() < old(self).spec_capacity() ==> outcome.is_ok(),
            match outcome {
                Ok(()) => final(self)@ == old(self)@.push(byte),
                Err(_) => final(self)@ == old(self)@,
            },
    {
        self.buffer.push_safe(byte)
    }

    /// Appends the bytes of `slice` one by one, as `push` does. It stops at
    /// the first byte for which no room can be reserved; the bytes before it
    /// stay appended.
    pub fn push_slice(&mut self, slice: &[u8]) -> (outcome: Result<(), CapacityError>)
        ensures
            final(self).spec_baseline() == old(self).spec_baseline(),
            match outcome {
                Ok(()) => final(self)@ == old(self)@ + slice@,
                Err(_) => exists|n: int|
                    0 <= n < slice@.len() && final(self)@ == old(self)@ + #[trigger] slice@.take(
                        n,
                    ),
            },
    {
        let mut i: usize = 0;
        assert(self@ =~= old(self)@ + slice@.take(0));
        while i < slice.len()
            invariant
                i <= slice.len(),
                self.spec_baseline() == old(self).spec_baseline(),
                self@ == old(self)@ + slice@.take(i as int),
            decreases slice.len() - i,
        {
            match self.buffer.push_safe(slice[i]) {
                Ok(()) => {},
                Err(error) => {
                    return Err(error);
                },
            }
            i += 1;
            assert(self@ =~= old(self)@ + slice@.take(i as int));
        }
        assert(slice@.take(i as int) =~= slice@);
        Ok(())
    }

    /// Appends the bytes of `text` after reserving room for all of them. On a
    /// failure the text is unchanged.
    pub fn push_str(&mut self, text: &str) -> (outcome: Result<(), CapacityError>)
        ensures
            final(self).spec_baseline() == old(self).spec_baseline(),
            old(self)@.len() + text.spec_bytes().len() <= old(self).spec_capacity()
                ==> outcome.is_ok(),
            match outcome {
                Ok(()) => final(self)@ == old(self)@ + text.spec_bytes(),
                Err(_) => final(self)@ == old(self)@,
            },
    {
        let bytes = text.as_bytes();
        match self.buffer.try_reserve(bytes.len()) {
            Ok(()) => {
                self.buffer.extend_from_slice(bytes);
                Ok(())
            },
            Err(error) => Err(error),
        }
    }

    /// Appends the content of `other`. The baseline stays as it is.
    pub fn append(&mut self, other: &StyledText)
        ensures
            final(self)@ == old(self)@ + other@,
            final(self).spec_baseline() == old(self).spec_baseline(),
    {
        self.buffer.extend_from(&other.buffer);
    }

    /// Removes the content. The baseline and the capacity stay as they are.
    pub fn clear(&mut self)
        ensures
            final(self)@ == Seq::<u8>::empty(),
            final(self).spec_baseline() == old(self).spec_baseline(),
            final(self).spec_capacity() == old(self).spec_capacity(),
    {
        self.buffer.clear();
    }

    /// The same content without baseline effects.
    pub fn reset(&self) -> (text: Self)
        ensures
            text@ == self@,
            text.spec_baseline() == Seq::<StyleEffect>::empty(),
    {
        StyledText { buffer: self.buffer.clone(), baseline: EffectStack::new() }
    }

    /// The same content with `effect` pushed onto the baseline. The baseline
    /// is unchanged when color is disabled or when `effect` is already its
    /// top.
    pub fn push_effect(&self, effect: StyleEffect, no_color: bool) -> (text: Self)
        ensures
            text@ == self@,
            text.spec_baseline() == pushed(self.spec_baseline(), effect, no_color),
    {
        let mut baseline = self.baseline.clone();
        baseline.push(effect, no_color);
        StyledText { buffer: self.buffer.clone(), baseline }
    }

    /// The same content with `Bold` pushed onto the baseline.
    pub fn bold(&self, no_color: bool) -> (text: Self)
        ensures
            text@ == self@,
            text.spec_baseline() == pushed(self.spec_baseline(), StyleEffect::Bold, no_color),
    {
        self.push_effect(StyleEffect::Bold, no_color)
    }

    /// The same content with `Italic` pushed onto the baseline.
    pub fn italic(&self, no_color: bool) -> (text: Self)
        ensures
            text@ == self@,
            text.spec_baseline() == pushed(self.spec_baseline(), StyleEffect::Italic, no_color),
    {
        self.push_effect(StyleEffect::Italic, no_color)
    }

    /// The same content with `Underline` pushed onto the baseline.
    pub fn underline(&self, no_color: bool) -> (text: Self)
        ensures
            text@ == self@,
            text.spec_baseline() == pushed(
                self.spec_baseline(),
                StyleEffect::Underline,
                no_color,
            ),
    {
        self.push_effect(StyleEffect::Underline, no_color)
    }

    /// The same content with `Blink` pushed onto the baseline.
    pub fn blink(&self, no_color: bool) -> (text: Self)
        ensures
            text@ == self@,
            text.spec_baseline() == pushed(self.spec_baseline(), StyleEffect::Blink, no_color),
    {
        self.push_effect(StyleEffect::Blink, no_color)
    }

    /// The same content with `Inverse` pushed onto the baseline.
    pub fn inverse(&self, no_color: bool) -> (text: Self)
        ensures
            text@ == self@,
            text.spec_baseline() == pushed(self.spec_baseline(), StyleEffect::Inverse, no_color),
    {
        self.push_effect(StyleEffect::Inverse, no_color)
    }

    /// The same content with `Hidden` pushed onto the baseline.
    pub fn hidden(&self, no_color: bool) -> (text: Self)
        ensures
            text@ == self@,
            text.spec_baseline() == pushed(self.spec_baseline(), StyleEffect::Hidden, no_color),
    {
        self.push_effect(StyleEffect::Hidden, no_color)
    }

    /// The same content with `Strikethrough` pushed onto the baseline.
    pub fn strike(&self, no_color: bool) -> (text: Self)
        ensures
            text@ == self@,
            text.spec_baseline() == pushed(
                self.spec_baseline(),
                StyleEffect::Strikethrough,
                no_color,
            ),
    {
        self.push_effect(StyleEffect::Strikethrough, no_color)
    }

    /// Renders the markup into ANSI escape sequences. With `no_color` this is
    /// `strip_styling`. Lexicon tokens resolve only with `debug`.
    ///
    /// The result has no baseline effects. The one failure is a closing tag
    /// whose effect is not open.
    pub fn render(&self, no_color: bool, debug: bool) -> (outcome: Result<Self, MarkupError>)
        ensures
            match outcome {
                Ok(text) => {
                    &&& render_text(self@, self.spec_baseline(), !no_color, debug, NESTING as nat)
                        == Ok::<Seq<u8>, MarkupError>(text@)
                    &&& text.spec_baseline() == Seq::<StyleEffect>::empty()
                },
                Err(error) => render_text(
                    self@,
                    self.spec_baseline(),
                    !no_color,
                    debug,
                    NESTING as nat,
                ) == Err::<Seq<u8>, MarkupError>(error),
            },
    {
        match render_markup(self.buffer.as_slice(), &self.baseline, !no_color, debug, NESTING) {
            Ok(bytes) => Ok(StyledText::from(bytes)),
            Err(error) => Err(error),
        }
    }

    /// Removes the markup and keeps the visible text: the same scan as
    /// `render`, with the same failure, but no escape sequence is written.
    pub fn strip_styling(&self, debug: bool) -> (outcome: Result<Self, MarkupError>)
        ensures
            match outcome {
                Ok(text) => {
                    &&& render_text(self@, self.spec_baseline(), false, debug, NESTING as nat)
                        == Ok::<Seq<u8>, MarkupError>(text@)
                    &&& text.spec_baseline() == Seq::<StyleEffect>::empty()
                },
                Err(error) => render_text(
                    self@,
                    self.spec_baseline(),
                    false,
                    debug,
                    NESTING as nat,
                ) == Err::<Seq<u8>, MarkupError>(error),
            },
    {
        self.render(true, debug)
    }
}

impl ByteBuffer {
    /// The buffer's bytes as a text, provided they are valid UTF-8.
    pub fn text(&self) -> (outcome: Result<StyledText, InvalidUtf8>)
        ensures
            outcome.is_ok() == valid_utf8(self@),
            outcome matches Ok(text) ==> text@ == self@ && text.spec_baseline() == Seq::<
                StyleEffect,
            >::empty(),
    {
        StyledText::from_utf8(self.to_vec())
    }
}

} // verus!
