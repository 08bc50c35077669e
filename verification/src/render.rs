//! Rendering markup into ANSI escape sequences, or stripping it.
//!
//! One left-to-right scan serves both: it keeps the stack of effects that are
//! open, validates closing tags against it, and either writes the escape
//! sequences out or leaves them away.
use vstd::prelude::*;
use vstd::slice::slice_subrange;
use vstd::string::StringSliceAdditionalSpecFns;
use crate::bytes::SPACE;
use crate::effect::{push_escape, StyleEffect};
use crate::markup::{lemma_segment_bounds, scan, segment_at, ScanMemo, Segment};
use crate::stack::{escape_sequence, pushed, topmost, EffectStack};

verus! {

/// How deep tokens and highlighted spans may nest in a text that is rendered
/// for its own sake. A span holds tokens, a banner holds neither.
pub const NESTING: u8 = 2;

/// The style that a header tag switches on.
pub const HEADER_STYLE: StyleEffect = StyleEffect::MagentaBackground;

/// Markup that cannot be rendered.
#[derive(Clone, Copy, Debug, PartialEq, Eq, Structural)]
pub enum MarkupError {
    /// A closing tag names an effect that is not open. `innermost` is the
    /// effect that was opened last and is still open, if there is one.
    UnopenedClose { tag: StyleEffect, innermost: Option<StyleEffect> },
}

impl MarkupError {
    /// The diagnostic for the failure, itself markup: it names the closing
    /// tag and, where an effect is still open, the innermost one.
    pub open spec fn diagnostic_spec(self) -> Seq<u8> {
        match self {
            MarkupError::UnopenedClose { tag, innermost: None } => "Cannot close <</".spec_bytes()
                + tag.name_spec() + ">> which is not open".spec_bytes(),
            MarkupError::UnopenedClose { tag, innermost: Some(last) } =>
                "Cannot close <</".spec_bytes() + tag.name_spec()
                    + ">> as the last tag was <<".spec_bytes() + last.name_spec()
                    + ">>.".spec_bytes(),
        }
    }

    /// The diagnostic for the failure, itself markup: it names the closing
    /// tag and, where an effect is still open, the innermost one.
    pub fn diagnostic(&self) -> (message: Vec<u8>)
        ensures
            message@ == self.diagnostic_spec(),
    {
        let mut message: Vec<u8> = Vec::new();
        match self {
            MarkupError::UnopenedClose { tag, innermost } => {
                message.extend_from_slice("Cannot close <</".as_bytes());
                message.extend_from_slice(tag.name().as_bytes());
                match innermost {
                    None => {
                        message.extend_from_slice(">> which is not open".as_bytes());
                    },
                    Some(last) => {
                        message.extend_from_slice(">> as the last tag was <<".as_bytes());
                        message.extend_from_slice(last.name().as_bytes());
                        message.extend_from_slice(">>.".as_bytes());
                    },
                }
            },
        }
        assert(message@ =~= self.diagnostic_spec());
        message
    }
}

/// The rendering of a text: its bytes, or the reason why it has none.
pub type Rendering = Result<Seq<u8>, MarkupError>;

/// `bytes` when escapes are written, nothing when they are stripped.
pub open spec fn emitted(emit: bool, bytes: Seq<u8>) -> Seq<u8> {
    if emit {
        bytes
    } else {
        Seq::empty()
    }
}

/// A reset followed by the escape sequences of the effects that stay open.
pub open spec fn replay(active: Seq<StyleEffect>) -> Seq<u8> {
    StyleEffect::Reset.escape_spec() + escape_sequence(active)
}

/// What closes the effects that are still open at the end of the text, the
/// innermost first: for each a reset and the replay of those below it.
pub open spec fn unwind(active: Seq<StyleEffect>) -> Seq<u8>
    decreases active.len(),
{
    if active.len() == 0 {
        Seq::empty()
    } else {
        replay(active.drop_last()) + unwind(active.drop_last())
    }
}

/// The top of the stack, if it has one.
pub open spec fn innermost(active: Seq<StyleEffect>) -> Option<StyleEffect> {
    if active.len() == 0 {
        None
    } else {
        Some(active.last())
    }
}

/// The stack without the topmost `effect` and all that lies above it;
/// unchanged when it does not hold `effect`.
pub open spec fn closed(active: Seq<StyleEffect>, effect: StyleEffect) -> Seq<StyleEffect> {
    match topmost(active, effect) {
        Some(position) => active.take(position),
        None => active,
    }
}

/// The effects that a highlighted span starts from.
pub open spec fn highlight_style() -> Seq<StyleEffect> {
    seq![StyleEffect::BrightYellowBackground, StyleEffect::Black, StyleEffect::Bold]
}

/// The delimiter of a highlighted span as it is shown.
pub open spec fn highlight_border() -> Seq<u8> {
    "<brightyellow>==</brightyellow>".spec_bytes()
}

/// The markup that a highlighted span is rendered from.
pub open spec fn highlight_markup(span: Seq<u8>) -> Seq<u8> {
    highlight_border() + span + highlight_border()
}

/// The marker that a header opens with.
pub open spec fn header_marker() -> Seq<u8> {
    " # ".spec_bytes()
}

/// `piece` followed by the rendering of the rest.
pub open spec fn after(piece: Seq<u8>, rest: Rendering) -> Rendering {
    match rest {
        Ok(bytes) => Ok(piece + bytes),
        Err(error) => Err(error),
    }
}

/// Without `tokens` no segment is a token, and without `highlights` none is a
/// highlighted span.
pub proof fn lemma_segment_nesting(text: Seq<u8>, at: int, tokens: bool, highlights: bool)
    ensures
        !tokens ==> !(segment_at(text, at, tokens, highlights) is Token),
        !highlights ==> !(segment_at(text, at, tokens, highlights) is Highlight),
{
    reveal(segment_at);
}

/// The failure that a segment causes with the effects `active` open: a
/// closing tag fails when its effect is not among them.
pub open spec fn failure_of(segment: Segment, active: Seq<StyleEffect>) -> Option<MarkupError> {
    match segment {
        Segment::Close { effect, .. } => if topmost(active, effect).is_none() {
            Some(MarkupError::UnopenedClose { tag: effect, innermost: innermost(active) })
        } else {
            None
        },
        _ => None,
    }
}

/// The effects that are open after a segment. An opening tag pushes its
/// effect, a closing tag closes it and all that was opened after it; a header
/// does the same with the header style.
pub open spec fn active_after(segment: Segment, active: Seq<StyleEffect>) -> Seq<StyleEffect> {
    match segment {
        Segment::Open { effect, .. } => pushed(active, effect, false),
        Segment::Close { effect, .. } => closed(active, effect),
        Segment::HeaderOpen { .. } => pushed(active, HEADER_STYLE, false),
        Segment::HeaderClose { .. } => closed(active, HEADER_STYLE),
        _ => active,
    }
}

/// What a segment other than a token or a span adds to the output. Copied
/// bytes and the header's marker and space are always written, escape
/// sequences only with `emit`: after an opening tag those of all open effects,
/// after a closing tag a reset and those of the effects that stay open.
pub open spec fn piece_of(
    text: Seq<u8>,
    at: int,
    segment: Segment,
    active: Seq<StyleEffect>,
    emit: bool,
) -> Seq<u8> {
    let open = active_after(segment, active);
    match segment {
        Segment::Copy { len, .. } => text.subrange(at, at + len),
        Segment::Open { .. } => emitted(emit, escape_sequence(open)),
        Segment::Close { .. } => emitted(emit, replay(open)),
        Segment::HeaderOpen { .. } => emitted(emit, escape_sequence(open)) + header_marker(),
        Segment::HeaderClose { .. } => seq![SPACE] + emitted(emit, replay(open)),
        _ => Seq::empty(),
    }
}

/// The markup that a token or a span is rendered from, and the effects that
/// its rendering starts from.
pub open spec fn nested_markup(text: Seq<u8>, at: int, segment: Segment) -> Option<
    (Seq<u8>, Seq<StyleEffect>),
> {
    match segment {
        Segment::Token { token, .. } => Some((token.markup_spec(), Seq::empty())),
        Segment::Highlight { width } => Some(
            (highlight_markup(text.subrange(at + 2, at + width - 2)), highlight_style()),
        ),
        _ => None,
    }
}

/// The rendering of `text` from index `at` on, with the effects `active` open.
///
/// With `emit` the escape sequences are written, without it they are left
/// away. Lexicon tokens resolve only with `debug`. `depth` bounds how deep
/// tokens and spans nest: at depth 0 they are plain text. A token or a span
/// is rendered as a text of its own, one level deeper. At the end of the text
/// the effects that are still open are closed one by one, and a reset ends
/// the output. Positions are read only in a text that fits a buffer, that is
/// one of at most `usize::MAX` bytes.
pub open spec fn render_from(
    text: Seq<u8>,
    at: int,
    active: Seq<StyleEffect>,
    emit: bool,
    debug: bool,
    depth: nat,
) -> Rendering
    decreases depth, text.len() - at,
{
    if at < 0 || at >= text.len() || text.len() > usize::MAX {
        Ok(emitted(emit, unwind(active) + StyleEffect::Reset.escape_spec()))
    } else {
        let segment = segment_at(text, at, debug && depth > 0, depth > 0);
        proof {
            lemma_segment_bounds(text, at, debug && depth > 0, depth > 0);
            lemma_segment_nesting(text, at, debug && depth > 0, depth > 0);
        }
        let rest = render_from(
            text,
            at + segment.spec_width(),
            active_after(segment, active),
            emit,
            debug,
            depth,
        );
        match failure_of(segment, active) {
            Some(error) => Err(error),
            None => match nested_markup(text, at, segment) {
                Some((markup, baseline)) => match render_text(
                    markup,
                    baseline,
                    emit,
                    debug,
                    (depth - 1) as nat,
                ) {
                    Ok(piece) => after(piece, rest),
                    Err(error) => Err(error),
                },
                None => after(piece_of(text, at, segment, active, emit), rest),
            },
        }
    }
}

/// The rendering of a whole text whose baseline effects are `baseline`. An
/// empty text renders to nothing; any other begins with the baseline's escape
/// sequences and ends with a reset.
pub open spec fn render_text(
    text: Seq<u8>,
    baseline: Seq<StyleEffect>,
    emit: bool,
    debug: bool,
    depth: nat,
) -> Rendering
    decreases depth, text.len() + 1,
{
    if text.len() == 0 {
        Ok(Seq::empty())
    } else {
        after(
            emitted(emit, escape_sequence(baseline)),
            render_from(text, 0, baseline, emit, debug, depth),
        )
    }
}

/// Whether `outcome` is the rendering `spec`.
pub open spec fn renders_to(outcome: Result<Vec<u8>, MarkupError>, spec: Rendering) -> bool {
    match outcome {
        Ok(bytes) => spec == Ok::<Seq<u8>, MarkupError>(bytes@),
        Err(error) => spec == Err::<Seq<u8>, MarkupError>(error),
    }
}

/// Appends a reset and the escape sequences of `active` to `out`.
fn write_replay(out: &mut Vec<u8>, active: &EffectStack)
    ensures
        final(out)@ == old(out)@ + replay(active@),
{
    push_escape(out, StyleEffect::Reset.code());
    active.write_escape_sequence(out);
    assert(out@ =~= old(out)@ + replay(active@));
}

/// Closes the effects that are still open, the innermost first.
fn write_unwind(out: &mut Vec<u8>, active: &mut EffectStack)
    ensures
        final(out)@ == old(out)@ + unwind(old(active)@),
{
    while !active.is_empty()
        invariant
            out@ + unwind(active@) == old(out)@ + unwind(old(active)@),
        decreases active@.len(),
    {
        let ghost before = out@;
        let ghost open = active@;
        let below = active.len() - 1;
        active.truncate(below);
        assert(active@ =~= open.drop_last());
        write_replay(out, active);
        assert(out@ + unwind(active@) =~= before + unwind(open));
    }
    assert(out@ + unwind(active@) =~= out@);
}

/// The stack that a highlighted span starts from.
fn highlight_baseline() -> (stack: EffectStack)
    ensures
        stack@ == highlight_style(),
{
    let mut stack = EffectStack::new();
    stack.push(StyleEffect::BrightYellowBackground, false);
    stack.push(StyleEffect::Black, false);
    stack.push(StyleEffect::Bold, false);
    assert(stack@ =~= highlight_style());
    stack
}

/// The markup that the highlighted span `span` is rendered from.
fn wrap_highlight(span: &[u8]) -> (markup: Vec<u8>)
    ensures
        markup@ == highlight_markup(span@),
{
    let border = "<brightyellow>==</brightyellow>".as_bytes();
    let mut markup: Vec<u8> = Vec::new();
    markup.extend_from_slice(border);
    markup.extend_from_slice(span);
    markup.extend_from_slice(border);
    assert(markup@ =~= highlight_markup(span@));
    markup
}

/// Applies a segment other than a token or a span: appends what it adds to
/// `out` and opens or closes effects on `active`.
fn apply_segment(
    text: &[u8],
    at: usize,
    segment: Segment,
    active: &mut EffectStack,
    out: &mut Vec<u8>,
    emit: bool,
) -> (outcome: Result<(), MarkupError>)
    requires
        at + segment.spec_width() <= text.len(),
        segment matches Segment::Copy { len, width } ==> len <= width,
        !(segment is Token),
        !(segment is Highlight),
    ensures
        match outcome {
            Ok(()) => {
                &&& failure_of(segment, old(active)@).is_none()
                &&& final(active)@ == active_after(segment, old(active)@)
                &&& final(out)@ == old(out)@ + piece_of(
                    text@,
                    at as int,
                    segment,
                    old(active)@,
                    emit,
                )
            },
            Err(error) => failure_of(segment, old(active)@) == Some(error),
        },
{
    match segment {
        Segment::Copy { len, .. } => {
            out.extend_from_slice(slice_subrange(text, at, at + len));
            assert(out@ =~= old(out)@ + text@.subrange(at as int, at + len));
        },
        Segment::Open { effect, .. } => {
            active.push(effect, false);
            if emit {
                active.write_escape_sequence(out);
            }
            assert(out@ =~= old(out)@ + emitted(emit, escape_sequence(active@)));
        },
        Segment::Close { effect, .. } => {
            match active.position_of(effect) {
                None => {
                    return Err(
                        MarkupError::UnopenedClose { tag: effect, innermost: active.last() },
                    );
                },
                Some(position) => {
                    proof {
                        crate::stack::lemma_topmost(active@, effect);
                    }
                    active.truncate(position);
                    if emit {
                        write_replay(out, active);
                    }
                    assert(out@ =~= old(out)@ + emitted(emit, replay(active@)));
                },
            }
        },
        Segment::HeaderOpen { .. } => {
            active.push(HEADER_STYLE, false);
            if emit {
                active.write_escape_sequence(out);
            }
            out.extend_from_slice(" # ".as_bytes());
            assert(out@ =~= old(out)@ + (emitted(emit, escape_sequence(active@))
                + header_marker()));
        },
        Segment::HeaderClose { .. } => {
            match active.position_of(HEADER_STYLE) {
                None => {},
                Some(position) => {
                    proof {
                        crate::stack::lemma_topmost(active@, HEADER_STYLE);
                    }
                    active.truncate(position);
                },
            }
            out.push(SPACE);
            if emit {
                write_replay(out, active);
            }
            assert(out@ =~= old(out)@ + (seq![SPACE] + emitted(emit, replay(active@))));
        },
        _ => {},
    }
    Ok(())
}

/// Renders the token or span `segment` as a text of its own.
fn render_nested(
    text: &[u8],
    at: usize,
    segment: Segment,
    emit: bool,
    debug: bool,
    depth: u8,
) -> (outcome: Result<Vec<u8>, MarkupError>)
    requires
        segment is Token || segment is Highlight,
        segment matches Segment::Highlight { width } ==> width >= 4 && at + width <= text.len(),
        depth > 0,
    ensures
        nested_markup(text@, at as int, segment).is_some(),
        renders_to(
            outcome,
            render_text(
                nested_markup(text@, at as int, segment).unwrap().0,
                nested_markup(text@, at as int, segment).unwrap().1,
                emit,
                debug,
                (depth - 1) as nat,
            ),
        ),
    decreases depth, 0nat,
{
    match segment {
        Segment::Highlight { width } => {
            let markup = wrap_highlight(slice_subrange(text, at + 2, at + width - 2));
            let baseline = highlight_baseline();
            render_markup(markup.as_slice(), &baseline, emit, debug, depth - 1)
        },
        Segment::Token { token, .. } => {
            let baseline = EffectStack::new();
            render_markup(token.markup().as_bytes(), &baseline, emit, debug, depth - 1)
        },
        _ => Ok(Vec::new()),
    }
}

/// Renders the segment at `at`: appends what it stands for to `out`, opens or
/// closes effects on `active`, and returns where the next segment begins.
fn render_segment(
    text: &[u8],
    at: usize,
    active: &mut EffectStack,
    out: &mut Vec<u8>,
    memo: &mut ScanMemo,
    emit: bool,
    debug: bool,
    depth: u8,
) -> (outcome: Result<usize, MarkupError>)
    requires
        at < text.len(),
        old(memo).holds_for(text@),
    ensures
        final(memo).holds_for(text@),
        match outcome {
            Ok(next) => {
                &&& at < next <= text.len()
                &&& after(
                    old(out)@,
                    render_from(text@, at as int, old(active)@, emit, debug, depth as nat),
                ) == after(
                    final(out)@,
                    render_from(text@, next as int, final(active)@, emit, debug, depth as nat),
                )
            },
            Err(error) => render_from(text@, at as int, old(active)@, emit, debug, depth as nat)
                == Err::<Seq<u8>, MarkupError>(error),
        },
    decreases depth, 1nat,
{
    let nested = depth > 0;
    let segment = scan(text, at, debug && nested, nested, memo);
    let next = at + segment.width();
    proof {
        lemma_segment_bounds(text@, at as int, debug && nested, nested);
        lemma_segment_nesting(text@, at as int, debug && nested, nested);
    }
    let ghost rest = render_from(
        text@,
        next as int,
        active_after(segment, active@),
        emit,
        debug,
        depth as nat,
    );
    match segment {
        Segment::Token { .. } | Segment::Highlight { .. } => {
            match render_nested(text, at, segment, emit, debug, depth) {
                Err(error) => {
                    return Err(error);
                },
                Ok(piece) => {
                    out.extend_from_slice(piece.as_slice());
                    proof {
                        lemma_after_after(old(out)@, piece@, rest);
                        assert(out@ =~= old(out)@ + piece@);
                    }
                },
            }
        },
        _ => {
            match apply_segment(text, at, segment, active, out, emit) {
                Err(error) => {
                    return Err(error);
                },
                Ok(()) => {
                    proof {
                        lemma_after_after(
                            old(out)@,
                            piece_of(text@, at as int, segment, old(active)@, emit),
                            rest,
                        );
                    }
                },
            }
        },
    }
    Ok(next)
}

/// Renders `text`, whose baseline effects are `baseline`.
///
/// With `emit` the escape sequences are written; without it the markup is
/// only validated and removed. Lexicon tokens resolve only with `debug`.
/// `depth` bounds how deep tokens and highlighted spans nest. The one failure
/// is a closing tag whose effect is not open; it is reported for the leftmost
/// such tag.
pub fn render_markup(
    text: &[u8],
    baseline: &EffectStack,
    emit: bool,
    debug: bool,
    depth: u8,
) -> (outcome: Result<Vec<u8>, MarkupError>)
    ensures
        renders_to(outcome, render_text(text@, baseline@, emit, debug, depth as nat)),
    decreases depth, 2nat,
{
    let mut out: Vec<u8> = Vec::new();
    if text.len() == 0 {
        return Ok(out);
    }
    let mut active = baseline.clone();
    if emit {
        active.write_escape_sequence(&mut out);
    }
    assert(out@ =~= emitted(emit, escape_sequence(baseline@)));
    let mut memo = ScanMemo::new(text);
    let mut at: usize = 0;
    while at < text.len()
        invariant
            at <= text.len(),
            memo.holds_for(text@),
            render_text(text@, baseline@, emit, debug, depth as nat) == after(
                out@,
                render_from(text@, at as int, active@, emit, debug, depth as nat),
            ),
        decreases text.len() - at,
    {
        match render_segment(text, at, &mut active, &mut out, &mut memo, emit, debug, depth) {
            Ok(next) => {
                at = next;
            },
            Err(error) => {
                return Err(error);
            },
        }
    }
    let ghost body = out@;
    let ghost open = active@;
    if emit {
        write_unwind(&mut out, &mut active);
        push_escape(&mut out, StyleEffect::Reset.code());
    }
    assert(out@ =~= body + emitted(emit, unwind(open) + StyleEffect::Reset.escape_spec()));
    Ok(out)
}

/// One step of `render_from`: a failing segment fails the rendering, a token
/// or a span puts its own rendering before the rest, and any other segment
/// puts its piece there.
pub proof fn lemma_render_step(
    text: Seq<u8>,
    at: int,
    active: Seq<StyleEffect>,
    emit: bool,
    debug: bool,
    depth: nat,
)
    requires
        0 <= at < text.len() <= usize::MAX,
    ensures
        ({
            let segment = segment_at(text, at, debug && depth > 0, depth > 0);
            let rest = render_from(
                text,
                at + segment.spec_width(),
                active_after(segment, active),
                emit,
                debug,
                depth,
            );
            render_from(text, at, active, emit, debug, depth) == (match failure_of(
                segment,
                active,
            ) {
                Some(error) => Err(error),
                None => match nested_markup(text, at, segment) {
                    Some((markup, baseline)) => match render_text(
                        markup,
                        baseline,
                        emit,
                        debug,
                        (depth - 1) as nat,
                    ) {
                        Ok(piece) => after(piece, rest),
                        Err(error) => Err(error),
                    },
                    None => after(piece_of(text, at, segment, active, emit), rest),
                },
            })
        }),
{
}

/// Putting two pieces before a rendering one after the other is putting their
/// concatenation before it.
pub proof fn lemma_after_after(first: Seq<u8>, second: Seq<u8>, rest: Rendering)
    ensures
        after(first, after(second, rest)) == after(first + second, rest),
{
    match rest {
        Ok(bytes) => {
            assert(first + (second + bytes) =~= (first + second) + bytes);
        },
        Err(_) => {},
    }
}

} // verus!
