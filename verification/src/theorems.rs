//! What holds of the engine as a whole, proved from the contracts of its
//! parts.
use vstd::prelude::*;
use vstd::string::StringSliceAdditionalSpecFns;
use crate::ansi::{
    is_plain, is_styled, lemma_visible_concat, lemma_visible_escape,
    lemma_visible_escape_sequence, lemma_visible_plain, visible,
};
use crate::bytes::{
    first_occurrence, lemma_first_occurrence, COLON, DOLLAR,
    EQUALS_SIGN, GREATER_THAN, LESS_THAN, SPACE,
};
use crate::effect::StyleEffect;
use crate::lexicon::LexiconToken;
use crate::markup::{lemma_segment_bounds, literal, segment_at, Segment};
use crate::ops::{slice_spec, split_from, split_spec};
use crate::render::{
    active_after, after, emitted, failure_of, header_marker, highlight_border,
    highlight_markup, lemma_render_step, lemma_segment_nesting, nested_markup, piece_of,
    render_from, render_text, replay, unwind, MarkupError, Rendering, NESTING,
};
use crate::stack::{escape_sequence, extended, no_repeats, pushed};

verus! {

/// The rendering `colored` shows what the rendering `bare` holds: both fail
/// alike, or `colored` is styled and its visible bytes are those of `bare`.
pub open spec fn shows(colored: Rendering, bare: Rendering) -> bool {
    match colored {
        Ok(bytes) => bare.is_ok() && is_styled(bytes) && visible(bytes) == bare.unwrap(),
        Err(error) => bare == Err::<Seq<u8>, MarkupError>(error),
    }
}

/// A reset and the replay of a stack are styled, and nothing of them is
/// visible.
pub proof fn lemma_visible_replay(active: Seq<StyleEffect>)
    ensures
        is_styled(replay(active)),
        visible(replay(active)) == Seq::<u8>::empty(),
{
    lemma_visible_escape(StyleEffect::Reset.code_spec());
    lemma_visible_escape_sequence(active);
    lemma_visible_concat(StyleEffect::Reset.escape_spec(), escape_sequence(active));
    assert(visible(StyleEffect::Reset.escape_spec()) + visible(escape_sequence(active))
        =~= Seq::<u8>::empty());
}

/// What closes the open effects is styled, and nothing of it is visible.
pub proof fn lemma_visible_unwind(active: Seq<StyleEffect>)
    ensures
        is_styled(unwind(active)),
        visible(unwind(active)) == Seq::<u8>::empty(),
    decreases active.len(),
{
    if active.len() > 0 {
        lemma_visible_replay(active.drop_last());
        lemma_visible_unwind(active.drop_last());
        lemma_visible_concat(replay(active.drop_last()), unwind(active.drop_last()));
        assert(visible(replay(active.drop_last())) + visible(unwind(active.drop_last()))
            =~= Seq::<u8>::empty());
    }
}

/// The markup of a banner holds no escape byte.
pub proof fn lemma_banner_plain(token: LexiconToken)
    ensures
        is_plain(token.markup_spec()),
{
    reveal_strlit(
        "<redbackground><red>[</red><bold>THIS MESSAGE PREVENTS A PANIC!</bold><red>]</red></redbackground>",
    );
    broadcast use vstd::string::is_ascii_spec_bytes;

    assert(vstd::string::is_ascii(
        "<redbackground><red>[</red><bold>THIS MESSAGE PREVENTS A PANIC!</bold><red>]</red></redbackground>",
    ));
}

/// The markup of a span without escape bytes holds none either.
pub proof fn lemma_highlight_plain(span: Seq<u8>)
    requires
        is_plain(span),
    ensures
        is_plain(highlight_markup(span)),
{
    reveal_strlit("<brightyellow>==</brightyellow>");
    broadcast use vstd::string::is_ascii_spec_bytes;

    assert(vstd::string::is_ascii("<brightyellow>==</brightyellow>"));
    assert(is_plain(highlight_border()));
}

/// The piece that a segment adds when escapes are written is styled, and its
/// visible bytes are the piece that it adds when they are not.
pub proof fn lemma_piece_visible(
    text: Seq<u8>,
    at: int,
    segment: Segment,
    active: Seq<StyleEffect>,
)
    requires
        is_plain(text),
        0 <= at,
        segment matches Segment::Copy { len, .. } ==> at + len <= text.len(),
    ensures
        is_styled(piece_of(text, at, segment, active, true)),
        visible(piece_of(text, at, segment, active, true)) == piece_of(
            text,
            at,
            segment,
            active,
            false,
        ),
{
    let open = active_after(segment, active);
    let nothing = Seq::<u8>::empty();
    lemma_visible_plain(nothing);
    match segment {
        Segment::Copy { len, .. } => {
            lemma_visible_plain(text.subrange(at, at + len));
        },
        Segment::Open { .. } => {
            lemma_visible_escape_sequence(open);
        },
        Segment::Close { .. } => {
            lemma_visible_replay(open);
        },
        Segment::HeaderOpen { .. } => {
            reveal_strlit(" # ");
            broadcast use vstd::string::is_ascii_spec_bytes;

            assert(vstd::string::is_ascii(" # "));
            assert(is_plain(header_marker()));
            lemma_visible_escape_sequence(open);
            lemma_visible_plain(header_marker());
            lemma_visible_concat(escape_sequence(open), header_marker());
            assert(nothing + header_marker() =~= header_marker());
        },
        Segment::HeaderClose { .. } => {
            lemma_visible_plain(seq![SPACE]);
            lemma_visible_replay(open);
            lemma_visible_concat(seq![SPACE], replay(open));
            assert(seq![SPACE] + nothing =~= seq![SPACE]);
        },
        _ => {},
    }
}

/// Putting a styled piece before a rendering that shows another puts its
/// visible bytes before the other.
pub proof fn lemma_shows_after(piece: Seq<u8>, bare_piece: Seq<u8>, colored: Rendering, bare: Rendering)
    requires
        is_styled(piece),
        visible(piece) == bare_piece,
        shows(colored, bare),
    ensures
        shows(after(piece, colored), after(bare_piece, bare)),
{
    match colored {
        Ok(bytes) => {
            lemma_visible_concat(piece, bytes);
        },
        Err(_) => {},
    }
}

/// From any position on, the rendering with escape sequences shows the
/// rendering without them.
pub proof fn lemma_render_from_shows(
    text: Seq<u8>,
    at: int,
    active: Seq<StyleEffect>,
    debug: bool,
    depth: nat,
)
    requires
        is_plain(text),
        0 <= at,
    ensures
        shows(
            render_from(text, at, active, true, debug, depth),
            render_from(text, at, active, false, debug, depth),
        ),
    decreases depth, text.len() - at,
{
    if at >= text.len() || text.len() > usize::MAX {
        let closing = unwind(active) + StyleEffect::Reset.escape_spec();
        lemma_visible_unwind(active);
        lemma_visible_escape(StyleEffect::Reset.code_spec());
        lemma_visible_concat(unwind(active), StyleEffect::Reset.escape_spec());
        assert(visible(unwind(active)) + visible(StyleEffect::Reset.escape_spec())
            =~= Seq::<u8>::empty());
    } else {
        let segment = segment_at(text, at, debug && depth > 0, depth > 0);
        let next = at + segment.spec_width();
        let open = active_after(segment, active);
        lemma_segment_bounds(text, at, debug && depth > 0, depth > 0);
        lemma_segment_nesting(text, at, debug && depth > 0, depth > 0);
        lemma_render_step(text, at, active, true, debug, depth);
        lemma_render_step(text, at, active, false, debug, depth);
        lemma_render_from_shows(text, next, open, debug, depth);
        let colored_rest = render_from(text, next, open, true, debug, depth);
        let bare_rest = render_from(text, next, open, false, debug, depth);
        if failure_of(segment, active).is_none() {
            match nested_markup(text, at, segment) {
                Some((markup, baseline)) => {
                    match segment {
                        Segment::Token { token, .. } => {
                            lemma_banner_plain(token);
                        },
                        Segment::Highlight { width } => {
                            lemma_highlight_plain(text.subrange(at + 2, at + width - 2));
                        },
                        _ => {},
                    }
                    lemma_render_text_shows(markup, baseline, debug, (depth - 1) as nat);
                    let colored = render_text(markup, baseline, true, debug, (depth - 1) as nat);
                    let bare = render_text(markup, baseline, false, debug, (depth - 1) as nat);
                    match colored {
                        Ok(piece) => {
                            lemma_shows_after(piece, bare.unwrap(), colored_rest, bare_rest);
                        },
                        Err(_) => {},
                    }
                },
                None => {
                    lemma_piece_visible(text, at, segment, active);
                    lemma_shows_after(
                        piece_of(text, at, segment, active, true),
                        piece_of(text, at, segment, active, false),
                        colored_rest,
                        bare_rest,
                    );
                },
            }
        }
    }
}

/// The rendering of a text with escape sequences shows its rendering without
/// them.
pub proof fn lemma_render_text_shows(
    text: Seq<u8>,
    baseline: Seq<StyleEffect>,
    debug: bool,
    depth: nat,
)
    requires
        is_plain(text),
    ensures
        shows(
            render_text(text, baseline, true, debug, depth),
            render_text(text, baseline, false, debug, depth),
        ),
    decreases depth, text.len() + 1,
{
    let nothing = Seq::<u8>::empty();
    lemma_visible_plain(nothing);
    if text.len() > 0 {
        lemma_render_from_shows(text, 0, baseline, debug, depth);
        lemma_visible_escape_sequence(baseline);
        lemma_shows_after(
            escape_sequence(baseline),
            nothing,
            render_from(text, 0, baseline, true, debug, depth),
            render_from(text, 0, baseline, false, debug, depth),
        );
        let bare = render_from(text, 0, baseline, false, debug, depth);
        match bare {
            Ok(bytes) => {
                assert(nothing + bytes =~= bytes);
            },
            Err(_) => {},
        }
    }
}

/// Rendering and then taking the escape sequences out gives what stripping
/// the markup gives: for a text without escape bytes of its own, whatever its
/// baseline, `render` and `strip_styling` fail alike, and where they succeed
/// the visible bytes of the one are the bytes of the other.
pub proof fn lemma_rendered_text_is_stripped_text(
    text: Seq<u8>,
    baseline: Seq<StyleEffect>,
    debug: bool,
)
    requires
        is_plain(text),
    ensures
        match render_text(text, baseline, true, debug, NESTING as nat) {
            Ok(colored) => render_text(text, baseline, false, debug, NESTING as nat) == Ok::<
                Seq<u8>,
                MarkupError,
            >(visible(colored)),
            Err(error) => render_text(text, baseline, false, debug, NESTING as nat) == Err::<
                Seq<u8>,
                MarkupError,
            >(error),
        },
{
    lemma_render_text_shows(text, baseline, debug, NESTING as nat);
}

/// A text that does not hold the separator is split into one piece, itself.
pub proof fn lemma_split_without_separator(text: Seq<u8>, separator: Seq<u8>)
    requires
        separator.len() > 0,
        first_occurrence(text, separator, 0).is_none(),
    ensures
        split_spec(text, separator) == seq![text],
{
    assert(text.subrange(0, text.len() as int) =~= text);
}

/// The slice from the start to the length of a text is the text.
pub proof fn lemma_slice_whole(text: Seq<u8>)
    ensures
        slice_spec(text, 0, Some(text.len() as int)) == text,
        slice_spec(text, 0, None) == text,
{
    assert(text.subrange(0, text.len() as int) =~= text);
}

/// Pushing the same effect a second time changes nothing: on an empty stack
/// two pushes of one effect leave a single entry.
pub proof fn lemma_push_idempotent(effects: Seq<StyleEffect>, effect: StyleEffect, no_color: bool)
    ensures
        pushed(pushed(effects, effect, no_color), effect, no_color) == pushed(
            effects,
            effect,
            no_color,
        ),
        !no_color ==> pushed(pushed(Seq::empty(), effect, no_color), effect, no_color) == seq![
            effect,
        ],
{
    assert(pushed(Seq::<StyleEffect>::empty(), effect, false) =~= seq![effect]);
}

/// Pushing keeps a stack free of repeats.
pub proof fn lemma_pushed_no_repeats(
    effects: Seq<StyleEffect>,
    effect: StyleEffect,
    no_color: bool,
)
    requires
        no_repeats(effects),
    ensures
        no_repeats(pushed(effects, effect, no_color)),
{
}

/// Extending keeps a stack free of repeats.
pub proof fn lemma_extended_no_repeats(
    effects: Seq<StyleEffect>,
    more: Seq<StyleEffect>,
    no_color: bool,
)
    requires
        no_repeats(effects),
    ensures
        no_repeats(extended(effects, more, no_color)),
    decreases more.len(),
{
    if more.len() > 0 {
        lemma_extended_no_repeats(effects, more.drop_last(), no_color);
        lemma_pushed_no_repeats(
            extended(effects, more.drop_last(), no_color),
            more.last(),
            no_color,
        );
    }
}

/// `text` holds none of the bytes that markup is written with: `<`, `>`, `:`,
/// `$` and `=`.
pub open spec fn has_no_markup(text: Seq<u8>) -> bool {
    forall|i: int|
        0 <= i < text.len() ==> text[i] != LESS_THAN && text[i] != GREATER_THAN && text[i]
            != COLON && text[i] != DOLLAR && text[i] != EQUALS_SIGN
}

/// From any position on, a text without markup is copied as it stands, and
/// the open effects are closed after it.
pub proof fn lemma_render_from_without_markup(
    text: Seq<u8>,
    at: int,
    active: Seq<StyleEffect>,
    emit: bool,
    debug: bool,
    depth: nat,
)
    requires
        has_no_markup(text),
        0 <= at <= text.len() <= usize::MAX,
    ensures
        render_from(text, at, active, emit, debug, depth) == Ok::<Seq<u8>, MarkupError>(
            text.subrange(at, text.len() as int) + emitted(
                emit,
                unwind(active) + StyleEffect::Reset.escape_spec(),
            ),
        ),
    decreases text.len() - at,
{
    let closing = emitted(emit, unwind(active) + StyleEffect::Reset.escape_spec());
    if at == text.len() {
        assert(text.subrange(at, text.len() as int) + closing =~= closing);
    } else {
        assert(segment_at(text, at, debug && depth > 0, depth > 0) == literal()) by {
            reveal(segment_at);
        }
        lemma_render_step(text, at, active, emit, debug, depth);
        lemma_render_from_without_markup(text, at + 1, active, emit, debug, depth);
        assert(text.subrange(at, at + 1) + (text.subrange(at + 1, text.len() as int) + closing)
            =~= text.subrange(at, text.len() as int) + closing);
    }
}

/// A text without markup and without baseline effects strips to itself, and
/// renders to itself followed by a reset.
pub proof fn lemma_text_without_markup(text: Seq<u8>, debug: bool)
    requires
        has_no_markup(text),
        0 < text.len() <= usize::MAX,
    ensures
        render_text(text, Seq::empty(), false, debug, NESTING as nat) == Ok::<
            Seq<u8>,
            MarkupError,
        >(text),
        render_text(text, Seq::empty(), true, debug, NESTING as nat) == Ok::<Seq<u8>, MarkupError>(
            text + StyleEffect::Reset.escape_spec(),
        ),
{
    let nothing = Seq::<u8>::empty();
    let none = Seq::<StyleEffect>::empty();
    lemma_render_from_without_markup(text, 0, none, false, debug, NESTING as nat);
    lemma_render_from_without_markup(text, 0, none, true, debug, NESTING as nat);
    assert(text.subrange(0, text.len() as int) =~= text);
    assert(nothing + (text + nothing) =~= text);
    assert(unwind(none) + StyleEffect::Reset.escape_spec() =~= StyleEffect::Reset.escape_spec());
    assert(escape_sequence(none) + (text + StyleEffect::Reset.escape_spec()) =~= text
        + StyleEffect::Reset.escape_spec());
}

/// The first `upto` of `pieces` with `separator` between each two.
pub open spec fn join_spec(pieces: Seq<Seq<u8>>, separator: Seq<u8>, upto: int) -> Seq<u8>
    decreases upto,
{
    if upto <= 0 {
        Seq::empty()
    } else if upto == 1 {
        pieces[0]
    } else {
        join_spec(pieces, separator, upto - 1) + separator + pieces[upto - 1]
    }
}

/// Putting a piece before a list puts it, and the separator where the list
/// is not empty, before the joined list.
pub proof fn lemma_join_first(first: Seq<u8>, rest: Seq<Seq<u8>>, separator: Seq<u8>, upto: int)
    requires
        0 <= upto <= rest.len(),
    ensures
        join_spec(seq![first] + rest, separator, upto + 1) == (if upto == 0 {
            first
        } else {
            first + separator + join_spec(rest, separator, upto)
        }),
    decreases upto,
{
    let all = seq![first] + rest;
    if upto > 0 {
        lemma_join_first(first, rest, separator, upto - 1);
        assert(all[upto] == rest[upto - 1]);
        if upto == 1 {
            assert(join_spec(all, separator, 2) =~= first + separator + rest[0]);
        } else {
            assert(join_spec(all, separator, upto + 1) =~= first + separator + join_spec(
                rest,
                separator,
                upto,
            ));
        }
    }
}

/// Splitting never gives less than one piece, and joining the pieces with
/// the separator gives the text back.
pub proof fn lemma_split_join(text: Seq<u8>, separator: Seq<u8>, from: int)
    requires
        separator.len() > 0,
        0 <= from <= text.len(),
    ensures
        split_from(text, separator, from).len() >= 1,
        join_spec(
            split_from(text, separator, from),
            separator,
            split_from(text, separator, from).len() as int,
        ) == text.subrange(from, text.len() as int),
    decreases text.len() - from,
{
    lemma_first_occurrence(text, separator, from);
    match first_occurrence(text, separator, from) {
        Some(i) => {
            let next = i + separator.len();
            let rest = split_from(text, separator, next);
            lemma_split_join(text, separator, next);
            lemma_join_first(text.subrange(from, i), rest, separator, rest.len() as int);
            assert(text.subrange(from, i) + separator + text.subrange(next, text.len() as int)
                =~= text.subrange(from, text.len() as int)) by {
                assert(text.subrange(i, next) == separator);
            }
        },
        None => {},
    }
}

/// Joining what `split` returns with the separator gives the text back.
pub proof fn lemma_split_then_join(text: Seq<u8>, separator: Seq<u8>)
    requires
        separator.len() > 0,
    ensures
        join_spec(
            split_spec(text, separator),
            separator,
            split_spec(text, separator).len() as int,
        ) == text,
{
    lemma_split_join(text, separator, 0);
    assert(text.subrange(0, text.len() as int) =~= text);
}

/// A name finds no effect but the one that bears it.
pub proof fn lemma_found_by_own_name(name: Seq<u8>)
    ensures
        StyleEffect::from_name_spec(name) matches Some(effect) ==> effect.name_spec() == name,
{
}

/// Every effect is found by its name: no two effects bear the same.
pub proof fn lemma_name_finds_effect(effect: StyleEffect)
    ensures
        StyleEffect::from_name_spec(effect.name_spec()) == Some(effect),
{
    broadcast use vstd::string::is_ascii_spec_bytes;

    reveal_strlit("reset");
    assert(vstd::string::is_ascii("reset"));
    reveal_strlit("bold");
    assert(vstd::string::is_ascii("bold"));
    reveal_strlit("italic");
    assert(vstd::string::is_ascii("italic"));
    reveal_strlit("underline");
    assert(vstd::string::is_ascii("underline"));
    reveal_strlit("blink");
    assert(vstd::string::is_ascii("blink"));
    reveal_strlit("inverse");
    assert(vstd::string::is_ascii("inverse"));
    reveal_strlit("hidden");
    assert(vstd::string::is_ascii("hidden"));
    reveal_strlit("strikethrough");
    assert(vstd::string::is_ascii("strikethrough"));
    reveal_strlit("black");
    assert(vstd::string::is_ascii("black"));
    reveal_strlit("red");
    assert(vstd::string::is_ascii("red"));
    reveal_strlit("green");
    assert(vstd::string::is_ascii("green"));
    reveal_strlit("yellow");
    assert(vstd::string::is_ascii("yellow"));
    reveal_strlit("blue");
    assert(vstd::string::is_ascii("blue"));
    reveal_strlit("magenta");
    assert(vstd::string::is_ascii("magenta"));
    reveal_strlit("cyan");
    assert(vstd::string::is_ascii("cyan"));
    reveal_strlit("white");
    assert(vstd::string::is_ascii("white"));
    reveal_strlit("brightblack");
    assert(vstd::string::is_ascii("brightblack"));
    reveal_strlit("brightred");
    assert(vstd::string::is_ascii("brightred"));
    reveal_strlit("brightgreen");
    assert(vstd::string::is_ascii("brightgreen"));
    reveal_strlit("brightyellow");
    assert(vstd::string::is_ascii("brightyellow"));
    reveal_strlit("brightblue");
    assert(vstd::string::is_ascii("brightblue"));
    reveal_strlit("brightmagenta");
    assert(vstd::string::is_ascii("brightmagenta"));
    reveal_strlit("brightcyan");
    assert(vstd::string::is_ascii("brightcyan"));
    reveal_strlit("brightwhite");
    assert(vstd::string::is_ascii("brightwhite"));
    reveal_strlit("blackbackground");
    assert(vstd::string::is_ascii("blackbackground"));
    reveal_strlit("redbackground");
    assert(vstd::string::is_ascii("redbackground"));
    reveal_strlit("greenbackground");
    assert(vstd::string::is_ascii("greenbackground"));
    reveal_strlit("yellowbackground");
    assert(vstd::string::is_ascii("yellowbackground"));
    reveal_strlit("bluebackground");
    assert(vstd::string::is_ascii("bluebackground"));
    reveal_strlit("magentabackground");
    assert(vstd::string::is_ascii("magentabackground"));
    reveal_strlit("cyanbackground");
    assert(vstd::string::is_ascii("cyanbackground"));
    reveal_strlit("whitebackground");
    assert(vstd::string::is_ascii("whitebackground"));
    reveal_strlit("brightblackbackground");
    assert(vstd::string::is_ascii("brightblackbackground"));
    reveal_strlit("brightredbackground");
    assert(vstd::string::is_ascii("brightredbackground"));
    reveal_strlit("brightgreenbackground");
    assert(vstd::string::is_ascii("brightgreenbackground"));
    reveal_strlit("brightyellowbackground");
    assert(vstd::string::is_ascii("brightyellowbackground"));
    reveal_strlit("brightbluebackground");
    assert(vstd::string::is_ascii("brightbluebackground"));
    reveal_strlit("brightmagentabackground");
    assert(vstd::string::is_ascii("brightmagentabackground"));
    reveal_strlit("brightcyanbackground");
    assert(vstd::string::is_ascii("brightcyanbackground"));
    reveal_strlit("brightwhitebackground");
    assert(vstd::string::is_ascii("brightwhitebackground"));
    match effect {
        StyleEffect::Reset => {},
        StyleEffect::Bold => {},
        StyleEffect::Italic => {},
        StyleEffect::Underline => {},
        StyleEffect::Blink => {
            assert("reset".spec_bytes()[0] != "blink".spec_bytes()[0]);
        },
        StyleEffect::Inverse => {},
        StyleEffect::Hidden => {
            assert("italic".spec_bytes()[0] != "hidden".spec_bytes()[0]);
        },
        StyleEffect::Strikethrough => {},
        StyleEffect::Black => {
            assert("reset".spec_bytes()[0] != "black".spec_bytes()[0]);
            assert("blink".spec_bytes()[2] != "black".spec_bytes()[2]);
        },
        StyleEffect::Red => {},
        StyleEffect::Green => {
            assert("reset".spec_bytes()[0] != "green".spec_bytes()[0]);
            assert("blink".spec_bytes()[0] != "green".spec_bytes()[0]);
            assert("black".spec_bytes()[0] != "green".spec_bytes()[0]);
        },
        StyleEffect::Yellow => {
            assert("italic".spec_bytes()[0] != "yellow".spec_bytes()[0]);
            assert("hidden".spec_bytes()[0] != "yellow".spec_bytes()[0]);
        },
        StyleEffect::Blue => {
            assert("bold".spec_bytes()[1] != "blue".spec_bytes()[1]);
        },
        StyleEffect::Magenta => {
            assert("inverse".spec_bytes()[0] != "magenta".spec_bytes()[0]);
        },
        StyleEffect::Cyan => {
            assert("bold".spec_bytes()[0] != "cyan".spec_bytes()[0]);
            assert("blue".spec_bytes()[0] != "cyan".spec_bytes()[0]);
        },
        StyleEffect::White => {
            assert("reset".spec_bytes()[0] != "white".spec_bytes()[0]);
            assert("blink".spec_bytes()[0] != "white".spec_bytes()[0]);
            assert("black".spec_bytes()[0] != "white".spec_bytes()[0]);
            assert("green".spec_bytes()[0] != "white".spec_bytes()[0]);
        },
        StyleEffect::BrightBlack => {},
        StyleEffect::BrightRed => {
            assert("underline".spec_bytes()[0] != "brightred".spec_bytes()[0]);
        },
        StyleEffect::BrightGreen => {
            assert("brightblack".spec_bytes()[6] != "brightgreen".spec_bytes()[6]);
        },
        StyleEffect::BrightYellow => {},
        StyleEffect::BrightBlue => {},
        StyleEffect::BrightMagenta => {
            assert("strikethrough".spec_bytes()[0] != "brightmagenta".spec_bytes()[0]);
        },
        StyleEffect::BrightCyan => {
            assert("brightblue".spec_bytes()[6] != "brightcyan".spec_bytes()[6]);
        },
        StyleEffect::BrightWhite => {
            assert("brightblack".spec_bytes()[6] != "brightwhite".spec_bytes()[6]);
            assert("brightgreen".spec_bytes()[6] != "brightwhite".spec_bytes()[6]);
        },
        StyleEffect::BlackBackground => {},
        StyleEffect::RedBackground => {
            assert("strikethrough".spec_bytes()[0] != "redbackground".spec_bytes()[0]);
            assert("brightmagenta".spec_bytes()[0] != "redbackground".spec_bytes()[0]);
        },
        StyleEffect::GreenBackground => {
            assert("blackbackground".spec_bytes()[0] != "greenbackground".spec_bytes()[0]);
        },
        StyleEffect::YellowBackground => {},
        StyleEffect::BlueBackground => {},
        StyleEffect::MagentaBackground => {},
        StyleEffect::CyanBackground => {
            assert("bluebackground".spec_bytes()[0] != "cyanbackground".spec_bytes()[0]);
        },
        StyleEffect::WhiteBackground => {
            assert("blackbackground".spec_bytes()[0] != "whitebackground".spec_bytes()[0]);
            assert("greenbackground".spec_bytes()[0] != "whitebackground".spec_bytes()[0]);
        },
        StyleEffect::BrightBlackBackground => {},
        StyleEffect::BrightRedBackground => {},
        StyleEffect::BrightGreenBackground => {
            assert("brightblackbackground".spec_bytes()[6] != "brightgreenbackground".spec_bytes()[6]);
        },
        StyleEffect::BrightYellowBackground => {},
        StyleEffect::BrightBlueBackground => {},
        StyleEffect::BrightMagentaBackground => {},
        StyleEffect::BrightCyanBackground => {
            assert("brightbluebackground".spec_bytes()[6] != "brightcyanbackground".spec_bytes()[6]);
        },
        StyleEffect::BrightWhiteBackground => {
            assert("brightblackbackground".spec_bytes()[6] != "brightwhitebackground".spec_bytes()[6]);
            assert("brightgreenbackground".spec_bytes()[6] != "brightwhitebackground".spec_bytes()[6]);
        },
    }
}

/// Two parts without escape bytes make a whole without them.
pub proof fn lemma_plain_concat(a: Seq<u8>, b: Seq<u8>)
    requires
        is_plain(a),
        is_plain(b),
    ensures
        is_plain(a + b),
{
    assert forall|i: int| 0 <= i < (a + b).len() implies (a + b)[i] != crate::bytes::ESC by {
        if i < a.len() {
            assert((a + b)[i] == a[i]);
        } else {
            assert((a + b)[i] == b[i - a.len()]);
        }
    }
}

/// A rendering holds no escape byte, if it is one.
pub open spec fn plain_rendering(rendering: Rendering) -> bool {
    match rendering {
        Ok(bytes) => is_plain(bytes),
        Err(_) => true,
    }
}

/// From any position on, stripping a text without escape bytes leaves none.
pub proof fn lemma_stripped_from_is_plain(
    text: Seq<u8>,
    at: int,
    active: Seq<StyleEffect>,
    debug: bool,
    depth: nat,
)
    requires
        is_plain(text),
        0 <= at,
    ensures
        plain_rendering(render_from(text, at, active, false, debug, depth)),
    decreases depth, text.len() - at,
{
    if at < text.len() && text.len() <= usize::MAX {
        let segment = segment_at(text, at, debug && depth > 0, depth > 0);
        let next = at + segment.spec_width();
        let open = active_after(segment, active);
        lemma_segment_bounds(text, at, debug && depth > 0, depth > 0);
        lemma_segment_nesting(text, at, debug && depth > 0, depth > 0);
        lemma_render_step(text, at, active, false, debug, depth);
        lemma_stripped_from_is_plain(text, next, open, debug, depth);
        let rest = render_from(text, next, open, false, debug, depth);
        if failure_of(segment, active).is_none() && rest.is_ok() {
            match nested_markup(text, at, segment) {
                Some((markup, baseline)) => {
                    match segment {
                        Segment::Token { token, .. } => {
                            lemma_banner_plain(token);
                        },
                        Segment::Highlight { width } => {
                            lemma_highlight_plain(text.subrange(at + 2, at + width - 2));
                        },
                        _ => {},
                    }
                    lemma_stripped_is_plain(markup, baseline, debug, (depth - 1) as nat);
                    let piece = render_text(markup, baseline, false, debug, (depth - 1) as nat);
                    if piece.is_ok() {
                        lemma_plain_concat(piece.unwrap(), rest.unwrap());
                    }
                },
                None => {
                    lemma_piece_visible(text, at, segment, active);
                    let piece = piece_of(text, at, segment, active, false);
                    assert(is_plain(piece)) by {
                        reveal_strlit(" # ");
                        broadcast use vstd::string::is_ascii_spec_bytes;

                        assert(vstd::string::is_ascii(" # "));
                        match segment {
                            Segment::HeaderOpen { .. } => {
                                assert(piece =~= header_marker());
                            },
                            Segment::HeaderClose { .. } => {
                                assert(piece =~= seq![SPACE]);
                            },
                            _ => {},
                        }
                    }
                    lemma_plain_concat(piece, rest.unwrap());
                },
            }
        }
    }
}

/// Stripping a text without escape bytes leaves none: the visible text of
/// markup that holds no escape sequence holds none either.
pub proof fn lemma_stripped_is_plain(
    text: Seq<u8>,
    baseline: Seq<StyleEffect>,
    debug: bool,
    depth: nat,
)
    requires
        is_plain(text),
    ensures
        plain_rendering(render_text(text, baseline, false, debug, depth)),
    decreases depth, text.len() + 1,
{
    if text.len() > 0 {
        lemma_stripped_from_is_plain(text, 0, baseline, debug, depth);
        let rest = render_from(text, 0, baseline, false, debug, depth);
        if rest.is_ok() {
            assert(Seq::<u8>::empty() + rest.unwrap() =~= rest.unwrap());
        }
    }
}

} // verus!
