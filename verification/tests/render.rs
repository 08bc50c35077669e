use styled_text::{MarkupError, StyleEffect, StyledText};

const BANNER: &str = "[THIS MESSAGE PREVENTS A PANIC!]";

fn render(markup: &str) -> Vec<u8> {
    StyledText::from(markup).render(false, true).unwrap().bytes().clone()
}

fn strip(markup: &str) -> Vec<u8> {
    StyledText::from(markup).strip_styling(true).unwrap().bytes().clone()
}

fn without_escapes(bytes: &[u8]) -> Vec<u8> {
    let mut out = Vec::new();
    let mut i = 0;
    while i < bytes.len() {
        if bytes[i] == 0x1b && i + 1 < bytes.len() && bytes[i + 1] == b'[' {
            let mut end = i + 2;
            while end < bytes.len() && bytes[end].is_ascii_digit() {
                end += 1;
            }
            if end > i + 2 && end < bytes.len() && bytes[end] == b'm' {
                i = end + 1;
                continue;
            }
        }
        out.push(bytes[i]);
        i += 1;
    }
    out
}

#[test]
fn bold_tag_renders_escape_text_reset_reset() {
    assert_eq!(render("<bold>x</bold>"), b"\x1b[1mx\x1b[0m\x1b[0m".to_vec());
    assert_eq!(without_escapes(&render("<bold>x</bold>")), b"x".to_vec());
}

#[test]
fn no_color_render_is_strip_styling() {
    let text = StyledText::from("<bold>x</bold>");
    let plain = text.render(true, false).unwrap();
    let stripped = text.strip_styling(false).unwrap();
    assert!(plain == stripped);
    assert_eq!(plain.bytes(), &b"x".to_vec());
    assert!(!plain.bytes().contains(&0x1b));
}

#[test]
fn doubled_brackets_are_literal() {
    assert_eq!(strip("<<tag>>"), b"<tag>".to_vec());
    assert_eq!(render("<<tag>>"), b"<tag>\x1b[0m".to_vec());
    assert_eq!(strip("a << b >> c"), b"a < b > c".to_vec());
    assert_eq!(strip("<<bold>>x<</bold>>"), b"<bold>x</bold>".to_vec());
}

#[test]
fn closing_an_unopened_tag_fails() {
    let expected = MarkupError::UnopenedClose { tag: StyleEffect::Bold, innermost: None };
    assert_eq!(StyledText::from("</bold>").render(false, false).err(), Some(expected));
    assert_eq!(StyledText::from("</bold>").strip_styling(false).err(), Some(expected));
    assert_eq!(StyledText::from("</bold>").render(true, false).err(), Some(expected));
}

#[test]
fn closing_a_closed_tag_fails_and_names_the_innermost() {
    let text = StyledText::from("<red><bold>x</bold></bold>");
    assert_eq!(
        text.render(false, false).err(),
        Some(MarkupError::UnopenedClose {
            tag: StyleEffect::Bold,
            innermost: Some(StyleEffect::Red)
        })
    );
}

#[test]
fn the_leftmost_failure_is_reported() {
    let text = StyledText::from("a</red>b</bold>");
    assert_eq!(
        text.render(false, false).err(),
        Some(MarkupError::UnopenedClose { tag: StyleEffect::Red, innermost: None })
    );
}

#[test]
fn empty_text_renders_to_nothing() {
    assert_eq!(render(""), Vec::<u8>::new());
    assert_eq!(strip(""), Vec::<u8>::new());
    let styled = StyledText::new().bold(false);
    assert!(styled.render(false, false).unwrap().is_empty());
}

#[test]
fn plain_text_ends_with_a_reset() {
    assert_eq!(render("hello"), b"hello\x1b[0m".to_vec());
    assert_eq!(strip("hello"), b"hello".to_vec());
}

#[test]
fn opening_a_tag_replays_all_open_effects() {
    assert_eq!(
        render("<bold><red>x"),
        b"\x1b[1m\x1b[1m\x1b[31mx\x1b[0m\x1b[1m\x1b[0m\x1b[0m".to_vec()
    );
}

#[test]
fn closing_a_tag_resets_and_replays_the_rest() {
    assert_eq!(
        render("<bold>a<red>b</red>c</bold>"),
        b"\x1b[1ma\x1b[1m\x1b[31mb\x1b[0m\x1b[1mc\x1b[0m\x1b[0m".to_vec()
    );
    assert_eq!(strip("<bold>a<red>b</red>c</bold>"), b"abc".to_vec());
}

#[test]
fn closing_an_outer_tag_closes_the_inner_ones() {
    assert_eq!(
        render("<bold><red>x</bold>y"),
        b"\x1b[1m\x1b[1m\x1b[31mx\x1b[0my\x1b[0m".to_vec()
    );
    let text = StyledText::from("<bold><red>x</bold>y</red>");
    assert_eq!(
        text.render(false, false).err(),
        Some(MarkupError::UnopenedClose { tag: StyleEffect::Red, innermost: None })
    );
}

#[test]
fn baseline_opens_the_rendering_and_is_unwound() {
    let text = StyledText::from("x").bold(false).push_effect(StyleEffect::Red, false);
    assert_eq!(
        text.render(false, false).unwrap().bytes(),
        &b"\x1b[1m\x1b[31mx\x1b[0m\x1b[1m\x1b[0m\x1b[0m".to_vec()
    );
    assert_eq!(text.strip_styling(false).unwrap().bytes(), &b"x".to_vec());
    assert_eq!(text.render(true, false).unwrap().bytes(), &b"x".to_vec());
}

#[test]
fn baseline_effect_can_be_closed_by_a_tag() {
    let text = StyledText::from("a</bold>b").bold(false);
    assert_eq!(text.render(false, false).unwrap().bytes(), &b"\x1b[1ma\x1b[0mb\x1b[0m".to_vec());
}

#[test]
fn unknown_tags_pass_through() {
    assert_eq!(strip("<foo>x</foo>"), b"<foo>x</foo>".to_vec());
    assert_eq!(render("<foo>x</foo>"), b"<foo>x</foo>\x1b[0m".to_vec());
    assert_eq!(strip("<Bold>x</Bold>"), b"<Bold>x</Bold>".to_vec());
    assert_eq!(strip("<>"), b"<>".to_vec());
    assert_eq!(strip("</>"), b"</>".to_vec());
    assert_eq!(strip("<h7>x</h0>"), b"<h7>x</h0>".to_vec());
}

#[test]
fn malformed_brackets_degrade() {
    assert_eq!(strip("a < b"), b"a < b".to_vec());
    assert_eq!(strip("<bold"), b"<bold".to_vec());
    assert_eq!(strip("a > b"), b"a  b".to_vec());
    assert_eq!(strip("a>"), b"a".to_vec());
}

#[test]
fn header_pushes_a_background_and_a_marker() {
    assert_eq!(strip("<h1>Title</h1>"), b" # Title ".to_vec());
    assert_eq!(render("<h1>Title</h1>"), b"\x1b[45m # Title \x1b[0m\x1b[0m".to_vec());
    assert_eq!(strip("<h6>T</h6>"), b" # T ".to_vec());
    assert_eq!(strip("</h2>"), b" ".to_vec());
    assert_eq!(render("</h2>"), b" \x1b[0m\x1b[0m".to_vec());
    assert_eq!(
        render("<bold><h3>T</h3>x</bold>"),
        b"\x1b[1m\x1b[1m\x1b[45m # T \x1b[0m\x1b[1mx\x1b[0m\x1b[0m".to_vec()
    );
}

#[test]
fn highlight_is_rendered_as_a_text_of_its_own() {
    let base = "\x1b[103m\x1b[30m\x1b[1m";
    let border = format!("{base}\x1b[93m==\x1b[0m{base}");
    let unwound = "\x1b[0m\x1b[103m\x1b[30m\x1b[0m\x1b[103m\x1b[0m\x1b[0m";
    let expected = format!("a {base}{border}hi{border}{unwound} b\x1b[0m");
    assert_eq!(render("a ==hi== b"), expected.into_bytes());
    assert_eq!(strip("a ==hi== b"), b"a ==hi== b".to_vec());
    assert_eq!(strip("===a=="), b"===a==".to_vec());
    assert_eq!(strip("===="), b"====".to_vec());
}

#[test]
fn unterminated_highlight_is_literal() {
    assert_eq!(strip("a == b"), b"a == b".to_vec());
    assert_eq!(render("a == b"), b"a == b\x1b[0m".to_vec());
    assert_eq!(strip("==a<bold>b</bold>=="), b"==ab==".to_vec());
    assert_eq!(render("=="), b"==\x1b[0m".to_vec());
    assert_eq!(strip("a = b"), b"a = b".to_vec());
}

#[test]
fn tokens_resolve_in_debug_only() {
    assert_eq!(strip("a :preventspanic: b"), format!("a {BANNER} b").into_bytes());
    assert_eq!(strip("$preventspanic now"), format!("{BANNER} now").into_bytes());
    assert_eq!(strip("<bold>$preventspanic</bold>"), BANNER.as_bytes().to_vec());
    let text = StyledText::from("a :preventspanic: $preventspanic");
    assert_eq!(
        text.strip_styling(false).unwrap().bytes(),
        &b"a :preventspanic: $preventspanic".to_vec()
    );
    assert_eq!(
        text.render(false, false).unwrap().bytes(),
        &b"a :preventspanic: $preventspanic\x1b[0m".to_vec()
    );
}

#[test]
fn token_banner_is_rendered() {
    let banner = "\x1b[41m\x1b[41m\x1b[31m[\x1b[0m\x1b[41m\x1b[41m\x1b[1mTHIS MESSAGE PREVENTS A PANIC!\x1b[0m\x1b[41m\x1b[41m\x1b[31m]\x1b[0m\x1b[41m\x1b[0m\x1b[0m";
    assert_eq!(render(":preventspanic:"), format!("{banner}\x1b[0m").into_bytes());
    assert_eq!(without_escapes(&render(":preventspanic:")), BANNER.as_bytes().to_vec());
}

#[test]
fn other_colons_and_dollars_are_literal() {
    assert_eq!(strip("a: b :: c :x: :"), b"a: b :: c :x: :".to_vec());
    assert_eq!(strip("cost$preventspanic"), b"cost$preventspanic".to_vec());
    assert_eq!(strip("$preventspanic."), b"$preventspanic.".to_vec());
    assert_eq!(strip("$PreventsPanic"), b"$PreventsPanic".to_vec());
    assert_eq!(strip("$"), b"$".to_vec());
    assert_eq!(strip(":preventspanic"), b":preventspanic".to_vec());
}

#[test]
fn highlight_holds_tokens() {
    assert_eq!(strip("==$preventspanic=="), format!("=={BANNER}==").into_bytes());
}

#[test]
fn visible_part_of_rendering_is_the_stripped_text() {
    let samples = [
        "<bold>x</bold>",
        "plain",
        "<red>a<bold>b</bold>c</red> <<d>> ==e== <h1>f</h1> :preventspanic: g > h",
        "<bold><bold>x</bold>",
        "<unknown>==a<b",
        "$preventspanic ==x:preventspanic:y==",
    ];
    for sample in samples {
        assert_eq!(without_escapes(&render(sample)), strip(sample), "{sample}");
        let based = StyledText::from(sample).italic(false).underline(false);
        assert_eq!(
            without_escapes(based.render(false, true).unwrap().bytes()),
            based.strip_styling(true).unwrap().bytes().clone(),
            "{sample}"
        );
    }
}

#[test]
fn rendering_does_not_change_the_text() {
    let text = StyledText::from("<bold>x</bold>").bold(false);
    let first = text.render(false, false).unwrap();
    let second = text.render(false, false).unwrap();
    assert!(first == second);
    assert_eq!(text.bytes(), &b"<bold>x</bold>".to_vec());
    assert!(first.baseline().is_empty());
}

#[test]
fn markup_error_is_comparable() {
    let a = MarkupError::UnopenedClose { tag: StyleEffect::Bold, innermost: None };
    let b = MarkupError::UnopenedClose { tag: StyleEffect::Bold, innermost: Some(StyleEffect::Red) };
    assert_ne!(a, b);
    assert_eq!(a, a.clone());
}

#[test]
fn a_repeated_opening_tag_opens_nothing_new() {
    assert_eq!(render("<bold><bold>x</bold>"), b"\x1b[1m\x1b[1mx\x1b[0m\x1b[0m".to_vec());
    let text = StyledText::from("<bold><bold>x</bold></bold>");
    assert_eq!(
        text.render(false, false).err(),
        Some(MarkupError::UnopenedClose { tag: StyleEffect::Bold, innermost: None })
    );
}

#[test]
fn reset_is_an_effect_like_any_other() {
    assert_eq!(render("<reset>x</reset>"), b"\x1b[0mx\x1b[0m\x1b[0m".to_vec());
    assert_eq!(strip("<reset>x</reset>"), b"x".to_vec());
}

#[test]
fn diagnostics_name_the_tags() {
    let lone = MarkupError::UnopenedClose { tag: StyleEffect::Bold, innermost: None };
    assert_eq!(lone.diagnostic(), b"Cannot close <</bold>> which is not open".to_vec());
    let inner = MarkupError::UnopenedClose {
        tag: StyleEffect::Bold,
        innermost: Some(StyleEffect::BrightRed),
    };
    assert_eq!(
        inner.diagnostic(),
        b"Cannot close <</bold>> as the last tag was <<brightred>>.".to_vec()
    );
    let shown = StyledText::from(inner.diagnostic()).strip_styling(false).unwrap();
    assert_eq!(
        shown.to_string(),
        "Cannot close </bold> as the last tag was <brightred>."
    );
}

#[test]
fn long_texts_render() {
    let mut markup = String::new();
    for i in 0..2000 {
        markup.push_str("<red>word ");
        markup.push_str(&i.to_string());
        markup.push_str("</red> <<x>> ==y== ");
    }
    let text = StyledText::from(markup.as_str());
    let stripped = text.strip_styling(false).unwrap();
    let rendered = text.render(false, false).unwrap();
    assert_eq!(without_escapes(rendered.bytes()), stripped.bytes().clone());
    assert!(stripped.starts_with("word 0 <x> ==y== word 1 "));
}

#[test]
fn generated_markup_renders_as_it_strips() {
    let pieces = [
        "<bold>", "</bold>", "<red>", "</red>", "<<", ">>", "==", "a", "b c", " ", "\n",
        ":preventspanic:", "$preventspanic", "<h1>", "</h1>", "<x>", "</y>", ">", "<", ":", "$",
        "=", "<brightyellowbackground>", "</brightyellowbackground>",
    ];
    let mut state: u64 = 0x2545_f491_4f6c_dd1d;
    let mut rendered_ok = 0;
    let mut failed = 0;
    for _ in 0..3000 {
        let mut markup = String::new();
        state = state.wrapping_mul(6364136223846793005).wrapping_add(1442695040888963407);
        let count = (state >> 33) % 12;
        for _ in 0..count {
            state = state.wrapping_mul(6364136223846793005).wrapping_add(1442695040888963407);
            markup.push_str(pieces[((state >> 33) % pieces.len() as u64) as usize]);
        }
        for debug in [false, true] {
            let text = StyledText::from(markup.as_str()).underline(false);
            match (text.render(false, debug), text.strip_styling(debug)) {
                (Ok(colored), Ok(bare)) => {
                    assert_eq!(&without_escapes(colored.bytes()), bare.bytes(), "{markup:?}");
                    assert!(!bare.bytes().contains(&0x1b), "{markup:?}");
                    assert!(text.render(true, debug).unwrap() == bare, "{markup:?}");
                    rendered_ok += 1;
                },
                (Err(a), Err(b)) => {
                    assert_eq!(a, b, "{markup:?}");
                    failed += 1;
                },
                _ => panic!("render and strip disagree on {markup:?}"),
            }
        }
    }
    assert!(rendered_ok > 1000);
    assert!(failed > 100);
}

#[test]
fn unclosed_brackets_are_read_in_one_pass() {
    let markup = "< a ".repeat(200_000);
    let text = StyledText::from(markup.as_str());
    let stripped = text.strip_styling(true).unwrap();
    assert_eq!(stripped.len(), markup.len());
    assert!(stripped == text);
    let colons = ": $x =a ".repeat(100_000);
    let plain = StyledText::from(colons.as_str()).strip_styling(true).unwrap();
    assert_eq!(plain.len(), colons.len());
}
