use styled_text::{EffectStack, StyleEffect};

#[test]
fn decoration_codes_are_fixed() {
    assert_eq!(StyleEffect::Reset.code(), 0);
    assert_eq!(StyleEffect::Bold.code(), 1);
    assert_eq!(StyleEffect::Italic.code(), 3);
    assert_eq!(StyleEffect::Underline.code(), 4);
    assert_eq!(StyleEffect::Blink.code(), 5);
    assert_eq!(StyleEffect::Inverse.code(), 7);
    assert_eq!(StyleEffect::Hidden.code(), 8);
    assert_eq!(StyleEffect::Strikethrough.code(), 9);
}

#[test]
fn color_codes_add_up() {
    assert_eq!(StyleEffect::Black.code(), 30);
    assert_eq!(StyleEffect::White.code(), 37);
    assert_eq!(StyleEffect::BrightRed.code(), 91);
    assert_eq!(StyleEffect::GreenBackground.code(), 42);
    assert_eq!(StyleEffect::BrightYellowBackground.code(), 103);
    assert_eq!(StyleEffect::BrightWhiteBackground.code(), 107);
    assert_eq!(StyleEffect::BrightMagenta.code(), StyleEffect::Magenta.code() + 60);
    assert_eq!(StyleEffect::CyanBackground.code(), StyleEffect::Cyan.code() + 10);
    assert_eq!(StyleEffect::BrightBlueBackground.code(), StyleEffect::Blue.code() + 70);
}

#[test]
fn escape_is_esc_bracket_code_m() {
    assert_eq!(StyleEffect::Reset.to_escape(), b"\x1b[0m".to_vec());
    assert_eq!(StyleEffect::Bold.to_escape(), b"\x1b[1m".to_vec());
    assert_eq!(StyleEffect::Red.to_escape(), b"\x1b[31m".to_vec());
    assert_eq!(StyleEffect::BrightWhiteBackground.to_escape(), b"\x1b[107m".to_vec());
}

#[test]
fn names_are_lower_case_and_case_sensitive() {
    assert_eq!(StyleEffect::from_name(b"bold"), Some(StyleEffect::Bold));
    assert_eq!(StyleEffect::from_name(b"reset"), Some(StyleEffect::Reset));
    assert_eq!(
        StyleEffect::from_name(b"brightyellowbackground"),
        Some(StyleEffect::BrightYellowBackground)
    );
    assert_eq!(StyleEffect::from_name(b"Bold"), None);
    assert_eq!(StyleEffect::from_name(b"BOLD"), None);
    assert_eq!(StyleEffect::from_name(b""), None);
    assert_eq!(StyleEffect::from_name(b"h1"), None);
    assert_eq!(StyleEffect::from_name(b"bol"), None);
}

#[test]
fn every_name_finds_its_effect() {
    let all = [
        StyleEffect::Reset,
        StyleEffect::Bold,
        StyleEffect::Italic,
        StyleEffect::Underline,
        StyleEffect::Blink,
        StyleEffect::Inverse,
        StyleEffect::Hidden,
        StyleEffect::Strikethrough,
        StyleEffect::Black,
        StyleEffect::Red,
        StyleEffect::Green,
        StyleEffect::Yellow,
        StyleEffect::Blue,
        StyleEffect::Magenta,
        StyleEffect::Cyan,
        StyleEffect::White,
        StyleEffect::BrightBlack,
        StyleEffect::BrightRed,
        StyleEffect::BrightGreen,
        StyleEffect::BrightYellow,
        StyleEffect::BrightBlue,
        StyleEffect::BrightMagenta,
        StyleEffect::BrightCyan,
        StyleEffect::BrightWhite,
        StyleEffect::BlackBackground,
        StyleEffect::RedBackground,
        StyleEffect::GreenBackground,
        StyleEffect::YellowBackground,
        StyleEffect::BlueBackground,
        StyleEffect::MagentaBackground,
        StyleEffect::CyanBackground,
        StyleEffect::WhiteBackground,
        StyleEffect::BrightBlackBackground,
        StyleEffect::BrightRedBackground,
        StyleEffect::BrightGreenBackground,
        StyleEffect::BrightYellowBackground,
        StyleEffect::BrightBlueBackground,
        StyleEffect::BrightMagentaBackground,
        StyleEffect::BrightCyanBackground,
        StyleEffect::BrightWhiteBackground,
    ];
    assert_eq!(all.len(), 40);
    for effect in all {
        assert_eq!(StyleEffect::from_name(effect.name().as_bytes()), Some(effect));
        assert_eq!(effect.name(), format!("{:?}", effect).to_lowercase());
    }
}

#[test]
fn effects_compare_by_variant() {
    assert!(StyleEffect::Reset < StyleEffect::Bold);
    assert!(StyleEffect::BrightBlack > StyleEffect::White);
    assert_ne!(StyleEffect::Red, StyleEffect::BrightRed);
}

#[test]
fn push_twice_leaves_one() {
    let mut stack = EffectStack::new();
    stack.push(StyleEffect::Bold, false);
    stack.push(StyleEffect::Bold, false);
    assert_eq!(stack.len(), 1);
    assert_eq!(stack.effects(), &vec![StyleEffect::Bold]);
}

#[test]
fn push_keeps_repeats_that_are_apart() {
    let mut stack = EffectStack::new();
    stack.push(StyleEffect::Bold, false);
    stack.push(StyleEffect::Red, false);
    stack.push(StyleEffect::Bold, false);
    assert_eq!(stack.effects(), &vec![StyleEffect::Bold, StyleEffect::Red, StyleEffect::Bold]);
}

#[test]
fn push_without_color_does_nothing() {
    let mut stack = EffectStack::new();
    stack.push(StyleEffect::Bold, true);
    assert!(stack.is_empty());
    stack.push(StyleEffect::Red, false);
    stack.push(StyleEffect::Green, true);
    assert_eq!(stack.effects(), &vec![StyleEffect::Red]);
}

#[test]
fn extend_pushes_each_in_order() {
    let mut stack = EffectStack::new();
    stack.extend(&[StyleEffect::Red, StyleEffect::Red, StyleEffect::Bold, StyleEffect::Red], false);
    assert_eq!(stack.effects(), &vec![StyleEffect::Red, StyleEffect::Bold, StyleEffect::Red]);
    stack.extend(&[StyleEffect::Blue], true);
    assert_eq!(stack.len(), 3);
    let made = EffectStack::from_effects(&[StyleEffect::Bold, StyleEffect::Bold], false);
    assert_eq!(made.effects(), &vec![StyleEffect::Bold]);
}

#[test]
fn stack_escape_sequence_runs_bottom_first() {
    let mut stack = EffectStack::new();
    assert_eq!(stack.to_escape_sequence(), Vec::<u8>::new());
    stack.push(StyleEffect::Bold, false);
    stack.push(StyleEffect::BrightRed, false);
    assert_eq!(stack.to_escape_sequence(), b"\x1b[1m\x1b[91m".to_vec());
}

#[test]
fn stack_truncate_and_position() {
    let mut stack = EffectStack::new();
    stack.extend(&[StyleEffect::Bold, StyleEffect::Red, StyleEffect::Bold, StyleEffect::Blue], false);
    assert_eq!(stack.position_of(StyleEffect::Bold), Some(2));
    assert_eq!(stack.position_of(StyleEffect::Red), Some(1));
    assert_eq!(stack.position_of(StyleEffect::Green), None);
    assert_eq!(stack.last(), Some(StyleEffect::Blue));
    stack.truncate(9);
    assert_eq!(stack.len(), 4);
    stack.truncate(1);
    assert_eq!(stack.effects(), &vec![StyleEffect::Bold]);
    let copy = stack.clone();
    stack.clear();
    assert!(stack.is_empty());
    assert_eq!(stack.last(), None);
    assert_eq!(copy.len(), 1);
    assert!(EffectStack::default().is_empty());
}
