use styled_text::{ByteBuffer, CapacityError, InvalidUtf8, StyleEffect, StyledText};

fn text(s: &str) -> StyledText {
    StyledText::from(s)
}

fn words(list: &[&str]) -> Vec<String> {
    list.iter().map(|w| w.to_string()).collect()
}

#[test]
fn construction_keeps_the_bytes() {
    assert_eq!(text("abc").bytes(), &b"abc".to_vec());
    assert_eq!(text("abc").len(), 3);
    assert!(text("").is_empty());
    assert!(StyledText::new().is_empty());
    assert!(StyledText::default().is_empty());
    assert_eq!(StyledText::from(vec![1u8, 2]).bytes(), &vec![1u8, 2]);
    assert_eq!(StyledText::from_slice(&[9, 8]).bytes(), &vec![9u8, 8]);
    assert_eq!(StyledText::from(ByteBuffer::with_capacity(8)).buffer().capacity(), 8);
    assert_eq!(StyledText::with_capacity(5).buffer().capacity(), 5);
    assert!(text("abc").baseline().is_empty());
    assert_eq!(text("héllo").len(), 6);
}

#[test]
fn from_utf8_rejects_invalid_bytes() {
    assert_eq!(StyledText::from_utf8(b"abc".to_vec()).unwrap().bytes(), &b"abc".to_vec());
    assert_eq!(StyledText::from_utf8(vec![0xc3, 0x28]).err(), Some(InvalidUtf8));
    assert!(StyledText::from_utf8(Vec::new()).unwrap().is_empty());
    assert!(StyledText::from_utf8("héllo ✓".as_bytes().to_vec()).is_ok());
}

#[test]
fn to_string_decodes_and_falls_back_to_lossy() {
    assert_eq!(text("héllo").to_string(), "héllo");
    assert_eq!(StyledText::from(vec![0x61, 0xff, 0x62]).to_string(), "a\u{fffd}b");
    assert_eq!(text("").to_string(), "");
}

#[test]
fn equality_is_by_content() {
    assert!(text("abc") == text("abc"));
    assert!(text("abc") != text("abd"));
    assert!(text("abc").bold(false) == text("abc"));
    assert!(text("abc").to_owned() == text("abc"));
}

#[test]
fn styling_builds_a_new_baseline() {
    let plain = text("x");
    let styled = plain.bold(false).italic(false).underline(false).blink(false);
    assert!(plain.baseline().is_empty());
    assert_eq!(
        styled.baseline().effects(),
        &vec![StyleEffect::Bold, StyleEffect::Italic, StyleEffect::Underline, StyleEffect::Blink]
    );
    let more = styled.inverse(false).hidden(false).strike(false).strike(false);
    assert_eq!(more.baseline().len(), 7);
    assert_eq!(more.baseline().last(), Some(StyleEffect::Strikethrough));
    assert!(more.reset().baseline().is_empty());
    assert_eq!(more.reset().bytes(), &b"x".to_vec());
    assert!(plain.bold(true).baseline().is_empty());
    assert_eq!(plain.bold(false).bold(false).baseline().len(), 1);
}

#[test]
fn push_and_clear_work_in_place() {
    let mut built = StyledText::with_capacity(2);
    assert_eq!(built.push(b'a'), Ok(()));
    assert_eq!(built.push(b'b'), Ok(()));
    assert_eq!(built.push(b'c'), Ok(()));
    assert_eq!(built.push_str("de"), Ok(()));
    assert_eq!(built.push_slice(b"fg"), Ok(()));
    built.append(&text("h"));
    assert_eq!(built.bytes(), &b"abcdefgh".to_vec());
    built.clear();
    assert!(built.is_empty());
    assert_eq!(built.push_str(""), Ok(()));
    let failed: Result<(), CapacityError> = Err(CapacityError::Refused);
    assert!(failed.is_err());
}

#[test]
fn slice_clamps_its_bounds() {
    let t = text("Hello, World!");
    assert_eq!(t.slice(0, Some(5)).bytes(), &b"Hello".to_vec());
    assert_eq!(t.slice(7, None).bytes(), &b"World!".to_vec());
    assert_eq!(t.slice(7, Some(100)).bytes(), &b"World!".to_vec());
    assert!(t.slice(5, Some(5)).is_empty());
    assert!(t.slice(6, Some(2)).is_empty());
    assert!(t.slice(100, None).is_empty());
    assert!(t.slice(100, Some(200)).is_empty());
    assert_eq!(t.substring(1, 3).bytes(), &b"el".to_vec());
}

#[test]
fn slice_of_the_whole_is_the_text() {
    for sample in ["", "a", "Hello, World!", "<bold>x</bold>"] {
        let t = text(sample);
        assert!(t.slice(0, Some(t.len())) == t);
        assert!(t.slice(0, None) == t);
    }
    let raw = StyledText::from(vec![0xff, 0x00, 0x1b]);
    assert_eq!(raw.slice(0, Some(3)).bytes(), raw.bytes());
}

#[test]
fn split_cuts_at_each_separator() {
    let pieces = text("a,b,,c").split(",");
    let got: Vec<Vec<u8>> = pieces.iter().map(|p| p.bytes().clone()).collect();
    assert_eq!(got, vec![b"a".to_vec(), b"b".to_vec(), b"".to_vec(), b"c".to_vec()]);
    let ends = text(",a,").split(",");
    assert_eq!(ends.len(), 3);
    assert!(ends[0].is_empty() && ends[2].is_empty());
    let lines = text("one\ntwo").split("\n");
    assert_eq!(lines[1].bytes(), &b"two".to_vec());
    let wide = text("a--b--c").split("--");
    assert_eq!(wide.len(), 3);
    assert_eq!(wide[2].bytes(), &b"c".to_vec());
}

#[test]
fn split_does_not_overlap() {
    let pieces = text("aaa").split("aa");
    let got: Vec<Vec<u8>> = pieces.iter().map(|p| p.bytes().clone()).collect();
    assert_eq!(got, vec![b"".to_vec(), b"a".to_vec()]);
}

#[test]
fn split_without_the_separator_is_the_whole() {
    let pieces = text("Hello, World!").split(";");
    assert_eq!(pieces.len(), 1);
    assert!(pieces[0] == text("Hello, World!"));
    let empty = text("").split(";");
    assert_eq!(empty.len(), 1);
    assert!(empty[0].is_empty());
    let long = text("ab").split("abc");
    assert_eq!(long.len(), 1);
}

#[test]
fn pad_end_appends_the_whole_pad_once() {
    assert_eq!(text("ab").pad_end(5, "xyz").bytes(), &b"abxyz".to_vec());
    assert_eq!(text("ab").pad_end(3, "xyz").bytes(), &b"abxyz".to_vec());
    assert_eq!(text("ab").pad_end(10, "-").bytes(), &b"ab-".to_vec());
    assert_eq!(text("ab").pad_end(2, "xyz").bytes(), &b"ab".to_vec());
    assert_eq!(text("").pad_end(0, "x").len(), 0);
}

#[test]
fn pad_end_leaves_a_long_text_alone() {
    let twelve = text("abcdefghijkl").bold(false);
    let padded = twelve.pad_end(10, "ab");
    assert!(padded == twelve);
    assert_eq!(padded.len(), 12);
    assert_eq!(padded.baseline().effects(), &vec![StyleEffect::Bold]);
    assert!(text("ab").bold(false).pad_end(10, "x").baseline().is_empty());
}

#[test]
fn pad_start_prepends_the_whole_pad_once() {
    assert_eq!(text("ab").pad_start(5, "xyz").bytes(), &b"xyzab".to_vec());
    assert_eq!(text("ab").pad_start(2, "xyz").bytes(), &b"ab".to_vec());
    assert_eq!(text("abcdefghijkl").pad_start(10, "ab").len(), 12);
}

#[test]
fn trim_removes_spaces_only() {
    assert_eq!(text("  a b  ").trim().bytes(), &b"a b".to_vec());
    assert_eq!(text("  a b  ").trim_start().bytes(), &b"a b  ".to_vec());
    assert_eq!(text("  a b  ").trim_end().bytes(), &b"  a b".to_vec());
    assert_eq!(text("\t a \n").trim().bytes(), &b"\t a \n".to_vec());
    assert_eq!(text(" \ta\t ").trim().bytes(), &b"\ta\t".to_vec());
    assert!(text("    ").trim().is_empty());
    assert!(text("    ").trim_start().is_empty());
    assert!(text("    ").trim_end().is_empty());
    assert!(text("").trim().is_empty());
    assert_eq!(text("abc").trim().bytes(), &b"abc".to_vec());
}

#[test]
fn replace_changes_the_first_occurrence() {
    assert_eq!(text("a-b-c").replace("-", "+").bytes(), &b"a+b-c".to_vec());
    assert_eq!(text("a-b-c").replace("x", "+").bytes(), &b"a-b-c".to_vec());
    assert_eq!(text("a-b-c").replace("", "+").bytes(), &b"a-b-c".to_vec());
    assert_eq!(text("abc").replace("abc", "").len(), 0);
    assert_eq!(text("abc").replace("c", "cd").bytes(), &b"abcd".to_vec());
    assert_eq!(text("a").bold(false).replace("", "x").baseline().len(), 1);
    assert!(text("a").bold(false).replace("a", "x").baseline().is_empty());
}

#[test]
fn replace_all_runs_to_a_fixed_point() {
    assert_eq!(text("a-b-c").replace_all("-", "+").bytes(), &b"a+b+c".to_vec());
    assert_eq!(text("aaaa").replace_all("aa", "a").bytes(), &b"a".to_vec());
    assert_eq!(text("abab").replace_all("ab", "ba").bytes(), &b"bbaa".to_vec());
    assert_eq!(text("abc").replace_all("", "x").bytes(), &b"abc".to_vec());
    assert_eq!(text("abc").replace_all("b", "b").bytes(), &b"abc".to_vec());
    assert_eq!(text("abc").replace_all("x", "y").bytes(), &b"abc".to_vec());
}

#[test]
fn repeat_and_concat() {
    assert_eq!(text("ab").repeat(3).bytes(), &b"ababab".to_vec());
    assert!(text("ab").repeat(0).is_empty());
    assert!(text("").repeat(5).is_empty());
    let joined = text("ab").bold(false).concat(&text("cd").italic(false));
    assert_eq!(joined.bytes(), &b"abcd".to_vec());
    assert_eq!(joined.baseline().effects(), &vec![StyleEffect::Bold]);
}

#[test]
fn searching_for_bytes() {
    let t = text("Hello, World!");
    assert_eq!(t.index_of('o'), Some(4));
    assert_eq!(t.last_index_of('o'), Some(8));
    assert_eq!(t.index_of('z'), None);
    assert_eq!(t.last_index_of('z'), None);
    assert!(t.contains('W'));
    assert!(!t.contains('w'));
    assert_eq!(t.char_at(0), Some('H'));
    assert_eq!(t.char_at(12), Some('!'));
    assert_eq!(t.char_at(13), None);
    assert_eq!(StyledText::from(vec![0xe9]).char_at(0), Some('é'));
    assert_eq!(StyledText::from(vec![0x41]).index_of('\u{141}'), Some(0));
    assert_eq!(t.position("World"), Some(7));
    assert_eq!(t.position("l"), Some(2));
    assert_eq!(t.position("world"), None);
    assert_eq!(t.position("Hello, World! and more"), None);
}

#[test]
fn prefixes_and_suffixes() {
    let t = text("Hello, World!");
    assert!(t.starts_with("Hello"));
    assert!(t.starts_with(""));
    assert!(!t.starts_with("hello"));
    assert!(!t.starts_with("Hello, World! and more"));
    assert!(t.ends_with("World!"));
    assert!(t.ends_with(""));
    assert!(!t.ends_with("World"));
    assert!(!t.ends_with("Oh, Hello, World!"));
}

#[test]
fn includes_treats_blank_needles_apart() {
    let t = text("Hello, World!");
    assert!(t.includes("lo, W"));
    assert!(t.includes("Hello, World!"));
    assert!(!t.includes("xyz"));
    assert!(!t.includes(" "));
    assert!(!t.includes(""));
    assert!(!t.includes("Hello, World! and more"));
    assert!(text("").includes(""));
    assert!(text("  ").includes("  "));
    assert!(!text("a\u{a0}b").includes("\u{a0}"));
    assert!(text("a\u{a0}b").includes("a\u{a0}"));
}

#[test]
fn whitespace_and_case() {
    assert!(text(" \t\r\n\x0c").is_whitespace());
    assert!(text("").is_whitespace());
    assert!(!text(" a ").is_whitespace());
    assert!(!text("\x0b").is_whitespace());
    assert_eq!(text("Hello, WORLD! é").to_lowercase().bytes(), &"hello, world! é".as_bytes().to_vec());
    assert_eq!(text("Hello, world! é").to_uppercase().bytes(), &"HELLO, WORLD! é".as_bytes().to_vec());
    assert_eq!(text("@[`{").to_lowercase().bytes(), &b"@[`{".to_vec());
    assert_eq!(text("@[`{").to_uppercase().bytes(), &b"@[`{".to_vec());
}

#[test]
fn nearest_suggests_within_distance_two() {
    assert_eq!(text("abc").nearest(words(&["abd", "xyz"])), Some("abd".to_string()));
    assert_eq!(text("abc").nearest(words(&["xyz"])), None);
    assert_eq!(text("abc").nearest(Vec::new()), None);
    assert_eq!(text("abc").nearest(words(&["xyz", "abc"])), Some("abc".to_string()));
    assert_eq!(text("hlep").nearest(words(&["help", "version", "upgrade"])), Some("help".to_string()));
    assert_eq!(text("abc").nearest(words(&["abcde", "abcdef"])), Some("abcde".to_string()));
    assert_eq!(text("abc").nearest(words(&["abcdef"])), None);
}

#[test]
fn nearest_prefers_the_first_of_equals() {
    assert_eq!(text("abc").nearest(words(&["abd", "abe"])), Some("abd".to_string()));
    assert_eq!(text("abc").nearest(words(&["abe", "abd"])), Some("abe".to_string()));
    assert_eq!(text("a").nearest(words(&["b"])), Some("b".to_string()));
    assert_eq!(text("").nearest(words(&["ab", "abc"])), Some("ab".to_string()));
}

#[test]
fn nearest_counts_characters_not_bytes() {
    assert_eq!(text("é").nearest(words(&["abc", "e"])), Some("e".to_string()));
    assert_eq!(text("ééé").nearest(words(&["eee"])), None);
    assert_eq!(text("éé").nearest(words(&["ee"])), Some("ee".to_string()));
}

#[test]
fn text_from_its_parts() {
    let mut baseline = styled_text::EffectStack::new();
    baseline.push(StyleEffect::Red, false);
    let made = StyledText::from_parts(ByteBuffer::from(b"abc".to_vec()), baseline);
    assert_eq!(made.bytes(), &b"abc".to_vec());
    assert_eq!(made.baseline().effects(), &vec![StyleEffect::Red]);
    assert_eq!(StyledText::from("héllo".to_string()).len(), 6);
}

#[test]
fn texts_are_ordered_by_their_bytes() {
    assert!(text("abc") < text("abd"));
    assert!(text("ab") < text("abc"));
    assert!(text("b") > text("abc"));
    assert!(text("") < text("a"));
    assert!(text("abc") <= text("abc"));
    assert!(text("abc").bold(false) >= text("abc"));
    assert_eq!(text("abc").partial_cmp(&text("abc")), Some(std::cmp::Ordering::Equal));
    assert!(ByteBuffer::from(vec![1u8, 2]) < ByteBuffer::from(vec![1u8, 3]));
    assert!(ByteBuffer::from(vec![0xffu8]) > ByteBuffer::from(vec![0x7fu8, 0xff]));
}
