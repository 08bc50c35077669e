use styled_text::help::{
    colorizer, entry_spacing, generate_tag, operation_name, page_spacing, suggest, ArgumentType,
    Command,
    CommandType, SPACING,
};
use styled_text::{StyleEffect, StyledText};

#[test]
fn command_types_have_names_and_colors() {
    let flag = CommandType::Flag { short: 'H', long: "help".to_string() };
    assert_eq!(flag.name(), "help");
    assert_eq!(flag.to_color(), "magenta");
    assert_eq!(CommandType::LongFlag { long: "all".to_string() }.to_color(), "magenta");
    let operation = CommandType::Operation { name: "run".to_string() };
    assert_eq!(operation.name(), "run");
    assert_eq!(operation.color(), StyleEffect::Blue);
    assert_eq!(CommandType::Variadic { name: "...args".to_string() }.to_color(), "green");
    assert_eq!(CommandType::Other { name: "x".to_string() }.to_color(), "reset");
}

#[test]
fn builders_normalise_their_names() {
    let flag = Command::flag('v', "Verbose", "Print verbose").unwrap();
    assert!(matches!(flag.command_type(), CommandType::Flag { short: 'V', long } if long == "verbose"));
    assert_eq!(flag.about(), "Print verbose");
    assert!(flag.example().is_none());
    let option = Command::option('c', "CHANNEL", "stable", "The channel").unwrap();
    assert!(matches!(option.command_type(), CommandType::Flag { short: 'c', long } if long == "channel"));
    assert_eq!(option.example(), &Some("stable".to_string()));
    let long = Command::long_flag("Ignore-Config", "Ignore the config file").unwrap();
    assert!(matches!(long.command_type(), CommandType::LongFlag { long } if long == "ignore-config"));
    let long_option = Command::long_option("Dir", "~/x", "Where").unwrap();
    assert_eq!(long_option.example(), &Some("~/x".to_string()));
    let operation = Command::operation("Upgrade", "stable", "Upgrade").unwrap();
    assert!(matches!(operation.command_type(), CommandType::Operation { name } if name == "upgrade"));
    let subcommand = Command::subcommand("Help", "Show this message").unwrap();
    assert!(subcommand.example().is_none());
    let variadic = Command::variadic("args", "Arguments passed to the binary");
    assert!(matches!(variadic.command_type(), CommandType::Variadic { name } if name == "...args"));
    let help = Command::help_flag();
    assert!(matches!(help.command_type(), CommandType::Flag { short: 'H', long } if long == "help"));
    assert_eq!(help.about(), "Prints this message.");
}

#[test]
fn builders_refuse_empty_names() {
    assert!(Command::flag('v', "", "x").is_none());
    assert!(Command::option('v', "", "e", "x").is_none());
    assert!(Command::long_option("", "e", "x").is_none());
    assert!(Command::long_flag("", "x").is_none());
    assert!(Command::operation("", "e", "x").is_none());
    assert!(Command::subcommand("", "x").is_none());
}

#[test]
fn operation_names_as_the_help_page_shows_them() {
    let help = Command::help_flag();
    let shown = operation_name(&help, false);
    assert_eq!(shown.to_string(), "-H<white>,</white> --help");
    assert_eq!(shown.baseline().effects(), &vec![StyleEffect::Magenta]);
    assert_eq!(shown.strip_styling(false).unwrap().to_string(), "-H, --help");
    let no_short = Command::flag(' ', "all", "Show all variables").unwrap();
    assert_eq!(operation_name(&no_short, false).to_string(), "    --all");
    let wide = Command::flag('é', "wide", "x").unwrap();
    assert_eq!(operation_name(&wide, false).to_string(), "-é<white>,</white> --wide");
    let operation = Command::subcommand("run", "Run a command").unwrap();
    let named = operation_name(&operation, false);
    assert_eq!(named.to_string(), "run");
    assert_eq!(named.baseline().effects(), &vec![StyleEffect::Blue]);
    assert!(operation_name(&operation, true).baseline().is_empty());
    let variadic = Command::variadic("args", "x");
    assert_eq!(operation_name(&variadic, false).to_string(), "...args");
}

#[test]
fn argument_types_in_a_usage_line() {
    let flags = ArgumentType::Flags.to_str_v2(false);
    assert_eq!(flags.to_string(), "...flags");
    assert_eq!(flags.baseline().effects(), &vec![StyleEffect::BrightMagenta]);
    let operand = ArgumentType::Operand { name: "binary".to_string() }.to_str_v2(false);
    assert_eq!(operand.to_string(), "binary");
    assert_eq!(operand.baseline().effects(), &vec![StyleEffect::BrightBlue]);
    let variadic = ArgumentType::Variadic { name: "args".to_string() }.to_str_v2(false);
    assert_eq!(variadic.to_string(), "[...args]");
    assert_eq!(variadic.baseline().effects(), &vec![StyleEffect::BrightGreen]);
    assert_eq!(
        variadic.render(false, false).unwrap().to_string(),
        "\u{1b}[92m[...args]\u{1b}[0m\u{1b}[0m"
    );
}

#[test]
fn tags_of_log_lines() {
    let tag = generate_tag(
        "ERROR",
        StyleEffect::Black,
        StyleEffect::BrightRed,
        StyleEffect::BlackBackground,
        false,
    );
    assert_eq!(tag.to_string(), "<black>[</black>ERROR<black>]</black>");
    assert_eq!(
        tag.baseline().effects(),
        &vec![StyleEffect::BrightRed, StyleEffect::Bold, StyleEffect::BlackBackground]
    );
    assert_eq!(tag.strip_styling(false).unwrap().to_string(), "[ERROR]");
    let plain = generate_tag("LOG", StyleEffect::Black, StyleEffect::BrightBlue, StyleEffect::BlackBackground, true);
    assert!(plain.baseline().is_empty());
}

#[test]
fn suggestions_list_the_alternatives() {
    assert_eq!(suggest("Plain", vec![]).to_string(), "Plain");
    assert_eq!(
        suggest("Old", vec!["a()"]).to_string(),
        "Old\nConsider using <magenta>a()</magenta> instead."
    );
    assert_eq!(
        suggest("Old", vec!["a()", "b()"]).to_string(),
        "Old\nConsider using <magenta>a()</magenta> or <magenta>b()</magenta> instead."
    );
    assert_eq!(
        suggest("Old", vec!["a", "b", "c", "d"]).to_string(),
        "Old\nConsider using <magenta>a</magenta>, <magenta>b</magenta>, <magenta>c</magenta> or <magenta>d</magenta> instead."
    );
}

#[test]
fn spaces_around_an_example() {
    assert_eq!(entry_spacing(24, 10, 10, Some(6)), (1, 18));
    assert_eq!(entry_spacing(24, 10, 4, Some(6)), (7, 18));
    assert_eq!(entry_spacing(24, 10, 4, None), (7, 31));
    assert_eq!(entry_spacing(24, 4, 10, None), (1, 19));
    assert_eq!(entry_spacing(24, 4, 40, None), (1, 1));
    assert_eq!(entry_spacing(24, 0, 5, Some(30)), (1, 0));
    assert_eq!(entry_spacing(0, 0, 0, None), (1, 1));
}

#[test]
fn columns_of_a_page() {
    assert_eq!(SPACING, 24);
    assert_eq!(page_spacing(&vec![]), (24, 0));
    assert_eq!(page_spacing(&vec![(10, None)]), (24, 0));
    assert_eq!(page_spacing(&vec![(30, None)]), (30, 0));
    assert_eq!(page_spacing(&vec![(10, Some(6))]), (24, 10));
    assert_eq!(page_spacing(&vec![(10, Some(20)), (12, None), (8, Some(3))]), (30, 10));
    assert_eq!(page_spacing(&vec![(8, Some(3)), (12, Some(1))]), (24, 12));
}

#[test]
fn parts_of_a_page() {
    let flag = CommandType::Flag { short: 'H', long: "help".to_string() };
    let long = CommandType::LongFlag { long: "all".to_string() };
    let operation = CommandType::Operation { name: "run".to_string() };
    let variadic = CommandType::Variadic { name: "...args".to_string() };
    let other = CommandType::Other { name: "x".to_string() };
    assert_eq!(flag.rank(), 0);
    assert_eq!(operation.rank(), 1);
    assert_eq!(long.rank(), 2);
    assert_eq!(variadic.rank(), 2);
    assert_eq!(other.rank(), 2);
    assert_eq!(flag.heading(1), "FLAG");
    assert_eq!(flag.heading(2), "FLAGS");
    assert_eq!(long.heading(3), "LONGFLAGS");
    assert_eq!(operation.heading(0), "OPERATION");
    assert_eq!(operation.heading(8), "OPERATIONS");
    assert_eq!(variadic.heading(1), "VARIADIC");
    assert_eq!(other.heading(5), "OTHER");
}

#[test]
fn colorizer_wraps_the_rendering() {
    let shown = colorizer(&StyledText::from("<bold>x</bold>"), "red", false, false).unwrap();
    assert_eq!(shown.to_string(), "<red>\u{1b}[1mx\u{1b}[0m\u{1b}[0m</red>");
    let plain = colorizer(&StyledText::from("x"), "red", true, false).unwrap();
    assert_eq!(plain.to_string(), "<red>x</red>");
    let blank = colorizer(&StyledText::from(" \t"), "red", false, false).unwrap();
    assert_eq!(blank.to_string(), " \t");
    let empty = colorizer(&StyledText::from(""), "red", false, false).unwrap();
    assert!(empty.is_empty());
    assert!(colorizer(&StyledText::from("</bold>"), "red", false, false).is_err());
}
