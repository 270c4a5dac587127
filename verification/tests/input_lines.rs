use task_tracker::error::TaskError;
use task_tracker::input::{clean_line, is_affirmative, is_confirming, parse_choice, parse_id, MenuChoice};

#[test]
fn clean_line_strips_both_ends() {
    assert_eq!(clean_line("  Buy milk \n"), "Buy milk");
    assert_eq!(clean_line("\t\r\n"), "");
    assert_eq!(clean_line(""), "");
    assert_eq!(clean_line("a  b"), "a  b");
    assert_eq!(clean_line("x"), "x");
}

#[test]
fn clean_line_strips_unicode_whitespace_only() {
    assert_eq!(clean_line("\u{3000}\u{a0}назва\u{2003}\u{85}\u{1680}"), "назва");
    assert_eq!(clean_line("\u{2028}\u{2029}\u{202f}\u{205f}\u{2000}\u{200a}\u{b}\u{c}z"), "z");
    assert_eq!(clean_line("\u{200b}z\u{180e}"), "\u{200b}z\u{180e}");
    assert_eq!(clean_line("\u{feff}z"), "\u{feff}z");
    assert_eq!(clean_line("\u{1c}z\u{1f}"), "\u{1c}z\u{1f}");
}

#[test]
fn parse_id_reads_decimal_numbers() {
    assert_eq!(parse_id("42"), Ok(42));
    assert_eq!(parse_id("0"), Ok(0));
    assert_eq!(parse_id("007"), Ok(7));
    assert_eq!(parse_id("+7"), Ok(7));
    assert_eq!(parse_id("  12\n"), Ok(12));
    assert_eq!(parse_id("4294967295"), Ok(u32::MAX));
    assert_eq!(parse_id("0000000000004294967295"), Ok(u32::MAX));
}

#[test]
fn parse_id_rejects_everything_else() {
    for line in [
        "", " ", "\n", "+", "-", "-1", "-0", "++1", "+-1", "1+", "4294967296", "99999999999999999999",
        "1 2", "1_000", "1.0", "1e3", "0x10", "abc", "12a", "a12", "\u{664}\u{662}", "\u{ff11}", "так",
    ] {
        assert_eq!(parse_id(line), Err(TaskError::ParseFailure), "line {:?}", line);
    }
}

#[test]
fn parse_choice_knows_the_five_keys() {
    assert_eq!(parse_choice("1"), MenuChoice::Add);
    assert_eq!(parse_choice("2"), MenuChoice::List);
    assert_eq!(parse_choice("3"), MenuChoice::Edit);
    assert_eq!(parse_choice("4"), MenuChoice::Delete);
    assert_eq!(parse_choice("5"), MenuChoice::Exit);
    assert_eq!(parse_choice(" 3 \n"), MenuChoice::Edit);
    assert_eq!(parse_choice("5\r\n"), MenuChoice::Exit);
}

#[test]
fn parse_choice_refuses_other_input() {
    for line in ["", "\n", "0", "6", "11", "1 1", "+1", "01", "a", "exit", "\u{ff11}", "1.", "\u{200b}1"] {
        assert_eq!(parse_choice(line), MenuChoice::Invalid, "line {:?}", line);
    }
}

#[test]
fn the_confirming_word_confirms_in_any_letter_case() {
    assert!(is_affirmative("так"));
    assert!(is_affirmative("ТАК"));
    assert!(is_affirmative("Так"));
    assert!(is_affirmative("тАк"));
}

#[test]
fn other_words_do_not_confirm() {
    for word in ["", "ні", "та", "такк", "так ", " так", "tak", "TAK", "yes", "y", "1", "т а к"] {
        assert!(!is_affirmative(word), "word {:?}", word);
    }
}

#[test]
fn is_confirming_looks_at_both_forms() {
    assert!(is_confirming("так", "так"));
    assert!(is_confirming("ТАК", "так"));
    assert!(is_confirming("так", "anything"));
    assert!(!is_confirming("ТАК", "ТАК"));
    assert!(!is_confirming("", ""));
    assert!(!is_confirming("ні", "ні"));
}
