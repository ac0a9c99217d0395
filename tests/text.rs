use sit_timetable::text::{
    contains_tba, remove_dots, same_text, split_tokens, text_before_dash, trim_text,
};

#[test]
fn trims_unicode_whitespace() {
    assert_eq!(trim_text("  \u{a0}E2-01 \n"), "E2-01");
    assert_eq!(trim_text("\u{a0}\u{3000}"), "");
    assert_eq!(trim_text("a b"), "a b");
}

#[test]
fn finds_tba() {
    assert!(contains_tba("TBA"));
    assert!(contains_tba("Mo TBA 15/01/2024"));
    assert!(!contains_tba("TB A"));
    assert!(!contains_tba("tba"));
    assert!(!contains_tba(""));
}

#[test]
fn keeps_text_before_first_dash() {
    assert_eq!(text_before_dash("15/01/2024 - 30/04/2024"), "15/01/2024 ");
    assert_eq!(text_before_dash("no dash"), "no dash");
    assert_eq!(text_before_dash("-x"), "");
}

#[test]
fn removes_every_dot() {
    assert_eq!(remove_dots("Dr. A. Tan."), "Dr A Tan");
    assert_eq!(remove_dots("..."), "");
}

#[test]
fn splits_on_ascii_whitespace() {
    assert_eq!(split_tokens("  a  bc\td \n"), vec!["a", "bc", "d"]);
    assert!(split_tokens(" \t ").is_empty());
}

#[test]
fn compares_texts() {
    assert!(same_text("Quiz", "Quiz"));
    assert!(!same_text("Quiz", "quiz"));
    assert!(!same_text("Quiz", "Quizz"));
}
