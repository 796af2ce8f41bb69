use globmatch::{glob, GlobResult};

#[test]
fn plain_pattern_equals_text() {
    assert_eq!(glob("main.c", "main.c"), GlobResult::Matched);
    assert_eq!(glob("main.c", "main.h"), GlobResult::Unmatched);
    assert_eq!(glob("main", "main.c"), GlobResult::Unmatched);
    assert_eq!(glob("main.c", "main"), GlobResult::Unmatched);
    assert_eq!(glob("", ""), GlobResult::Matched);
    assert_eq!(glob("", "a"), GlobResult::Unmatched);
    assert_eq!(glob("a", ""), GlobResult::Unmatched);
    assert_eq!(glob("héllo", "héllo"), GlobResult::Matched);
}

#[test]
fn lone_star_matches_everything() {
    assert_eq!(glob("*", ""), GlobResult::Matched);
    assert_eq!(glob("*", "x"), GlobResult::Matched);
    assert_eq!(glob("*", "[*?\\"), GlobResult::Matched);
    assert_eq!(glob("**", ""), GlobResult::Matched);
}

#[test]
fn lone_question_mark_needs_one_code_point() {
    assert_eq!(glob("?", "😀"), GlobResult::Matched);
    assert_eq!(glob("?", "é"), GlobResult::Matched);
    assert_eq!(glob("?", "😀😀"), GlobResult::Unmatched);
    assert_eq!(glob("?", ""), GlobResult::Unmatched);
}

#[test]
fn trailing_star_keeps_matches() {
    assert_eq!(glob("main.?", "main.c"), GlobResult::Matched);
    assert_eq!(glob("main.?*", "main.c"), GlobResult::Matched);
    assert_eq!(glob("[CB]at", "Cat"), GlobResult::Matched);
    assert_eq!(glob("[CB]at*", "Cat"), GlobResult::Matched);
    assert_eq!(glob("[CB]at*", "Cats"), GlobResult::Matched);
    assert_eq!(glob("\\*", "*"), GlobResult::Matched);
    assert_eq!(glob("\\**", "*x"), GlobResult::Matched);
}

#[test]
fn range_bounds_are_inclusive() {
    assert_eq!(glob("[0-9]", "5"), GlobResult::Matched);
    assert_eq!(glob("[0-9]", "0"), GlobResult::Matched);
    assert_eq!(glob("[0-9]", "9"), GlobResult::Matched);
    assert_eq!(glob("[0-9]", "a"), GlobResult::Unmatched);
    assert_eq!(glob("[0-9]", "/"), GlobResult::Unmatched);
    assert_eq!(glob("[0-9]", ":"), GlobResult::Unmatched);
}

#[test]
fn negated_class_inverts_membership() {
    assert_eq!(glob("[!abc]", "d"), GlobResult::Matched);
    assert_eq!(glob("[!abc]", "a"), GlobResult::Unmatched);
    assert_eq!(glob("[!0-9]x", "ax"), GlobResult::Matched);
    assert_eq!(glob("[!0-9]x", "5x"), GlobResult::Unmatched);
}

#[test]
fn malformed_patterns_are_syntax_errors() {
    assert_eq!(glob("[", "a"), GlobResult::SyntaxError);
    assert_eq!(glob("[!", "a"), GlobResult::SyntaxError);
    assert_eq!(glob("[a-", "a"), GlobResult::SyntaxError);
    assert_eq!(glob("[abc", "a"), GlobResult::SyntaxError);
    assert_eq!(glob("a\\", "ab"), GlobResult::SyntaxError);
    assert_eq!(glob("*[", "abc"), GlobResult::SyntaxError);
    assert_eq!(glob("*a*[", "xaybz"), GlobResult::SyntaxError);
}

#[test]
fn syntax_error_only_where_reached() {
    assert_eq!(glob("b[", "a"), GlobResult::Unmatched);
    assert_eq!(glob("[", ""), GlobResult::Unmatched);
    assert_eq!(glob("\\", ""), GlobResult::Unmatched);
}

#[test]
fn scenario_table() {
    assert_eq!(glob("main.?", "main.c"), GlobResult::Matched);
    assert_eq!(glob("*Law*", "GrokLaw"), GlobResult::Matched);
    assert_eq!(glob("Letter[0-9]", "Letter10"), GlobResult::Unmatched);
    assert_eq!(glob("[A-Fa-f0-9]", "g"), GlobResult::Unmatched);
    assert_eq!(glob("[][!", "]"), GlobResult::SyntaxError);
    assert_eq!(glob("\\*", "*"), GlobResult::Matched);
    assert_eq!(glob("\\*", "a"), GlobResult::Unmatched);
}

#[test]
fn result_from_bool() {
    assert_eq!(GlobResult::from(true), GlobResult::Matched);
    assert_eq!(GlobResult::from(false), GlobResult::Unmatched);
}

#[test]
fn result_into_bool() {
    assert!(bool::from(GlobResult::Matched));
    assert!(bool::from(GlobResult::SyntaxError));
    assert!(!bool::from(GlobResult::Unmatched));
}

#[test]
fn result_negation() {
    assert_eq!(!GlobResult::Matched, GlobResult::Unmatched);
    assert_eq!(!GlobResult::Unmatched, GlobResult::Matched);
    assert_eq!(!GlobResult::SyntaxError, GlobResult::SyntaxError);
}

#[test]
fn result_names() {
    assert_eq!(GlobResult::Unmatched.name(), "GLOB_UNMATCHED");
    assert_eq!(GlobResult::Matched.name(), "GLOB_MATCHED");
    assert_eq!(GlobResult::SyntaxError.name(), "GLOB_SYNTAX_ERROR");
}

#[test]
fn results_compare_by_variant() {
    assert_eq!(GlobResult::Matched, GlobResult::Matched);
    assert_ne!(GlobResult::Matched, GlobResult::SyntaxError);
    assert_ne!(GlobResult::Unmatched, GlobResult::Matched);
}

#[test]
fn clean_results_are_ordered() {
    assert!(GlobResult::Unmatched < GlobResult::Matched);
}
