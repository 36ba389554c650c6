use shli::split::{split, ends_with_whitespace, EscapingState};

#[test]
fn parse_1() {
    let cmdline = " ";
    let state = EscapingState::process(cmdline);
    assert!(!state.single_quote);
    assert!(!state.double_quote);
    assert!(!state.backslash);
}

#[test]
fn parse_2() {
    let cmdline = "\"\"";
    let state = EscapingState::process(cmdline);
    assert!(!state.single_quote);
    assert!(!state.double_quote);
    assert!(!state.backslash);
}

#[test]
fn parse_3() {
    let cmdline = "\"";
    let state = EscapingState::process(cmdline);
    assert!(!state.single_quote);
    assert!(state.double_quote);
    assert!(!state.backslash);
}

#[test]
fn parse_4() {
    let cmdline = "\\\"";
    let state = EscapingState::process(cmdline);
    assert!(!state.single_quote);
    assert!(!state.double_quote);
    assert!(!state.backslash);
}

#[test]
fn split_whitespace() {
    let cmdline = "A B C";
    let components = &split(cmdline);
    let normative_components = &["A".to_string(), "B".to_string(), "C".to_string()];
    assert_eq!(components, normative_components);
}

#[test]
fn split_dquote_escape() {
    let cmdline = "\"A B C\"";
    let components = &split(cmdline);
    let normative_components = &["A B C".to_string()];
    assert_eq!(components, normative_components);
}

#[test]
fn split_quote_escape() {
    let cmdline = "\'A B C\'";
    let components = &split(cmdline);
    let normative_components = &["A B C".to_string()];
    assert_eq!(components, normative_components);
}

#[test]
fn split_backslash_escape() {
    let cmdline = "A\\ B C";
    let components = &split(cmdline);
    let normative_components = &["A B".to_string(), "C".to_string()];
    assert_eq!(components, normative_components);
}

#[test]
fn split_alltogether() {
    let cmdline = "A \"\'\" B  \'\"\' \\\\ C";
    let components = &split(cmdline);
    let normative_components = &[
        "A".to_string(),
        "\'".to_string(),
        "B".to_string(),
        "\"".to_string(),
        "\\".to_string(),
        "C".to_string(),
    ];
    assert_eq!(components, normative_components);
}

#[test]
fn split_empty_input() {
    assert_eq!(split(""), Vec::<String>::new());
}

#[test]
fn split_whitespace_only_input() {
    assert_eq!(split("   \t  \n "), Vec::<String>::new());
}

#[test]
fn split_no_empty_words() {
    let components = split("  a   b  ");
    assert_eq!(components, vec!["a".to_string(), "b".to_string()]);
    for word in &components {
        assert!(!word.is_empty());
    }
}

#[test]
fn split_trailing_backslash() {
    assert_eq!(split("A\\"), vec!["A".to_string()]);
}

#[test]
fn split_join_roundtrip() {
    let cmdline = "alpha  beta\tgamma ";
    let words = split(cmdline);
    let rejoined = words.join(" ");
    assert_eq!(split(&rejoined), words);
}

#[test]
fn escaping_state_open_quote() {
    // The doc-example line: its second string is never closed, so a
    // following whitespace would still be escaped.
    let cmdline = "some_command \"some string\\\"\" \"some other string";
    let state = EscapingState::process(cmdline);
    assert!(state.whitespace_escaped());
}

#[test]
fn escaping_state_closed_line() {
    let state = EscapingState::process("some_command \"a b\" 'c d' e\\ f");
    assert!(!state.whitespace_escaped());
}

#[test]
fn escaping_state_trailing_backslash() {
    let state = EscapingState::process("A\\");
    assert!(state.whitespace_escaped());
    assert!(state.backslash);
}

#[test]
fn escaping_state_queries() {
    let inside_double = EscapingState::process("\"");
    assert!(inside_double.whitespace_escaped());
    assert!(inside_double.singlequote_escaped());
    assert!(inside_double.backslash_escaped());
    assert!(!inside_double.doublequote_escaped());
    let inside_single = EscapingState::process("'");
    assert!(inside_single.whitespace_escaped());
    assert!(inside_single.doublequote_escaped());
    assert!(!inside_single.singlequote_escaped());
    assert!(!inside_single.backslash_escaped());
}

#[test]
fn escaping_state_step_by_step() {
    let mut state = EscapingState::new();
    state.step('\\');
    assert!(state.backslash);
    state.step('"');
    // The backslash escaped the quote: no region was opened.
    assert!(!state.double_quote);
    assert!(!state.backslash);
}

#[test]
fn ends_with_whitespace_cases() {
    assert!(!ends_with_whitespace(""));
    assert!(!ends_with_whitespace("a"));
    assert!(ends_with_whitespace("a "));
    assert!(ends_with_whitespace("a\t"));
}
