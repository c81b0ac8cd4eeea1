use mdq::run::{parse_query, RunOptions};

/// Parses `selectors` as a run would, and gives the message it reports.
fn run_mdq_with_options(selectors: &str, enhanced_errors: bool) -> String {
    let options = RunOptions {
        selectors: selectors.to_string(),
        enhanced_errors,
        ..Default::default()
    };
    match parse_query(&options) {
        Ok(_) => String::new(),
        Err(message) => message,
    }
}

#[test]
fn lib_test_error_exclamation_mark() {
    let error_output = run_mdq_with_options("!invalid", true);
    assert!(error_output.contains("Suggestions:"));
    assert!(error_output.contains("Use # for sections"));
}

#[test]
fn lib_test_error_invalid_hash() {
    let error_output = run_mdq_with_options("invalid#", true);
    assert!(error_output.contains("Suggestions:"));
    assert!(error_output.contains("Use # for sections"));
}

#[test]
fn lib_test_error_invalid_dash() {
    let error_output = run_mdq_with_options("invalid-", true);
    assert!(error_output.contains("Suggestions:"));
    assert!(error_output.contains("Use - for list items"));
}

#[test]
fn lib_test_error_invalid_brackets() {
    let error_output = run_mdq_with_options("invalid[]", true);
    assert!(error_output.contains("Suggestions:"));
    assert!(error_output.contains("Use [] for links"));
}

#[test]
fn lib_test_error_invalid_greater_than() {
    let error_output = run_mdq_with_options("invalid>", true);
    assert!(error_output.contains("Suggestions:"));
    assert!(error_output.contains("Use > for blockquotes"));
}

#[test]
fn lib_test_error_invalid_code_block() {
    let error_output = run_mdq_with_options("invalid```", true);
    assert!(error_output.contains("Suggestions:"));
    assert!(error_output.contains("Use ``` for code blocks"));
}

#[test]
fn lib_test_error_invalid_front_matter() {
    let error_output = run_mdq_with_options("invalid+++", true);
    assert!(error_output.contains("Suggestions:"));
    assert!(error_output.contains("Use +++ for front matter"));
}

#[test]
fn lib_test_error_invalid_html() {
    let error_output = run_mdq_with_options("invalid</>", true);
    assert!(error_output.contains("Suggestions:"));
    assert!(error_output.contains("Use </> for HTML"));
}

#[test]
fn lib_test_error_invalid_paragraph() {
    let error_output = run_mdq_with_options("invalidP:", true);
    assert!(error_output.contains("Suggestions:"));
    assert!(error_output.contains("Use P: for paragraphs"));
}

#[test]
fn lib_test_error_invalid_table() {
    let error_output = run_mdq_with_options("invalid:-:", true);
    assert!(error_output.contains("Suggestions:"));
    assert!(error_output.contains("Use :-: for tables"));
}

#[test]
fn lib_test_error_invalid_pipe() {
    let error_output = run_mdq_with_options("invalid|", true);
    assert!(error_output.contains("Suggestions:"));
    assert!(error_output.contains("Use | to separate multiple selectors"));
}

#[test]
fn lib_test_error_invalid_asterisk() {
    let error_output = run_mdq_with_options("invalid*", true);
    assert!(error_output.contains("Suggestions:"));
    assert!(error_output.contains("Use # for sections"));
}

#[test]
fn lib_test_error_invalid_caret() {
    let error_output = run_mdq_with_options("invalid^", true);
    assert!(error_output.contains("Suggestions:"));
    assert!(error_output.contains("Use # for sections"));
}

#[test]
fn lib_test_error_invalid_dollar() {
    let error_output = run_mdq_with_options("invalid$", true);
    assert!(error_output.contains("Suggestions:"));
    assert!(error_output.contains("Use # for sections"));
}

#[test]
fn lib_test_error_invalid_question() {
    let error_output = run_mdq_with_options("invalid?", true);
    assert!(error_output.contains("Suggestions:"));
    assert!(error_output.contains("Use # for sections"));
}

#[test]
fn lib_test_error_invalid_plus() {
    let error_output = run_mdq_with_options("invalid+", true);
    assert!(error_output.contains("Suggestions:"));
    assert!(error_output.contains("Use # for sections"));
}

#[test]
fn lib_test_error_at_symbol() {
    let error_output = run_mdq_with_options("@invalid", true);
    assert!(error_output.contains("Suggestions:"));
    assert!(error_output.contains("Use # for sections"));
}

#[test]
fn lib_test_error_ampersand() {
    let error_output = run_mdq_with_options("&invalid", true);
    assert!(error_output.contains("Suggestions:"));
    assert!(error_output.contains("Use # for sections"));
}

#[test]
fn lib_test_error_percent() {
    let error_output = run_mdq_with_options("%invalid", true);
    assert!(error_output.contains("Suggestions:"));
    assert!(error_output.contains("Use # for sections"));
}

#[test]
fn lib_test_error_equals() {
    let error_output = run_mdq_with_options("=invalid", true);
    assert!(error_output.contains("Suggestions:"));
    assert!(error_output.contains("Use # for sections"));
}

#[test]
fn lib_test_error_tilde() {
    let error_output = run_mdq_with_options("~invalid", true);
    assert!(error_output.contains("Suggestions:"));
    assert!(error_output.contains("Use # for sections"));
}

#[test]
fn lib_test_error_numbers_prefix() {
    let error_output = run_mdq_with_options("123invalid", true);
    assert!(error_output.contains("Suggestions:"));
    assert!(error_output.contains("Use # for sections"));
}

#[test]
fn lib_test_error_numbers_suffix() {
    let error_output = run_mdq_with_options("invalid123", true);
    assert!(error_output.contains("Suggestions:"));
    assert!(error_output.contains("Use # for sections"));
}

#[test]
fn lib_test_error_mixed_hash() {
    let error_output = run_mdq_with_options("abc#def", true);
    assert!(error_output.contains("Suggestions:"));
    assert!(error_output.contains("Use # for sections"));
}

#[test]
fn lib_test_error_mixed_dash() {
    let error_output = run_mdq_with_options("abc-123", true);
    assert!(error_output.contains("Suggestions:"));
    assert!(error_output.contains("Use - for list items"));
}

#[test]
fn lib_test_error_mixed_brackets() {
    let error_output = run_mdq_with_options("abc[123]", true);
    assert!(error_output.contains("Suggestions:"));
    assert!(error_output.contains("Use [] for links"));
}

#[test]
fn lib_test_error_mixed_greater_than() {
    let error_output = run_mdq_with_options("abc>def", true);
    assert!(error_output.contains("Suggestions:"));
    assert!(error_output.contains("Use > for blockquotes"));
}

#[test]
fn lib_test_error_mixed_code_block() {
    let error_output = run_mdq_with_options("abc```def", true);
    assert!(error_output.contains("Suggestions:"));
    assert!(error_output.contains("Use ``` for code blocks"));
}

#[test]
fn lib_test_error_mixed_front_matter() {
    let error_output = run_mdq_with_options("abc+++def", true);
    assert!(error_output.contains("Suggestions:"));
    assert!(error_output.contains("Use +++ for front matter"));
}

#[test]
fn lib_test_error_mixed_html() {
    let error_output = run_mdq_with_options("abc</>def", true);
    assert!(error_output.contains("Suggestions:"));
    assert!(error_output.contains("Use </> for HTML"));
}

#[test]
fn lib_test_error_exclamation_mixed() {
    let error_output = run_mdq_with_options("xyz!abc", true);
    assert!(error_output.contains("Suggestions:"));
    assert!(error_output.contains("Use # for sections"));
}

#[test]
fn lib_test_error_at_mixed() {
    let error_output = run_mdq_with_options("abc@xyz", true);
    assert!(error_output.contains("Suggestions:"));
    assert!(error_output.contains("Use # for sections"));
}

#[test]
fn lib_test_error_hash_mixed() {
    let error_output = run_mdq_with_options("xyz#abc", true);
    assert!(error_output.contains("Suggestions:"));
    assert!(error_output.contains("Use # for sections"));
}

#[test]
fn lib_test_error_dollar_mixed() {
    let error_output = run_mdq_with_options("abc$xyz", true);
    assert!(error_output.contains("Suggestions:"));
    assert!(error_output.contains("Use # for sections"));
}

#[test]
fn lib_test_error_percent_mixed() {
    let error_output = run_mdq_with_options("xyz%abc", true);
    assert!(error_output.contains("Suggestions:"));
    assert!(error_output.contains("Use # for sections"));
}

#[test]
fn lib_test_error_caret_mixed() {
    let error_output = run_mdq_with_options("abc^xyz", true);
    assert!(error_output.contains("Suggestions:"));
    assert!(error_output.contains("Use # for sections"));
}

#[test]
fn lib_test_error_ampersand_mixed() {
    let error_output = run_mdq_with_options("xyz&abc", true);
    assert!(error_output.contains("Suggestions:"));
    assert!(error_output.contains("Use # for sections"));
}

#[test]
fn lib_test_error_asterisk_mixed() {
    let error_output = run_mdq_with_options("abc*xyz", true);
    assert!(error_output.contains("Suggestions:"));
    assert!(error_output.contains("Use # for sections"));
}

#[test]
fn lib_test_error_parentheses() {
    let error_output = run_mdq_with_options("xyz(abc", true);
    assert!(error_output.contains("Suggestions:"));
    assert!(error_output.contains("Use # for sections"));
}

#[test]
fn lib_test_error_parentheses_close() {
    let error_output = run_mdq_with_options("abc)xyz", true);
    assert!(error_output.contains("Suggestions:"));
    assert!(error_output.contains("Use # for sections"));
}

#[test]
fn lib_test_error_brackets_open() {
    let error_output = run_mdq_with_options("xyz[abc", true);
    assert!(error_output.contains("Suggestions:"));
    assert!(error_output.contains("Use [] for links"));
}

#[test]
fn lib_test_error_brackets_close() {
    let error_output = run_mdq_with_options("abc]xyz", true);
    assert!(error_output.contains("Suggestions:"));
    assert!(error_output.contains("Use [] for links"));
}

#[test]
fn lib_test_error_braces_open() {
    let error_output = run_mdq_with_options("xyz{abc", true);
    assert!(error_output.contains("Suggestions:"));
    assert!(error_output.contains("Use # for sections"));
}

#[test]
fn lib_test_error_braces_close() {
    let error_output = run_mdq_with_options("abc}xyz", true);
    assert!(error_output.contains("Suggestions:"));
    assert!(error_output.contains("Use # for sections"));
}

#[test]
fn lib_test_error_backslash() {
    let error_output = run_mdq_with_options("xyz\\abc", true);
    assert!(error_output.contains("Suggestions:"));
    assert!(error_output.contains("Use # for sections"));
}

#[test]
fn lib_test_error_forward_slash() {
    let error_output = run_mdq_with_options("abc/xyz", true);
    assert!(error_output.contains("Suggestions:"));
    assert!(error_output.contains("Use # for sections"));
}

#[test]
fn lib_test_error_pipe_mixed() {
    let error_output = run_mdq_with_options("xyz|abc", true);
    assert!(error_output.contains("Suggestions:"));
    assert!(error_output.contains("Use | to separate multiple selectors"));
}

#[test]
fn lib_test_error_tilde_mixed() {
    let error_output = run_mdq_with_options("abc~xyz", true);
    assert!(error_output.contains("Suggestions:"));
    assert!(error_output.contains("Use # for sections"));
}

#[test]
fn lib_test_error_backtick() {
    let error_output = run_mdq_with_options("xyz`abc", true);
    assert!(error_output.contains("Suggestions:"));
    assert!(error_output.contains("Use # for sections"));
}

#[test]
fn lib_test_error_single_quote() {
    let error_output = run_mdq_with_options("abc'xyz", true);
    assert!(error_output.contains("Suggestions:"));
    assert!(error_output.contains("Use # for sections"));
}

#[test]
fn lib_test_error_double_quote() {
    let error_output = run_mdq_with_options("xyz\"abc", true);
    assert!(error_output.contains("Suggestions:"));
    assert!(error_output.contains("Use # for sections"));
}

#[test]
fn lib_test_error_semicolon() {
    let error_output = run_mdq_with_options("abc;xyz", true);
    assert!(error_output.contains("Suggestions:"));
    assert!(error_output.contains("Use # for sections"));
}

#[test]
fn lib_test_error_colon() {
    let error_output = run_mdq_with_options("xyz:abc", true);
    assert!(error_output.contains("Suggestions:"));
    assert!(error_output.contains("Use # for sections"));
}

#[test]
fn lib_test_error_comma() {
    let error_output = run_mdq_with_options("abc,xyz", true);
    assert!(error_output.contains("Suggestions:"));
    assert!(error_output.contains("Use # for sections"));
}

#[test]
fn lib_test_error_period() {
    let error_output = run_mdq_with_options("xyz.abc", true);
    assert!(error_output.contains("Suggestions:"));
    assert!(error_output.contains("Use # for sections"));
}

#[test]
fn lib_test_error_less_than() {
    let error_output = run_mdq_with_options("abc<xyz", true);
    assert!(error_output.contains("Suggestions:"));
    assert!(error_output.contains("Use # for sections"));
}

#[test]
fn lib_test_error_greater_than_mixed() {
    let error_output = run_mdq_with_options("xyz>abc", true);
    assert!(error_output.contains("Suggestions:"));
    assert!(error_output.contains("Use > for blockquotes"));
}

#[test]
fn lib_test_error_equals_mixed() {
    let error_output = run_mdq_with_options("abc=xyz", true);
    assert!(error_output.contains("Suggestions:"));
    assert!(error_output.contains("Use # for sections"));
}

#[test]
fn lib_test_error_plus_mixed() {
    let error_output = run_mdq_with_options("xyz+abc", true);
    assert!(error_output.contains("Suggestions:"));
    assert!(error_output.contains("Use # for sections"));
}

#[test]
fn lib_test_error_dash_mixed() {
    let error_output = run_mdq_with_options("abc-xyz", true);
    assert!(error_output.contains("Suggestions:"));
    assert!(error_output.contains("Use - for list items"));
}

#[test]
fn lib_test_error_underscore() {
    let error_output = run_mdq_with_options("xyz_abc", true);
    assert!(error_output.contains("Suggestions:"));
    assert!(error_output.contains("Use # for sections"));
}

#[test]
fn lib_test_error_hash_mixed_final() {
    let error_output = run_mdq_with_options("abc#xyz", true);
    assert!(error_output.contains("Suggestions:"));
    assert!(error_output.contains("Use # for sections"));
}
