use mdq::query::error::{ErrorVariant, GrammarError, InnerParseError, ParseError};
use mdq::query::rules::{rule_to_string, Rule};
use mdq::query::selector::{ListItemTask, Selector, SelectorSpec, TextMatcher};

const CATALOG_HEADS: [&str; 10] = [
    "Use # for sections",
    "Use - for list items",
    "Use [] for links",
    "Use > for blockquotes",
    "Use ``` for code blocks",
    "Use +++ for front matter",
    "Use </> for HTML",
    "Use P: for paragraphs",
    "Use :-: for tables",
    "Use | to separate multiple selectors",
];

fn lit(text: &str, s: bool, e: bool) -> Option<TextMatcher> {
    Some(TextMatcher::Literal { text: text.to_string(), anchor_start: s, anchor_end: e })
}

#[test]
fn baseline_diagram() {
    let query_text = "$ ! invalid query string ! $";
    let parse_error = Selector::try_parse(query_text).expect_err("expected an error");
    let expected_error = r" --> 1:1
  |
1 | $ ! invalid query string ! $
  | ^---
  |
  = expected valid query";
    assert_eq!(parse_error.to_string(query_text), expected_error);
}

#[test]
fn enhanced_error_lists_whole_catalog() {
    let query_text = "$ ! invalid query string ! $";
    let parse_error = Selector::try_parse(query_text).expect_err("expected an error");
    assert_eq!(parse_error.failed_rule(), None);
    let output = parse_error.to_string_with_suggestions(query_text);
    assert!(output.contains("expected valid query"));
    assert!(output.contains("Suggestions:"));
    for head in CATALOG_HEADS {
        assert!(output.contains(head), "{head}");
    }
    assert!(output.ends_with("  • Use | to separate multiple selectors (e.g., '# Section | - List item')"));
}

#[test]
fn specific_rule_hint() {
    let error = ParseError::new(InnerParseError::Pest(GrammarError {
        variant: ErrorVariant::ParsingError { positives: vec![Rule::SectionStart, Rule::ListStart] },
        position: 2,
    }));
    let query_text = "# x";
    let plain = error.to_string(query_text);
    assert!(plain.contains("= expected # or - or 1."));
    let output = error.to_string_with_suggestions(query_text);
    assert_eq!(output, format!("{plain}\n\nExpected: `#`"));
    assert!(!output.contains("Suggestions:"));
}

#[test]
fn renamed_grammar_error_names_no_rule() {
    let g = GrammarError {
        variant: ErrorVariant::ParsingError {
            positives: vec![Rule::Asterisk, Rule::QuotedString, Rule::Regex],
        },
        position: 0,
    };
    let renamed = g.renamed();
    assert_eq!(
        renamed.variant,
        ErrorVariant::CustomError { message: "expected *, quoted string, or regex".to_string() }
    );
    let empty = GrammarError { variant: ErrorVariant::ParsingError { positives: vec![] }, position: 0 };
    assert_eq!(
        empty.renamed().variant,
        ErrorVariant::CustomError { message: "unknown parsing error".to_string() }
    );
}

#[test]
fn every_rule_has_a_description() {
    let rules = [
        Rule::Eoi, Rule::Whitespace, Rule::Top, Rule::SelectorChain, Rule::Selector,
        Rule::SelectorDelim, Rule::ExplicitSpace, Rule::SelectSection, Rule::SectionStart,
        Rule::SelectListItem, Rule::ListStart, Rule::ListOrdered, Rule::ListTaskOptions,
        Rule::TaskChecked, Rule::TaskUnchecked, Rule::TaskEither, Rule::TaskEnd, Rule::SelectLink,
        Rule::LinkTextEnd, Rule::LinkUrlEnd, Rule::LinkStart, Rule::ImageStart,
        Rule::SelectBlockQuote, Rule::SelectBlockQuoteStart, Rule::SelectCodeBlock,
        Rule::CodeBlockStart, Rule::SelectFrontMatter, Rule::FrontMatterStart, Rule::SelectHtml,
        Rule::HtmlStart, Rule::SelectParagraph, Rule::SelectParagraphStart, Rule::SelectTable,
        Rule::TableStart, Rule::Text, Rule::UnquotedString, Rule::Regex, Rule::RegexChar,
        Rule::RegexEscapedSlash, Rule::RegexNormalChar, Rule::RegexReplacementSegment,
        Rule::QuotedString, Rule::QuotedChar, Rule::Asterisk, Rule::AnchorStart, Rule::AnchorEnd,
        Rule::QuotedPlainChars, Rule::EscapedChar, Rule::UnicodeSeq,
    ];
    for r in rules {
        assert!(!rule_to_string(&r).is_empty());
    }
    assert_eq!(rule_to_string(&Rule::Top), "valid query");
    assert_eq!(rule_to_string(&Rule::SelectorChain), "one or more selectors");
    assert_eq!(rule_to_string(&Rule::ListStart), "- or 1.");
}

#[test]
fn parses_each_selector_kind() {
    let sel = Selector::try_parse("# Sec | - [x] done | 1. first | [text](url) | ![alt] | > quote | ```rust | +++ toml | </> <div> | P: para | :-: col").unwrap();
    assert_eq!(sel.specs, vec![
        SelectorSpec::Section { title: lit("Sec", false, false) },
        SelectorSpec::ListItem { ordered: false, task: ListItemTask::Selected, text: lit("done", false, false) },
        SelectorSpec::ListItem { ordered: true, task: ListItemTask::Unqualified, text: lit("first", false, false) },
        SelectorSpec::Link { image: false, text: lit("text", false, false), url: lit("url", false, false) },
        SelectorSpec::Link { image: true, text: lit("alt", false, false), url: None },
        SelectorSpec::BlockQuote { text: lit("quote", false, false) },
        SelectorSpec::CodeBlock { language: lit("rust", false, false) },
        SelectorSpec::FrontMatter { variant: lit("toml", false, false) },
        SelectorSpec::Html { text: lit("<div>", false, false) },
        SelectorSpec::Paragraph { text: lit("para", false, false) },
        SelectorSpec::Table { text: lit("col", false, false) },
    ]);
}

#[test]
fn parses_text_matchers() {
    let sel = Selector::try_parse(r#"# * | # ^start | # end$ | # "a \"q\" \u{e9}" | - [ ] /a\/b/c/ | - [?]"#).unwrap();
    assert_eq!(sel.specs, vec![
        SelectorSpec::Section { title: None },
        SelectorSpec::Section { title: lit("start", true, false) },
        SelectorSpec::Section { title: lit("end", false, true) },
        SelectorSpec::Section { title: lit("a \"q\" é", false, false) },
        SelectorSpec::ListItem {
            ordered: false,
            task: ListItemTask::Unselected,
            text: Some(TextMatcher::Regex { pattern: "a/b".to_string(), replacement: Some("c".to_string()) }),
        },
        SelectorSpec::ListItem { ordered: false, task: ListItemTask::Either, text: None },
    ]);
}

#[test]
fn grammar_errors() {
    let cases = [
        ("", " --> 1:1"),
        ("#x", "= expected space"),
        ("# a |", "= expected selector"),
        ("- [y] z", "= expected [ ], [x], or [?]"),
        ("- [x z", "= expected ]"),
        ("# \"open", "= expected character in quoted string"),
        ("# \"a\" b", "= expected space or end of input"),
        ("[text", "= expected ]"),
        ("[a](b", "= expected )"),
        ("# /abc", "= expected regex character"),
        ("# \"\\q\"", "= expected escape sequence"),
        ("# \"\\u{zz}\"", "= expected unicode sequence"),
    ];
    for (query, expected) in cases {
        let e = Selector::try_parse(query).expect_err(query);
        assert_eq!(e.failed_rule(), None);
        let text = e.to_string(query);
        assert!(text.contains(expected), "{query}: {text}");
        assert!(e.to_string_with_suggestions(query).contains("Suggestions:"));
    }
}

#[test]
fn invalid_regex_is_a_semantic_error() {
    let query = "# /[/";
    let e = Selector::try_parse(query).expect_err("invalid regex");
    assert!(matches!(e.inner, InnerParseError::Other(_, _)));
    let text = e.to_string(query);
    assert!(text.contains("= invalid regex"), "{text}");
    assert!(text.contains("^-^"), "{text}");
    let enhanced = e.to_string_with_suggestions(query);
    assert!(enhanced.starts_with(&text));
    assert!(enhanced.contains("Suggestions:"));
    assert_eq!(e.to_string_with_suggestions("#"), "invalid regex");
}

#[test]
fn invalid_code_point_is_a_semantic_error() {
    let query = r#"# "\u{d800}""#;
    let e = Selector::try_parse(query).expect_err("surrogate");
    assert!(e.to_string(query).contains("invalid unicode code point"));
}

#[test]
fn error_position_counts_bytes() {
    let query = "# é |x";
    let e = Selector::try_parse(query).expect_err("bad second selector");
    assert!(e.to_string(query).starts_with(" --> 1:6"), "{}", e.to_string(query));
    assert!(matches!(e.inner, InnerParseError::Pest(GrammarError { position: 6, .. })));
}
