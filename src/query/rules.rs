//! The rules of the selector grammar and their human-readable descriptions.
use vstd::prelude::*;

verus! {

/// A rule of the selector grammar, as reported in parse errors.
#[derive(Clone, Copy, Debug, PartialEq, Eq, Structural, Hash, PartialOrd, Ord)]
pub enum Rule {
    Eoi,
    Whitespace,
    Top,
    SelectorChain,
    Selector,
    SelectorDelim,
    ExplicitSpace,
    SelectSection,
    SectionStart,
    SelectListItem,
    ListStart,
    ListOrdered,
    ListTaskOptions,
    TaskChecked,
    TaskUnchecked,
    TaskEither,
    TaskEnd,
    SelectLink,
    LinkTextEnd,
    LinkUrlEnd,
    LinkStart,
    ImageStart,
    SelectBlockQuote,
    SelectBlockQuoteStart,
    SelectCodeBlock,
    CodeBlockStart,
    SelectFrontMatter,
    FrontMatterStart,
    SelectHtml,
    HtmlStart,
    SelectParagraph,
    SelectParagraphStart,
    SelectTable,
    TableStart,
    Text,
    UnquotedString,
    Regex,
    RegexChar,
    RegexEscapedSlash,
    RegexNormalChar,
    RegexReplacementSegment,
    QuotedString,
    QuotedChar,
    Asterisk,
    AnchorStart,
    AnchorEnd,
    QuotedPlainChars,
    EscapedChar,
    UnicodeSeq,
}

/// The description of each rule, as shown to a user.
pub open spec fn rule_description(rule: Rule) -> Seq<char> {
    match rule {
        Rule::Eoi => "end of input"@,
        Rule::Whitespace => "whitespace"@,
        Rule::Top => "valid query"@,
        Rule::SelectorChain => "one or more selectors"@,
        Rule::Selector => "selector"@,
        Rule::SelectorDelim | Rule::ExplicitSpace => "space"@,
        Rule::SelectSection | Rule::SectionStart => "#"@,
        Rule::SelectListItem | Rule::ListStart => "- or 1."@,
        Rule::ListOrdered => "-"@,
        Rule::ListTaskOptions => "[ ], [x], or [?]"@,
        Rule::TaskChecked => "[x]"@,
        Rule::TaskUnchecked => "[ ]"@,
        Rule::TaskEither => "[?]"@,
        Rule::TaskEnd | Rule::LinkTextEnd => "]"@,
        Rule::LinkUrlEnd => ")"@,
        Rule::SelectLink | Rule::LinkStart => "[ or !["@,
        Rule::ImageStart => "!["@,
        Rule::SelectBlockQuote | Rule::SelectBlockQuoteStart => ">"@,
        Rule::SelectCodeBlock | Rule::CodeBlockStart => "```"@,
        Rule::SelectFrontMatter | Rule::FrontMatterStart => "+++"@,
        Rule::SelectHtml | Rule::HtmlStart => "</>"@,
        Rule::SelectParagraph | Rule::SelectParagraphStart => "P:"@,
        Rule::SelectTable | Rule::TableStart => ":-:"@,
        Rule::Text => "string"@,
        Rule::UnquotedString => "unquoted string"@,
        Rule::Regex => "regex"@,
        Rule::RegexChar | Rule::RegexNormalChar => "regex character"@,
        Rule::RegexEscapedSlash => "/"@,
        Rule::RegexReplacementSegment => "regex replacement"@,
        Rule::QuotedString => "quoted string"@,
        Rule::QuotedChar | Rule::QuotedPlainChars => "character in quoted string"@,
        Rule::Asterisk => "*"@,
        Rule::AnchorStart => "^"@,
        Rule::AnchorEnd => "$"@,
        Rule::EscapedChar => "escape sequence"@,
        Rule::UnicodeSeq => "unicode sequence"@,
    }
}

/// Converts a rule to its human-readable description.
pub fn rule_to_string(rule: &Rule) -> (r: &'static str)
    ensures
        r@ == rule_description(*rule),
{
    match rule {
        Rule::Eoi => "end of input",
        Rule::Whitespace => "whitespace",
        Rule::Top => "valid query",
        Rule::SelectorChain => "one or more selectors",
        Rule::Selector => "selector",
        Rule::SelectorDelim | Rule::ExplicitSpace => "space",
        Rule::SelectSection | Rule::SectionStart => "#",
        Rule::SelectListItem | Rule::ListStart => "- or 1.",
        Rule::ListOrdered => "-",
        Rule::ListTaskOptions => "[ ], [x], or [?]",
        Rule::TaskChecked => "[x]",
        Rule::TaskUnchecked => "[ ]",
        Rule::TaskEither => "[?]",
        Rule::TaskEnd | Rule::LinkTextEnd => "]",
        Rule::LinkUrlEnd => ")",
        Rule::SelectLink | Rule::LinkStart => "[ or ![",
        Rule::ImageStart => "![",
        Rule::SelectBlockQuote | Rule::SelectBlockQuoteStart => ">",
        Rule::SelectCodeBlock | Rule::CodeBlockStart => "```",
        Rule::SelectFrontMatter | Rule::FrontMatterStart => "+++",
        Rule::SelectHtml | Rule::HtmlStart => "</>",
        Rule::SelectParagraph | Rule::SelectParagraphStart => "P:",
        Rule::SelectTable | Rule::TableStart => ":-:",
        Rule::Text => "string",
        Rule::UnquotedString => "unquoted string",
        Rule::Regex => "regex",
        Rule::RegexChar | Rule::RegexNormalChar => "regex character",
        Rule::RegexEscapedSlash => "/",
        Rule::RegexReplacementSegment => "regex replacement",
        Rule::QuotedString => "quoted string",
        Rule::QuotedChar | Rule::QuotedPlainChars => "character in quoted string",
        Rule::Asterisk => "*",
        Rule::AnchorStart => "^",
        Rule::AnchorEnd => "$",
        Rule::EscapedChar => "escape sequence",
        Rule::UnicodeSeq => "unicode sequence",
    }
}

/// Every rule of the grammar has a non-empty description.
pub proof fn lemma_every_rule_described(rule: Rule)
    ensures
        rule_description(rule).len() > 0,
{
    reveal_strlit("end of input");
    reveal_strlit("whitespace");
    reveal_strlit("valid query");
    reveal_strlit("one or more selectors");
    reveal_strlit("selector");
    reveal_strlit("space");
    reveal_strlit("#");
    reveal_strlit("- or 1.");
    reveal_strlit("-");
    reveal_strlit("[ ], [x], or [?]");
    reveal_strlit("[x]");
    reveal_strlit("[ ]");
    reveal_strlit("[?]");
    reveal_strlit("]");
    reveal_strlit(")");
    reveal_strlit("[ or ![");
    reveal_strlit("![");
    reveal_strlit(">");
    reveal_strlit("```");
    reveal_strlit("+++");
    reveal_strlit("</>");
    reveal_strlit("P:");
    reveal_strlit(":-:");
    reveal_strlit("string");
    reveal_strlit("unquoted string");
    reveal_strlit("regex");
    reveal_strlit("regex character");
    reveal_strlit("/");
    reveal_strlit("regex replacement");
    reveal_strlit("quoted string");
    reveal_strlit("character in quoted string");
    reveal_strlit("*");
    reveal_strlit("^");
    reveal_strlit("$");
    reveal_strlit("escape sequence");
    reveal_strlit("unicode sequence");
}

} // verus!
