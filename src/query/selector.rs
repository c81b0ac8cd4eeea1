//! Selector specifications: what one step of a query looks for.
use crate::text::regex_accepts;
use vstd::prelude::*;

verus! {

/// What a list-item selector asks of the item's checkbox.
#[derive(Clone, Copy, Debug, PartialEq, Eq, Structural, Hash)]
pub enum ListItemTask {
    /// `[x]`: a checked task item.
    Selected,
    /// `[ ]`: an unchecked task item.
    Unselected,
    /// `[?]`: any task item.
    Either,
    /// No qualifier: any item.
    Unqualified,
}

/// A test on a node's text.
#[derive(Clone, Debug, PartialEq, Eq, Hash)]
pub enum TextMatcher {
    /// Case-insensitive containment, or a prefix, suffix or whole match when anchored.
    Literal { text: String, anchor_start: bool, anchor_end: bool },
    /// A regular-expression search, with an optional replacement template.
    Regex { pattern: String, replacement: Option<String> },
}

/// One step of a query.
#[derive(Clone, Debug, PartialEq, Eq, Hash)]
pub enum SelectorSpec {
    Section { title: Option<TextMatcher> },
    ListItem { ordered: bool, task: ListItemTask, text: Option<TextMatcher> },
    Link { image: bool, text: Option<TextMatcher>, url: Option<TextMatcher> },
    BlockQuote { text: Option<TextMatcher> },
    CodeBlock { language: Option<TextMatcher> },
    FrontMatter { variant: Option<TextMatcher> },
    Html { text: Option<TextMatcher> },
    Paragraph { text: Option<TextMatcher> },
    Table { text: Option<TextMatcher> },
}

/// A parsed query: its steps, in the order they are applied.
#[derive(Clone, Debug, PartialEq, Eq, Hash)]
pub struct Selector {
    pub specs: Vec<SelectorSpec>,
}

/// Whether a matcher can run: a regular expression must compile.
pub open spec fn matcher_ok(m: Option<TextMatcher>) -> bool {
    match m {
        Some(TextMatcher::Regex { pattern, .. }) => regex_accepts(pattern@),
        _ => true,
    }
}

/// Whether every matcher of a selector specification can run.
pub open spec fn spec_ok(s: SelectorSpec) -> bool {
    match s {
        SelectorSpec::Section { title } => matcher_ok(title),
        SelectorSpec::ListItem { text, .. } => matcher_ok(text),
        SelectorSpec::Link { text, url, .. } => matcher_ok(text) && matcher_ok(url),
        SelectorSpec::BlockQuote { text } => matcher_ok(text),
        SelectorSpec::CodeBlock { language } => matcher_ok(language),
        SelectorSpec::FrontMatter { variant } => matcher_ok(variant),
        SelectorSpec::Html { text } => matcher_ok(text),
        SelectorSpec::Paragraph { text } => matcher_ok(text),
        SelectorSpec::Table { text } => matcher_ok(text),
    }
}

/// Whether a selector is a non-empty chain whose matchers can all run.
pub open spec fn chain_ok(sel: Selector) -> bool {
    sel.specs@.len() >= 1 && forall|k: int| 0 <= k < sel.specs@.len() ==> #[trigger] spec_ok(sel.specs@[k])
}

/// A text matcher, with its texts as character sequences.
pub enum MatcherView {
    Literal { text: Seq<char>, anchor_start: bool, anchor_end: bool },
    Regex { pattern: Seq<char>, replacement: Option<Seq<char>> },
}

/// A selector specification, with its matchers' texts as character sequences.
pub enum SpecView {
    Section { title: Option<MatcherView> },
    ListItem { ordered: bool, task: ListItemTask, text: Option<MatcherView> },
    Link { image: bool, text: Option<MatcherView>, url: Option<MatcherView> },
    BlockQuote { text: Option<MatcherView> },
    CodeBlock { language: Option<MatcherView> },
    FrontMatter { variant: Option<MatcherView> },
    Html { text: Option<MatcherView> },
    Paragraph { text: Option<MatcherView> },
    Table { text: Option<MatcherView> },
}

impl View for TextMatcher {
    type V = MatcherView;

    open spec fn view(&self) -> MatcherView {
        match self {
            TextMatcher::Literal { text, anchor_start, anchor_end } => MatcherView::Literal {
                text: text@,
                anchor_start: *anchor_start,
                anchor_end: *anchor_end,
            },
            TextMatcher::Regex { pattern, replacement } => MatcherView::Regex {
                pattern: pattern@,
                replacement: match replacement {
                    Some(r) => Some(r@),
                    None => None,
                },
            },
        }
    }
}

/// The view of an optional matcher.
pub open spec fn matcher_view(m: Option<TextMatcher>) -> Option<MatcherView> {
    match m {
        Some(t) => Some(t@),
        None => None,
    }
}

impl View for SelectorSpec {
    type V = SpecView;

    open spec fn view(&self) -> SpecView {
        match self {
            SelectorSpec::Section { title } => SpecView::Section { title: matcher_view(*title) },
            SelectorSpec::ListItem { ordered, task, text } => SpecView::ListItem {
                ordered: *ordered,
                task: *task,
                text: matcher_view(*text),
            },
            SelectorSpec::Link { image, text, url } => SpecView::Link {
                image: *image,
                text: matcher_view(*text),
                url: matcher_view(*url),
            },
            SelectorSpec::BlockQuote { text } => SpecView::BlockQuote { text: matcher_view(*text) },
            SelectorSpec::CodeBlock { language } => SpecView::CodeBlock {
                language: matcher_view(*language),
            },
            SelectorSpec::FrontMatter { variant } => SpecView::FrontMatter {
                variant: matcher_view(*variant),
            },
            SelectorSpec::Html { text } => SpecView::Html { text: matcher_view(*text) },
            SelectorSpec::Paragraph { text } => SpecView::Paragraph { text: matcher_view(*text) },
            SelectorSpec::Table { text } => SpecView::Table { text: matcher_view(*text) },
        }
    }
}

impl View for Selector {
    type V = Seq<SpecView>;

    open spec fn view(&self) -> Seq<SpecView> {
        self.specs@.map_values(|s: SelectorSpec| s@)
    }
}

} // verus!
