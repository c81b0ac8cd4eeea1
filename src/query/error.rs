//! Parse errors of the selector language, and how they are shown to a user.
use crate::query::rules::{rule_description, rule_to_string, Rule};
use crate::text::{is_infix, push_str, string_from};
use vstd::prelude::*;
use vstd::utf8::{encode_utf8, is_char_boundary};

verus! {

/// What a grammar error says: the rules that would have been accepted where
/// parsing stopped, or a message that already says it in words.
#[derive(Clone, Debug, PartialEq, Eq, Hash)]
pub enum ErrorVariant {
    ParsingError { positives: Vec<Rule> },
    CustomError { message: String },
}

/// A failure to match the grammar at a byte offset of the query.
#[derive(Clone, Debug, PartialEq, Eq, Hash)]
pub struct GrammarError {
    pub variant: ErrorVariant,
    pub position: usize,
}

/// A region of a query string, as byte offsets, held apart from the string.
#[derive(Copy, Clone, Default, Debug, PartialEq, Eq, Structural, Hash)]
pub struct DetachedSpan {
    pub start: usize,
    pub end: usize,
}

/// The two kinds of parse failure.
#[derive(Clone, Debug, PartialEq, Eq, Hash)]
pub enum InnerParseError {
    /// The query does not match the grammar.
    Pest(GrammarError),
    /// The query matches the grammar, but a part of it is invalid.
    Other(DetachedSpan, String),
}

/// An error representing an invalid selector query.
#[derive(Clone, Debug, PartialEq, Eq, Hash)]
pub struct ParseError {
    pub inner: InnerParseError,
}

/// The descriptions of `rules`, separated by commas.
pub open spec fn comma_list(rules: Seq<Rule>) -> Seq<char>
    decreases rules.len(),
{
    if rules.len() == 0 {
        Seq::empty()
    } else if rules.len() == 1 {
        rule_description(rules[0])
    } else {
        comma_list(rules.drop_last()) + ", "@ + rule_description(rules.last())
    }
}

/// The descriptions of `rules` as an English enumeration ("a", "a or b", "a, b, or c").
pub open spec fn enumeration(rules: Seq<Rule>) -> Seq<char> {
    if rules.len() == 1 {
        rule_description(rules[0])
    } else if rules.len() == 2 {
        rule_description(rules[0]) + " or "@ + rule_description(rules[1])
    } else {
        comma_list(rules.drop_last()) + ", or "@ + rule_description(rules.last())
    }
}

/// The message that names the rules expected where parsing stopped.
pub open spec fn expected_message(positives: Seq<Rule>) -> Seq<char> {
    if positives.len() == 0 {
        "unknown parsing error"@
    } else {
        "expected "@ + enumeration(positives)
    }
}

/// The message of an error variant.
pub open spec fn variant_message(v: ErrorVariant) -> Seq<char> {
    match v {
        ErrorVariant::ParsingError { positives } => expected_message(positives@),
        ErrorVariant::CustomError { message } => message@,
    }
}

/// The first rule that would have been accepted, where the error still names one.
pub open spec fn failed_rule(e: ParseError) -> Option<Rule> {
    match e.inner {
        InnerParseError::Pest(g) => match g.variant {
            ErrorVariant::ParsingError { positives } => if positives@.len() > 0 {
                Some(positives@[0])
            } else {
                None
            },
            ErrorVariant::CustomError { .. } => None,
        },
        InnerParseError::Other(..) => None,
    }
}

/// Whether byte `pos` is a character boundary of the UTF-8 encoding of `query`.
pub open spec fn pos_in(query: Seq<char>, pos: int) -> bool {
    is_char_boundary(encode_utf8(query), pos)
}

/// Whether bytes `start..end` are a region of the UTF-8 encoding of `query`.
pub open spec fn span_in(query: Seq<char>, start: int, end: int) -> bool {
    start <= end && pos_in(query, start) && pos_in(query, end)
}

/// The caret diagram that pest draws for `message` at byte `pos` of `query`.
pub uninterp spec fn diagram_at_pos(query: Seq<char>, pos: int, message: Seq<char>) -> Seq<char>;

/// The caret diagram that pest draws for `message` under bytes `start..end`
/// of `query`.
pub uninterp spec fn diagram_at_span(
    query: Seq<char>,
    start: int,
    end: int,
    message: Seq<char>,
) -> Seq<char>;

/// Relies on `pest::Position::new` and `pest::error::Error::new_from_pos` with
/// its `Display`: there is a diagram exactly where `pos` is a character
/// boundary of the query (`str::get(pos..)`), and it depends on the arguments alone.
#[verifier::external_body]
fn pest_diagram_at_pos(query: &str, pos: usize, message: &str) -> (r: Option<String>)
    ensures
        r is Some <==> pos_in(query@, pos as int),
        r matches Some(d) ==> d@ == diagram_at_pos(query@, pos as int, message@),
{
    pest::Position::new(query, pos).map(
        |p|
            pest::error::Error::<()>::new_from_pos(
                pest::error::ErrorVariant::CustomError { message: message.to_string() },
                p,
            ).to_string(),
    )
}

/// Relies on `pest::Span::new` and `pest::error::Error::new_from_span` with
/// its `Display`: there is a diagram exactly where `start..end` is a region
/// of the query (`str::get(start..end)`), and it depends on the arguments alone.
#[verifier::external_body]
fn pest_diagram_at_span(query: &str, start: usize, end: usize, message: &str) -> (r: Option<
    String,
>)
    ensures
        r is Some <==> span_in(query@, start as int, end as int),
        r matches Some(d) ==> d@ == diagram_at_span(query@, start as int, end as int, message@),
{
    pest::Span::new(query, start, end).map(
        |s|
            pest::error::Error::<()>::new_from_span(
                pest::error::ErrorVariant::CustomError { message: message.to_string() },
                s,
            ).to_string(),
    )
}

/// The plain rendering of an error against its query: its caret diagram,
/// or its bare message where its place does not lie in the query.
pub open spec fn rendered(e: ParseError, query: Seq<char>) -> Seq<char> {
    match e.inner {
        InnerParseError::Pest(g) => {
            let m = variant_message(g.variant);
            if pos_in(query, g.position as int) {
                diagram_at_pos(query, g.position as int, m)
            } else {
                m
            }
        },
        InnerParseError::Other(span, message) => if span_in(
            query,
            span.start as int,
            span.end as int,
        ) {
            diagram_at_span(query, span.start as int, span.end as int, message@)
        } else {
            message@
        },
    }
}

/// One line of the suggestion catalog.
pub open spec fn suggestion_line(head: Seq<char>, example: Seq<char>) -> Seq<char> {
    "\n  • "@ + head + example
}

/// The ten headings of the suggestion catalog.
pub open spec fn suggestion_heads() -> Seq<Seq<char>> {
    seq![
        "Use # for sections"@,
        "Use - for list items"@,
        "Use [] for links"@,
        "Use > for blockquotes"@,
        "Use ``` for code blocks"@,
        "Use +++ for front matter"@,
        "Use </> for HTML"@,
        "Use P: for paragraphs"@,
        "Use :-: for tables"@,
        "Use | to separate multiple selectors"@,
    ]
}

/// The example that follows each heading of the catalog.
pub open spec fn suggestion_examples() -> Seq<Seq<char>> {
    seq![
        " (e.g., '# My Section')"@,
        " (e.g., '- List item')"@,
        " (e.g., '[text](url)')"@,
        " (e.g., '> Quote text')"@,
        " (e.g., '```rust code')"@,
        " (e.g., '+++ toml')"@,
        " (e.g., '</> <div>')"@,
        " (e.g., 'P: paragraph text')"@,
        " (e.g., ':-: column | row')"@,
        " (e.g., '# Section | - List item')"@,
    ]
}

/// The first `n` lines of the catalog.
pub open spec fn catalog_lines(n: nat) -> Seq<char>
    decreases n,
{
    if n == 0 {
        Seq::empty()
    } else {
        catalog_lines((n - 1) as nat) + suggestion_line(
            suggestion_heads()[n - 1],
            suggestion_examples()[n - 1],
        )
    }
}

/// The fixed catalog of usage suggestions.
pub open spec fn suggestions() -> Seq<char> {
    "\n\n"@ + "Suggestions:"@ + catalog_lines(10)
}

/// The hint that names the rule that was expected.
pub open spec fn expected_hint(rule: Rule) -> Seq<char> {
    "\n\nExpected: `"@ + rule_description(rule) + "`"@
}

/// Whether the rendering falls back to the bare message: a semantic error
/// whose span does not lie in the query.
pub open spec fn is_unresolved(e: ParseError, query: Seq<char>) -> bool {
    match e.inner {
        InnerParseError::Other(span, _) => !span_in(query, span.start as int, span.end as int),
        InnerParseError::Pest(_) => false,
    }
}

/// The rendering of an error with a hint or the suggestion catalog.
pub open spec fn rendered_with_suggestions(e: ParseError, query: Seq<char>) -> Seq<char> {
    if is_unresolved(e, query) {
        rendered(e, query)
    } else {
        match failed_rule(e) {
            Some(rule) => rendered(e, query) + expected_hint(rule),
            None => rendered(e, query) + suggestions(),
        }
    }
}

/// Appends the description of each rule, separated by commas.
fn push_comma_list(out: &mut Vec<char>, rules: &Vec<Rule>, n: usize)
    requires
        n <= rules@.len(),
    ensures
        final(out)@ == old(out)@ + comma_list(rules@.subrange(0, n as int)),
    decreases n,
{
    if n == 0 {
        assert(comma_list(rules@.subrange(0, 0)) == Seq::<char>::empty());
        assert(out@ =~= old(out)@ + Seq::<char>::empty());
    } else if n == 1 {
        push_str(out, rule_to_string(&rules[0]));
        assert(rules@.subrange(0, 1)[0] == rules@[0]);
    } else {
        push_comma_list(out, rules, n - 1);
        push_str(out, ", ");
        push_str(out, rule_to_string(&rules[n - 1]));
        let ghost s = rules@.subrange(0, n as int);
        assert(s.drop_last() =~= rules@.subrange(0, n - 1));
        assert(s.last() == rules@[n - 1]);
        assert(out@ =~= old(out)@ + comma_list(s));
    }
}

/// The message of an error variant.
pub fn message_of(v: &ErrorVariant) -> (r: String)
    ensures
        r@ == variant_message(*v),
{
    match v {
        ErrorVariant::CustomError { message } => message.clone(),
        ErrorVariant::ParsingError { positives } => {
            let mut out: Vec<char> = Vec::new();
            let n = positives.len();
            if n == 0 {
                push_str(&mut out, "unknown parsing error");
            } else {
                push_str(&mut out, "expected ");
                if n == 1 {
                    push_str(&mut out, rule_to_string(&positives[0]));
                } else if n == 2 {
                    push_str(&mut out, rule_to_string(&positives[0]));
                    push_str(&mut out, " or ");
                    push_str(&mut out, rule_to_string(&positives[1]));
                } else {
                    push_comma_list(&mut out, positives, n - 1);
                    push_str(&mut out, ", or ");
                    push_str(&mut out, rule_to_string(&positives[n - 1]));
                    assert(positives@.drop_last() =~= positives@.subrange(0, n - 1));
                }
                assert(out@ =~= "expected "@ + enumeration(positives@));
            }
            string_from(out.as_slice())
        },
    }
}

fn push_line(out: &mut Vec<char>, head: &str, example: &str)
    ensures
        final(out)@ == old(out)@ + suggestion_line(head@, example@),
{
    push_str(out, "\n  • ");
    push_str(out, head);
    push_str(out, example);
    assert(out@ =~= old(out)@ + suggestion_line(head@, example@));
}

/// Appends the fixed catalog of usage suggestions.
fn push_suggestions(out: &mut Vec<char>)
    ensures
        final(out)@ == old(out)@ + suggestions(),
{
    let ghost start = out@;
    push_str(out, "\n\n");
    push_str(out, "Suggestions:");
    let ghost head = out@;
    push_line(out, "Use # for sections", " (e.g., '# My Section')");
    push_line(out, "Use - for list items", " (e.g., '- List item')");
    push_line(out, "Use [] for links", " (e.g., '[text](url)')");
    push_line(out, "Use > for blockquotes", " (e.g., '> Quote text')");
    push_line(out, "Use ``` for code blocks", " (e.g., '```rust code')");
    push_line(out, "Use +++ for front matter", " (e.g., '+++ toml')");
    push_line(out, "Use </> for HTML", " (e.g., '</> <div>')");
    push_line(out, "Use P: for paragraphs", " (e.g., 'P: paragraph text')");
    push_line(out, "Use :-: for tables", " (e.g., ':-: column | row')");
    push_line(
        out,
        "Use | to separate multiple selectors",
        " (e.g., '# Section | - List item')",
    );
    proof {
        lemma_catalog_unfolds();
    }
    assert(out@ =~= start + suggestions());
}

proof fn lemma_catalog_unfolds()
    ensures
        catalog_lines(10) == suggestion_line("Use # for sections"@, " (e.g., '# My Section')"@)
            + suggestion_line("Use - for list items"@, " (e.g., '- List item')"@)
            + suggestion_line("Use [] for links"@, " (e.g., '[text](url)')"@) + suggestion_line(
            "Use > for blockquotes"@,
            " (e.g., '> Quote text')"@,
        ) + suggestion_line("Use ``` for code blocks"@, " (e.g., '```rust code')"@)
            + suggestion_line("Use +++ for front matter"@, " (e.g., '+++ toml')"@)
            + suggestion_line("Use </> for HTML"@, " (e.g., '</> <div>')"@) + suggestion_line(
            "Use P: for paragraphs"@,
            " (e.g., 'P: paragraph text')"@,
        ) + suggestion_line("Use :-: for tables"@, " (e.g., ':-: column | row')"@)
            + suggestion_line(
            "Use | to separate multiple selectors"@,
            " (e.g., '# Section | - List item')"@,
        ),
{
    assert(catalog_lines(0) == Seq::<char>::empty());
    reveal_with_fuel(catalog_lines, 11);
    assert(Seq::<char>::empty() + suggestion_line(
        "Use # for sections"@,
        " (e.g., '# My Section')"@,
    ) =~= suggestion_line("Use # for sections"@, " (e.g., '# My Section')"@));
}

/// Appends the hint that names `rule`.
fn push_expected_hint(out: &mut Vec<char>, rule: &Rule)
    ensures
        final(out)@ == old(out)@ + expected_hint(*rule),
{
    push_str(out, "\n\nExpected: `");
    push_str(out, rule_to_string(rule));
    push_str(out, "`");
    assert(out@ =~= old(out)@ + expected_hint(*rule));
}

impl GrammarError {
    /// The same error, its rules replaced by their descriptions in a message.
    pub fn renamed(self) -> (r: GrammarError)
        ensures
            r.position == self.position,
            r.variant == (ErrorVariant::CustomError {
                message: r.variant->CustomError_message,
            }),
            r.variant->CustomError_message@ == variant_message(self.variant),
    {
        let message = message_of(&self.variant);
        GrammarError { variant: ErrorVariant::CustomError { message }, position: self.position }
    }
}

impl ParseError {
    /// Creates a parse error.
    pub fn new(inner: InnerParseError) -> (r: Self)
        ensures
            r.inner == inner,
    {
        Self { inner }
    }

    /// The first rule that would have been accepted, where the error still names one.
    pub fn failed_rule(&self) -> (r: Option<Rule>)
        ensures
            r == failed_rule(*self),
    {
        match &self.inner {
            InnerParseError::Pest(g) => match &g.variant {
                ErrorVariant::ParsingError { positives } => if positives.len() > 0 {
                    Some(positives[0])
                } else {
                    None
                },
                ErrorVariant::CustomError { .. } => None,
            },
            InnerParseError::Other(..) => None,
        }
    }

    /// Gets a string suitable for displaying to a user, given the query string it came from.
    pub fn to_string(&self, query_text: &str) -> (r: String)
        ensures
            r@ == rendered(*self, query_text@),
    {
        match &self.inner {
            InnerParseError::Pest(g) => {
                let m = message_of(&g.variant);
                match pest_diagram_at_pos(query_text, g.position, m.as_str()) {
                    Some(d) => d,
                    None => m,
                }
            },
            InnerParseError::Other(span, message) => match pest_diagram_at_span(
                query_text,
                span.start,
                span.end,
                message.as_str(),
            ) {
                Some(d) => d,
                None => message.clone(),
            },
        }
    }

    /// Gets a string suitable for displaying to a user, with either the rule that
    /// was expected or a catalog of usage suggestions.
    pub fn to_string_with_suggestions(&self, query_text: &str) -> (r: String)
        ensures
            r@ == rendered_with_suggestions(*self, query_text@),
    {
        if let InnerParseError::Other(span, message) = &self.inner {
            let d = pest_diagram_at_span(query_text, span.start, span.end, message.as_str());
            if d.is_none() {
                return message.clone();
            }
        }
        let base = self.to_string(query_text);
        let mut out: Vec<char> = Vec::new();
        push_str(&mut out, base.as_str());
        match self.failed_rule() {
            Some(rule) => push_expected_hint(&mut out, &rule),
            None => push_suggestions(&mut out),
        }
        string_from(out.as_slice())
    }
}

/// `needle` occurs in any sequence that holds it between two others.
pub proof fn lemma_infix_between(a: Seq<char>, needle: Seq<char>, b: Seq<char>)
    ensures
        is_infix(needle, a + needle + b),
{
    let hay = a + needle + b;
    assert(hay.subrange(a.len() as int, (a.len() + needle.len()) as int) =~= needle);
}

/// Every line of the catalog appears in the catalog.
proof fn lemma_catalog_holds_heads(n: nat, k: int)
    requires
        0 <= k < n,
        n <= 10,
    ensures
        exists|a: Seq<char>, b: Seq<char>| catalog_lines(n) == a + suggestion_heads()[k] + b,
    decreases n,
{
    let line = suggestion_line(suggestion_heads()[n - 1], suggestion_examples()[n - 1]);
    if k == n - 1 {
        let a = catalog_lines((n - 1) as nat) + "\n  • "@;
        let b = suggestion_examples()[n - 1];
        assert(catalog_lines(n) =~= a + suggestion_heads()[k] + b);
    } else {
        lemma_catalog_holds_heads((n - 1) as nat, k);
        let (a, b) = choose|a: Seq<char>, b: Seq<char>|
            catalog_lines((n - 1) as nat) == a + suggestion_heads()[k] + b;
        assert(catalog_lines(n) =~= a + suggestion_heads()[k] + (b + line));
    }
}

/// Where no expected rule can be named, the enhanced rendering holds the
/// heading "Suggestions:" and every line of the fixed catalog, whatever the
/// query; only a semantic error whose span lies outside the query is shown as
/// its bare message.
pub proof fn lemma_fallback_lists_catalog(e: ParseError, query: Seq<char>)
    requires
        failed_rule(e) is None,
        !is_unresolved(e, query),
    ensures
        is_infix("Suggestions:"@, rendered_with_suggestions(e, query)),
        forall|k: int|
            0 <= k < 10 ==> is_infix(
                #[trigger] suggestion_heads()[k],
                rendered_with_suggestions(e, query),
            ),
{
    let r = rendered_with_suggestions(e, query);
    let base = rendered(e, query);
    assert(r == base + suggestions());
    assert(r =~= (base + "\n\n"@) + "Suggestions:"@ + catalog_lines(10));
    lemma_infix_between(base + "\n\n"@, "Suggestions:"@, catalog_lines(10));
    assert forall|k: int| 0 <= k < 10 implies is_infix(#[trigger] suggestion_heads()[k], r) by {
        lemma_catalog_holds_heads(10, k);
        let (a, b) = choose|a: Seq<char>, b: Seq<char>|
            catalog_lines(10) == a + suggestion_heads()[k] + b;
        assert(r =~= (base + "\n\n"@ + "Suggestions:"@ + a) + suggestion_heads()[k] + b);
        lemma_infix_between(base + "\n\n"@ + "Suggestions:"@ + a, suggestion_heads()[k], b);
    }
}

/// Where an expected rule can be named, the enhanced rendering is the plain
/// rendering followed by the hint ``Expected: `<description>` `` alone: the
/// suggestion catalog is not added.
pub proof fn lemma_specific_rule_hint(e: ParseError, query: Seq<char>)
    requires
        failed_rule(e) is Some,
    ensures
        rendered_with_suggestions(e, query) == rendered(e, query) + expected_hint(
            failed_rule(e)->0,
        ),
        is_infix(expected_hint(failed_rule(e)->0), rendered_with_suggestions(e, query)),
{
    let r = rendered_with_suggestions(e, query);
    let h = expected_hint(failed_rule(e)->0);
    lemma_infix_between(rendered(e, query), h, Seq::empty());
    assert(rendered(e, query) + h + Seq::<char>::empty() =~= r);
}

} // verus!
