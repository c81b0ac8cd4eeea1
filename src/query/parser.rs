//! The parser of the selector language.
//!
//! A query is a chain of selectors separated by `|`. Each selector starts
//! with its token (`#`, `-`, `1.`, `[`, `![`, `>`, `` ``` ``, `+++`, `</>`,
//! `P:`, `:-:`) and may be followed, after a space, by a text matcher: `*`,
//! an unquoted run of text, a quoted string, or a `/regex/` with an optional
//! `replacement/`. A literal may be anchored with a leading `^` and a
//! trailing `$`.
use crate::query::error::{
    expected_message, failed_rule, is_unresolved, lemma_fallback_lists_catalog, pos_in, rendered_with_suggestions,
    suggestion_heads, DetachedSpan, ErrorVariant, GrammarError, InnerParseError, ParseError,
};
use crate::query::rules::Rule;
use crate::query::selector::{
    chain_ok, matcher_ok, matcher_view, spec_ok, ListItemTask, MatcherView, Selector, SelectorSpec,
    SpecView,
    TextMatcher,
};
use crate::text::{
    byte_offset, char_from_u32, chars_of, is_infix, is_space, is_whitespace, matches_at, occurs_at,
    lemma_prefix_len_boundary, lemma_prefix_len_monotone, regex_accepts, regex_is_valid,
    string_from, utf8_prefix_len,
};
use vstd::prelude::*;

verus! {

/// Why parsing stopped, at character indices of the query.
pub enum Stop {
    /// Nothing in the grammar matched at `at`; the `expected` rules would have.
    Grammar { at: usize, expected: Vec<Rule> },
    /// The characters `start..end` match the grammar but are invalid.
    Invalid { start: usize, end: usize, message: String },
}

spec fn stop_in(s: Stop, n: int) -> bool {
    match s {
        Stop::Grammar { at, .. } => at <= n,
        Stop::Invalid { start, end, .. } => start <= end <= n,
    }
}

/// The index of the first non-whitespace character at or after `i`.
pub open spec fn ws_end(q: Seq<char>, i: int) -> int
    decreases q.len() - i,
{
    if 0 <= i < q.len() && is_space(q[i]) {
        ws_end(q, i + 1)
    } else {
        i
    }
}

/// Whether a run of text ends at `i`: at the end, at `|`, or at `close`.
pub open spec fn text_end_at(q: Seq<char>, i: int, close: Option<char>) -> bool {
    i == q.len() || q[i] == '|' || close == Some(q[i])
}

/// The value of a hexadecimal digit.
pub open spec fn hex_digit(c: char) -> Option<int> {
    if '0' <= c <= '9' {
        Some(c as int - '0' as int)
    } else if 'a' <= c <= 'f' {
        Some(c as int - 'a' as int + 10)
    } else if 'A' <= c <= 'F' {
        Some(c as int - 'A' as int + 10)
    } else {
        None
    }
}

/// Reads up to six hexadecimal digits from `m`, `digits` of them already read
/// into `v`: where reading stopped, how many digits, and their value.
pub open spec fn hex_run(q: Seq<char>, m: int, digits: int, v: int) -> (int, int, int)
    decreases 6 - digits,
{
    if 0 <= m < q.len() && 0 <= digits < 6 && hex_digit(q[m]) is Some {
        hex_run(q, m + 1, digits + 1, v * 16 + hex_digit(q[m])->0)
    } else {
        (m, digits, v)
    }
}

/// The character whose code is `v`.
pub open spec fn char_with_code(v: int) -> char {
    (v as u32) as char
}

/// Whether `v` is a Unicode scalar value.
pub open spec fn is_scalar(v: int) -> bool {
    (0 <= v < 0xD800) || (0xE000 <= v < 0x110000)
}

/// Why a query does not parse, at character indices of the query.
pub enum Failure {
    /// Nothing in the grammar matched at `at`; the `expected` rules would have.
    Grammar { at: int, expected: Seq<Rule> },
    /// The characters `start..end` match the grammar but are invalid.
    Invalid { start: int, end: int, message: Seq<char> },
}

impl View for Stop {
    type V = Failure;

    open spec fn view(&self) -> Failure {
        match self {
            Stop::Grammar { at, expected } => Failure::Grammar { at: *at as int, expected: expected@ },
            Stop::Invalid { start, end, message } => Failure::Invalid {
                start: *start as int,
                end: *end as int,
                message: message@,
            },
        }
    }
}

/// A failure where nothing matched at `at`, and `rule` would have.
pub open spec fn expecting(at: int, rule: Rule) -> Failure {
    Failure::Grammar { at, expected: seq![rule] }
}

/// The escape sequence whose backslash is at `k`: the character it stands
/// for and the index after it.
pub open spec fn escape_at(q: Seq<char>, k: int) -> Result<(char, int), Failure> {
    if k + 1 >= q.len() {
        Err(expecting(k + 1, Rule::EscapedChar))
    } else {
        let e = q[k + 1];
        if e == '"' || e == '\\' || e == '\'' {
            Ok((e, k + 2))
        } else if e == 'n' {
            Ok(('\n', k + 2))
        } else if e == 'r' {
            Ok(('\r', k + 2))
        } else if e == 't' {
            Ok(('\t', k + 2))
        } else if e == 'u' {
            if !(k + 2 < q.len() && q[k + 2] == '{') {
                Err(expecting(k + 2, Rule::UnicodeSeq))
            } else {
                let (m, digits, v) = hex_run(q, k + 3, 0, 0);
                if digits == 0 || !(m < q.len() && q[m] == '}') {
                    Err(expecting(m, Rule::UnicodeSeq))
                } else if !is_scalar(v) {
                    Err(
                        Failure::Invalid {
                            start: k,
                            end: m + 1,
                            message: "invalid unicode code point"@,
                        },
                    )
                } else {
                    Ok((char_with_code(v), m + 1))
                }
            }
        } else {
            Err(expecting(k + 1, Rule::EscapedChar))
        }
    }
}

/// The rest of a quoted string from `k`: its characters with escapes
/// resolved, and the index after the closing quote.
pub open spec fn quoted_from(q: Seq<char>, k: int) -> Result<(Seq<char>, int), Failure>
    decreases q.len() - k,
{
    if k < 0 || k >= q.len() {
        Err(expecting(k, Rule::QuotedChar))
    } else if q[k] == '"' {
        Ok((Seq::empty(), k + 1))
    } else if q[k] == '\\' {
        match escape_at(q, k) {
            Ok((c, n)) => if n <= k {
                Err(expecting(k, Rule::EscapedChar))
            } else {
                match quoted_from(q, n) {
                    Ok((s, e)) => Ok((seq![c] + s, e)),
                    Err(f) => Err(f),
                }
            },
            Err(f) => Err(f),
        }
    } else {
        match quoted_from(q, k + 1) {
            Ok((s, e)) => Ok((seq![q[k]] + s, e)),
            Err(f) => Err(f),
        }
    }
}

/// A `/`-terminated segment from `m`, where `\/` stands for `/`: its
/// characters, and the index of the closing `/`; `rule` is what is expected
/// where the query ends first.
pub open spec fn slashed_from(q: Seq<char>, m: int, rule: Rule) -> Result<(Seq<char>, int), Failure>
    decreases q.len() - m,
{
    if m < 0 || m >= q.len() {
        Err(expecting(m, rule))
    } else if q[m] == '/' {
        Ok((Seq::empty(), m))
    } else if q[m] == '\\' && m + 1 < q.len() && q[m + 1] == '/' {
        match slashed_from(q, m + 2, rule) {
            Ok((s, e)) => Ok((seq!['/'] + s, e)),
            Err(f) => Err(f),
        }
    } else {
        match slashed_from(q, m + 1, rule) {
            Ok((s, e)) => Ok((seq![q[m]] + s, e)),
            Err(f) => Err(f),
        }
    }
}

/// The regular expression whose opening `/` is at `j`, with its optional
/// replacement, and the index after it.
pub open spec fn regex_at(q: Seq<char>, j: int, close: Option<char>) -> Result<
    (MatcherView, int),
    Failure,
> {
    match slashed_from(q, j + 1, Rule::RegexChar) {
        Err(f) => Err(f),
        Ok((pattern, k)) => {
            let end = k + 1;
            let rep: Result<(Option<Seq<char>>, int), Failure> = if end < q.len() && !is_space(
                q[end],
            ) && !text_end_at(q, end, close) {
                match slashed_from(q, end, Rule::RegexReplacementSegment) {
                    Ok((r, m)) => Ok((Some(r), m + 1)),
                    Err(f) => Err(f),
                }
            } else {
                Ok((None, end))
            };
            match rep {
                Err(f) => Err(f),
                Ok((replacement, e)) => if regex_accepts(pattern) {
                    Ok((MatcherView::Regex { pattern, replacement }, e))
                } else {
                    Err(Failure::Invalid { start: j, end: e, message: "invalid regex"@ })
                },
            }
        },
    }
}

/// The first index at or after `k` that holds `|` or `stop`.
pub open spec fn run_end(q: Seq<char>, k: int, stop: char) -> int
    decreases q.len() - k,
{
    if 0 <= k < q.len() && q[k] != '|' && q[k] != stop {
        run_end(q, k + 1, stop)
    } else {
        k
    }
}

/// The end of `t..k` without its trailing whitespace.
pub open spec fn trimmed_end(q: Seq<char>, t: int, k: int) -> int
    decreases k - t,
{
    if k > t && is_space(q[k - 1]) {
        trimmed_end(q, t, k - 1)
    } else {
        k
    }
}

/// An unquoted literal from `t`, up to `|` or `close`: trailing whitespace
/// is dropped, and a trailing `$` anchors it at the end.
pub open spec fn unquoted_at(q: Seq<char>, t: int, close: Option<char>, anchor_start: bool) -> Result<
    (MatcherView, int),
    Failure,
> {
    let k = run_end(
        q,
        t,
        match close {
            Some(c) => c,
            None => '|',
        },
    );
    let last = trimmed_end(q, t, k);
    let anchor_end = last > t && q[last - 1] == '$';
    let stop = if anchor_end {
        last - 1
    } else {
        last
    };
    if stop == t {
        Err(expecting(t, Rule::Text))
    } else {
        Ok((MatcherView::Literal { text: q.subrange(t, stop), anchor_start, anchor_end }, k))
    }
}

/// What follows a selector's token at `i`: no matcher, or (after a space
/// where `need_space` holds) a text matcher; and the index after it.
pub open spec fn matcher_at(q: Seq<char>, i: int, close: Option<char>, need_space: bool) -> Result<
    (Option<MatcherView>, int),
    Failure,
> {
    if text_end_at(q, i, close) {
        Ok((None, i))
    } else if need_space && !is_space(q[i]) {
        Err(expecting(i, Rule::ExplicitSpace))
    } else {
        let j = ws_end(q, i);
        if text_end_at(q, j, close) {
            Ok((None, j))
        } else if q[j] == '*' {
            Ok((None, j + 1))
        } else if q[j] == '/' {
            match regex_at(q, j, close) {
                Ok((m, e)) => Ok((Some(m), e)),
                Err(f) => Err(f),
            }
        } else {
            let anchor_start = q[j] == '^';
            let t = if anchor_start {
                j + 1
            } else {
                j
            };
            if t < q.len() && q[t] == '"' {
                match quoted_from(q, t + 1) {
                    Ok((text, e)) => {
                        let anchor_end = e < q.len() && q[e] == '$';
                        Ok(
                            (
                                Some(MatcherView::Literal { text, anchor_start, anchor_end }),
                                if anchor_end {
                                    e + 1
                                } else {
                                    e
                                },
                            ),
                        )
                    },
                    Err(f) => Err(f),
                }
            } else {
                match unquoted_at(q, t, close, anchor_start) {
                    Ok((m, e)) => Ok((Some(m), e)),
                    Err(f) => Err(f),
                }
            }
        }
    }
}

/// The task qualifier of a list item at `i`, and the index after it.
pub open spec fn task_at(q: Seq<char>, i: int) -> Result<(ListItemTask, int), Failure> {
    if i == q.len() || !is_space(q[i]) {
        Ok((ListItemTask::Unqualified, i))
    } else {
        let j = ws_end(q, i);
        if !(j < q.len() && q[j] == '[') {
            Ok((ListItemTask::Unqualified, i))
        } else {
            let c = if j + 1 < q.len() {
                q[j + 1]
            } else {
                '|'
            };
            let task = if c == 'x' {
                Some(ListItemTask::Selected)
            } else if c == ' ' {
                Some(ListItemTask::Unselected)
            } else if c == '?' {
                Some(ListItemTask::Either)
            } else {
                None
            };
            match task {
                Some(t) => if j + 2 < q.len() && q[j + 2] == ']' {
                    Ok((t, j + 3))
                } else {
                    Err(expecting(j + 2, Rule::TaskEnd))
                },
                None => Err(expecting(j + 1, Rule::ListTaskOptions)),
            }
        }
    }
}

/// A link selector whose token ends at `i`.
pub open spec fn link_at(q: Seq<char>, i: int, image: bool) -> Result<(SpecView, int), Failure> {
    match matcher_at(q, i, Some(']'), false) {
        Err(f) => Err(f),
        Ok((text, k0)) => {
            let k = ws_end(q, k0);
            if !(k < q.len() && q[k] == ']') {
                Err(expecting(k, Rule::LinkTextEnd))
            } else if !(k + 1 < q.len() && q[k + 1] == '(') {
                Ok((SpecView::Link { image, text, url: None }, k + 1))
            } else {
                match matcher_at(q, k + 2, Some(')'), false) {
                    Err(f) => Err(f),
                    Ok((url, m0)) => {
                        let m = ws_end(q, m0);
                        if !(m < q.len() && q[m] == ')') {
                            Err(expecting(m, Rule::LinkUrlEnd))
                        } else {
                            Ok((SpecView::Link { image, text, url }, m + 1))
                        }
                    },
                }
            }
        },
    }
}

/// A selector whose token starts at `i`, and the index after it; `first`
/// tells whether it is the first of the chain.
pub open spec fn selector_at(q: Seq<char>, i: int, first: bool) -> Result<(SpecView, int), Failure> {
    if occurs_at("```"@, q, i) {
        match matcher_at(q, i + 3, None, false) {
            Ok((m, e)) => Ok((SpecView::CodeBlock { language: m }, e)),
            Err(f) => Err(f),
        }
    } else if occurs_at("+++"@, q, i) {
        match matcher_at(q, i + 3, None, true) {
            Ok((m, e)) => Ok((SpecView::FrontMatter { variant: m }, e)),
            Err(f) => Err(f),
        }
    } else if occurs_at("</>"@, q, i) {
        match matcher_at(q, i + 3, None, true) {
            Ok((m, e)) => Ok((SpecView::Html { text: m }, e)),
            Err(f) => Err(f),
        }
    } else if occurs_at(":-:"@, q, i) {
        match matcher_at(q, i + 3, None, true) {
            Ok((m, e)) => Ok((SpecView::Table { text: m }, e)),
            Err(f) => Err(f),
        }
    } else if occurs_at("P:"@, q, i) {
        match matcher_at(q, i + 2, None, true) {
            Ok((m, e)) => Ok((SpecView::Paragraph { text: m }, e)),
            Err(f) => Err(f),
        }
    } else if occurs_at("1."@, q, i) || (0 <= i < q.len() && q[i] == '-') {
        let ordered = 0 <= i < q.len() && q[i] == '1';
        match task_at(
            q,
            if ordered {
                i + 2
            } else {
                i + 1
            },
        ) {
            Err(f) => Err(f),
            Ok((task, k)) => match matcher_at(q, k, None, true) {
                Ok((m, e)) => Ok((SpecView::ListItem { ordered, task, text: m }, e)),
                Err(f) => Err(f),
            },
        }
    } else if occurs_at("!["@, q, i) {
        link_at(q, i + 2, true)
    } else if 0 <= i < q.len() && q[i] == '[' {
        link_at(q, i + 1, false)
    } else if 0 <= i < q.len() && q[i] == '#' {
        match matcher_at(q, i + 1, None, true) {
            Ok((m, e)) => Ok((SpecView::Section { title: m }, e)),
            Err(f) => Err(f),
        }
    } else if 0 <= i < q.len() && q[i] == '>' {
        match matcher_at(q, i + 1, None, true) {
            Ok((m, e)) => Ok((SpecView::BlockQuote { text: m }, e)),
            Err(f) => Err(f),
        }
    } else if first {
        Err(expecting(i, Rule::Top))
    } else {
        Err(expecting(i, Rule::Selector))
    }
}

/// The chain of selectors from `i` to the end of the query, separated by `|`;
/// `first` tells whether the selector at `i` is the first of the chain.
pub open spec fn chain_from(q: Seq<char>, i: int, first: bool) -> Result<Seq<SpecView>, Failure>
    decreases q.len() - i,
{
    match selector_at(q, i, first) {
        Err(f) => Err(f),
        Ok((s, e)) => {
            let j = ws_end(q, e);
            if e <= i || j > q.len() {
                Err(expecting(i, Rule::Selector))
            } else if j == q.len() {
                Ok(seq![s])
            } else if q[j] != '|' {
                Err(Failure::Grammar { at: j, expected: seq![Rule::SelectorDelim, Rule::Eoi] })
            } else {
                let n = ws_end(q, j + 1);
                if n <= i || n > q.len() {
                    Err(expecting(i, Rule::Selector))
                } else {
                    match chain_from(q, n, false) {
                        Ok(rest) => Ok(seq![s] + rest),
                        Err(f) => Err(f),
                    }
                }
            }
        },
    }
}

/// The selector chain that a query stands for, or why it does not parse.
pub open spec fn parsed_chain(q: Seq<char>) -> Result<Seq<SpecView>, Failure> {
    chain_from(q, ws_end(q, 0), true)
}

/// Skips whitespace from `i`.
fn skip_ws(q: &Vec<char>, i: usize) -> (j: usize)
    requires
        i <= q@.len(),
    ensures
        i <= j <= q@.len(),
        forall|k: int| i <= k < j ==> is_space(#[trigger] q@[k]),
        j < q@.len() ==> !is_space(q@[j as int]),
        j == ws_end(q@, i as int),
{
    let mut j = i;
    while j < q.len() && is_whitespace(q[j])
        invariant
            i <= j <= q@.len(),
            ws_end(q@, i as int) == ws_end(q@, j as int),
            forall|k: int| i <= k < j ==> is_space(#[trigger] q@[k]),
        decreases q@.len() - j,
    {
        j = j + 1;
    }
    j
}

/// Whether `q` holds `c` at `i`.
fn char_at(q: &Vec<char>, i: usize, c: char) -> (r: bool)
    ensures
        r == (i < q@.len() && q@[i as int] == c),
{
    i < q.len() && q[i] == c
}

/// Whether `q` holds `lit` at `i`.
fn lit_at(q: &Vec<char>, i: usize, lit: &str) -> (r: bool)
    ensures
        r == occurs_at(lit@, q@, i as int),
{
    let l = chars_of(lit);
    matches_at(&l, q, i)
}

/// Whether a run of text ends at `i`: at the end of the query, at `|`, or at `close`.
fn at_text_end(q: &Vec<char>, i: usize, close: Option<char>) -> (r: bool)
    requires
        i <= q@.len(),
    ensures
        r == (i == q@.len() || q@[i as int] == '|' || close == Some(q@[i as int])),
        r == text_end_at(q@, i as int, close),
{
    if i == q.len() {
        true
    } else {
        let c = q[i];
        c == '|' || match close {
            Some(x) => x == c,
            None => false,
        }
    }
}

fn grammar_stop(at: usize, rule: Rule) -> (r: Stop)
    ensures
        r@ == expecting(at as int, rule),
        r == (Stop::Grammar { at, expected: r->Grammar_expected }),
        r->Grammar_expected@ == seq![rule],
{
    let mut expected: Vec<Rule> = Vec::new();
    expected.push(rule);
    assert(expected@ =~= seq![rule]);
    Stop::Grammar { at, expected }
}

/// Whether the query is short enough that its byte offsets fit in `usize`.
pub open spec fn fits(q: Seq<char>) -> bool {
    q.len() <= usize::MAX / 4
}

/// The value of a hexadecimal digit.
fn hex_value(c: char) -> (r: Option<u32>)
    ensures
        r is Some ==> r->0 < 16,
        r is Some <==> hex_digit(c) is Some,
        r is Some ==> r->0 as int == hex_digit(c)->0,
{
    if '0' <= c && c <= '9' {
        Some((c as u32) - ('0' as u32))
    } else if 'a' <= c && c <= 'f' {
        Some((c as u32) - ('a' as u32) + 10)
    } else if 'A' <= c && c <= 'F' {
        Some((c as u32) - ('A' as u32) + 10)
    } else {
        None
    }
}

/// Parses the escape sequence whose backslash is at `k`: the character it
/// stands for, and the index after it.
fn parse_escape(q: &Vec<char>, k: usize) -> (r: Result<(char, usize), Stop>)
    requires
        k < q@.len(),
        fits(q@),
    ensures
        r matches Ok((_, e)) ==> k < e <= q@.len(),
        r matches Err(s) ==> stop_in(s, q@.len() as int),
        r is Ok <==> escape_at(q@, k as int) is Ok,
        r matches Err(f) ==> escape_at(q@, k as int) is Err && escape_at(q@, k as int)->Err_0 == f@,
        r matches Ok((c, e)) ==> escape_at(q@, k as int) == Ok::<_, Failure>((c, e as int)),
{
    if k + 1 >= q.len() {
        return Err(grammar_stop(k + 1, Rule::EscapedChar));
    }
    let e = q[k + 1];
    if e == '"' || e == '\\' || e == '\'' {
        Ok((e, k + 2))
    } else if e == 'n' {
        Ok(('\n', k + 2))
    } else if e == 'r' {
        Ok(('\r', k + 2))
    } else if e == 't' {
        Ok(('\t', k + 2))
    } else if e == 'u' {
        if !char_at(q, k + 2, '{') {
            return Err(grammar_stop(k + 2, Rule::UnicodeSeq));
        }
        let mut m: usize = k + 3;
        let mut digits: usize = 0;
        let mut v: u32 = 0;
        while m < q.len() && digits < 6 && hex_value(q[m]).is_some()
            invariant
                m == k + 3 + digits,
                m <= q@.len(),
                hex_run(q@, k + 3, 0, 0) == hex_run(q@, m as int, digits as int, v as int),
                fits(q@),
                digits <= 6,
                digits == 0 ==> v < 0x1,
                digits == 1 ==> v < 0x10,
                digits == 2 ==> v < 0x100,
                digits == 3 ==> v < 0x1000,
                digits == 4 ==> v < 0x1_0000,
                digits == 5 ==> v < 0x10_0000,
                digits == 6 ==> v < 0x100_0000,
            decreases 6 - digits,
        {
            let d = hex_value(q[m]).unwrap();
            v = v * 16 + d;
            m = m + 1;
            digits = digits + 1;
        }
        assert(hex_run(q@, k + 3, 0, 0) == (m as int, digits as int, v as int));
        if digits == 0 || !char_at(q, m, '}') {
            return Err(grammar_stop(m, Rule::UnicodeSeq));
        }
        match char_from_u32(v) {
            Some(c) => {
                proof {
                    vstd::utf8::char_u32_cast(c, v);
                }
                Ok((c, m + 1))
            },
            None => Err(
                Stop::Invalid {
                    start: k,
                    end: m + 1,
                    message: string_from(chars_of("invalid unicode code point").as_slice()),
                },
            ),
        }
    } else {
        Err(grammar_stop(k + 1, Rule::EscapedChar))
    }
}

/// Parses the quoted string whose opening quote is at `j`: its characters,
/// with escapes resolved, and the index after the closing quote.
fn parse_quoted(q: &Vec<char>, j: usize) -> (r: Result<(String, usize), Stop>)
    requires
        j < q@.len(),
        fits(q@),
    ensures
        r matches Ok((_, e)) ==> j < e <= q@.len(),
        r matches Err(s) ==> stop_in(s, q@.len() as int),
        r is Ok <==> quoted_from(q@, j + 1) is Ok,
        r matches Err(f) ==> quoted_from(q@, j + 1) is Err && quoted_from(q@, j + 1)->Err_0 == f@,
        r matches Ok((t, e)) ==> quoted_from(q@, j + 1) == Ok::<_, Failure>((t@, e as int)),
{
    let mut out: Vec<char> = Vec::new();
    let mut k = j + 1;
    assert(out@ + Seq::<char>::empty() =~= Seq::<char>::empty());
    loop
        invariant
            j < k <= q@.len(),
            fits(q@),
            quoted_from(q@, j + 1) == match quoted_from(q@, k as int) {
                Ok((t, e)) => Ok((out@ + t, e)),
                Err(f) => Err(f),
            },
        decreases q@.len() - k,
    {
        if k == q.len() {
            return Err(grammar_stop(k, Rule::QuotedChar));
        }
        let c = q[k];
        if c == '"' {
            assert(out@ + Seq::<char>::empty() =~= out@);
            return Ok((string_from(out.as_slice()), k + 1));
        } else if c == '\\' {
            let (e, next) = parse_escape(q, k)?;
            let ghost before = out@;
            out.push(e);
            proof {
                match quoted_from(q@, next as int) {
                    Ok((t, x)) => {
                        assert(before + (seq![e] + t) =~= out@ + t);
                    },
                    Err(_) => {},
                }
            }
            k = next;
        } else {
            let ghost before = out@;
            out.push(c);
            proof {
                match quoted_from(q@, k + 1) {
                    Ok((t, x)) => {
                        assert(before + (seq![c] + t) =~= out@ + t);
                    },
                    Err(_) => {},
                }
            }
            k = k + 1;
        }
    }
}

/// Reads a `/`-terminated segment from `k`, where `\/` stands for `/`: its
/// characters, and the index of the closing `/`.
fn read_slashed(q: &Vec<char>, k: usize, rule: Rule) -> (r: Result<(Vec<char>, usize), Stop>)
    requires
        k <= q@.len(),
        fits(q@),
    ensures
        r matches Ok((_, e)) ==> k <= e < q@.len() && q@[e as int] == '/',
        r matches Err(s) ==> stop_in(s, q@.len() as int),
        r is Ok <==> slashed_from(q@, k as int, rule) is Ok,
        r matches Err(f) ==> slashed_from(q@, k as int, rule) is Err && slashed_from(q@, k as int, rule)->Err_0 == f@,
        r matches Ok((t, e)) ==> slashed_from(q@, k as int, rule) == Ok::<_, Failure>((t@, e as int)),
{
    let mut out: Vec<char> = Vec::new();
    let mut m = k;
    assert(out@ + Seq::<char>::empty() =~= Seq::<char>::empty());
    loop
        invariant
            k <= m <= q@.len(),
            fits(q@),
            slashed_from(q@, k as int, rule) == match slashed_from(q@, m as int, rule) {
                Ok((t, e)) => Ok((out@ + t, e)),
                Err(f) => Err(f),
            },
        decreases q@.len() - m,
    {
        if m == q.len() {
            return Err(grammar_stop(m, rule));
        }
        let c = q[m];
        if c == '/' {
            assert(out@ + Seq::<char>::empty() =~= out@);
            return Ok((out, m));
        } else if c == '\\' && char_at(q, m + 1, '/') {
            let ghost before = out@;
            out.push('/');
            proof {
                match slashed_from(q@, m + 2, rule) {
                    Ok((t, x)) => {
                        assert(before + (seq!['/'] + t) =~= out@ + t);
                    },
                    Err(_) => {},
                }
            }
            m = m + 2;
        } else {
            let ghost before = out@;
            out.push(c);
            proof {
                match slashed_from(q@, m + 1, rule) {
                    Ok((t, x)) => {
                        assert(before + (seq![c] + t) =~= out@ + t);
                    },
                    Err(_) => {},
                }
            }
            m = m + 1;
        }
    }
}

/// Parses the regular expression whose opening `/` is at `j`, with its
/// optional replacement, and the index after it.
fn parse_regex(q: &Vec<char>, j: usize, close: Option<char>) -> (r: Result<(TextMatcher, usize), Stop>)
    requires
        j < q@.len(),
        fits(q@),
    ensures
        r matches Ok((m, e)) ==> j < e <= q@.len() && matcher_ok(Some(m)),
        r matches Err(s) ==> stop_in(s, q@.len() as int),
        r is Ok <==> regex_at(q@, j as int, close) is Ok,
        r matches Err(f) ==> regex_at(q@, j as int, close) is Err && regex_at(q@, j as int, close)->Err_0 == f@,
        r matches Ok((m, e)) ==> regex_at(q@, j as int, close) == Ok::<_, Failure>((m@, e as int)),
{
    let (pattern, k) = read_slashed(q, j + 1, Rule::RegexChar)?;
    let mut end = k + 1;
    let mut replacement: Option<String> = None;
    if end < q.len() && !is_whitespace(q[end]) && !at_text_end(q, end, close) {
        let (rep, m) = read_slashed(q, end, Rule::RegexReplacementSegment)?;
        replacement = Some(string_from(rep.as_slice()));
        end = m + 1;
    }
    let pattern = string_from(pattern.as_slice());
    if !regex_is_valid(pattern.as_str()) {
        return Err(
            Stop::Invalid {
                start: j,
                end,
                message: string_from(chars_of("invalid regex").as_slice()),
            },
        );
    }
    Ok((TextMatcher::Regex { pattern, replacement }, end))
}

/// Parses what follows a selector's token at `i`: nothing, or (after a space
/// where `need_space` holds) a text matcher; and the index after it.
fn parse_matcher(q: &Vec<char>, i: usize, close: Option<char>, need_space: bool) -> (r: Result<
    (Option<TextMatcher>, usize),
    Stop,
>)
    requires
        i <= q@.len(),
        fits(q@),
    ensures
        r matches Ok((m, e)) ==> i <= e <= q@.len() && matcher_ok(m),
        r matches Err(s) ==> stop_in(s, q@.len() as int),
        r is Ok <==> matcher_at(q@, i as int, close, need_space) is Ok,
        r matches Err(f) ==> matcher_at(q@, i as int, close, need_space) is Err && matcher_at(q@, i as int, close, need_space)->Err_0 == f@,
        r matches Ok((m, e)) ==> matcher_at(q@, i as int, close, need_space) == Ok::<_, Failure>(
            (matcher_view(m), e as int),
        ),
{
    if at_text_end(q, i, close) {
        return Ok((None, i));
    }
    if need_space && !is_whitespace(q[i]) {
        return Err(grammar_stop(i, Rule::ExplicitSpace));
    }
    let j = skip_ws(q, i);
    if at_text_end(q, j, close) {
        return Ok((None, j));
    }
    let c = q[j];
    if c == '*' {
        return Ok((None, j + 1));
    }
    if c == '/' {
        let (m, e) = parse_regex(q, j, close)?;
        return Ok((Some(m), e));
    }
    let anchor_start = c == '^';
    let t = if anchor_start {
        j + 1
    } else {
        j
    };
    if char_at(q, t, '"') {
        let (text, e) = parse_quoted(q, t)?;
        let anchor_end = char_at(q, e, '$');
        let after = if anchor_end {
            e + 1
        } else {
            e
        };
        return Ok((Some(TextMatcher::Literal { text, anchor_start, anchor_end }), after));
    }
    let stop = close.unwrap_or('|');
    assert(stop == match close {
        Some(c) => c,
        None => '|',
    });
    let mut k = t;
    while k < q.len() && q[k] != '|' && !char_at(q, k, stop)
        invariant
            t <= k <= q@.len(),
            run_end(q@, t as int, stop) == run_end(q@, k as int, stop),
        decreases q@.len() - k,
    {
        k = k + 1;
    }
    let mut last = k;
    while last > t && is_whitespace(q[last - 1])
        invariant
            t <= last <= k,
            k <= q@.len(),
            trimmed_end(q@, t as int, k as int) == trimmed_end(q@, t as int, last as int),
        decreases last,
    {
        last = last - 1;
    }
    let anchor_end = last > t && q[last - 1] == '$';
    if anchor_end {
        last = last - 1;
    }
    if last == t {
        return Err(grammar_stop(t, Rule::Text));
    }
    let mut text: Vec<char> = Vec::new();
    let mut m = t;
    while m < last
        invariant
            t <= m <= last,
            last <= q@.len(),
            text@ == q@.subrange(t as int, m as int),
        decreases last - m,
    {
        text.push(q[m]);
        m = m + 1;
        assert(text@ =~= q@.subrange(t as int, m as int));
    }
    let text = string_from(text.as_slice());
    Ok((Some(TextMatcher::Literal { text, anchor_start, anchor_end }), k))
}

/// Parses the task qualifier of a list item at `i`, if there is one: the
/// qualifier and the index after it.
fn parse_task(q: &Vec<char>, i: usize) -> (r: Result<(ListItemTask, usize), Stop>)
    requires
        i <= q@.len(),
        fits(q@),
    ensures
        r matches Ok((_, e)) ==> i <= e <= q@.len(),
        r matches Err(s) ==> stop_in(s, q@.len() as int),
        r is Ok <==> task_at(q@, i as int) is Ok,
        r matches Err(f) ==> task_at(q@, i as int) is Err && task_at(q@, i as int)->Err_0 == f@,
        r matches Ok((t, e)) ==> task_at(q@, i as int) == Ok::<_, Failure>((t, e as int)),
{
    if i == q.len() || !is_whitespace(q[i]) {
        return Ok((ListItemTask::Unqualified, i));
    }
    let j = skip_ws(q, i);
    if !char_at(q, j, '[') {
        return Ok((ListItemTask::Unqualified, i));
    }
    let task = if char_at(q, j + 1, 'x') {
        ListItemTask::Selected
    } else if char_at(q, j + 1, ' ') {
        ListItemTask::Unselected
    } else if char_at(q, j + 1, '?') {
        ListItemTask::Either
    } else {
        return Err(grammar_stop(j + 1, Rule::ListTaskOptions));
    };
    if !char_at(q, j + 2, ']') {
        return Err(grammar_stop(j + 2, Rule::TaskEnd));
    }
    Ok((task, j + 3))
}

/// Parses a link selector whose token ends at `i`.
fn parse_link(q: &Vec<char>, i: usize, image: bool) -> (r: Result<(SelectorSpec, usize), Stop>)
    requires
        i <= q@.len(),
        fits(q@),
    ensures
        r matches Ok((s, e)) ==> i <= e <= q@.len() && spec_ok(s),
        r matches Err(s) ==> stop_in(s, q@.len() as int),
        r is Ok <==> link_at(q@, i as int, image) is Ok,
        r matches Err(f) ==> link_at(q@, i as int, image) is Err && link_at(q@, i as int, image)->Err_0 == f@,
        r matches Ok((s, e)) ==> link_at(q@, i as int, image) == Ok::<_, Failure>((s@, e as int)),
{
    let (text, k) = parse_matcher(q, i, Some(']'), false)?;
    let k = skip_ws(q, k);
    if !char_at(q, k, ']') {
        return Err(grammar_stop(k, Rule::LinkTextEnd));
    }
    if !char_at(q, k + 1, '(') {
        return Ok((SelectorSpec::Link { image, text, url: None }, k + 1));
    }
    let (url, m) = parse_matcher(q, k + 2, Some(')'), false)?;
    let m = skip_ws(q, m);
    if !char_at(q, m, ')') {
        return Err(grammar_stop(m, Rule::LinkUrlEnd));
    }
    Ok((SelectorSpec::Link { image, text, url }, m + 1))
}

/// Parses the selector that starts at `i`; `first` tells whether it is the
/// first of the chain.
fn parse_selector(q: &Vec<char>, i: usize, first: bool) -> (r: Result<(SelectorSpec, usize), Stop>)
    requires
        i <= q@.len(),
        fits(q@),
    ensures
        r matches Ok((s, e)) ==> i < e <= q@.len() && spec_ok(s),
        r matches Err(s) ==> stop_in(s, q@.len() as int),
        r is Ok <==> selector_at(q@, i as int, first) is Ok,
        r matches Err(f) ==> selector_at(q@, i as int, first) is Err && selector_at(q@, i as int, first)->Err_0 == f@,
        r matches Ok((s, e)) ==> selector_at(q@, i as int, first) == Ok::<_, Failure>((s@, e as int)),
{
    proof {
        reveal_strlit("```");
        reveal_strlit("+++");
        reveal_strlit("</>");
        reveal_strlit(":-:");
        reveal_strlit("P:");
        reveal_strlit("1.");
        reveal_strlit("![");
    }
    if lit_at(q, i, "```") {
        let (language, e) = parse_matcher(q, i + 3, None, false)?;
        Ok((SelectorSpec::CodeBlock { language }, e))
    } else if lit_at(q, i, "+++") {
        let (variant, e) = parse_matcher(q, i + 3, None, true)?;
        Ok((SelectorSpec::FrontMatter { variant }, e))
    } else if lit_at(q, i, "</>") {
        let (text, e) = parse_matcher(q, i + 3, None, true)?;
        Ok((SelectorSpec::Html { text }, e))
    } else if lit_at(q, i, ":-:") {
        let (text, e) = parse_matcher(q, i + 3, None, true)?;
        Ok((SelectorSpec::Table { text }, e))
    } else if lit_at(q, i, "P:") {
        let (text, e) = parse_matcher(q, i + 2, None, true)?;
        Ok((SelectorSpec::Paragraph { text }, e))
    } else if lit_at(q, i, "1.") || char_at(q, i, '-') {
        let ordered = char_at(q, i, '1');
        let after = if ordered {
            i + 2
        } else {
            i + 1
        };
        let (task, k) = parse_task(q, after)?;
        let (text, e) = parse_matcher(q, k, None, true)?;
        Ok((SelectorSpec::ListItem { ordered, task, text }, e))
    } else if lit_at(q, i, "![") {
        parse_link(q, i + 2, true)
    } else if char_at(q, i, '[') {
        parse_link(q, i + 1, false)
    } else if char_at(q, i, '#') {
        let (title, e) = parse_matcher(q, i + 1, None, true)?;
        Ok((SelectorSpec::Section { title }, e))
    } else if char_at(q, i, '>') {
        let (text, e) = parse_matcher(q, i + 1, None, true)?;
        Ok((SelectorSpec::BlockQuote { text }, e))
    } else if first {
        Err(grammar_stop(i, Rule::Top))
    } else {
        Err(grammar_stop(i, Rule::Selector))
    }
}

/// Parses a whole query into its chain of selector specifications.
#[verifier::rlimit(100)]
fn parse_chain(q: &Vec<char>) -> (r: Result<Vec<SelectorSpec>, Stop>)
    requires
        fits(q@),
    ensures
        r matches Ok(specs) ==> specs@.len() >= 1 && forall|k: int|
            0 <= k < specs@.len() ==> #[trigger] spec_ok(specs@[k]),
        r matches Err(s) ==> stop_in(s, q@.len() as int),
        r is Ok <==> parsed_chain(q@) is Ok,
        r matches Err(f) ==> parsed_chain(q@) is Err && parsed_chain(q@)->Err_0 == f@,
        r matches Ok(specs) ==> parsed_chain(q@) == Ok::<_, Failure>(
            specs@.map_values(|s: SelectorSpec| s@),
        ),
{
    let mut specs: Vec<SelectorSpec> = Vec::new();
    let mut i = skip_ws(q, 0);
    assert(specs@.map_values(|s: SelectorSpec| s@) + Seq::<SpecView>::empty() =~= Seq::<
        SpecView,
    >::empty());
    loop
        invariant
            i <= q@.len(),
            fits(q@),
            forall|k: int| 0 <= k < specs@.len() ==> #[trigger] spec_ok(specs@[k]),
            parsed_chain(q@) == match chain_from(q@, i as int, specs@.len() == 0) {
                Ok(rest) => Ok(specs@.map_values(|s: SelectorSpec| s@) + rest),
                Err(f) => Err(f),
            },
        decreases q@.len() - i,
    {
        let (spec, e) = parse_selector(q, i, specs.len() == 0)?;
        let ghost before = specs@.map_values(|s: SelectorSpec| s@);
        specs.push(spec);
        assert(specs@.map_values(|s: SelectorSpec| s@) =~= before.push(spec@));
        let j = skip_ws(q, e);
        if j == q.len() {
            assert(before + seq![spec@] =~= before.push(spec@));
            return Ok(specs);
        }
        if q[j] != '|' {
            let mut expected: Vec<Rule> = Vec::new();
            expected.push(Rule::SelectorDelim);
            expected.push(Rule::Eoi);
            assert(expected@ =~= seq![Rule::SelectorDelim, Rule::Eoi]);
            return Err(Stop::Grammar { at: j, expected });
        }
        let n = skip_ws(q, j + 1);
        proof {
            match chain_from(q@, n as int, false) {
                Ok(rest) => {
                    assert(before + (seq![spec@] + rest) =~= before.push(spec@) + rest);
                },
                Err(_) => {},
            }
        }
        i = n;
    }
}

/// Whether `e` reports the failure `f` of parsing `q`: a grammar failure as
/// the byte offset where nothing matched, with the message that names the
/// rules expected there; an invalid region as its byte span, with its message.
pub open spec fn reports(q: Seq<char>, f: Failure, e: ParseError) -> bool {
    match f {
        Failure::Grammar { at, expected } => 0 <= at <= q.len() && match e.inner {
            InnerParseError::Pest(g) => g.position == utf8_prefix_len(q, at) && g.variant
                is CustomError && g.variant->CustomError_message@ == expected_message(expected),
            InnerParseError::Other(..) => false,
        },
        Failure::Invalid { start, end, message } => 0 <= start <= end <= q.len() && match e.inner {
            InnerParseError::Other(span, m) => span.start == utf8_prefix_len(q, start) && span.end
                == utf8_prefix_len(q, end) && m@ == message,
            InnerParseError::Pest(_) => false,
        },
    }
}

/// Whether `r` is what parsing `q` gives: the chain of the grammar where
/// there is one, and otherwise an error that names no expected rule.
pub open spec fn is_parse_of(q: Seq<char>, r: Result<Selector, ParseError>) -> bool {
    &&& r is Ok <==> parsed_chain(q) is Ok
    &&& r matches Ok(sel) ==> parsed_chain(q) == Ok::<_, Failure>(sel@) && chain_ok(sel)
    &&& r matches Err(e) ==> reports(q, parsed_chain(q)->Err_0, e) && failed_rule(e) is None
}

impl Selector {
    /// Parses a query string into a selector chain.
    pub fn try_parse(query: &str) -> (r: Result<Selector, ParseError>)
        requires
            fits(query@),
        ensures
            r is Ok <==> parsed_chain(query@) is Ok,
            r matches Ok(sel) ==> parsed_chain(query@) == Ok::<_, Failure>(sel@) && chain_ok(sel),
            r matches Err(e) ==> reports(query@, parsed_chain(query@)->Err_0, e) && failed_rule(e)
                is None,
    {
        let q = chars_of(query);
        match parse_chain(&q) {
            Ok(specs) => Ok(Selector { specs }),
            Err(Stop::Grammar { at, expected }) => {
                let position = byte_offset(&q, at);
                let g = GrammarError {
                    variant: ErrorVariant::ParsingError { positives: expected },
                    position,
                };
                Err(ParseError::new(InnerParseError::Pest(g.renamed())))
            },
            Err(Stop::Invalid { start, end, message }) => {
                let span = DetachedSpan { start: byte_offset(&q, start), end: byte_offset(&q, end) };
                Err(ParseError::new(InnerParseError::Other(span, message)))
            },
        }
    }
}

/// Every error of a failed parse lies in the query: a grammar failure at a
/// character boundary, a semantic error over a region of it; so each gets its
/// caret diagram.
pub proof fn lemma_parse_failure_placed(q: Seq<char>, e: ParseError)
    requires
        is_parse_of(q, Err(e)),
    ensures
        !is_unresolved(e, q),
        e.inner matches InnerParseError::Pest(g) ==> pos_in(q, g.position as int),
{
    match parsed_chain(q)->Err_0 {
        Failure::Grammar { at, .. } => {
            lemma_prefix_len_boundary(q, at);
        },
        Failure::Invalid { start, end, .. } => {
            lemma_prefix_len_boundary(q, start);
            lemma_prefix_len_boundary(q, end);
            lemma_prefix_len_monotone(q, start, end);
        },
    }
}

/// A query that does not parse gets the whole suggestion catalog from the
/// enhanced rendering: parse errors never name an expected rule, and always
/// lie in the query, so the catalog is shown whatever character caused the
/// failure.
pub proof fn lemma_parse_failure_suggests(q: Seq<char>, e: ParseError)
    requires
        is_parse_of(q, Err(e)),
    ensures
        is_infix("Suggestions:"@, rendered_with_suggestions(e, q)),
        forall|k: int|
            0 <= k < 10 ==> is_infix(
                #[trigger] suggestion_heads()[k],
                rendered_with_suggestions(e, q),
            ),
{
    lemma_parse_failure_placed(q, e);
    lemma_fallback_lists_catalog(e, q);
}

} // verus!
