//! The commands of the interactive shell: how a line is read as a command,
//! and what each command does.
use crate::md_elem::{is_forest, roots_from, MdDoc};
use crate::query::error::{rendered, ParseError};
use crate::query::parser::{fits, is_parse_of};
use crate::query::selector::Selector;
use crate::repl::state::{entries_after_set, lookup, Variables};
use crate::run::{MdWriterOptions, OutputFormat};
use crate::select::{lemma_empty_step_stays_empty, run_chain, selected};
use crate::text::{
    chars_of, decimal, eq_lit, join_spaced, push_chars, push_decimal, push_str, slice_chars,
    split_spans, string_from, trim, trimmed, word_spans, words,
};
use vstd::prelude::*;
use vstd::string::*;

verus! {

/// A command of the interactive shell.
#[derive(Clone, Debug, PartialEq, Eq, Hash)]
pub enum ReplCommand {
    /// Run a selector query.
    Query(String),
    /// Load a document from a file.
    Load(String),
    /// Read the current document's file again.
    Reload,
    /// Change the output format.
    Format(OutputFormat),
    /// Set a variable.
    SetVariable(String, String),
    /// Show a variable.
    Get(String),
    /// List all variables.
    Variables,
    /// Show help.
    Help,
    /// Describe the document.
    Info,
    /// Drop the document.
    Clear,
    /// Leave the shell.
    Exit,
    /// Anything else.
    Unknown(String),
}

/// A command, with its texts as character sequences.
pub enum CommandView {
    Query(Seq<char>),
    Load(Seq<char>),
    Reload,
    Format(OutputFormat),
    SetVariable(Seq<char>, Seq<char>),
    Get(Seq<char>),
    Variables,
    Help,
    Info,
    Clear,
    Exit,
    Unknown(Seq<char>),
}

impl View for ReplCommand {
    type V = CommandView;

    open spec fn view(&self) -> CommandView {
        match self {
            ReplCommand::Query(s) => CommandView::Query(s@),
            ReplCommand::Load(s) => CommandView::Load(s@),
            ReplCommand::Reload => CommandView::Reload,
            ReplCommand::Format(f) => CommandView::Format(*f),
            ReplCommand::SetVariable(n, v) => CommandView::SetVariable(n@, v@),
            ReplCommand::Get(n) => CommandView::Get(n@),
            ReplCommand::Variables => CommandView::Variables,
            ReplCommand::Help => CommandView::Help,
            ReplCommand::Info => CommandView::Info,
            ReplCommand::Clear => CommandView::Clear,
            ReplCommand::Exit => CommandView::Exit,
            ReplCommand::Unknown(s) => CommandView::Unknown(s@),
        }
    }
}

/// The command that a line of input stands for. The line is trimmed; a line
/// that starts with `.` names a built-in command by its first word, and any
/// other non-empty line is a query.
pub open spec fn command_of(input: Seq<char>) -> CommandView {
    let t = trimmed(input);
    let w = words(t.drop_first());
    if t.len() == 0 {
        CommandView::Unknown(t)
    } else if t[0] != '.' {
        CommandView::Query(t)
    } else if w.len() == 0 {
        CommandView::Unknown(t)
    } else if w[0] == "load"@ {
        if w.len() == 2 {
            CommandView::Load(w[1])
        } else {
            CommandView::Unknown(t)
        }
    } else if w[0] == "reload"@ {
        CommandView::Reload
    } else if w[0] == "format"@ {
        if w.len() == 2 && (w[1] == "md"@ || w[1] == "markdown"@) {
            CommandView::Format(OutputFormat::Markdown)
        } else if w.len() == 2 && w[1] == "json"@ {
            CommandView::Format(OutputFormat::Json)
        } else if w.len() == 2 && w[1] == "plain"@ {
            CommandView::Format(OutputFormat::Plain)
        } else {
            CommandView::Unknown(t)
        }
    } else if w[0] == "set"@ {
        if w.len() >= 3 {
            CommandView::SetVariable(w[1], join_spaced(w.subrange(2, w.len() as int)))
        } else {
            CommandView::Unknown(t)
        }
    } else if w[0] == "get"@ {
        if w.len() == 2 {
            CommandView::Get(w[1])
        } else {
            CommandView::Unknown(t)
        }
    } else if w[0] == "vars"@ || w[0] == "variables"@ {
        CommandView::Variables
    } else if w[0] == "help"@ {
        CommandView::Help
    } else if w[0] == "info"@ {
        CommandView::Info
    } else if w[0] == "clear"@ {
        CommandView::Clear
    } else if w[0] == "exit"@ || w[0] == "quit"@ {
        CommandView::Exit
    } else {
        CommandView::Unknown(t)
    }
}

/// The word at index `k` of `s`, given the bounds of its words.
fn word(s: &Vec<char>, spans: &Vec<(usize, usize)>, k: usize) -> (r: Vec<char>)
    requires
        k < spans@.len(),
        spans@.len() == word_spans(s@, s@.len() as int).len(),
        forall|j: int|
            0 <= j < spans@.len() ==> (#[trigger] spans@[j]).0 as int == word_spans(
                s@,
                s@.len() as int,
            )[j].0 && spans@[j].1 as int == word_spans(s@, s@.len() as int)[j].1,
        forall|j: int| 0 <= j < spans@.len() ==> #[trigger] spans@[j].0 <= spans@[j].1 <= s@.len(),
    ensures
        r@ == words(s@)[k as int],
{
    let (a, b) = spans[k];
    assert(spans@[k as int].0 <= spans@[k as int].1 <= s@.len());
    slice_chars(s, a, b)
}

impl ReplCommand {
    /// Reads a line of input as a command.
    pub fn parse(input: &str) -> (r: Self)
        ensures
            r@ == command_of(input@),
    {
        let all = chars_of(input);
        let t = trim(&all);
        if t.len() == 0 {
            return ReplCommand::Unknown(string_from(t.as_slice()));
        }
        if t[0] != '.' {
            return ReplCommand::Query(string_from(t.as_slice()));
        }
        let rest = slice_chars(&t, 1, t.len());
        assert(rest@ =~= t@.drop_first());
        let spans = split_spans(&rest);
        let nw = spans.len();
        let ghost w = words(rest@);
        assert(w.len() == nw);
        if nw == 0 {
            return ReplCommand::Unknown(string_from(t.as_slice()));
        }
        let w0 = word(&rest, &spans, 0);
        if eq_lit(&w0, "load") {
            if nw == 2 {
                let w1 = word(&rest, &spans, 1);
                ReplCommand::Load(string_from(w1.as_slice()))
            } else {
                ReplCommand::Unknown(string_from(t.as_slice()))
            }
        } else if eq_lit(&w0, "reload") {
            ReplCommand::Reload
        } else if eq_lit(&w0, "format") {
            if nw == 2 {
                let w1 = word(&rest, &spans, 1);
                if eq_lit(&w1, "md") || eq_lit(&w1, "markdown") {
                    ReplCommand::Format(OutputFormat::Markdown)
                } else if eq_lit(&w1, "json") {
                    ReplCommand::Format(OutputFormat::Json)
                } else if eq_lit(&w1, "plain") {
                    ReplCommand::Format(OutputFormat::Plain)
                } else {
                    ReplCommand::Unknown(string_from(t.as_slice()))
                }
            } else {
                ReplCommand::Unknown(string_from(t.as_slice()))
            }
        } else if eq_lit(&w0, "set") {
            if nw >= 3 {
                let name = word(&rest, &spans, 1);
                let mut value: Vec<char> = Vec::new();
                let mut k: usize = 2;
                while k < nw
                    invariant
                        2 <= k <= nw,
                        nw == spans@.len(),
                        w == words(rest@),
                        w.len() == nw,
                        spans@.len() == word_spans(rest@, rest@.len() as int).len(),
                        forall|j: int|
                            0 <= j < spans@.len() ==> (#[trigger] spans@[j]).0 as int
                                == word_spans(rest@, rest@.len() as int)[j].0 && spans@[j].1 as int
                                == word_spans(rest@, rest@.len() as int)[j].1,
                        forall|j: int|
                            0 <= j < spans@.len() ==> #[trigger] spans@[j].0 <= spans@[j].1
                                <= rest@.len(),
                        value@ == join_spaced(w.subrange(2, k as int)),
                    decreases nw - k,
                {
                    let wk = word(&rest, &spans, k);
                    let ghost before = value@;
                    if k > 2 {
                        value.push(' ');
                    }
                    push_chars(&mut value, &wk);
                    proof {
                        let sub = w.subrange(2, k + 1);
                        assert(sub.drop_last() =~= w.subrange(2, k as int));
                        assert(sub.last() == w[k as int]);
                        if k == 2 {
                            assert(sub.len() == 1);
                            assert(value@ =~= sub[0]);
                        } else {
                            assert(value@ =~= join_spaced(sub.drop_last()) + seq![' ']
                                + sub.last());
                        }
                    }
                    k = k + 1;
                }
                ReplCommand::SetVariable(string_from(name.as_slice()), string_from(value.as_slice()))
            } else {
                ReplCommand::Unknown(string_from(t.as_slice()))
            }
        } else if eq_lit(&w0, "get") {
            if nw == 2 {
                let w1 = word(&rest, &spans, 1);
                ReplCommand::Get(string_from(w1.as_slice()))
            } else {
                ReplCommand::Unknown(string_from(t.as_slice()))
            }
        } else if eq_lit(&w0, "vars") || eq_lit(&w0, "variables") {
            ReplCommand::Variables
        } else if eq_lit(&w0, "help") {
            ReplCommand::Help
        } else if eq_lit(&w0, "info") {
            ReplCommand::Info
        } else if eq_lit(&w0, "clear") {
            ReplCommand::Clear
        } else if eq_lit(&w0, "exit") || eq_lit(&w0, "quit") {
            ReplCommand::Exit
        } else {
            ReplCommand::Unknown(string_from(t.as_slice()))
        }
    }
}

/// The help text.
pub open spec fn help_text() -> Seq<char> {
    help_commands() + help_examples()
}

pub open spec fn help_commands() -> Seq<char> {
    "mdq REPL - Interactive Markdown Query Tool\n"@ + "\n"@ + "Available commands:\n"@
        + "  <selector>     Execute a selector query\n"@
        + "  .load <file>   Load a document from file\n"@
        + "  .reload        Reload the current document\n"@
        + "  .format <fmt>  Change output format (md|json|plain)\n"@
        + "  .set <n> <v>   Set a variable\n"@ + "  .get <n>       Get a variable value\n"@
        + "  .vars          List all variables\n"@ + "  .info          Show document information\n"@
        + "  .clear         Clear current document\n"@ + "  .help          Show this help\n"@
        + "  .exit          Exit REPL\n"@
}

pub open spec fn help_examples() -> Seq<char> {
    "\n"@ + "Selector examples:\n"@
        + "  # Section      - Select sections with title containing 'Section'\n"@
        + "  - List item    - Select list items containing 'List item'\n"@
        + "  [text](url)    - Select links with display text 'text'\n"@
        + "  > Quote        - Select blockquotes containing 'Quote'\n"@
        + "  ```rust        - Select code blocks with language 'rust'\n"@
}

fn push_help_commands(out: &mut Vec<char>)
    ensures
        final(out)@ == old(out)@ + help_commands(),
{
    push_str(out, "mdq REPL - Interactive Markdown Query Tool\n");
    push_str(out, "\n");
    push_str(out, "Available commands:\n");
    push_str(out, "  <selector>     Execute a selector query\n");
    push_str(out, "  .load <file>   Load a document from file\n");
    push_str(out, "  .reload        Reload the current document\n");
    push_str(out, "  .format <fmt>  Change output format (md|json|plain)\n");
    push_str(out, "  .set <n> <v>   Set a variable\n");
    push_str(out, "  .get <n>       Get a variable value\n");
    push_str(out, "  .vars          List all variables\n");
    push_str(out, "  .info          Show document information\n");
    push_str(out, "  .clear         Clear current document\n");
    push_str(out, "  .help          Show this help\n");
    push_str(out, "  .exit          Exit REPL\n");
    assert(out@ =~= old(out)@ + help_commands());
}

/// Appends the help text.
fn show_help(out: &mut Vec<char>)
    ensures
        final(out)@ == old(out)@ + help_text(),
{
    push_help_commands(out);
    push_str(out, "\n");
    push_str(out, "Selector examples:\n");
    push_str(out, "  # Section      - Select sections with title containing 'Section'\n");
    push_str(out, "  - List item    - Select list items containing 'List item'\n");
    push_str(out, "  [text](url)    - Select links with display text 'text'\n");
    push_str(out, "  > Quote        - Select blockquotes containing 'Quote'\n");
    push_str(out, "  ```rust        - Select code blocks with language 'rust'\n");
    assert(out@ =~= old(out)@ + help_text());
}

/// How a query's outcome is reported, given how its text parsed.
pub open spec fn query_report(
    query: Seq<char>,
    parsed: Result<Selector, ParseError>,
    doc: MdDoc,
) -> Seq<char> {
    match parsed {
        Err(e) => "Error parsing selector: "@ + rendered(e, query) + "\n"@,
        Ok(sel) => if !is_forest(doc.nodes@) {
            "Error executing selector: the document is malformed\n"@
        } else if selected(doc, sel).len() == 0 {
            "No elements matched the selector\n"@
        } else {
            "Found "@ + decimal(selected(doc, sel).len()) + " matching elements\n"@
                + "Output formatting not yet implemented in REPL mode\n"@
        },
    }
}

/// Once a step of a query's chain selects nothing in a well-formed document,
/// the shell reports that nothing matched, and no error.
pub proof fn lemma_empty_step_reports_no_match(q: Seq<char>, sel: Selector, doc: MdDoc, k: int)
    requires
        is_forest(doc.nodes@),
        0 <= k <= sel.specs@.len(),
        run_chain(doc.nodes@, roots_from(doc.nodes@, 0), sel.specs@.take(k)) == Seq::<
            usize,
        >::empty(),
    ensures
        query_report(q, Ok(sel), doc) == "No elements matched the selector\n"@,
{
    lemma_empty_step_stays_empty(doc, sel, k);
}

/// The message for a query without a document.
pub open spec fn no_document_text() -> Seq<char> {
    "Error: No document loaded. Use .load <file> first.\n"@
}

/// Reports a query's outcome, given how its text parsed.
pub fn report_query(
    query: &str,
    parsed: &Result<Selector, ParseError>,
    doc: &MdDoc,
    out: &mut Vec<char>,
)
    ensures
        final(out)@ == old(out)@ + query_report(query@, *parsed, *doc),
{
    match parsed {
        Err(e) => {
            push_str(out, "Error parsing selector: ");
            let m = e.to_string(query);
            push_str(out, m.as_str());
            push_str(out, "\n");
        },
        Ok(sel) => match sel.find_nodes(doc) {
            Err(_) => {
                push_str(out, "Error executing selector: the document is malformed\n");
            },
            Ok((found, _ctx)) => {
                if found.len() == 0 {
                    push_str(out, "No elements matched the selector\n");
                } else {
                    push_str(out, "Found ");
                    push_decimal(out, found.len());
                    push_str(out, " matching elements\n");
                    push_str(out, "Output formatting not yet implemented in REPL mode\n");
                }
            },
        },
    }
    assert(out@ =~= old(out)@ + query_report(query@, *parsed, *doc));
}

/// Runs a query against the document, if there is one, and reports the outcome.
fn execute_query(selector_str: &str, document: Option<&MdDoc>, out: &mut Vec<char>)
    requires
        fits(selector_str@),
    ensures
        document is None ==> final(out)@ == old(out)@ + no_document_text(),
        document matches Some(doc) ==> exists|parsed: Result<Selector, ParseError>|
            is_parse_of(selector_str@, parsed) && final(out)@ == old(out)@ + query_report(
                selector_str@,
                parsed,
                *doc,
            ),
{
    match document {
        None => {
            push_str(out, "Error: No document loaded. Use .load <file> first.\n");
        },
        Some(doc) => {
            let parsed = Selector::try_parse(selector_str);
            report_query(selector_str, &parsed, doc, out);
            assert(is_parse_of(selector_str@, parsed));
        },
    }
}

/// The name of an output format, as shown to a user.
pub open spec fn format_name(f: OutputFormat) -> Seq<char> {
    match f {
        OutputFormat::Markdown => "Markdown"@,
        OutputFormat::Json => "Json"@,
        OutputFormat::Plain => "Plain"@,
    }
}

/// The listing of variables, one per line.
pub open spec fn variable_lines(e: Seq<(Seq<char>, Seq<char>)>) -> Seq<char>
    decreases e.len(),
{
    if e.len() == 0 {
        Seq::empty()
    } else {
        variable_lines(e.drop_last()) + "  "@ + e.last().0 + " = "@ + e.last().1 + "\n"@
    }
}

/// What a command other than a query writes.
pub open spec fn command_text(
    c: CommandView,
    doc: Option<MdDoc>,
    vars: Seq<(Seq<char>, Seq<char>)>,
) -> Seq<char> {
    match c {
        CommandView::Query(_) => Seq::empty(),
        CommandView::Load(p) => "Loading document from: "@ + p + "\n"@,
        CommandView::Reload => "Reloading document...\n"@,
        CommandView::Format(f) => "Setting output format to: "@ + format_name(f) + "\n"@,
        CommandView::SetVariable(n, v) => "Set variable '"@ + n + "' = '"@ + v + "'\n"@,
        CommandView::Get(n) => match lookup(vars, n) {
            Some(v) => n + " = "@ + v + "\n"@,
            None => "Variable '"@ + n + "' not found\n"@,
        },
        CommandView::Variables => if vars.len() == 0 {
            "No variables set\n"@
        } else {
            "Variables:\n"@ + variable_lines(vars)
        },
        CommandView::Help => help_text(),
        CommandView::Info => match doc {
            Some(d) => "Document loaded with "@ + decimal(roots_from(d.nodes@, 0).len())
                + " root elements\n"@,
            None => "No document loaded\n"@,
        },
        CommandView::Clear => "Document cleared\n"@,
        CommandView::Exit => "Exiting REPL...\n"@,
        CommandView::Unknown(u) => "Unknown command: "@ + u + "\n"@
            + "Use .help for available commands\n"@,
    }
}

fn push_variable_lines(out: &mut Vec<char>, vars: &Variables)
    ensures
        final(out)@ == old(out)@ + variable_lines(vars@),
{
    let ghost start = out@;
    let mut k: usize = 0;
    while k < vars.entries.len()
        invariant
            k <= vars@.len(),
            vars@.len() == vars.entries@.len(),
            out@ == start + variable_lines(vars@.subrange(0, k as int)),
        decreases vars@.len() - k,
    {
        let (name, value) = &vars.entries[k];
        push_str(out, "  ");
        push_str(out, name.as_str());
        push_str(out, " = ");
        push_str(out, value.as_str());
        push_str(out, "\n");
        proof {
            let sub = vars@.subrange(0, k + 1);
            assert(sub.drop_last() =~= vars@.subrange(0, k as int));
            assert(sub.last() == vars@[k as int]);
            assert(vars@[k as int] == (name@, value@));
            assert(out@ =~= start + variable_lines(sub));
        }
        k = k + 1;
    }
    assert(vars@.subrange(0, vars@.len() as int) =~= vars@);
}

/// Runs a command, writing what it reports to `output`. The result tells
/// whether the document is to be (re)loaded from its file.
pub fn execute_command(
    command: &ReplCommand,
    document: Option<&MdDoc>,
    options: &mut MdWriterOptions,
    variables: &mut Variables,
    output: &mut String,
) -> (r: bool)
    requires
        old(variables).well_formed(),
        command matches ReplCommand::Query(q) ==> fits(q@),
    ensures
        r == (command is Load || command is Reload),
        final(variables).well_formed(),
        final(variables)@ == (match command@ {
            CommandView::SetVariable(n, v) => entries_after_set(old(variables)@, n, v),
            _ => old(variables)@,
        }),
        *final(options) == *old(options),
        !(command is Query) ==> final(output)@ == old(output)@ + command_text(
            command@,
            match document {
                Some(d) => Some(*d),
                None => None,
            },
            old(variables)@,
        ),
        command matches ReplCommand::Query(q) ==> (document is None ==> final(output)@ == old(
            output,
        )@ + no_document_text()) && (document matches Some(doc) ==> exists|
            parsed: Result<Selector, ParseError>,
        | is_parse_of(q@, parsed) && final(output)@ == old(output)@ + query_report(
            q@,
            parsed,
            *doc,
        )),
{
    let mut out: Vec<char> = Vec::new();
    let ghost doc_view = match document {
        Some(d) => Some(*d),
        None => None,
    };
    let ghost expected = command_text(command@, doc_view, old(variables)@);
    let reload = match command {
        ReplCommand::Query(selector_str) => {
            execute_query(selector_str.as_str(), document, &mut out);
            false
        },
        ReplCommand::Load(path) => {
            push_str(&mut out, "Loading document from: ");
            push_str(&mut out, path.as_str());
            push_str(&mut out, "\n");
            assert(out@ =~= expected);
            true
        },
        ReplCommand::Reload => {
            push_str(&mut out, "Reloading document...\n");
            assert(out@ =~= expected);
            true
        },
        ReplCommand::Format(format) => {
            push_str(&mut out, "Setting output format to: ");
            match format {
                OutputFormat::Markdown => push_str(&mut out, "Markdown"),
                OutputFormat::Json => push_str(&mut out, "Json"),
                OutputFormat::Plain => push_str(&mut out, "Plain"),
            }
            push_str(&mut out, "\n");
            assert(out@ =~= expected);
            false
        },
        ReplCommand::SetVariable(name, value) => {
            variables.set(name.clone(), value.clone());
            push_str(&mut out, "Set variable '");
            push_str(&mut out, name.as_str());
            push_str(&mut out, "' = '");
            push_str(&mut out, value.as_str());
            push_str(&mut out, "'\n");
            assert(out@ =~= expected);
            false
        },
        ReplCommand::Get(name) => {
            match variables.get(name.as_str()) {
                Some(value) => {
                    push_str(&mut out, name.as_str());
                    push_str(&mut out, " = ");
                    push_str(&mut out, value.as_str());
                    push_str(&mut out, "\n");
                },
                None => {
                    push_str(&mut out, "Variable '");
                    push_str(&mut out, name.as_str());
                    push_str(&mut out, "' not found\n");
                },
            }
            assert(out@ =~= expected);
            false
        },
        ReplCommand::Variables => {
            if variables.is_empty() {
                push_str(&mut out, "No variables set\n");
            } else {
                push_str(&mut out, "Variables:\n");
                push_variable_lines(&mut out, variables);
            }
            assert(out@ =~= expected);
            false
        },
        ReplCommand::Help => {
            show_help(&mut out);
            assert(out@ =~= expected);
            false
        },
        ReplCommand::Info => {
            match document {
                Some(doc) => {
                    push_str(&mut out, "Document loaded with ");
                    push_decimal(&mut out, doc.roots().len());
                    push_str(&mut out, " root elements\n");
                },
                None => {
                    push_str(&mut out, "No document loaded\n");
                },
            }
            assert(out@ =~= expected);
            false
        },
        ReplCommand::Clear => {
            push_str(&mut out, "Document cleared\n");
            assert(out@ =~= expected);
            false
        },
        ReplCommand::Exit => {
            push_str(&mut out, "Exiting REPL...\n");
            assert(out@ =~= expected);
            false
        },
        ReplCommand::Unknown(cmd) => {
            push_str(&mut out, "Unknown command: ");
            push_str(&mut out, cmd.as_str());
            push_str(&mut out, "\n");
            push_str(&mut out, "Use .help for available commands\n");
            assert(out@ =~= expected);
            false
        },
    };
    output.append(string_from(out.as_slice()).as_str());
    reload
}

} // verus!
