//! The decisions of the interactive shell: what each command does to the
//! session, and what the shell around it must do next.
use crate::md_elem::MdDoc;
use crate::query::parser::fits;
use crate::query::error::ParseError;
use crate::query::parser::is_parse_of;
use crate::query::selector::Selector;
use crate::repl::commands::{
    command_text, execute_command, format_name, no_document_text, query_report, ReplCommand,
};
use crate::repl::input::{ReplInput, DEFAULT_MAX_HISTORY};
use crate::repl::session::{info_text, ReplSession};
use crate::repl::state::{entries_after_set, ReplState, Variables};
use crate::run::{writer_options, writer_options_for, MdWriterOptions, OutputFormat, RunOptions};
use crate::text::{push_str, string_from};
use vstd::prelude::*;
use vstd::string::*;

verus! {

/// What the shell does after a command.
#[derive(Clone, Debug, PartialEq, Eq, Hash)]
pub enum EngineStep {
    /// Read the next command.
    Continue,
    /// Leave the shell.
    Exit,
    /// Read the file at `path`, then report with `file_read` or `file_unreadable`.
    ReadFile { path: String, reload: bool },
}

/// The shell's decisions.
#[derive(Debug)]
pub struct ReplEngine {
    /// The prompt's command history.
    pub input: ReplInput,
    /// The options that the shell was started with.
    pub options: RunOptions,
}

impl ReplEngine {
    /// An engine with an empty prompt history.
    pub fn new(options: RunOptions) -> (r: Self)
        ensures
            r.options == options,
            r.input.history@.len() == 0,
            r.input.max_history == DEFAULT_MAX_HISTORY,
            r.input.history_pos is None,
    {
        ReplEngine { input: ReplInput::default(), options }
    }

    /// The writer options that follow from the session's options.
    pub fn build_writer_options(&self, state: &ReplState) -> (r: MdWriterOptions)
        ensures
            r == writer_options_for(state.options),
    {
        writer_options(state.options())
    }

    /// Runs a command against the session. Every command but `.exit` keeps the
    /// shell going; `.load` and `.reload` ask the shell to read a file.
    pub fn execute_command(
        &self,
        command: &ReplCommand,
        session: &mut ReplSession,
        state: &mut ReplState,
        variables: &mut Variables,
        output: &mut String,
    ) -> (r: EngineStep)
        requires
            old(variables).well_formed(),
            command matches ReplCommand::Query(q) ==> fits(q@),
        ensures
            final(variables).well_formed(),
            command is Exit <==> r is Exit,
            r matches EngineStep::ReadFile { path, reload } ==> (command matches ReplCommand::Load(
                p,
            ) && path == p && !reload) || (command is Reload && reload && old(session).path
                == Some(path)),
            command is Load ==> r is ReadFile,
            command is Reload ==> (r is ReadFile <==> old(session).path is Some),
            command matches ReplCommand::Format(f) ==> *final(state) == (ReplState {
                current_format: *f,
                options: RunOptions { output: *f, ..old(state).options },
                ..*old(state)
            }),
            command is Clear ==> final(session).content is None && final(session).path is None
                && final(state).document is None,
            command matches ReplCommand::SetVariable(n, v) ==> final(variables)@ == entries_after_set(
                old(variables)@,
                n@,
                v@,
            ),
            !(command is Clear) ==> *final(session) == *old(session),
            !(command is Clear) ==> final(state).document == old(state).document,
            command is Exit || command is Load || (command is Reload && old(session).path is Some)
                ==> final(output)@ == old(output)@,
            command is Reload && old(session).path is None ==> final(output)@ == old(output)@
                + "Error reloading document: No file path available for reloading\n"@,
            command matches ReplCommand::Format(f) ==> final(output)@ == old(output)@
                + "Output format set to: "@ + format_name(*f) + "\n"@,
            command is Clear ==> final(output)@ == old(output)@ + "Document cleared\n"@,
            !(command is Exit || command is Load || command is Reload || command is Format
                || command is Clear || command is Query) ==> final(output)@ == old(output)@
                + command_text(
                command@,
                match old(state).document {
                    Some(d) => Some(d),
                    None => None,
                },
                old(variables)@,
            ),
            !(command is SetVariable) ==> final(variables)@ == old(variables)@,
            command matches ReplCommand::Query(q) ==> (old(state).document is None ==> final(output)@
                == old(output)@ + no_document_text()) && (old(state).document matches Some(doc)
                ==> exists|parsed: Result<Selector, ParseError>|
                is_parse_of(q@, parsed) && final(output)@ == old(output)@ + query_report(
                    q@,
                    parsed,
                    doc,
                )),
    {
        match command {
            ReplCommand::Load(path) => EngineStep::ReadFile { path: path.clone(), reload: false },
            ReplCommand::Reload => match session.reload() {
                Ok(path) => EngineStep::ReadFile { path, reload: true },
                Err(_) => {
                    output.append("Error reloading document: No file path available for reloading\n");
                    EngineStep::Continue
                },
            },
            ReplCommand::Format(format) => {
                state.set_output_format(*format);
                let ghost before = output@;
                output.append("Output format set to: ");
                match format {
                    OutputFormat::Markdown => output.append("Markdown"),
                    OutputFormat::Json => output.append("Json"),
                    OutputFormat::Plain => output.append("Plain"),
                }
                output.append("\n");
                assert(output@ =~= before + "Output format set to: "@ + format_name(*format)
                    + "\n"@);
                EngineStep::Continue
            },
            ReplCommand::Clear => {
                session.clear_document();
                state.clear_document();
                output.append("Document cleared\n");
                EngineStep::Continue
            },
            ReplCommand::Exit => EngineStep::Exit,
            _ => {
                let mut options = self.build_writer_options(state);
                execute_command(command, state.document(), &mut options, variables, output);
                EngineStep::Continue
            },
        }
    }

    /// Reports a file that could not be read.
    pub fn file_unreadable(&self, reload: bool, message: &str, output: &mut String)
        ensures
            final(output)@ == old(output)@ + (if reload {
                "Error reloading document: "@
            } else {
                "Error loading document: "@
            }) + message@ + "\n"@,
    {
        if reload {
            output.append("Error reloading document: ");
        } else {
            output.append("Error loading document: ");
        }
        output.append(message);
        output.append("\n");
    }

    /// Takes a file's text into the session, and the document parsed from it
    /// into the state, and reports the outcome.
    pub fn file_read(
        &self,
        session: &mut ReplSession,
        state: &mut ReplState,
        path: String,
        reload: bool,
        content: String,
        parsed: Result<MdDoc, String>,
        output: &mut String,
    )
        ensures
            final(session).content == Some(content),
            final(session).path == Some(path),
            parsed matches Ok(doc) ==> final(state).document == Some(doc),
            parsed is Err ==> final(state).document == old(state).document,
            parsed matches Ok(_) ==> final(output)@ == old(output)@ + (if reload {
                "Document reloaded successfully\n"@
            } else {
                "Document loaded successfully: "@ + path@ + "\n"@
            }) + info_text(Some(content), Some(path)) + "\n"@,
            parsed matches Err(m) ==> final(output)@ == old(output)@ + (if reload {
                "Error parsing reloaded document: "@
            } else {
                "Error parsing document: "@
            }) + m@ + "\n"@,
    {
        let ghost p = path@;
        let mut msg: Vec<char> = Vec::new();
        if reload {
            push_str(&mut msg, "Document reloaded successfully\n");
        } else {
            push_str(&mut msg, "Document loaded successfully: ");
            push_str(&mut msg, path.as_str());
            push_str(&mut msg, "\n");
        }
        session.load_file_content(path, content);
        match parsed {
            Ok(doc) => {
                state.set_document(doc);
                let info = session.document_info();
                output.append(string_from(msg.as_slice()).as_str());
                output.append(info.as_str());
                output.append("\n");
            },
            Err(m) => {
                if reload {
                    output.append("Error parsing reloaded document: ");
                } else {
                    output.append("Error parsing document: ");
                }
                output.append(m.as_str());
                output.append("\n");
            },
        }
    }
}

} // verus!
