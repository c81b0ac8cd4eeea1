//! Options of a run, and the errors a run reports.
use crate::query::error::{failed_rule, rendered, rendered_with_suggestions, ParseError};
use crate::query::parser::{fits, is_parse_of, parsed_chain};
use crate::query::selector::{chain_ok, Selector};
use vstd::prelude::*;

verus! {

/// How selected nodes are written out.
#[derive(Clone, Copy, Debug, PartialEq, Eq, Structural, Hash)]
pub enum OutputFormat {
    Markdown,
    Json,
    Plain,
}

/// Where link and footnote definitions are written.
#[derive(Clone, Copy, Debug, PartialEq, Eq, Structural, Hash)]
pub enum ReferencePlacement {
    /// At the end of the section that uses them.
    Section,
    /// At the end of the document.
    Doc,
}

/// How links are written.
#[derive(Clone, Copy, Debug, PartialEq, Eq, Structural, Hash)]
pub enum LinkTransform {
    Keep,
    Inline,
    Reference,
}

/// The options of a run.
#[derive(Clone, Debug, PartialEq, Eq, Hash)]
pub struct RunOptions {
    pub selectors: String,
    pub output: OutputFormat,
    pub link_pos: ReferencePlacement,
    pub footnote_pos: Option<ReferencePlacement>,
    pub link_format: LinkTransform,
    pub renumber_footnotes: bool,
    pub add_breaks: Option<bool>,
    pub wrap_width: Option<usize>,
    pub allow_unknown_markdown: bool,
    pub enhanced_errors: bool,
    pub markdown_file_paths: Vec<String>,
}

impl RunOptions {
    /// The default options: Markdown output, references per section, no query.
    pub fn new() -> (r: RunOptions)
        ensures
            r.selectors@.len() == 0,
            r.output == OutputFormat::Markdown,
            r.link_pos == ReferencePlacement::Section,
            r.footnote_pos is None,
            r.link_format == LinkTransform::Reference,
            r.renumber_footnotes,
            r.add_breaks is None,
            r.wrap_width is None,
            !r.allow_unknown_markdown,
            !r.enhanced_errors,
            r.markdown_file_paths@.len() == 0,
    {
        RunOptions {
            selectors: String::new(),
            output: OutputFormat::Markdown,
            link_pos: ReferencePlacement::Section,
            footnote_pos: None,
            link_format: LinkTransform::Reference,
            renumber_footnotes: true,
            add_breaks: None,
            wrap_width: None,
            allow_unknown_markdown: false,
            enhanced_errors: false,
            markdown_file_paths: Vec::new(),
        }
    }
}

impl Default for RunOptions {
    fn default() -> (r: RunOptions)
        ensures
            r.selectors@.len() == 0,
            r.output == OutputFormat::Markdown,
            !r.enhanced_errors,
    {
        RunOptions::new()
    }
}

/// Inline formatting options of the Markdown writer.
#[derive(Clone, Copy, Debug, PartialEq, Eq, Structural, Hash)]
pub struct InlineElemOptions {
    pub link_format: LinkTransform,
    pub renumber_footnotes: bool,
}

/// Options of the Markdown writer.
#[derive(Clone, Copy, Debug, PartialEq, Eq, Structural, Hash)]
pub struct MdWriterOptions {
    pub link_reference_placement: ReferencePlacement,
    pub footnote_reference_placement: ReferencePlacement,
    pub inline_options: InlineElemOptions,
    pub include_thematic_breaks: bool,
    pub text_width: Option<usize>,
}

/// The writer options that follow from run options: footnotes go where links
/// go unless told otherwise, and thematic breaks are written unless told otherwise.
pub open spec fn writer_options_for(o: RunOptions) -> MdWriterOptions {
    MdWriterOptions {
        link_reference_placement: o.link_pos,
        footnote_reference_placement: match o.footnote_pos {
            Some(p) => p,
            None => o.link_pos,
        },
        inline_options: InlineElemOptions {
            link_format: o.link_format,
            renumber_footnotes: o.renumber_footnotes,
        },
        include_thematic_breaks: match o.add_breaks {
            Some(b) => b,
            None => true,
        },
        text_width: o.wrap_width,
    }
}

/// The writer options that follow from run options.
pub fn writer_options(o: &RunOptions) -> (r: MdWriterOptions)
    ensures
        r == writer_options_for(*o),
{
    MdWriterOptions {
        link_reference_placement: o.link_pos,
        footnote_reference_placement: match o.footnote_pos {
            Some(p) => p,
            None => o.link_pos,
        },
        inline_options: InlineElemOptions {
            link_format: o.link_format,
            renumber_footnotes: o.renumber_footnotes,
        },
        include_thematic_breaks: match o.add_breaks {
            Some(b) => b,
            None => true,
        },
        text_width: o.wrap_width,
    }
}

/// Parses the query of a run. On failure, the message to show: with the
/// expected rule or the suggestion catalog where enhanced errors are asked for.
pub fn parse_query(options: &RunOptions) -> (r: Result<Selector, String>)
    requires
        fits(options.selectors@),
    ensures
        r is Ok <==> parsed_chain(options.selectors@) is Ok,
        r matches Ok(sel) ==> is_parse_of(options.selectors@, Ok(sel)),
        r matches Err(m) ==> exists|e: ParseError|
            is_parse_of(options.selectors@, Err(e)) && m@ == (if options.enhanced_errors {
                rendered_with_suggestions(e, options.selectors@)
            } else {
                rendered(e, options.selectors@)
            }),
{
    match Selector::try_parse(options.selectors.as_str()) {
        Ok(sel) => Ok(sel),
        Err(e) => {
            assert(is_parse_of(options.selectors@, Err(e)));
            let m = if options.enhanced_errors {
                e.to_string_with_suggestions(options.selectors.as_str())
            } else {
                e.to_string(options.selectors.as_str())
            };
            Err(m)
        },
    }
}

/// What a session operation can fail with.
#[derive(Clone, Debug, PartialEq, Eq, Hash)]
pub enum Error {
    /// A failure described in words.
    Other(String),
}

} // verus!
