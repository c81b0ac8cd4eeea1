//! The document text of an interactive session and where it came from.
use crate::run::Error;
use crate::text::{decimal, push_decimal, push_str, string_from};
use vstd::prelude::*;
use vstd::utf8::encode_utf8;

verus! {

/// The document text of a session, and the file it was read from.
#[derive(Debug)]
pub struct ReplSession {
    pub content: Option<String>,
    pub path: Option<String>,
}

/// The length of the UTF-8 encoding of `s`, as `str::len` gives it.
pub open spec fn byte_len(s: Seq<char>) -> nat {
    (encode_utf8(s).len() as usize) as nat
}

/// How a session describes its document.
pub open spec fn info_text(content: Option<String>, path: Option<String>) -> Seq<char> {
    match content {
        Some(c) => match path {
            Some(p) => "Document: "@ + p@ + " ("@ + decimal(byte_len(c@)) + " bytes)"@,
            None => "Document: stdin ("@ + decimal(byte_len(c@)) + " bytes)"@,
        },
        None => "No document loaded"@,
    }
}

impl ReplSession {
    /// A session without a document.
    pub fn new() -> (r: Self)
        ensures
            r.content is None,
            r.path is None,
    {
        ReplSession { content: None, path: None }
    }

    /// Takes a document's text that came from no file.
    pub fn load_document(&mut self, content: String) -> (r: Result<(), Error>)
        ensures
            r is Ok,
            final(self).content == Some(content),
            final(self).path is None,
    {
        self.content = Some(content);
        self.path = None;
        Ok(())
    }

    /// Takes a document's text that was read from the file at `path`.
    pub fn load_file_content(&mut self, path: String, content: String)
        ensures
            final(self).content == Some(content),
            final(self).path == Some(path),
    {
        self.content = Some(content);
        self.path = Some(path);
    }

    /// The document's text.
    pub fn content(&self) -> (r: Option<&String>)
        ensures
            r is None <==> self.content is None,
            r matches Some(c) ==> self.content == Some(*c),
    {
        match &self.content {
            Some(c) => Some(c),
            None => None,
        }
    }

    /// The file the document was read from.
    pub fn path(&self) -> (r: Option<&String>)
        ensures
            r is None <==> self.path is None,
            r matches Some(p) ==> self.path == Some(*p),
    {
        match &self.path {
            Some(p) => Some(p),
            None => None,
        }
    }

    /// The file to read again to reload the document; an error where the
    /// document came from no file.
    pub fn reload(&self) -> (r: Result<String, Error>)
        ensures
            r is Ok <==> self.path is Some,
            r matches Ok(p) ==> self.path == Some(p),
            r matches Err(Error::Other(m)) ==> m@ == "No file path available for reloading"@,
    {
        match &self.path {
            Some(p) => Ok(p.clone()),
            None => Err(
                Error::Other(
                    string_from(
                        crate::text::chars_of("No file path available for reloading").as_slice(),
                    ),
                ),
            ),
        }
    }

    /// Drops the document.
    pub fn clear_document(&mut self)
        ensures
            final(self).content is None,
            final(self).path is None,
    {
        self.content = None;
        self.path = None;
    }

    /// Whether a document is loaded.
    pub fn has_document(&self) -> (r: bool)
        ensures
            r == self.content is Some,
    {
        self.content.is_some()
    }

    /// A one-line description of the document: where it came from and its size in bytes.
    pub fn document_info(&self) -> (r: String)
        ensures
            r@ == info_text(self.content, self.path),
    {
        let mut out: Vec<char> = Vec::new();
        match &self.content {
            Some(c) => {
                match &self.path {
                    Some(p) => {
                        push_str(&mut out, "Document: ");
                        push_str(&mut out, p.as_str());
                        push_str(&mut out, " (");
                    },
                    None => {
                        push_str(&mut out, "Document: stdin (");
                    },
                }
                push_decimal(&mut out, c.as_str().len());
                push_str(&mut out, " bytes)");
            },
            None => {
                push_str(&mut out, "No document loaded");
            },
        }
        proof {
            assert(out@ =~= info_text(self.content, self.path));
        }
        string_from(out.as_slice())
    }
}

impl Default for ReplSession {
    fn default() -> (r: Self)
        ensures
            r.content is None,
            r.path is None,
    {
        Self::new()
    }
}

} // verus!
