//! The state behind an interactive session: commands, their effects, and
//! the bookkeeping of documents, variables and history.
pub mod commands;
pub mod engine;
pub mod input;
pub mod session;
pub mod state;

use crate::repl::engine::ReplEngine;
use crate::repl::session::ReplSession;
use crate::run::{Error, RunOptions};
use vstd::prelude::*;

verus! {

/// An interactive session: the engine that decides, and the document text.
#[derive(Debug)]
pub struct Repl {
    pub engine: ReplEngine,
    pub session: ReplSession,
}

impl Repl {
    /// A session without a document.
    pub fn new(options: RunOptions) -> (r: Self)
        ensures
            r.engine.options == options,
            r.session.content is None,
            r.session.path is None,
    {
        let engine = ReplEngine::new(options);
        let session = ReplSession::new();
        Repl { engine, session }
    }

    /// Takes a document's text that came from no file.
    pub fn load_document(&mut self, content: String) -> (r: Result<(), Error>)
        ensures
            r is Ok,
            final(self).session.content == Some(content),
            final(self).session.path is None,
            final(self).engine == old(self).engine,
    {
        self.session.load_document(content)
    }

    /// The session's document text and its origin.
    pub fn session(&self) -> (r: &ReplSession)
        ensures
            *r == self.session,
    {
        &self.session
    }

    /// The session, to change it.
    pub fn session_mut(&mut self) -> (r: &mut ReplSession)
        ensures
            *r == old(self).session,
    {
        &mut self.session
    }
}

} // verus!
