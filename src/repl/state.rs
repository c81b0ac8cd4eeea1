//! The state of an interactive session: the document, options, variables and history.
use crate::md_elem::MdDoc;
use crate::run::{OutputFormat, RunOptions};
use crate::text::{chars_of, eq_lit};
use vstd::prelude::*;

verus! {

/// The most commands that a session's history keeps.
pub const MAX_STATE_HISTORY: usize = 1000;

/// Named values that a user sets during a session, in the order first set.
#[derive(Clone, Debug, PartialEq, Eq, Hash)]
pub struct Variables {
    pub entries: Vec<(String, String)>,
}

/// The names and values of the entries.
pub open spec fn entries_view(e: Seq<(String, String)>) -> Seq<(Seq<char>, Seq<char>)> {
    e.map_values(|p: (String, String)| (p.0@, p.1@))
}

/// Whether no name occurs twice.
pub open spec fn names_unique(e: Seq<(Seq<char>, Seq<char>)>) -> bool {
    forall|a: int, b: int| 0 <= a < b < e.len() ==> #[trigger] e[a].0 != #[trigger] e[b].0
}

/// The index of the entry named `name`.
pub open spec fn index_of(e: Seq<(Seq<char>, Seq<char>)>, name: Seq<char>) -> Option<int> {
    if exists|k: int| 0 <= k < e.len() && #[trigger] e[k].0 == name {
        Some(choose|k: int| 0 <= k < e.len() && #[trigger] e[k].0 == name)
    } else {
        None
    }
}

/// The entries after setting `name` to `value`: the value is replaced in
/// place where the name is there, and added at the end otherwise.
pub open spec fn entries_after_set(
    e: Seq<(Seq<char>, Seq<char>)>,
    name: Seq<char>,
    value: Seq<char>,
) -> Seq<(Seq<char>, Seq<char>)> {
    match index_of(e, name) {
        Some(k) => e.update(k, (name, value)),
        None => e.push((name, value)),
    }
}

impl View for Variables {
    type V = Seq<(Seq<char>, Seq<char>)>;

    open spec fn view(&self) -> Seq<(Seq<char>, Seq<char>)> {
        entries_view(self.entries@)
    }
}

impl Variables {
    /// Whether no name occurs twice.
    pub open spec fn well_formed(&self) -> bool {
        names_unique(self@)
    }

    /// No variables.
    pub fn new() -> (r: Variables)
        ensures
            r@.len() == 0,
            r.well_formed(),
    {
        Variables { entries: Vec::new() }
    }

    /// The number of variables.
    pub fn len(&self) -> (r: usize)
        ensures
            r == self@.len(),
    {
        self.entries.len()
    }

    /// Whether there are no variables.
    pub fn is_empty(&self) -> (r: bool)
        ensures
            r == (self@.len() == 0),
    {
        self.entries.len() == 0
    }

    fn find(&self, name: &str) -> (r: Option<usize>)
        ensures
            r is Some ==> r->0 < self@.len() && self@[r->0 as int].0 == name@,
            r is None <==> index_of(self@, name@) is None,
            self.well_formed() && r is Some ==> index_of(self@, name@) == Some(r->0 as int),
    {
        let mut k: usize = 0;
        while k < self.entries.len()
            invariant
                k <= self.entries@.len(),
                forall|j: int| 0 <= j < k ==> (#[trigger] self@[j]).0 != name@,
            decreases self.entries@.len() - k,
        {
            assert(self@[k as int].0 == self.entries@[k as int].0@);
            if eq_lit(&chars_of(self.entries[k].0.as_str()), name) {
                assert(self@[k as int].0 == name@);
                return Some(k);
            }
            k = k + 1;
        }
        assert(!exists|j: int| 0 <= j < self@.len() && #[trigger] self@[j].0 == name@);
        None
    }
}

/// The value of `name` among the entries.
pub open spec fn lookup(e: Seq<(Seq<char>, Seq<char>)>, name: Seq<char>) -> Option<Seq<char>> {
    match index_of(e, name) {
        Some(k) => Some(e[k].1),
        None => None,
    }
}

impl Variables {
    /// Sets `name` to `value`.
    pub fn set(&mut self, name: String, value: String)
        requires
            old(self).well_formed(),
        ensures
            final(self).well_formed(),
            final(self)@ == entries_after_set(old(self)@, name@, value@),
    {
        let ghost n = name@;
        let ghost v = value@;
        match self.find(name.as_str()) {
            Some(k) => {
                self.entries.set(k, (name, value));
                assert(self@ =~= old(self)@.update(k as int, (n, v)));
            },
            None => {
                self.entries.push((name, value));
                assert(self@ =~= old(self)@.push((n, v)));
            },
        }
    }

    /// The value of `name`, if it is set.
    pub fn get(&self, name: &str) -> (r: Option<&String>)
        requires
            self.well_formed(),
        ensures
            r is None <==> lookup(self@, name@) is None,
            r matches Some(v) ==> lookup(self@, name@) == Some(v@),
    {
        match self.find(name) {
            Some(k) => Some(&self.entries[k].1),
            None => None,
        }
    }
}

/// The history after recording `c`: the most recent commands, at most
/// `MAX_STATE_HISTORY` of them.
pub open spec fn history_after(h: Seq<String>, c: String) -> Seq<String> {
    let n = h.push(c);
    if n.len() > MAX_STATE_HISTORY {
        n.drop_first()
    } else {
        n
    }
}

/// The state of an interactive session.
#[derive(Debug)]
pub struct ReplState {
    pub document: Option<MdDoc>,
    pub options: RunOptions,
    pub variables: Variables,
    pub history: Vec<String>,
    pub current_format: OutputFormat,
}

impl ReplState {
    /// A state with no document, no variables and no history.
    pub fn new(options: RunOptions) -> (r: Self)
        ensures
            r.document is None,
            r.current_format == options.output,
            r.options == options,
            r.variables@.len() == 0,
            r.variables.well_formed(),
            r.history@.len() == 0,
    {
        let current_format = options.output;
        ReplState {
            document: None,
            options,
            variables: Variables::new(),
            history: Vec::new(),
            current_format,
        }
    }

    /// Sets the current document.
    pub fn set_document(&mut self, doc: MdDoc)
        ensures
            final(self).document == Some(doc),
            final(self).options == old(self).options,
            final(self).variables == old(self).variables,
            final(self).history == old(self).history,
            final(self).current_format == old(self).current_format,
    {
        self.document = Some(doc);
    }

    /// The current document.
    pub fn document(&self) -> (r: Option<&MdDoc>)
        ensures
            r is None <==> self.document is None,
            r matches Some(d) ==> self.document == Some(*d),
    {
        match &self.document {
            Some(d) => Some(d),
            None => None,
        }
    }

    /// The current document, to change it.
    pub fn document_mut(&mut self) -> (r: Option<&mut MdDoc>)
        ensures
            r is None <==> old(self).document is None,
    {
        self.document.as_mut()
    }

    /// The current options, to change them.
    pub fn options_mut(&mut self) -> (r: &mut RunOptions)
        ensures
            *r == old(self).options,
    {
        &mut self.options
    }

    /// The current options.
    pub fn options(&self) -> (r: &RunOptions)
        ensures
            *r == self.options,
    {
        &self.options
    }

    /// Sets a variable.
    pub fn set_variable(&mut self, name: String, value: String)
        requires
            old(self).variables.well_formed(),
        ensures
            final(self).variables.well_formed(),
            final(self).variables@ == entries_after_set(old(self).variables@, name@, value@),
            final(self).document == old(self).document,
            final(self).history == old(self).history,
            final(self).options == old(self).options,
            final(self).current_format == old(self).current_format,
    {
        self.variables.set(name, value);
    }

    /// The value of a variable, if it is set.
    pub fn get_variable(&self, name: &str) -> (r: Option<&String>)
        requires
            self.variables.well_formed(),
        ensures
            r is None <==> lookup(self.variables@, name@) is None,
            r matches Some(v) ==> lookup(self.variables@, name@) == Some(v@),
    {
        self.variables.get(name)
    }

    /// Records a command in the history, keeping only the most recent ones.
    pub fn add_to_history(&mut self, command: String)
        ensures
            final(self).history@ == history_after(old(self).history@, command),
            final(self).document == old(self).document,
            final(self).variables == old(self).variables,
    {
        self.history.push(command);
        if self.history.len() > MAX_STATE_HISTORY {
            self.history.remove(0);
        }
    }

    /// The command history, oldest first.
    pub fn history(&self) -> (r: &[String])
        ensures
            r@ == self.history@,
    {
        self.history.as_slice()
    }

    /// Sets the output format.
    pub fn set_output_format(&mut self, format: OutputFormat)
        ensures
            *final(self) == (ReplState {
                current_format: format,
                options: RunOptions { output: format, ..old(self).options },
                ..*old(self)
            }),
    {
        self.current_format = format;
        self.options.output = format;
    }

    /// The output format.
    pub fn current_format(&self) -> (r: OutputFormat)
        ensures
            r == self.current_format,
    {
        self.current_format
    }

    /// Removes all variables.
    pub fn clear_variables(&mut self)
        ensures
            final(self).variables@.len() == 0,
            final(self).variables.well_formed(),
            final(self).document == old(self).document,
            final(self).history == old(self).history,
    {
        self.variables = Variables::new();
    }

    /// Drops the current document.
    pub fn clear_document(&mut self)
        ensures
            final(self).document is None,
            final(self).options == old(self).options,
            final(self).variables == old(self).variables,
            final(self).history == old(self).history,
            final(self).current_format == old(self).current_format,
    {
        self.document = None;
    }

    /// Whether a document is loaded.
    pub fn has_document(&self) -> (r: bool)
        ensures
            r == self.document is Some,
    {
        self.document.is_some()
    }
}

} // verus!
