//! The command history of the interactive prompt.
use std::collections::VecDeque;
use vstd::prelude::*;

verus! {

/// The history size of a prompt made with `Default`.
pub const DEFAULT_MAX_HISTORY: usize = 1000;

/// The command history of the interactive prompt.
#[derive(Debug)]
pub struct ReplInput {
    /// Commands, oldest first.
    pub history: VecDeque<String>,
    /// The most commands that the history keeps.
    pub max_history: usize,
    /// Where a walk through the history stands, if one is under way.
    pub history_pos: Option<usize>,
}

/// Whether `c` is added to the history `h`: it is not empty, and not equal
/// to the last command.
pub open spec fn is_added(h: Seq<String>, c: String) -> bool {
    !(c@.len() == 0 || (h.len() > 0 && h.last()@ == c@))
}

/// The history after adding `c`: an empty command, or one equal to the last,
/// is not added; otherwise it goes at the end, and the oldest leaves when the
/// history would outgrow `max`.
pub open spec fn history_with(h: Seq<String>, c: String, max: usize) -> Seq<String> {
    if c@.len() == 0 || (h.len() > 0 && h.last()@ == c@) {
        h
    } else if h.push(c).len() > max {
        h.push(c).drop_first()
    } else {
        h.push(c)
    }
}

impl ReplInput {
    /// A prompt whose history keeps at most `max_history` commands.
    pub fn new(max_history: usize) -> (r: Self)
        ensures
            r.history@.len() == 0,
            r.max_history == max_history,
            r.history_pos is None,
    {
        ReplInput { history: VecDeque::new(), max_history, history_pos: None }
    }

    /// Adds a command to the history.
    pub fn add_to_history(&mut self, command: String)
        ensures
            final(self).history@ == history_with(old(self).history@, command, old(self).max_history),
            final(self).max_history == old(self).max_history,
            final(self).history_pos == (if is_added(old(self).history@, command) {
                None
            } else {
                old(self).history_pos
            }),
    {
        let n = self.history.len();
        if command.as_str().is_empty() || (n > 0 && self.history[n - 1] == command) {
            return;
        }
        let ghost h = self.history@.push(command);
        self.history.push_back(command);
        assert(self.history@ == h);
        if self.history.len() > self.max_history {
            self.history.pop_front();
            assert(self.history@ =~= h.drop_first());
        }
        self.history_pos = None;
    }
}

impl Default for ReplInput {
    fn default() -> (r: Self)
        ensures
            r.history@.len() == 0,
            r.max_history == DEFAULT_MAX_HISTORY,
            r.history_pos is None,
    {
        Self::new(DEFAULT_MAX_HISTORY)
    }
}

} // verus!
