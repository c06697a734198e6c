use vstd::prelude::*;

use crate::text::{
    chars_to_string, spec_trim_end, string_to_chars, trim_end_spaces,
};
use std::collections::VecDeque;

verus! {

/// Most submitted commands the history keeps; the oldest are evicted first.
pub const MAX_HISTORY_LENGTH: usize = 100;

/// Most lines the scrollback log keeps.
pub const MAX_LOG_LINES: usize = 1000;

/// Most characters the live buffer accepts; further insertions are no-ops.
pub const MAX_INPUT_LENGTH: usize = 2048;

/// The line editor and command history of the terminal.
///
/// `history` holds the submitted commands, oldest first, with no sentinel
/// slot; `history_index` ranges over `0 ..= history.len()`, where
/// `history.len()` means "editing the live draft line". While the user
/// browses the history, the draft is stashed in `input_backup` and is
/// restored, exactly once, when navigation returns to the draft position.
pub struct SqlTerminal {
    pub history: Vec<String>,
    pub history_index: usize,
    pub input: String,
    pub cursor_index: usize,
    pub displayed_lines: VecDeque<String>,
    pub input_backup: Option<String>,
}

/// Mathematical model of the editor/history state (the scrollback log is
/// tracked separately).
#[verifier::ext_equal]
pub ghost struct TermState {
    pub entries: Seq<Seq<char>>,
    pub index: int,
    pub input: Seq<char>,
    pub cursor: int,
    pub backup: Option<Seq<char>>,
}

/// The character sequences held by a vector of strings.
pub open spec fn entries_view(h: Seq<String>) -> Seq<Seq<char>> {
    Seq::new(h.len(), |i: int| h[i]@)
}

/// The state every editor in fresh condition starts from.
pub open spec fn initial_state() -> TermState {
    TermState {
        entries: Seq::empty(),
        index: 0,
        input: Seq::empty(),
        cursor: 0,
        backup: None,
    }
}

/// One navigation step toward older entries.
///
/// Leaving the draft stashes it into the backup; leaving a history entry
/// while a backup already exists snapshots the (possibly edited) buffer
/// back into that entry, so edits made mid-browse are not lost.
pub open spec fn back_step(t: TermState) -> TermState {
    if t.index <= 0 {
        t
    } else {
        let captured = if t.index == t.entries.len() || t.backup is None {
            TermState { backup: Some(t.input), ..t }
        } else {
            TermState { entries: t.entries.update(t.index, t.input), ..t }
        };
        let idx = t.index - 1;
        TermState {
            index: idx,
            input: captured.entries[idx],
            cursor: captured.entries[idx].len() as int,
            ..captured
        }
    }
}

/// One navigation step toward newer entries; arriving back at the draft
/// position restores the stashed draft, exactly once.
pub open spec fn fwd_step(t: TermState) -> TermState {
    if t.index < 0 || t.index >= t.entries.len() {
        t
    } else {
        let captured = if t.backup is None {
            TermState { backup: Some(t.input), ..t }
        } else {
            TermState { entries: t.entries.update(t.index, t.input), ..t }
        };
        let idx = t.index + 1;
        if idx == captured.entries.len() {
            let restored = match captured.backup {
                Some(s) => s,
                None => Seq::empty(),
            };
            TermState {
                entries: captured.entries,
                index: idx,
                input: restored,
                cursor: restored.len() as int,
                backup: None,
            }
        } else {
            TermState {
                index: idx,
                input: captured.entries[idx],
                cursor: captured.entries[idx].len() as int,
                ..captured
            }
        }
    }
}

/// Submitting the buffer: trailing whitespace is trimmed; an empty result
/// or a duplicate of the most recent entry is rejected (buffer cleared,
/// history untouched); otherwise the line is appended, the oldest entry is
/// evicted if the bound is exceeded, the index points at the new entry and
/// the backup is cleared.
pub open spec fn submit_step(t: TermState) -> TermState {
    let line = spec_trim_end(t.input);
    if line.len() == 0 {
        TermState { input: Seq::empty(), cursor: 0, ..t }
    } else if t.entries.len() > 0 && t.entries.last() == line {
        TermState { input: Seq::empty(), cursor: 0, ..t }
    } else {
        let pushed = t.entries.push(line);
        let entries = if pushed.len() > MAX_HISTORY_LENGTH {
            pushed.drop_first()
        } else {
            pushed
        };
        TermState {
            entries,
            index: entries.len() - 1,
            input: Seq::empty(),
            cursor: 0,
            backup: None,
        }
    }
}

impl SqlTerminal {
    /// The model of this editor.
    pub open spec fn state(&self) -> TermState {
        TermState {
            entries: entries_view(self.history@),
            index: self.history_index as int,
            input: self.input@,
            cursor: self.cursor_index as int,
            backup: match self.input_backup {
                Some(s) => Some(s@),
                None => None,
            },
        }
    }

    /// Well-formedness: the cursor addresses a character boundary of the
    /// buffer, the index addresses an entry or the draft position, and the
    /// history and log respect their bounds.
    pub open spec fn wf(&self) -> bool {
        &&& self.cursor_index <= self.input@.len()
        &&& self.history_index <= self.history@.len()
        &&& self.history@.len() <= MAX_HISTORY_LENGTH
        &&& self.displayed_lines@.len() <= MAX_LOG_LINES
    }

    pub fn new() -> (r: SqlTerminal)
        ensures
            r.wf(),
            r.state() == initial_state(),
            r.displayed_lines@.len() == 0,
    {
        let r = SqlTerminal {
            history: Vec::new(),
            history_index: 0,
            input: String::new(),
            cursor_index: 0,
            displayed_lines: VecDeque::with_capacity(MAX_LOG_LINES),
            input_backup: None,
        };
        proof {
            assert(r.state() =~= initial_state());
        }
        r
    }

    /// Append a line to the scrollback log, evicting the oldest line once
    /// the log is full.
    pub fn add_log_line(&mut self, line: String)
        requires
            old(self).wf(),
        ensures
            final(self).wf(),
            old(self).displayed_lines@.len() < MAX_LOG_LINES ==> final(self).displayed_lines@
                == old(self).displayed_lines@.push(line),
            old(self).displayed_lines@.len() >= MAX_LOG_LINES ==> final(self).displayed_lines@
                == old(self).displayed_lines@.drop_first().push(line),
            final(self).state() == old(self).state(),
    {
        if self.displayed_lines.len() >= MAX_LOG_LINES {
            self.displayed_lines.pop_front();
        }
        self.displayed_lines.push_back(line);
    }

    /// Move the cursor one character left, clamping at the start.
    pub fn move_cursor_left(&mut self)
        requires
            old(self).wf(),
        ensures
            final(self).wf(),
            final(self).cursor_index == (if old(self).cursor_index == 0 {
                0int
            } else {
                old(self).cursor_index - 1
            }),
            final(self).input == old(self).input,
            final(self).history == old(self).history,
            final(self).history_index == old(self).history_index,
            final(self).input_backup == old(self).input_backup,
            final(self).displayed_lines == old(self).displayed_lines,
    {
        if self.cursor_index == 0 {
            return;
        }
        self.cursor_index -= 1;
    }

    /// Move the cursor one character right, clamping at the end of the
    /// buffer.
    pub fn move_cursor_right(&mut self)
        requires
            old(self).wf(),
        ensures
            final(self).wf(),
            final(self).cursor_index == (if old(self).cursor_index >= old(self).input@.len() {
                old(self).cursor_index as int
            } else {
                old(self).cursor_index + 1
            }),
            final(self).input == old(self).input,
            final(self).history == old(self).history,
            final(self).history_index == old(self).history_index,
            final(self).input_backup == old(self).input_backup,
            final(self).displayed_lines == old(self).displayed_lines,
    {
        if self.cursor_index >= self.input.as_str().unicode_len() {
            return;
        }
        self.cursor_index += 1;
    }

    /// Insert a character at the cursor, by character position, unless the
    /// buffer has reached its capacity.
    pub fn enter_char(&mut self, new_char: char)
        requires
            old(self).wf(),
        ensures
            final(self).wf(),
            old(self).input@.len() >= MAX_INPUT_LENGTH ==> *final(self) == *old(self),
            old(self).input@.len() < MAX_INPUT_LENGTH ==> {
                &&& final(self).input@ == old(self).input@.insert(
                    old(self).cursor_index as int,
                    new_char,
                )
                &&& final(self).cursor_index == old(self).cursor_index + 1
            },
            final(self).history == old(self).history,
            final(self).history_index == old(self).history_index,
            final(self).input_backup == old(self).input_backup,
            final(self).displayed_lines == old(self).displayed_lines,
    {
        if self.input.as_str().unicode_len() >= MAX_INPUT_LENGTH {
            return;
        }
        let mut chars = string_to_chars(self.input.as_str());
        chars.insert(self.cursor_index, new_char);
        self.input = chars_to_string(&chars);
        self.cursor_index += 1;
    }

    /// Remove the character immediately left of the cursor; a no-op at the
    /// start of the buffer.
    pub fn delete_char(&mut self)
        requires
            old(self).wf(),
        ensures
            final(self).wf(),
            old(self).cursor_index == 0 ==> *final(self) == *old(self),
            old(self).cursor_index > 0 ==> {
                &&& final(self).input@ == old(self).input@.remove(old(self).cursor_index - 1)
                &&& final(self).cursor_index == old(self).cursor_index - 1
            },
            final(self).history == old(self).history,
            final(self).history_index == old(self).history_index,
            final(self).input_backup == old(self).input_backup,
            final(self).displayed_lines == old(self).displayed_lines,
    {
        if self.cursor_index == 0 {
            return;
        }
        let mut chars = string_to_chars(self.input.as_str());
        chars.remove(self.cursor_index - 1);
        self.input = chars_to_string(&chars);
        self.cursor_index -= 1;
    }

    /// Navigate one step toward newer history entries.
    pub fn increment_history(&mut self)
        requires
            old(self).wf(),
        ensures
            final(self).wf(),
            final(self).state() == fwd_step(old(self).state()),
            final(self).displayed_lines == old(self).displayed_lines,
    {
        if self.history_index >= self.history.len() {
            return;
        }
        if self.input_backup.is_none() {
            self.input_backup = Some(self.input.clone());
        } else {
            let cur = self.input.clone();
            self.history[self.history_index] = cur;
        }
        self.history_index += 1;
        if self.history_index == self.history.len() {
            let restored = match &self.input_backup {
                Some(s) => s.clone(),
                None => String::new(),
            };
            self.input_backup = None;
            self.input = restored;
        } else {
            self.input = self.history[self.history_index].clone();
        }
        self.cursor_index = self.input.as_str().unicode_len();
        proof {
            assert(self.state().entries =~= fwd_step(old(self).state()).entries);
            assert(self.state() =~= fwd_step(old(self).state()));
        }
    }

    /// Navigate one step toward older history entries.
    pub fn decrement_history(&mut self)
        requires
            old(self).wf(),
        ensures
            final(self).wf(),
            final(self).state() == back_step(old(self).state()),
            final(self).displayed_lines == old(self).displayed_lines,
    {
        if self.history_index == 0 {
            return;
        }
        if self.history_index >= self.history.len() || self.input_backup.is_none() {
            self.input_backup = Some(self.input.clone());
        } else {
            let cur = self.input.clone();
            self.history[self.history_index] = cur;
        }
        self.history_index -= 1;
        self.input = self.history[self.history_index].clone();
        self.cursor_index = self.input.as_str().unicode_len();
        proof {
            assert(self.state().entries =~= back_step(old(self).state()).entries);
            assert(self.state() =~= back_step(old(self).state()));
        }
    }

    /// Submit the current buffer into the history.
    pub fn add_command(&mut self)
        requires
            old(self).wf(),
        ensures
            final(self).wf(),
            final(self).state() == submit_step(old(self).state()),
            final(self).displayed_lines == old(self).displayed_lines,
    {
        let line = trim_end_spaces(self.input.as_str());
        if line.as_str().unicode_len() == 0 {
            self.input = String::new();
            self.cursor_index = 0;
            proof {
                assert(self.state() =~= submit_step(old(self).state()));
            }
            return;
        }
        let hlen = self.history.len();
        if hlen > 0 && self.history[hlen - 1] == line {
            self.input = String::new();
            self.cursor_index = 0;
            proof {
                assert(self.state() =~= submit_step(old(self).state()));
            }
            return;
        }
        self.history.push(line);
        if self.history.len() > MAX_HISTORY_LENGTH {
            self.history.remove(0);
        }
        self.history_index = self.history.len() - 1;
        self.input = String::new();
        self.cursor_index = 0;
        self.input_backup = None;
        proof {
            assert(self.state().entries =~= submit_step(old(self).state()).entries);
            assert(self.state() =~= submit_step(old(self).state()));
        }
    }
}

// ---------------------------------------------------------------------------
// Laws
// ---------------------------------------------------------------------------
/// `k` navigation steps toward older entries.
pub open spec fn apply_back(t: TermState, k: nat) -> TermState
    decreases k,
{
    if k == 0 {
        t
    } else {
        apply_back(back_step(t), (k - 1) as nat)
    }
}

/// `k` navigation steps toward newer entries.
pub open spec fn apply_fwd(t: TermState, k: nat) -> TermState
    decreases k,
{
    if k == 0 {
        t
    } else {
        apply_fwd(fwd_step(t), (k - 1) as nat)
    }
}

proof fn lemma_apply_back_unfold_last(t: TermState, k: nat)
    requires
        k >= 1,
    ensures
        apply_back(t, k) == back_step(apply_back(t, (k - 1) as nat)),
    decreases k,
{
    if k == 1 {
        assert(apply_back(t, 1) == apply_back(back_step(t), 0));
        assert(apply_back(back_step(t), 0) == back_step(t));
        assert(apply_back(t, 0) == t);
    } else {
        lemma_apply_back_unfold_last(back_step(t), (k - 1) as nat);
        assert(apply_back(t, k) == apply_back(back_step(t), (k - 1) as nat));
        assert(apply_back(t, (k - 1) as nat) == apply_back(back_step(t), (k - 2) as nat));
    }
}

proof fn lemma_back_stashes(t: TermState, k: nat)
    requires
        t.index == t.entries.len(),
        1 <= k <= t.entries.len(),
    ensures
        apply_back(t, k).backup == Some(t.input),
        apply_back(t, k).entries.len() == t.entries.len(),
        apply_back(t, k).index == t.index - k,
    decreases k,
{
    lemma_apply_back_unfold_last(t, k);
    if k == 1 {
        assert(apply_back(t, 0) == t);
    } else {
        lemma_back_stashes(t, (k - 1) as nat);
        let s = apply_back(t, (k - 1) as nat);
        assert(s.index > 0);
        assert(s.index < s.entries.len());
    }
}

proof fn lemma_fwd_restores(s: TermState, x: Seq<char>, k: nat)
    requires
        s.backup == Some(x),
        k >= 1,
        s.index == s.entries.len() - k,
        s.index >= 0,
    ensures
        apply_fwd(s, k).input == x,
        apply_fwd(s, k).index == s.entries.len(),
        apply_fwd(s, k).backup is None,
    decreases k,
{
    if k == 1 {
        assert(apply_fwd(s, 1) == apply_fwd(fwd_step(s), 0));
        assert(apply_fwd(fwd_step(s), 0) == fwd_step(s));
    } else {
        let s1 = fwd_step(s);
        assert(s1.backup == Some(x));
        assert(s1.entries.len() == s.entries.len());
        assert(s1.index == s.index + 1);
        lemma_fwd_restores(s1, x, (k - 1) as nat);
        assert(apply_fwd(s, k) == apply_fwd(s1, (k - 1) as nat));
    }
}

/// Round-trip law of history navigation: starting from the live draft,
/// navigating back `k` steps and then forward `k` steps restores the
/// draft buffer exactly, whatever edits were made to entries in between.
pub proof fn lemma_history_round_trip(t: TermState, k: nat)
    requires
        t.index == t.entries.len(),
        k <= t.entries.len(),
    ensures
        apply_fwd(apply_back(t, k), k).input == t.input,
        apply_fwd(apply_back(t, k), k).index == t.index,
{
    if k >= 1 {
        lemma_back_stashes(t, k);
        let s = apply_back(t, k);
        assert(s.index == t.entries.len() - k);
        lemma_fwd_restores(s, t.input, k);
    }
}

/// Deduplication law of submission: a buffer that trims to nothing, or to
/// a duplicate of the most recent entry, never creates a history entry;
/// any other buffer creates exactly one, at the newest position.
pub proof fn lemma_submission_dedup(t: TermState)
    requires
        t.entries.len() <= MAX_HISTORY_LENGTH,
    ensures
        spec_trim_end(t.input).len() == 0 ==> submit_step(t).entries == t.entries,
        t.entries.len() > 0 && t.entries.last() == spec_trim_end(t.input) ==> submit_step(
            t,
        ).entries == t.entries,
        spec_trim_end(t.input).len() > 0 && (t.entries.len() == 0 || t.entries.last()
            != spec_trim_end(t.input)) ==> submit_step(t).entries.last() == spec_trim_end(t.input)
            && submit_step(t).entries.len() == vstd::math::min(
            t.entries.len() as int + 1,
            MAX_HISTORY_LENGTH as int,
        ),
{
}

/// The history bound is an invariant of every mutation: navigation never
/// changes the history's length, and a bounded history stays bounded
/// under submission, with the oldest entry evicted when the bound is hit.
pub proof fn lemma_history_bounded(t: TermState)
    requires
        t.entries.len() <= MAX_HISTORY_LENGTH,
        t.index <= t.entries.len(),
    ensures
        submit_step(t).entries.len() <= MAX_HISTORY_LENGTH,
        back_step(t).entries.len() == t.entries.len(),
        fwd_step(t).entries.len() == t.entries.len(),
{
}

} // verus!
