//! The edit session of one image: the history of committed edits, the
//! position in that history (for undo and redo), and the edit being changed
//! right now (for example while a slider is dragged).
use vstd::prelude::*;

use crate::editor::edit::{lemma_edit_eq_symmetric, Edit};
use crate::float::F32;

verus! {

/// `I` is the image handle, `R` the result of running an edit.
pub struct EditContext<I, R> {
    input_image: Option<I>,
    edit_history: Vec<Edit>,
    current_edit_index: usize,
    // an edit that is being actively modified
    // (e.g. as the user drags the slider, the temporary edit state)
    transient_edit: Option<Edit>,
    pub current_result: Option<R>,
    // full size result that includes framing
    // (not equal to current_result.final_image, which might not be full-size)
    pub current_full_size_editted_image: Option<I>,
}

/// The history part of an edit session: the committed edits, the index of the
/// current one, and the transient edit.
pub struct HistoryState {
    pub history: Seq<Edit>,
    pub index: int,
    pub transient: Option<Edit>,
}

impl HistoryState {
    /// There is a current edit.
    pub open spec fn well_formed(self) -> bool {
        0 <= self.index < self.history.len()
    }

    pub open spec fn current(self) -> Edit {
        self.history[self.index]
    }

    /// The edit shown to the user: the transient one if any, else the current one.
    pub open spec fn shown(self) -> Edit {
        match self.transient {
            Some(t) => t,
            None => self.current(),
        }
    }

    pub open spec fn can_undo(self) -> bool {
        self.index > 0
    }

    pub open spec fn can_redo(self) -> bool {
        self.index < self.history.len() - 1
    }

    /// Replaces the transient edit when `t` differs from the shown edit;
    /// reports whether it did.
    pub open spec fn update(self, t: Edit) -> (HistoryState, bool) {
        let needs_update = match self.transient {
            Some(c) => !c.spec_eq(t),
            None => !self.current().spec_eq(t),
        };
        if needs_update {
            (HistoryState { transient: Some(t), ..self }, true)
        } else {
            (self, false)
        }
    }

    /// Commits the transient edit when it differs from the current edit: the
    /// edits after the current one are dropped and the transient edit becomes
    /// the new current edit. The transient edit is cleared either way.
    pub open spec fn commit(self) -> (HistoryState, bool) {
        match self.transient {
            Some(t) => if !t.spec_eq(self.current()) {
                (
                    HistoryState {
                        history: self.history.take(self.index + 1).push(t),
                        index: self.index + 1,
                        transient: None,
                    },
                    true,
                )
            } else {
                (HistoryState { transient: None, ..self }, false)
            },
            None => (self, false),
        }
    }

    /// Steps back one edit when possible, dropping the transient edit.
    pub open spec fn undo(self) -> (HistoryState, bool) {
        if self.can_undo() {
            (HistoryState { index: self.index - 1, transient: None, ..self }, true)
        } else {
            (self, false)
        }
    }

    /// Steps forward one edit when possible, dropping the transient edit.
    pub open spec fn redo(self) -> (HistoryState, bool) {
        if self.can_redo() {
            (HistoryState { index: self.index + 1, transient: None, ..self }, true)
        } else {
            (self, false)
        }
    }
}

/// The edit with its resize factor set to `f`.
pub open spec fn with_resize_factor(e: Edit, f: F32) -> Edit {
    Edit { resize_factor: Some(f), ..e }
}

impl<I, R> EditContext<I, R> {
    pub closed spec fn spec_state(self) -> HistoryState {
        HistoryState {
            history: self.edit_history@,
            index: self.current_edit_index as int,
            transient: self.transient_edit,
        }
    }

    pub closed spec fn spec_input_image(self) -> Option<I> {
        self.input_image
    }

    pub closed spec fn spec_full_size_image(self) -> Option<I> {
        self.current_full_size_editted_image
    }

    pub closed spec fn spec_current_result(self) -> Option<R> {
        self.current_result
    }

    pub open spec fn well_formed(self) -> bool {
        self.spec_state().well_formed()
    }

    /// A session on `input_image` whose history holds just `edit`.
    pub fn new(input_image: I, edit: Edit) -> (r: Self)
        ensures
            r.well_formed(),
            r.spec_state().history == seq![edit],
            r.spec_state().index == 0,
            r.spec_state().transient is None,
            r.spec_input_image() == Some(input_image),
            r.spec_full_size_image() is None,
            r.spec_current_result() is None,
    {
        let mut edit_history: Vec<Edit> = Vec::new();
        edit_history.push(edit);
        EditContext {
            input_image: Some(input_image),
            edit_history,
            current_edit_index: 0,
            transient_edit: None,
            current_result: None,
            current_full_size_editted_image: None,
        }
    }

    pub fn set_input_image(&mut self, image: I)
        ensures
            final(self).spec_input_image() == Some(image),
            final(self).spec_state() == old(self).spec_state(),
            final(self).spec_full_size_image() == old(self).spec_full_size_image(),
    {
        self.input_image = Some(image);
    }

    pub fn set_current_result(&mut self, result: R)
        ensures
            final(self).spec_current_result() == Some(result),
            final(self).spec_state() == old(self).spec_state(),
            final(self).spec_input_image() == old(self).spec_input_image(),
            final(self).spec_full_size_image() == old(self).spec_full_size_image(),
    {
        self.current_result = Some(result);
    }

    pub fn set_full_size_image(&mut self, image: I)
        ensures
            final(self).spec_full_size_image() == Some(image),
            final(self).spec_state() == old(self).spec_state(),
            final(self).spec_input_image() == old(self).spec_input_image(),
            final(self).spec_current_result() == old(self).spec_current_result(),
    {
        self.current_full_size_editted_image = Some(image);
    }

    pub fn input_image(&self) -> (r: &I)
        requires
            self.spec_input_image() is Some,
        ensures
            *r == self.spec_input_image()->0,
    {
        self.input_image.as_ref().unwrap()
    }

    /// Copies of the edits up to and including the current one.
    pub fn clone_edit_history(&self) -> (r: Vec<Edit>)
        requires
            self.well_formed(),
        ensures
            r@.len() == self.spec_state().index + 1,
            forall|i: int| 0 <= i < r@.len() ==> #[trigger] r@[i].spec_same(self.spec_state().history[i]),
    {
        let mut history: Vec<Edit> = Vec::new();
        assert(self.edit_history@.len() == self.edit_history.len());
        let mut i: usize = 0;
        while i <= self.current_edit_index
            invariant
                self.current_edit_index < self.edit_history@.len(),
                self.edit_history@.len() <= usize::MAX,
                i <= self.current_edit_index + 1,
                history@.len() == i,
                forall|j: int| 0 <= j < i ==> #[trigger] history@[j].spec_same(self.edit_history@[j]),
            decreases self.current_edit_index + 1 - i,
        {
            history.push(self.edit_history[i].duplicate());
            i = i + 1;
        }
        history
    }

    pub fn current_edit_ref(&self) -> (r: &Edit)
        requires
            self.well_formed(),
        ensures
            *r == self.spec_state().current(),
    {
        &self.edit_history[self.current_edit_index]
    }

    /// The edit shown to the user: the transient one if any, else the current one.
    pub fn transient_edit_ref(&self) -> (r: &Edit)
        requires
            self.well_formed(),
        ensures
            *r == self.spec_state().shown(),
    {
        if self.transient_edit.is_none() {
            self.current_edit_ref()
        } else {
            self.transient_edit.as_ref().unwrap()
        }
    }

    /// Returns true iff an update was made.
    pub fn update_transient_edit(&mut self, transient_edit: Edit) -> (updated: bool)
        requires
            old(self).well_formed(),
        ensures
            (final(self).spec_state(), updated) == old(self).spec_state().update(transient_edit),
            final(self).well_formed(),
            final(self).spec_input_image() == old(self).spec_input_image(),
            final(self).spec_full_size_image() == old(self).spec_full_size_image(),
            final(self).spec_current_result() == old(self).spec_current_result(),
    {
        let needs_update: bool;
        if let Some(ref curr_transient_edit) = self.transient_edit {
            needs_update = !curr_transient_edit.ieee_eq(&transient_edit);
        } else {
            needs_update = !self.edit_history[self.current_edit_index].ieee_eq(&transient_edit);
        }
        if needs_update {
            self.transient_edit = Some(transient_edit);
        }
        needs_update
    }

    /// Returns true iff the edit history is updated. A commit clears the
    /// full-size result.
    pub fn commit_transient_edit(&mut self) -> (committed: bool)
        requires
            old(self).well_formed(),
        ensures
            (final(self).spec_state(), committed) == old(self).spec_state().commit(),
            final(self).well_formed(),
            final(self).spec_input_image() == old(self).spec_input_image(),
            final(self).spec_full_size_image() == if committed {
                None
            } else {
                old(self).spec_full_size_image()
            },
            final(self).spec_current_result() == old(self).spec_current_result(),
    {
        let ghost s0 = self.spec_state();
        let ghost image0 = self.input_image;
        let ghost result0 = self.current_result;
        let mut needs_commit = false;
        if let Some(ref transient) = self.transient_edit {
            if !transient.ieee_eq(&self.edit_history[self.current_edit_index]) {
                needs_commit = true;
            }
        }
        if needs_commit {
            while self.current_edit_index < self.edit_history.len() - 1
                invariant
                    self.current_edit_index == s0.index,
                    s0.index < self.edit_history@.len(),
                    self.edit_history@.len() <= s0.history.len(),
                    self.edit_history@ == s0.history.take(self.edit_history@.len() as int),
                    self.transient_edit == s0.transient,
                    self.input_image == image0,
                    self.current_result == result0,
                decreases self.edit_history@.len(),
            {
                self.edit_history.pop();
            }
            proof {
                assert(self.edit_history@ == s0.history.take(s0.index + 1));
            }
            self.edit_history.push(self.transient_edit.take().unwrap());
            self.current_edit_index = self.edit_history.len() - 1;
            self.current_full_size_editted_image = None;
        }
        self.transient_edit = None;
        needs_commit
    }

    pub fn can_undo(&self) -> (r: bool)
        ensures
            r == self.spec_state().can_undo(),
    {
        self.current_edit_index > 0
    }

    pub fn can_redo(&self) -> (r: bool)
        requires
            self.well_formed(),
        ensures
            r == self.spec_state().can_redo(),
    {
        self.current_edit_index < self.edit_history.len() - 1
    }

    /// Returns whether or not an undo happened. An undo clears the full-size result.
    pub fn maybe_undo(&mut self) -> (undone: bool)
        requires
            old(self).well_formed(),
        ensures
            (final(self).spec_state(), undone) == old(self).spec_state().undo(),
            final(self).well_formed(),
            final(self).spec_input_image() == old(self).spec_input_image(),
            final(self).spec_full_size_image() == if undone {
                None
            } else {
                old(self).spec_full_size_image()
            },
            final(self).spec_current_result() == old(self).spec_current_result(),
    {
        if self.current_edit_index > 0 {
            self.current_edit_index = self.current_edit_index - 1;
            self.transient_edit = None;
            self.current_full_size_editted_image = None;
            true
        } else {
            false
        }
    }

    /// Returns whether or not a redo happened. A redo clears the full-size result.
    pub fn maybe_redo(&mut self) -> (redone: bool)
        requires
            old(self).well_formed(),
        ensures
            (final(self).spec_state(), redone) == old(self).spec_state().redo(),
            final(self).well_formed(),
            final(self).spec_input_image() == old(self).spec_input_image(),
            final(self).spec_full_size_image() == if redone {
                None
            } else {
                old(self).spec_full_size_image()
            },
            final(self).spec_current_result() == old(self).spec_current_result(),
    {
        if self.current_edit_index < self.edit_history.len() - 1 {
            self.current_edit_index = self.current_edit_index + 1;
            self.transient_edit = None;
            self.current_full_size_editted_image = None;
            true
        } else {
            false
        }
    }

    /// Sets the resize factor of the transient edit and of every edit in the history.
    pub fn override_resize_factor(&mut self, new_resize_factor: F32)
        requires
            old(self).well_formed(),
        ensures
            final(self).well_formed(),
            final(self).spec_state().index == old(self).spec_state().index,
            final(self).spec_state().history.len() == old(self).spec_state().history.len(),
            forall|i: int| 0 <= i < old(self).spec_state().history.len() ==>
                #[trigger] final(self).spec_state().history[i] == with_resize_factor(
                    old(self).spec_state().history[i],
                    new_resize_factor,
                ),
            final(self).spec_state().transient == match old(self).spec_state().transient {
                Some(t) => Some(with_resize_factor(t, new_resize_factor)),
                None => None,
            },
            final(self).spec_input_image() == old(self).spec_input_image(),
            final(self).spec_full_size_image() == old(self).spec_full_size_image(),
    {
        if let Some(ref mut e) = self.transient_edit {
            e.resize_factor = Some(new_resize_factor);
        }
        let ghost h0 = self.edit_history@;
        let ghost index0 = self.current_edit_index;
        let ghost transient0 = self.transient_edit;
        let ghost image0 = self.input_image;
        let ghost full0 = self.current_full_size_editted_image;
        let mut i: usize = 0;
        while i < self.edit_history.len()
            invariant
                self.current_edit_index == index0,
                index0 < h0.len(),
                self.transient_edit == transient0,
                self.input_image == image0,
                self.current_full_size_editted_image == full0,
                self.edit_history@.len() == h0.len(),
                i <= h0.len(),
                forall|j: int| 0 <= j < i ==> #[trigger] self.edit_history@[j] == with_resize_factor(h0[j], new_resize_factor),
                forall|j: int| i <= j < h0.len() ==> #[trigger] self.edit_history@[j] == h0[j],
            decreases h0.len() - i,
        {
            self.edit_history[i].resize_factor = Some(new_resize_factor);
            i = i + 1;
        }
    }
}


/// Every transition keeps a well-formed history well-formed.
pub proof fn lemma_transitions_well_formed(s: HistoryState, t: Edit)
    requires
        s.well_formed(),
    ensures
        s.update(t).0.well_formed(),
        s.commit().0.well_formed(),
        s.undo().0.well_formed(),
        s.redo().0.well_formed(),
{
}

/// Redo undoes an undo: after a successful undo, a redo succeeds and returns
/// to the same history and position, with no transient edit.
pub proof fn lemma_undo_then_redo(s: HistoryState)
    requires
        s.well_formed(),
        s.undo().1,
    ensures
        s.undo().0.redo() == (HistoryState { transient: None, ..s }, true),
{
}

/// Undo undoes a redo: after a successful redo, an undo succeeds and returns
/// to the same history and position, with no transient edit.
pub proof fn lemma_redo_then_undo(s: HistoryState)
    requires
        s.well_formed(),
        s.redo().1,
    ensures
        s.redo().0.undo() == (HistoryState { transient: None, ..s }, true),
{
}

/// With no transient edit, an update that changes the shown edit followed by
/// a commit makes that edit the new current edit, right after the previous
/// current one; the edits that could have been redone are dropped.
pub proof fn lemma_update_then_commit(s: HistoryState, t: Edit)
    requires
        s.well_formed(),
        s.transient is None,
        s.update(t).1,
    ensures
        s.update(t).0.commit() == (
            HistoryState { history: s.history.take(s.index + 1).push(t), index: s.index + 1, transient: None },
            true,
        ),
{
    lemma_edit_eq_symmetric(t, s.current());
}

/// After a successful commit nothing can be redone, and an undo goes back to
/// the edit that was current before the commit.
pub proof fn lemma_commit_then_undo(s: HistoryState)
    requires
        s.well_formed(),
        s.commit().1,
    ensures
        !s.commit().0.can_redo(),
        s.commit().0.undo().1,
        s.commit().0.undo().0.index == s.index,
        s.commit().0.undo().0.current() == s.current(),
        s.commit().0.undo().0.history.take(s.index + 1) == s.history.take(s.index + 1),
{
    let s1 = s.commit().0;
    assert(s1.history[s.index] == s.history.take(s.index + 1)[s.index]);
    assert(s1.history.take(s.index + 1) =~= s.history.take(s.index + 1));
}

/// Updating with the edit already shown changes nothing, provided that edit
/// equals itself (it holds no NaN parameter).
pub proof fn lemma_update_with_shown_is_noop(s: HistoryState)
    requires
        s.well_formed(),
        s.shown().spec_eq(s.shown()),
    ensures
        s.update(s.shown()) == (s, false),
{
}

/// Undo at the first edit, and redo at the last, change nothing.
pub proof fn lemma_undo_redo_at_ends(s: HistoryState)
    requires
        s.well_formed(),
    ensures
        s.index == 0 ==> s.undo() == (s, false),
        s.index == s.history.len() - 1 ==> s.redo() == (s, false),
{
}

} // verus!
