//! The editor's session state: the image being edited and one edit session
//! per image that was opened.
//!
//! Running edits on the GPU and saving them are the caller's part: the
//! operations here say when to run (a `true` result) and hand back what to
//! run or save.
use vstd::prelude::*;

use crate::editor::edit::Edit;
use crate::editor::edit_context::EditContext;
use crate::library::identifier::{IdKey, LibraryImageIdentifier};
use crate::library::identifier_map::IdentifierMap;

verus! {

pub struct Editor<I, R> {
    current_image_identifier: Option<LibraryImageIdentifier>,
    edit_contexts: IdentifierMap<EditContext<I, R>>,
}

/// The edit with no resize factor: the edit at full size.
pub open spec fn spec_full_size(e: Edit) -> Edit {
    Edit { resize_factor: None, ..e }
}

impl<I, R> Editor<I, R> {
    pub closed spec fn spec_current_key(self) -> Option<IdKey> {
        match self.current_image_identifier {
            Some(id) => Some(id.spec_key()),
            None => None,
        }
    }

    pub closed spec fn spec_contexts(self) -> Map<IdKey, EditContext<I, R>> {
        self.edit_contexts@
    }

    /// Each session is well-formed, and the current image has one.
    pub closed spec fn well_formed(self) -> bool {
        &&& self.edit_contexts.well_formed()
        &&& forall|k: IdKey| #[trigger] self.edit_contexts@.dom().contains(k) ==> self.edit_contexts@[k].well_formed()
        &&& self.current_image_identifier matches Some(id) ==> self.edit_contexts@.dom().contains(id.spec_key())
    }

    /// The session of the current image.
    pub open spec fn spec_current_context(self) -> EditContext<I, R>
        recommends
            self.spec_current_key() is Some,
    {
        self.spec_contexts()[self.spec_current_key()->0]
    }

    pub fn new() -> (r: Self)
        ensures
            r.well_formed(),
            r.spec_current_key() is None,
            r.spec_contexts() == Map::<IdKey, EditContext<I, R>>::empty(),
    {
        Editor { current_image_identifier: None, edit_contexts: IdentifierMap::new() }
    }

    /// An edit session exists for the image (so no saved edit needs loading).
    pub fn has_edit_context(&self, identifier: &LibraryImageIdentifier) -> (r: bool)
        requires
            self.well_formed(),
        ensures
            r == self.spec_contexts().dom().contains(identifier.spec_key()),
    {
        self.edit_contexts.contains_key(identifier)
    }

    /// Makes `identifier` the current image. Nothing happens when it already
    /// is. Otherwise its session gets `image` as input (a new session starts
    /// from `saved_edit`, or from the trivial edit), and the result says the
    /// current edit must be run.
    pub fn set_current_image(&mut self, identifier: LibraryImageIdentifier, image: I, saved_edit: Option<Edit>) -> (execute: bool)
        requires
            old(self).well_formed(),
        ensures
            final(self).well_formed(),
            old(self).spec_current_key() == Some(identifier.spec_key()) ==> !execute && *final(self) == *old(self),
            old(self).spec_current_key() != Some(identifier.spec_key()) ==> {
                let k = identifier.spec_key();
                let ctx = final(self).spec_contexts()[k];
                &&& execute
                &&& final(self).spec_current_key() == Some(k)
                &&& final(self).spec_contexts().dom() == old(self).spec_contexts().dom().insert(k)
                &&& final(self).spec_contexts().remove(k) == old(self).spec_contexts().remove(k)
                &&& ctx.spec_input_image() == Some(image)
                &&& if old(self).spec_contexts().dom().contains(k) {
                    &&& ctx.spec_state() == old(self).spec_contexts()[k].spec_state()
                    &&& ctx.spec_full_size_image() == old(self).spec_contexts()[k].spec_full_size_image()
                } else {
                    &&& ctx.spec_state().index == 0
                    &&& ctx.spec_state().transient is None
                    &&& ctx.spec_state().history.len() == 1
                    &&& match saved_edit {
                        Some(e) => ctx.spec_state().history[0] == e,
                        None => ctx.spec_state().history[0].spec_is_trivial(),
                    }
                    &&& ctx.spec_full_size_image() is None
                }
            },
    {
        if let Some(ref curr_identifier) = self.current_image_identifier {
            if curr_identifier.equals(&identifier) {
                return false;
            }
        }
        proof {
            self.edit_contexts.lemma_view();
        }
        match self.edit_contexts.remove(&identifier) {
            Some(mut context) => {
                context.set_input_image(image);
                self.edit_contexts.insert(identifier.duplicate(), context);
            },
            None => {
                let edit = match saved_edit {
                    Some(e) => e,
                    None => Edit::trivial(),
                };
                let new_context = EditContext::new(image, edit);
                self.edit_contexts.insert(identifier.duplicate(), new_context);
            },
        }
        self.current_image_identifier = Some(identifier);
        proof {
            let k = identifier.spec_key();
            assert(self.edit_contexts@.dom() =~= old(self).edit_contexts@.dom().insert(k));
            assert(self.edit_contexts@.remove(k) =~= old(self).edit_contexts@.remove(k));
            assert forall|k2: IdKey| #[trigger] self.edit_contexts@.dom().contains(k2) implies self.edit_contexts@[k2].well_formed() by {
                if k2 != k {
                    assert(old(self).edit_contexts@.dom().contains(k2));
                }
            }
        }
        true
    }

    pub fn current_image_identifier(&self) -> (r: Option<LibraryImageIdentifier>)
        ensures
            match r {
                Some(id) => self.spec_current_key() == Some(id.spec_key()),
                None => self.spec_current_key() is None,
            },
    {
        match &self.current_image_identifier {
            Some(id) => Some(id.duplicate()),
            None => None,
        }
    }

    pub fn clear_current_image(&mut self)
        requires
            old(self).well_formed(),
        ensures
            final(self).well_formed(),
            final(self).spec_current_key() is None,
            final(self).spec_contexts() == old(self).spec_contexts(),
    {
        self.current_image_identifier = None;
    }

    /// The session of the current image, if there is a current image.
    pub fn current_edit_context_ref(&self) -> (r: Option<&EditContext<I, R>>)
        requires
            self.well_formed(),
        ensures
            r is Some <==> self.spec_current_key() is Some,
            r matches Some(c) ==> *c == self.spec_current_context() && c.well_formed(),
    {
        match &self.current_image_identifier {
            Some(identifier) => self.edit_contexts.get(identifier),
            None => None,
        }
    }

    /// `b` differs from `a` at most in the session of the current image.
    pub open spec fn only_current_changed(a: Self, b: Self) -> bool {
        let k = a.spec_current_key()->0;
        &&& b.well_formed()
        &&& b.spec_current_key() == a.spec_current_key()
        &&& b.spec_contexts().dom() == a.spec_contexts().dom()
        &&& b.spec_contexts().remove(k) == a.spec_contexts().remove(k)
        &&& b.spec_current_context().spec_input_image() == a.spec_current_context().spec_input_image()
    }

    /// Takes the current session out, for an operation on it.
    fn take_current_context(&mut self) -> (r: (LibraryImageIdentifier, EditContext<I, R>))
        requires
            old(self).well_formed(),
            old(self).spec_current_key() is Some,
        ensures
            r.0.spec_key() == old(self).spec_current_key()->0,
            r.1 == old(self).spec_current_context(),
            r.1.well_formed(),
            final(self).edit_contexts.well_formed(),
            final(self).spec_contexts() == old(self).spec_contexts().remove(r.0.spec_key()),
            final(self).current_image_identifier == old(self).current_image_identifier,
    {
        let identifier = match &self.current_image_identifier {
            Some(id) => id.duplicate(),
            None => unreached(),
        };
        let context = match self.edit_contexts.remove(&identifier) {
            Some(c) => c,
            None => unreached(),
        };
        (identifier, context)
    }

    /// Puts the current session back after an operation on it.
    fn put_current_context(&mut self, identifier: LibraryImageIdentifier, context: EditContext<I, R>)
        requires
            old(self).edit_contexts.well_formed(),
            old(self).spec_current_key() == Some(identifier.spec_key()),
            !old(self).spec_contexts().dom().contains(identifier.spec_key()),
            forall|k: IdKey| #[trigger] old(self).spec_contexts().dom().contains(k) ==> old(self).spec_contexts()[k].well_formed(),
            context.well_formed(),
        ensures
            final(self).well_formed(),
            final(self).spec_contexts() == old(self).spec_contexts().insert(identifier.spec_key(), context),
            final(self).spec_current_key() == old(self).spec_current_key(),
    {
        self.edit_contexts.insert(identifier, context);
    }

    /// Sets the transient edit of the current image; true when it changed and
    /// `execute` asks to run it.
    pub fn update_transient_edit(&mut self, transient_edit: Edit, execute: bool) -> (execute_now: bool)
        requires
            old(self).well_formed(),
            old(self).spec_current_key() is Some,
        ensures
            Self::only_current_changed(*old(self), *final(self)),
            ({
                let (st, updated) = old(self).spec_current_context().spec_state().update(transient_edit);
                &&& final(self).spec_current_context().spec_state() == st
                &&& execute_now == (updated && execute)
            }),
            final(self).spec_current_context().spec_full_size_image() == old(self).spec_current_context().spec_full_size_image(),
            final(self).spec_current_context().spec_current_result() == old(self).spec_current_context().spec_current_result(),
    {
        let (identifier, mut context) = self.take_current_context();
        let updated = context.update_transient_edit(transient_edit);
        self.put_current_context(identifier, context);
        proof { self.lemma_after_put(*old(self)); }
        updated && execute
    }

    /// Commits the transient edit of the current image; true when the history
    /// changed (the caller then saves the current edit, and runs it when it
    /// asked for a run).
    pub fn commit_transient_edit(&mut self) -> (committed: bool)
        requires
            old(self).well_formed(),
            old(self).spec_current_key() is Some,
        ensures
            Self::only_current_changed(*old(self), *final(self)),
            ({
                let (st, c) = old(self).spec_current_context().spec_state().commit();
                &&& final(self).spec_current_context().spec_state() == st
                &&& committed == c
            }),
            final(self).spec_current_context().spec_full_size_image() == if committed {
                None
            } else {
                old(self).spec_current_context().spec_full_size_image()
            },
            final(self).spec_current_context().spec_current_result() == old(self).spec_current_context().spec_current_result(),
    {
        let (identifier, mut context) = self.take_current_context();
        let committed = context.commit_transient_edit();
        self.put_current_context(identifier, context);
        proof { self.lemma_after_put(*old(self)); }
        committed
    }

    proof fn lemma_after_put(self, old_self: Self)
        requires
            old_self.well_formed(),
            old_self.spec_current_key() is Some,
            self.well_formed(),
            self.spec_current_key() == old_self.spec_current_key(),
            self.spec_contexts() == old_self.spec_contexts().remove(old_self.spec_current_key()->0).insert(
                old_self.spec_current_key()->0,
                self.spec_current_context(),
            ),
            self.spec_current_context().spec_input_image() == old_self.spec_current_context().spec_input_image(),
        ensures
            Self::only_current_changed(old_self, self),
    {
        let k = old_self.spec_current_key()->0;
        assert(self.spec_contexts().dom() =~= old_self.spec_contexts().dom());
        assert(self.spec_contexts().remove(k) =~= old_self.spec_contexts().remove(k));
    }

    pub fn can_undo(&mut self) -> (r: bool)
        requires
            old(self).well_formed(),
        ensures
            *final(self) == *old(self),
            r == (old(self).spec_current_key() is Some && old(self).spec_current_context().spec_state().can_undo()),
    {
        match self.current_edit_context_ref() {
            Some(context) => context.can_undo(),
            None => false,
        }
    }

    pub fn can_redo(&mut self) -> (r: bool)
        requires
            old(self).well_formed(),
        ensures
            *final(self) == *old(self),
            r == (old(self).spec_current_key() is Some && old(self).spec_current_context().spec_state().can_redo()),
    {
        match self.current_edit_context_ref() {
            Some(context) => context.can_redo(),
            None => false,
        }
    }

    /// Undoes in the current image's history; true when it did (the caller
    /// then runs and saves the current edit).
    pub fn maybe_undo(&mut self) -> (undone: bool)
        requires
            old(self).well_formed(),
        ensures
            old(self).spec_current_key() is None ==> !undone && *final(self) == *old(self),
            old(self).spec_current_key() is Some ==> {
                let (st, u) = old(self).spec_current_context().spec_state().undo();
                &&& Self::only_current_changed(*old(self), *final(self))
                &&& final(self).spec_current_context().spec_state() == st
                &&& undone == u
                &&& final(self).spec_current_context().spec_full_size_image() == if u {
                    None
                } else {
                    old(self).spec_current_context().spec_full_size_image()
                }
                &&& final(self).spec_current_context().spec_current_result() == old(self).spec_current_context().spec_current_result()
            },
    {
        if self.current_image_identifier.is_none() {
            return false;
        }
        let (identifier, mut context) = self.take_current_context();
        let undone = context.maybe_undo();
        self.put_current_context(identifier, context);
        proof { self.lemma_after_put(*old(self)); }
        undone
    }

    /// Redoes in the current image's history; true when it did (the caller
    /// then runs and saves the current edit).
    pub fn maybe_redo(&mut self) -> (redone: bool)
        requires
            old(self).well_formed(),
        ensures
            old(self).spec_current_key() is None ==> !redone && *final(self) == *old(self),
            old(self).spec_current_key() is Some ==> {
                let (st, u) = old(self).spec_current_context().spec_state().redo();
                &&& Self::only_current_changed(*old(self), *final(self))
                &&& final(self).spec_current_context().spec_state() == st
                &&& redone == u
                &&& final(self).spec_current_context().spec_full_size_image() == if u {
                    None
                } else {
                    old(self).spec_current_context().spec_full_size_image()
                }
                &&& final(self).spec_current_context().spec_current_result() == old(self).spec_current_context().spec_current_result()
            },
    {
        if self.current_image_identifier.is_none() {
            return false;
        }
        let (identifier, mut context) = self.take_current_context();
        let redone = context.maybe_redo();
        self.put_current_context(identifier, context);
        proof { self.lemma_after_put(*old(self)); }
        redone
    }

    /// The current edit without its resize factor.
    pub fn get_full_size_edit(&self) -> (r: Edit)
        requires
            self.well_formed(),
            self.spec_current_key() is Some,
        ensures
            r.spec_same(spec_full_size(self.spec_current_context().spec_state().current())),
    {
        let context = match self.current_edit_context_ref() {
            Some(c) => c,
            None => unreached(),
        };
        let edit = context.current_edit_ref().duplicate();
        Edit { resize_factor: None, ..edit }
    }

    /// Stores the result of running the current image's edit.
    pub fn set_current_result(&mut self, result: R)
        requires
            old(self).well_formed(),
            old(self).spec_current_key() is Some,
        ensures
            Self::only_current_changed(*old(self), *final(self)),
            final(self).spec_current_context().spec_state() == old(self).spec_current_context().spec_state(),
            final(self).spec_current_context().spec_current_result() == Some(result),
            final(self).spec_current_context().spec_full_size_image() == old(self).spec_current_context().spec_full_size_image(),
    {
        let (identifier, mut context) = self.take_current_context();
        context.set_current_result(result);
        self.put_current_context(identifier, context);
        proof { self.lemma_after_put(*old(self)); }
    }

    /// Stores the full-size edited image of the current image.
    pub fn set_current_full_size_image(&mut self, image: I)
        requires
            old(self).well_formed(),
            old(self).spec_current_key() is Some,
        ensures
            Self::only_current_changed(*old(self), *final(self)),
            final(self).spec_current_context().spec_state() == old(self).spec_current_context().spec_state(),
            final(self).spec_current_context().spec_full_size_image() == Some(image),
            final(self).spec_current_context().spec_current_result() == old(self).spec_current_context().spec_current_result(),
    {
        let (identifier, mut context) = self.take_current_context();
        context.set_full_size_image(image);
        self.put_current_context(identifier, context);
        proof { self.lemma_after_put(*old(self)); }
    }

    /// What is written to disk when the current edit changed: the path of the
    /// current image and its current edit, when the current image is a file.
    pub fn current_edit_to_save(&self) -> (r: Option<(String, Edit)>)
        requires
            self.well_formed(),
        ensures
            match self.spec_current_key() {
                Some(k) => if k.0 {
                    r matches Some((p, e)) && p@ == k.2 && e.spec_same(self.spec_current_context().spec_state().current())
                } else {
                    r is None
                },
                None => r is None,
            },
    {
        match &self.current_image_identifier {
            Some(identifier) => match identifier.get_path() {
                Some(path) => {
                    let context = match self.current_edit_context_ref() {
                        Some(c) => c,
                        None => unreached(),
                    };
                    Some((path, context.current_edit_ref().duplicate()))
                },
                None => None,
            },
            None => None,
        }
    }
}

} // verus!
