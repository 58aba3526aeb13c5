use salon::editor::edit::{Edit, GlobalEdit};
use salon::editor::edit_context::EditContext;
use salon::editor::editor::Editor;
use salon::float::F32;
use salon::library::identifier::LibraryImageIdentifier;

fn with_exposure(bits: u32) -> Edit {
    let mut e = Edit::trivial();
    e.masked_edits[0].edit.exposure = F32::from_bits(bits);
    e
}

const ONE: u32 = 0x3f80_0000;
const TWO: u32 = 0x4000_0000;

#[test]
fn new_global_edit_is_neutral() {
    let g = GlobalEdit::new();
    assert!(g.exposure.is_zero());
    assert_eq!(g.curve_control_points_all.len(), 2);
    assert_eq!(g.curve_control_points_all[1].0.to_bits(), ONE);
    assert!(g.ieee_eq(&GlobalEdit::new()));
}

#[test]
fn trivial_edit_has_one_global_masked_edit() {
    let e = Edit::trivial();
    assert_eq!(e.masked_edits.len(), 1);
    assert_eq!(e.masked_edits[0].name, "Global");
    assert!(e.resize_factor.is_none());
    assert!(e.ieee_eq(&Edit::trivial()));
    assert!(!e.ieee_eq(&with_exposure(ONE)));
}

#[test]
fn committed_edits_can_be_undone_and_redone() {
    let mut ctx: EditContext<u32, ()> = EditContext::new(7, Edit::trivial());
    assert!(!ctx.can_undo());
    assert!(!ctx.can_redo());
    assert!(ctx.update_transient_edit(with_exposure(ONE)));
    assert!(ctx.commit_transient_edit());
    assert!(ctx.can_undo());
    assert_eq!(ctx.clone_edit_history().len(), 2);
    assert!(ctx.maybe_undo());
    assert!(ctx.current_edit_ref().ieee_eq(&Edit::trivial()));
    assert!(ctx.can_redo());
    assert!(ctx.maybe_redo());
    assert_eq!(ctx.current_edit_ref().masked_edits[0].edit.exposure.to_bits(), ONE);
    assert!(!ctx.maybe_redo());
}

#[test]
fn an_unchanged_transient_edit_is_no_update() {
    let mut ctx: EditContext<u32, ()> = EditContext::new(7, Edit::trivial());
    assert!(!ctx.update_transient_edit(Edit::trivial()));
    assert!(!ctx.commit_transient_edit());
    assert_eq!(ctx.clone_edit_history().len(), 1);
}

#[test]
fn committing_after_undo_drops_the_redo_branch() {
    let mut ctx: EditContext<u32, ()> = EditContext::new(7, Edit::trivial());
    ctx.update_transient_edit(with_exposure(ONE));
    ctx.commit_transient_edit();
    ctx.maybe_undo();
    ctx.update_transient_edit(with_exposure(TWO));
    assert!(ctx.commit_transient_edit());
    assert!(!ctx.can_redo());
    let history = ctx.clone_edit_history();
    assert_eq!(history.len(), 2);
    assert_eq!(history[1].masked_edits[0].edit.exposure.to_bits(), TWO);
}

#[test]
fn transient_edit_is_shown_until_committed() {
    let mut ctx: EditContext<u32, ()> = EditContext::new(7, Edit::trivial());
    ctx.update_transient_edit(with_exposure(TWO));
    assert_eq!(ctx.transient_edit_ref().masked_edits[0].edit.exposure.to_bits(), TWO);
    assert!(ctx.current_edit_ref().ieee_eq(&Edit::trivial()));
    assert_eq!(*ctx.input_image(), 7);
}

#[test]
fn resize_factor_override_changes_every_edit() {
    let mut ctx: EditContext<u32, ()> = EditContext::new(7, Edit::trivial());
    ctx.update_transient_edit(with_exposure(ONE));
    ctx.commit_transient_edit();
    ctx.override_resize_factor(F32::from_bits(0x3f00_0000));
    for e in ctx.clone_edit_history() {
        assert_eq!(e.resize_factor.map(|f| f.to_bits()), Some(0x3f00_0000));
    }
}

#[test]
fn editor_switches_images_and_keeps_sessions() {
    let mut editor: Editor<u32, ()> = Editor::new();
    let a = LibraryImageIdentifier::Path("/a.jpg".to_string());
    let b = LibraryImageIdentifier::Path("/b.jpg".to_string());
    assert!(editor.set_current_image(a.duplicate(), 1, None));
    assert!(!editor.set_current_image(a.duplicate(), 1, None));
    assert!(editor.update_transient_edit(with_exposure(ONE), true));
    assert!(!editor.update_transient_edit(with_exposure(ONE), true));
    assert!(editor.commit_transient_edit());
    assert!(editor.can_undo());
    assert!(editor.set_current_image(b.duplicate(), 2, Some(with_exposure(TWO))));
    assert!(!editor.can_undo());
    assert_eq!(editor.get_full_size_edit().masked_edits[0].edit.exposure.to_bits(), TWO);
    assert!(editor.set_current_image(a.duplicate(), 3, None));
    assert!(editor.can_undo());
    assert!(editor.maybe_undo());
    assert!(editor.maybe_redo());
    assert!(editor.has_edit_context(&b));
    assert!(editor.current_image_identifier().unwrap().equals(&a));
    editor.clear_current_image();
    assert!(editor.current_image_identifier().is_none());
    assert!(!editor.can_undo());
}

#[test]
fn full_size_edit_has_no_resize_factor() {
    let mut editor: Editor<u32, ()> = Editor::new();
    let mut e = Edit::trivial();
    e.resize_factor = Some(F32::from_bits(0x3f00_0000));
    editor.set_current_image(LibraryImageIdentifier::Temp(1), 1, Some(e));
    assert!(editor.get_full_size_edit().resize_factor.is_none());
}
