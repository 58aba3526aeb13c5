use salon::editor::edit::Edit;
use salon::editor::ir_generator::to_ir_module;
use salon::float::F32;
use salon::ir::mask::{GlobalMask, Mask, MaskPrimitive, MaskTerm};
use salon::ir::module::Module;
use salon::ir::op::{InputOp, Op};

fn kinds(m: &Module) -> Vec<&'static str> {
    m.ops()
        .iter()
        .map(|op| match op {
            Op::Input(_) => "input",
            Op::AdjustExposure(_) => "exposure",
            Op::AdjustContrast(_) => "contrast",
            Op::ComputeBasicStatistics(_) => "stats",
            Op::ComputeGlobalMask(_) => "global_mask",
            Op::InvertMask(_) => "invert",
            Op::AddMask(_) => "add",
            Op::SubtractMask(_) => "subtract",
            Op::ApplyMaskedEdits(_) => "masked",
            Op::ComputeHistogram(_) => "histogram",
            Op::Resize(_) => "resize",
            Op::RotateAndCrop(_) => "rotate",
            _ => "other",
        })
        .collect()
}

#[test]
fn trivial_edit_compiles_to_input_mask_apply_histogram() {
    let (module, ids) = to_ir_module(&Edit::trivial());
    assert_eq!(kinds(&module), vec!["input", "global_mask", "masked", "histogram"]);
    assert_eq!(ids.geometry_only, 0);
    assert_eq!(ids.final_image, 2);
    assert_eq!(ids.final_histogram, 3);
    assert_eq!(ids.masked_edit_id_stores.len(), 1);
    assert_eq!(ids.masked_edit_id_stores[0].mask_id, 1);
    assert_eq!(ids.masked_edit_id_stores[0].term_ids, vec![1]);
    assert_eq!(ids.masked_edit_id_stores[0].result_image_id, 2);
}

#[test]
fn exposure_adds_one_op_inside_the_masked_edit() {
    let mut e = Edit::trivial();
    e.masked_edits[0].edit.exposure = F32::from_bits(0x3f80_0000);
    let (module, ids) = to_ir_module(&e);
    assert_eq!(kinds(&module), vec!["input", "global_mask", "exposure", "masked", "histogram"]);
    match &module.ops()[2] {
        Op::AdjustExposure(op) => {
            assert_eq!(op.arg, 0);
            assert_eq!(op.result, 2);
            assert_eq!(op.exposure.to_bits(), 0x3f80_0000);
        },
        _ => panic!("expected an exposure op"),
    }
    assert_eq!(ids.final_image, 3);
}

#[test]
fn contrast_computes_statistics_first() {
    let mut e = Edit::trivial();
    e.masked_edits[0].edit.contrast = F32::from_bits(0x3f80_0000);
    let (module, _) = to_ir_module(&e);
    assert_eq!(kinds(&module), vec!["input", "global_mask", "stats", "contrast", "masked", "histogram"]);
}

#[test]
fn resize_comes_before_the_masked_edits() {
    // a resize factor also brings a rotate-and-crop with the default rectangle
    let mut e = Edit::trivial();
    e.resize_factor = Some(F32::from_bits(0x3f00_0000));
    let (module, ids) = to_ir_module(&e);
    assert_eq!(kinds(&module)[..3], ["input", "resize", "rotate"]);
    assert_eq!(ids.geometry_only, 2);
}

#[test]
fn resize_factor_of_one_is_no_resize() {
    let mut e = Edit::trivial();
    e.resize_factor = Some(F32::from_bits(0x3f80_0000));
    let (module, ids) = to_ir_module(&e);
    assert_eq!(kinds(&module)[..2], ["input", "rotate"]);
    assert_eq!(ids.geometry_only, 1);
}

#[test]
fn inverted_mask_term_adds_an_invert_op() {
    let mut e = Edit::trivial();
    e.masked_edits[0].mask = Mask {
        terms: vec![MaskTerm { primitive: MaskPrimitive::Global(GlobalMask {}), inverted: true, subtracted: false }],
    };
    let (module, ids) = to_ir_module(&e);
    assert_eq!(kinds(&module), vec!["input", "global_mask", "invert", "masked", "histogram"]);
    assert_eq!(ids.masked_edit_id_stores[0].mask_id, 2);
}

#[test]
fn every_op_reads_only_earlier_results() {
    let mut e = Edit::trivial();
    e.masked_edits[0].edit.exposure = F32::from_bits(0x3f80_0000);
    e.masked_edits[0].edit.contrast = F32::from_bits(0x3f80_0000);
    let (module, _) = to_ir_module(&e);
    for (i, op) in module.ops().iter().enumerate() {
        assert_eq!(op.get_result_id(), i as i32);
        for arg in op.get_arg_ids() {
            assert!((arg as usize) < i);
        }
    }
}

#[test]
fn module_hands_out_ids_in_order() {
    let mut m = Module::new_empty();
    assert_eq!(m.alloc_id(), 0);
    assert_eq!(m.alloc_id(), 1);
    m.push_op(Op::Input(InputOp { result: 0 }));
    m.push_op(Op::Input(InputOp { result: 1 }));
    m.push_op(Op::Input(InputOp { result: 0 }));
    let index = m.get_result_id_to_op_index();
    assert_eq!(index.get(&0), Some(&2));
    assert_eq!(index.get(&1), Some(&1));
}

#[test]
fn mask_terms_are_combined_from_the_second_to_the_one_before_last() {
    let term = |subtracted: bool| MaskTerm { primitive: MaskPrimitive::Global(GlobalMask {}), inverted: false, subtracted };
    let mut e = Edit::trivial();
    e.masked_edits[0].mask = Mask { terms: vec![term(false), term(true), term(false)] };
    let (module, ids) = to_ir_module(&e);
    assert_eq!(
        kinds(&module),
        vec!["input", "global_mask", "global_mask", "global_mask", "subtract", "masked", "histogram"]
    );
    assert_eq!(ids.masked_edit_id_stores[0].term_ids, vec![1, 2, 3]);
    assert_eq!(ids.masked_edit_id_stores[0].mask_id, 4);
}
