//! Compiles an edit to an IR module.
//!
//! Each adjustment that changes the image appends its operations to the
//! module and moves the "current output" to the value it writes; an
//! adjustment left at its neutral value appends nothing.
use vstd::prelude::*;

use crate::editor::edit::{spec_initial_control_points, Edit, GlobalEdit, MaskedEdit};
use crate::float::F32;
use crate::ir::id::Id;
use crate::ir::mask::spec_mask_ops;
use crate::ir::module::Module;
use crate::ir::op::{
    control_points_eq, control_points_spec_eq, copy_control_points, lemma_ops_match_concat,
    lemma_ops_match_refl, lemma_ops_match_trans, ops_match, AdjustContrastOp, AdjustExposureOp,
    AdjustHighlightsAndShadowsOp, AdjustTemperatureAndTintOp, AdjustVibranceAndSaturationOp,
    AdjustVignetteOp, ApplyCurveOp, ApplyDehazeOp, ApplyMaskedEditsOp, ColorMixGroup, ColorMixOp,
    ComputeBasicStatisticsOp, ComputeHistogramOp, InputOp, Op, PrepareDehazeOp, ResizeOp,
    RotateAndCropOp,
};
use crate::ir::well_formed::{
    id_defined, lemma_emit, ops_well_formed,
};
use crate::rectangle::Rectangle;

verus! {

/// The ids that the editor reads back after running a compiled edit.
pub struct IdStore {
    pub final_image: Id,
    pub geometry_only: Id,
    pub final_histogram: Id,
    pub masked_edit_id_stores: Vec<MaskedEditIdStore>,
}

/// The ids of one masked edit: its mask, each term of the mask, and the image
/// after the edit.
pub struct MaskedEditIdStore {
    pub mask_id: Id,
    pub term_ids: Vec<Id>,
    pub result_image_id: Id,
}

impl MaskedEditIdStore {
    pub open spec fn spec_view(self) -> (Id, Seq<Id>, Id) {
        (self.mask_id, self.term_ids@, self.result_image_id)
    }
}

impl IdStore {
    pub open spec fn spec_masked(self) -> Seq<(Id, Seq<Id>, Id)> {
        self.masked_edit_id_stores@.map_values(|s: MaskedEditIdStore| s.spec_view())
    }
}

/// The module can take `k` more operations: its ids are dense, its operations
/// well-formed, `cur` is one of its values, and `k` more ids fit in an `Id`.
pub open spec fn can_extend(m: Module, cur: Id, k: int) -> bool {
    &&& m.spec_next_id() == m.spec_ops().len()
    &&& ops_well_formed(m.spec_ops())
    &&& id_defined(m.spec_ops(), cur)
    &&& m.spec_ops().len() + k <= i32::MAX
}

/// `m1` extends `m0` by at most `k` operations and stays well-formed, and
/// `cur` is one of its values.
pub open spec fn extends_within(m0: Module, m1: Module, cur: Id, k: int) -> bool {
    &&& m1.spec_next_id() == m1.spec_ops().len()
    &&& ops_well_formed(m1.spec_ops())
    &&& id_defined(m1.spec_ops(), cur)
    &&& m0.spec_ops().len() <= m1.spec_ops().len() <= m0.spec_ops().len() + k
}

// What each step appends after `n` operations, with `cur` as the current
// output, and the current output afterwards.

pub open spec fn spec_add_dehaze(e: GlobalEdit, n: int, cur: Id) -> (Seq<Op>, Id) {
    if !e.dehaze.spec_is_zero() {
        let dehazed = n as Id;
        let applied = (n + 1) as Id;
        (
            seq![
                Op::PrepareDehaze(PrepareDehazeOp { result: dehazed, arg: cur }),
                Op::ApplyDehaze(
                    ApplyDehazeOp { result: applied, arg: cur, dehazed, amount: e.dehaze },
                ),
            ],
            applied,
        )
    } else {
        (Seq::empty(), cur)
    }
}

pub open spec fn spec_add_exposure(e: GlobalEdit, n: int, cur: Id) -> (Seq<Op>, Id) {
    if !e.exposure.spec_is_zero() {
        let id = n as Id;
        (seq![Op::AdjustExposure(AdjustExposureOp { result: id, arg: cur, exposure: e.exposure })], id)
    } else {
        (Seq::empty(), cur)
    }
}

pub open spec fn spec_add_contrast(e: GlobalEdit, n: int, cur: Id) -> (Seq<Op>, Id) {
    if !e.contrast.spec_is_zero() {
        let stats = n as Id;
        let id = (n + 1) as Id;
        (
            seq![
                Op::ComputeBasicStatistics(ComputeBasicStatisticsOp { result: stats, arg: cur }),
                Op::AdjustContrast(
                    AdjustContrastOp { result: id, arg: cur, basic_stats: stats, contrast: e.contrast },
                ),
            ],
            id,
        )
    } else {
        (Seq::empty(), cur)
    }
}

pub open spec fn spec_add_highlights_shadows(e: GlobalEdit, n: int, cur: Id) -> (Seq<Op>, Id) {
    if !e.highlights.spec_is_zero() || !e.shadows.spec_is_zero() {
        let id = n as Id;
        (
            seq![
                Op::AdjustHighlightsAndShadows(
                    AdjustHighlightsAndShadowsOp {
                        result: id,
                        arg: cur,
                        highlights: e.highlights,
                        shadows: e.shadows,
                    },
                ),
            ],
            id,
        )
    } else {
        (Seq::empty(), cur)
    }
}

/// One curve: applied on the chosen channels unless its control points equal
/// the identity curve's.
pub open spec fn spec_add_curve(
    control: Vec<(F32, F32)>,
    r: bool,
    g: bool,
    b: bool,
    n: int,
    cur: Id,
) -> (Seq<Op>, Id) {
    if !control_points_spec_eq(control@, spec_initial_control_points()) {
        let id = n as Id;
        (
            seq![
                Op::ApplyCurve(
                    ApplyCurveOp {
                        result: id,
                        arg: cur,
                        control_points: control,
                        apply_r: r,
                        apply_g: g,
                        apply_b: b,
                    },
                ),
            ],
            id,
        )
    } else {
        (Seq::empty(), cur)
    }
}

/// The curve on all channels, then the red, green and blue curves.
pub open spec fn spec_add_curves(e: GlobalEdit, n: int, cur: Id) -> (Seq<Op>, Id) {
    let (s1, c1) = spec_add_curve(e.curve_control_points_all, true, true, true, n, cur);
    let (s2, c2) = spec_add_curve(e.curve_control_points_r, true, false, false, n + s1.len(), c1);
    let (s3, c3) = spec_add_curve(
        e.curve_control_points_g,
        false,
        true,
        false,
        n + s1.len() + s2.len(),
        c2,
    );
    let (s4, c4) = spec_add_curve(
        e.curve_control_points_b,
        false,
        false,
        true,
        n + s1.len() + s2.len() + s3.len(),
        c3,
    );
    (s1 + s2 + s3 + s4, c4)
}

pub open spec fn spec_add_temperature_tint(e: GlobalEdit, n: int, cur: Id) -> (Seq<Op>, Id) {
    if !e.temperature.spec_is_zero() || !e.tint.spec_is_zero() {
        let id = n as Id;
        (
            seq![
                Op::AdjustTemperatureAndTint(
                    AdjustTemperatureAndTintOp {
                        result: id,
                        arg: cur,
                        temperature: e.temperature,
                        tint: e.tint,
                    },
                ),
            ],
            id,
        )
    } else {
        (Seq::empty(), cur)
    }
}

pub open spec fn spec_add_vibrance_saturation(e: GlobalEdit, n: int, cur: Id) -> (Seq<Op>, Id) {
    if !e.vibrance.spec_is_zero() || !e.saturation.spec_is_zero() {
        let id = n as Id;
        (
            seq![
                Op::AdjustVibranceAndSaturation(
                    AdjustVibranceAndSaturationOp {
                        result: id,
                        arg: cur,
                        vibrance: e.vibrance,
                        saturation: e.saturation,
                    },
                ),
            ],
            id,
        )
    } else {
        (Seq::empty(), cur)
    }
}

/// Every color group is neutral (compares equal to `ColorMixGroup::new()`).
pub open spec fn spec_color_mix_is_neutral(groups: Seq<ColorMixGroup>) -> bool {
    forall|i: int| 0 <= i < 8 ==> #[trigger] groups[i].spec_is_neutral()
}

pub open spec fn spec_add_color_mix(e: GlobalEdit, n: int, cur: Id) -> (Seq<Op>, Id) {
    if !spec_color_mix_is_neutral(e.color_mixer_edits@) {
        let id = n as Id;
        (
            seq![
                Op::ColorMix(ColorMixOp { result: id, arg: cur, groups: e.color_mixer_edits }),
            ],
            id,
        )
    } else {
        (Seq::empty(), cur)
    }
}

pub open spec fn spec_add_vignette(e: GlobalEdit, n: int, cur: Id) -> (Seq<Op>, Id) {
    if !e.vignette.spec_is_zero() {
        let id = n as Id;
        (seq![Op::AdjustVignette(AdjustVignetteOp { result: id, arg: cur, vignette: e.vignette })], id)
    } else {
        (Seq::empty(), cur)
    }
}

/// All adjustments of a global edit, in order: dehaze first (its preparation
/// is the most expensive step), then exposure, contrast, highlights and
/// shadows, curves, temperature and tint, vibrance and saturation, color mix,
/// and vignette.
pub open spec fn spec_add_global_edit(e: GlobalEdit, n: int, cur: Id) -> (Seq<Op>, Id) {
    let (s1, c1) = spec_add_dehaze(e, n, cur);
    let (s2, c2) = spec_add_exposure(e, n + s1.len(), c1);
    let (s3, c3) = spec_add_contrast(e, n + s1.len() + s2.len(), c2);
    let (s4, c4) = spec_add_highlights_shadows(e, n + s1.len() + s2.len() + s3.len(), c3);
    let n5 = n + s1.len() + s2.len() + s3.len() + s4.len();
    let (s5, c5) = spec_add_curves(e, n5, c4);
    let (s6, c6) = spec_add_temperature_tint(e, n5 + s5.len(), c5);
    let (s7, c7) = spec_add_vibrance_saturation(e, n5 + s5.len() + s6.len(), c6);
    let (s8, c8) = spec_add_color_mix(e, n5 + s5.len() + s6.len() + s7.len(), c7);
    let (s9, c9) = spec_add_vignette(e, n5 + s5.len() + s6.len() + s7.len() + s8.len(), c8);
    (s1 + s2 + s3 + s4 + s5 + s6 + s7 + s8 + s9, c9)
}

/// Chaining: if `before` matches `ops0 + acc` and `after` matches
/// `before + s`, then `after` matches `ops0 + (acc + s)`.
proof fn lemma_chain(ops0: Seq<Op>, acc: Seq<Op>, before: Seq<Op>, after: Seq<Op>, s: Seq<Op>)
    requires
        ops_match(before, ops0 + acc),
        ops_match(after, before + s),
    ensures
        ops_match(after, ops0 + (acc + s)),
{
    lemma_ops_match_refl(s);
    lemma_ops_match_concat(before, ops0 + acc, s, s);
    assert(ops0 + acc + s =~= ops0 + (acc + s));
    lemma_ops_match_trans(after, before + s, ops0 + (acc + s));
}

pub fn maybe_add_dehaze(edit: &GlobalEdit, module: &mut Module, current_output_id: &mut Id)
    requires
        can_extend(*old(module), *old(current_output_id), 2),
    ensures
        extends_within(*old(module), *final(module), *final(current_output_id), 2),
        ({
            let (s, c) = spec_add_dehaze(*edit, old(module).spec_ops().len() as int, *old(current_output_id));
            final(module).spec_ops() == old(module).spec_ops() + s && *final(current_output_id) == c
        }),
{
    let ghost ops0 = module.spec_ops();
    if !edit.dehaze.is_zero() {
        let dehazed_id = module.alloc_id();
        let op1 = Op::PrepareDehaze(PrepareDehazeOp { result: dehazed_id, arg: *current_output_id });
        let ghost g1 = op1;
        proof {
            assert(g1.spec_arg_ids() =~= seq![*current_output_id]);
            lemma_emit(ops0, g1);
        }
        module.push_op(op1);
        let dehaze_applied_id = module.alloc_id();
        let op2 = Op::ApplyDehaze(
            ApplyDehazeOp {
                result: dehaze_applied_id,
                arg: *current_output_id,
                dehazed: dehazed_id,
                amount: edit.dehaze,
            },
        );
        let ghost g2 = op2;
        proof {
            assert(g2.spec_arg_ids() =~= seq![*current_output_id]);
            lemma_emit(ops0.push(g1), g2);
        }
        module.push_op(op2);
        *current_output_id = dehaze_applied_id;
        proof {
            assert(module.spec_ops() =~= ops0 + seq![g1, g2]);
        }
    } else {
        assert(module.spec_ops() =~= ops0 + Seq::<Op>::empty());
    }
}

pub fn maybe_add_exposure(edit: &GlobalEdit, module: &mut Module, current_output_id: &mut Id)
    requires
        can_extend(*old(module), *old(current_output_id), 1),
    ensures
        extends_within(*old(module), *final(module), *final(current_output_id), 1),
        ({
            let (s, c) = spec_add_exposure(*edit, old(module).spec_ops().len() as int, *old(current_output_id));
            final(module).spec_ops() == old(module).spec_ops() + s && *final(current_output_id) == c
        }),
{
    let ghost ops0 = module.spec_ops();
    if !edit.exposure.is_zero() {
        let exposure_adjusted_image_id = module.alloc_id();
        let op = Op::AdjustExposure(
            AdjustExposureOp {
                result: exposure_adjusted_image_id,
                arg: *current_output_id,
                exposure: edit.exposure,
            },
        );
        let ghost g = op;
        proof {
            assert(g.spec_arg_ids() =~= seq![*current_output_id]);
            lemma_emit(ops0, g);
        }
        module.push_op(op);
        *current_output_id = exposure_adjusted_image_id;
    } else {
        assert(module.spec_ops() =~= ops0 + Seq::<Op>::empty());
    }
}

pub fn maybe_add_contrast(edit: &GlobalEdit, module: &mut Module, current_output_id: &mut Id)
    requires
        can_extend(*old(module), *old(current_output_id), 2),
    ensures
        extends_within(*old(module), *final(module), *final(current_output_id), 2),
        ({
            let (s, c) = spec_add_contrast(*edit, old(module).spec_ops().len() as int, *old(current_output_id));
            final(module).spec_ops() == old(module).spec_ops() + s && *final(current_output_id) == c
        }),
{
    let ghost ops0 = module.spec_ops();
    if !edit.contrast.is_zero() {
        let basic_stats_id = module.alloc_id();
        let op1 = Op::ComputeBasicStatistics(
            ComputeBasicStatisticsOp { result: basic_stats_id, arg: *current_output_id },
        );
        let ghost g1 = op1;
        proof {
            assert(g1.spec_arg_ids() =~= seq![*current_output_id]);
            lemma_emit(ops0, g1);
        }
        module.push_op(op1);
        let contrast_adjusted_image_id = module.alloc_id();
        let op2 = Op::AdjustContrast(
            AdjustContrastOp {
                result: contrast_adjusted_image_id,
                arg: *current_output_id,
                basic_stats: basic_stats_id,
                contrast: edit.contrast,
            },
        );
        let ghost g2 = op2;
        proof {
            assert(g2.spec_arg_ids() =~= seq![*current_output_id, basic_stats_id]);
            lemma_emit(ops0.push(g1), g2);
        }
        module.push_op(op2);
        *current_output_id = contrast_adjusted_image_id;
        proof {
            assert(module.spec_ops() =~= ops0 + seq![g1, g2]);
        }
    } else {
        assert(module.spec_ops() =~= ops0 + Seq::<Op>::empty());
    }
}

pub fn maybe_add_highlights_shadows(edit: &GlobalEdit, module: &mut Module, current_output_id: &mut Id)
    requires
        can_extend(*old(module), *old(current_output_id), 1),
    ensures
        extends_within(*old(module), *final(module), *final(current_output_id), 1),
        ({
            let (s, c) = spec_add_highlights_shadows(
                *edit,
                old(module).spec_ops().len() as int,
                *old(current_output_id),
            );
            final(module).spec_ops() == old(module).spec_ops() + s && *final(current_output_id) == c
        }),
{
    let ghost ops0 = module.spec_ops();
    if !edit.highlights.is_zero() || !edit.shadows.is_zero() {
        let adjusted_image_id = module.alloc_id();
        let op = Op::AdjustHighlightsAndShadows(
            AdjustHighlightsAndShadowsOp {
                result: adjusted_image_id,
                arg: *current_output_id,
                highlights: edit.highlights,
                shadows: edit.shadows,
            },
        );
        let ghost g = op;
        proof {
            assert(g.spec_arg_ids() =~= seq![*current_output_id]);
            lemma_emit(ops0, g);
        }
        module.push_op(op);
        *current_output_id = adjusted_image_id;
    } else {
        assert(module.spec_ops() =~= ops0 + Seq::<Op>::empty());
    }
}

/// Applies one curve on the chosen channels, unless it is the identity curve.
pub fn maybe_add_curve(
    control: &Vec<(F32, F32)>,
    r: bool,
    g: bool,
    b: bool,
    module: &mut Module,
    current_output_id: &mut Id,
)
    requires
        can_extend(*old(module), *old(current_output_id), 1),
    ensures
        extends_within(*old(module), *final(module), *final(current_output_id), 1),
        ({
            let (s, c) = spec_add_curve(*control, r, g, b, old(module).spec_ops().len() as int, *old(current_output_id));
            ops_match(final(module).spec_ops(), old(module).spec_ops() + s) && *final(current_output_id) == c
        }),
{
    let ghost ops0 = module.spec_ops();
    let initial = GlobalEdit::initial_control_points();
    if !control_points_eq(control, &initial) {
        let adjusted_image_id = module.alloc_id();
        let op = Op::ApplyCurve(
            ApplyCurveOp {
                result: adjusted_image_id,
                arg: *current_output_id,
                control_points: copy_control_points(control),
                apply_r: r,
                apply_g: g,
                apply_b: b,
            },
        );
        let ghost gop = op;
        proof {
            assert(gop.spec_arg_ids() =~= seq![*current_output_id]);
            lemma_emit(ops0, gop);
        }
        module.push_op(op);
        *current_output_id = adjusted_image_id;
        proof {
            let (s, c) = spec_add_curve(*control, r, g, b, ops0.len() as int, *old(current_output_id));
            lemma_ops_match_refl(ops0);
            assert(ops_match(seq![gop], s));
            lemma_ops_match_concat(ops0, ops0, seq![gop], s);
        }
    } else {
        assert(module.spec_ops() =~= ops0 + Seq::<Op>::empty());
        proof {
            lemma_ops_match_refl(module.spec_ops());
        }
    }
}

/// The curve on all channels, then the red, green and blue curves.
pub fn maybe_add_curves(edit: &GlobalEdit, module: &mut Module, current_output_id: &mut Id)
    requires
        can_extend(*old(module), *old(current_output_id), 4),
    ensures
        extends_within(*old(module), *final(module), *final(current_output_id), 4),
        ({
            let (s, c) = spec_add_curves(*edit, old(module).spec_ops().len() as int, *old(current_output_id));
            ops_match(final(module).spec_ops(), old(module).spec_ops() + s) && *final(current_output_id) == c
        }),
{
    let ghost ops0 = module.spec_ops();
    let ghost n = ops0.len() as int;
    proof {
        lemma_ops_match_refl(ops0);
        assert(ops0 + Seq::<Op>::empty() =~= ops0);
    }
    let ghost m0 = module.spec_ops();
    maybe_add_curve(&edit.curve_control_points_all, true, true, true, module, current_output_id);
    let ghost (s1, c1) = spec_add_curve(edit.curve_control_points_all, true, true, true, n, *old(current_output_id));
    proof { lemma_chain(ops0, Seq::empty(), m0, module.spec_ops(), s1); }
    let ghost m1 = module.spec_ops();
    maybe_add_curve(&edit.curve_control_points_r, true, false, false, module, current_output_id);
    let ghost (s2, c2) = spec_add_curve(edit.curve_control_points_r, true, false, false, n + s1.len(), c1);
    proof { lemma_chain(ops0, Seq::empty() + s1, m1, module.spec_ops(), s2); }
    let ghost m2 = module.spec_ops();
    maybe_add_curve(&edit.curve_control_points_g, false, true, false, module, current_output_id);
    let ghost (s3, c3) = spec_add_curve(edit.curve_control_points_g, false, true, false, n + s1.len() + s2.len(), c2);
    proof { lemma_chain(ops0, Seq::empty() + s1 + s2, m2, module.spec_ops(), s3); }
    let ghost m3 = module.spec_ops();
    maybe_add_curve(&edit.curve_control_points_b, false, false, true, module, current_output_id);
    let ghost (s4, c4) = spec_add_curve(
        edit.curve_control_points_b,
        false,
        false,
        true,
        n + s1.len() + s2.len() + s3.len(),
        c3,
    );
    proof {
        lemma_chain(ops0, Seq::empty() + s1 + s2 + s3, m3, module.spec_ops(), s4);
        assert(Seq::<Op>::empty() + s1 + s2 + s3 + s4 =~= s1 + s2 + s3 + s4);
    }
}

pub fn maybe_add_temperature_tint(edit: &GlobalEdit, module: &mut Module, current_output_id: &mut Id)
    requires
        can_extend(*old(module), *old(current_output_id), 1),
    ensures
        extends_within(*old(module), *final(module), *final(current_output_id), 1),
        ({
            let (s, c) = spec_add_temperature_tint(
                *edit,
                old(module).spec_ops().len() as int,
                *old(current_output_id),
            );
            final(module).spec_ops() == old(module).spec_ops() + s && *final(current_output_id) == c
        }),
{
    let ghost ops0 = module.spec_ops();
    if !edit.temperature.is_zero() || !edit.tint.is_zero() {
        let temperature_tint_adjusted_image_id = module.alloc_id();
        let op = Op::AdjustTemperatureAndTint(
            AdjustTemperatureAndTintOp {
                result: temperature_tint_adjusted_image_id,
                arg: *current_output_id,
                temperature: edit.temperature,
                tint: edit.tint,
            },
        );
        let ghost g = op;
        proof {
            assert(g.spec_arg_ids() =~= seq![*current_output_id]);
            lemma_emit(ops0, g);
        }
        module.push_op(op);
        *current_output_id = temperature_tint_adjusted_image_id;
    } else {
        assert(module.spec_ops() =~= ops0 + Seq::<Op>::empty());
    }
}

pub fn maybe_add_vibrance_saturation(edit: &GlobalEdit, module: &mut Module, current_output_id: &mut Id)
    requires
        can_extend(*old(module), *old(current_output_id), 1),
    ensures
        extends_within(*old(module), *final(module), *final(current_output_id), 1),
        ({
            let (s, c) = spec_add_vibrance_saturation(
                *edit,
                old(module).spec_ops().len() as int,
                *old(current_output_id),
            );
            final(module).spec_ops() == old(module).spec_ops() + s && *final(current_output_id) == c
        }),
{
    let ghost ops0 = module.spec_ops();
    if !edit.vibrance.is_zero() || !edit.saturation.is_zero() {
        let adjusted_image_id = module.alloc_id();
        let op = Op::AdjustVibranceAndSaturation(
            AdjustVibranceAndSaturationOp {
                result: adjusted_image_id,
                arg: *current_output_id,
                vibrance: edit.vibrance,
                saturation: edit.saturation,
            },
        );
        let ghost g = op;
        proof {
            assert(g.spec_arg_ids() =~= seq![*current_output_id]);
            lemma_emit(ops0, g);
        }
        module.push_op(op);
        *current_output_id = adjusted_image_id;
    } else {
        assert(module.spec_ops() =~= ops0 + Seq::<Op>::empty());
    }
}

/// Every group of the color mixer is neutral.
pub fn color_mix_is_neutral(groups: &[ColorMixGroup; 8]) -> (r: bool)
    ensures
        r == spec_color_mix_is_neutral(groups@),
{
    let mut i: usize = 0;
    while i < 8
        invariant
            groups@.len() == 8,
            i <= 8,
            forall|j: int| 0 <= j < i ==> #[trigger] groups@[j].spec_is_neutral(),
        decreases 8 - i,
    {
        let g = groups[i];
        if !(g.hue.is_zero() && g.saturation.is_zero() && g.lightness.is_zero()) {
            assert(!groups@[i as int].spec_is_neutral());
            return false;
        }
        i = i + 1;
    }
    true
}

pub fn maybe_add_color_mix(edit: &GlobalEdit, module: &mut Module, current_output_id: &mut Id)
    requires
        can_extend(*old(module), *old(current_output_id), 1),
    ensures
        extends_within(*old(module), *final(module), *final(current_output_id), 1),
        ({
            let (s, c) = spec_add_color_mix(*edit, old(module).spec_ops().len() as int, *old(current_output_id));
            final(module).spec_ops() == old(module).spec_ops() + s && *final(current_output_id) == c
        }),
{
    let ghost ops0 = module.spec_ops();
    if !color_mix_is_neutral(&edit.color_mixer_edits) {
        let groups = edit.color_mixer_edits;
        let adjusted_image_id = module.alloc_id();
        let op = Op::ColorMix(ColorMixOp { result: adjusted_image_id, arg: *current_output_id, groups });
        let ghost g = op;
        proof {
            assert(g.spec_arg_ids() =~= seq![*current_output_id]);
            lemma_emit(ops0, g);
        }
        module.push_op(op);
        *current_output_id = adjusted_image_id;
    } else {
        assert(module.spec_ops() =~= ops0 + Seq::<Op>::empty());
    }
}

pub fn maybe_add_vignette(edit: &GlobalEdit, module: &mut Module, current_output_id: &mut Id)
    requires
        can_extend(*old(module), *old(current_output_id), 1),
    ensures
        extends_within(*old(module), *final(module), *final(current_output_id), 1),
        ({
            let (s, c) = spec_add_vignette(*edit, old(module).spec_ops().len() as int, *old(current_output_id));
            final(module).spec_ops() == old(module).spec_ops() + s && *final(current_output_id) == c
        }),
{
    let ghost ops0 = module.spec_ops();
    if !edit.vignette.is_zero() {
        let adjusted_image_id = module.alloc_id();
        let op = Op::AdjustVignette(
            AdjustVignetteOp { result: adjusted_image_id, arg: *current_output_id, vignette: edit.vignette },
        );
        let ghost g = op;
        proof {
            assert(g.spec_arg_ids() =~= seq![*current_output_id]);
            lemma_emit(ops0, g);
        }
        module.push_op(op);
        *current_output_id = adjusted_image_id;
    } else {
        assert(module.spec_ops() =~= ops0 + Seq::<Op>::empty());
    }
}


/// Applies a global edit to the image `target_id`; returns the id of the
/// edited image.
pub fn add_global_edit(edit: &GlobalEdit, module: &mut Module, target_id: Id) -> (r: Id)
    requires
        can_extend(*old(module), target_id, 14),
    ensures
        extends_within(*old(module), *final(module), r, 14),
        ({
            let (s, c) = spec_add_global_edit(*edit, old(module).spec_ops().len() as int, target_id);
            ops_match(final(module).spec_ops(), old(module).spec_ops() + s) && r == c
        }),
{
    let ghost ops0 = module.spec_ops();
    let ghost n = ops0.len() as int;
    let ghost e = *edit;
    let mut current_output_id = target_id;
    proof {
        lemma_ops_match_refl(ops0);
        assert(ops0 + Seq::<Op>::empty() =~= ops0);
    }
    let ghost m = module.spec_ops();
    maybe_add_dehaze(edit, module, &mut current_output_id);
    let ghost (s1, c1) = spec_add_dehaze(e, n, target_id);
    proof {
        lemma_ops_match_refl(module.spec_ops());
        lemma_chain(ops0, Seq::empty(), m, module.spec_ops(), s1);
    }
    let ghost acc = Seq::<Op>::empty() + s1;
    let ghost m = module.spec_ops();
    maybe_add_exposure(edit, module, &mut current_output_id);
    let ghost (s2, c2) = spec_add_exposure(e, n + s1.len(), c1);
    proof {
        lemma_ops_match_refl(module.spec_ops());
        lemma_chain(ops0, acc, m, module.spec_ops(), s2);
    }
    let ghost acc = acc + s2;
    let ghost m = module.spec_ops();
    maybe_add_contrast(edit, module, &mut current_output_id);
    let ghost (s3, c3) = spec_add_contrast(e, n + s1.len() + s2.len(), c2);
    proof {
        lemma_ops_match_refl(module.spec_ops());
        lemma_chain(ops0, acc, m, module.spec_ops(), s3);
    }
    let ghost acc = acc + s3;
    let ghost m = module.spec_ops();
    maybe_add_highlights_shadows(edit, module, &mut current_output_id);
    let ghost (s4, c4) = spec_add_highlights_shadows(e, n + s1.len() + s2.len() + s3.len(), c3);
    proof {
        lemma_ops_match_refl(module.spec_ops());
        lemma_chain(ops0, acc, m, module.spec_ops(), s4);
    }
    let ghost acc = acc + s4;
    let ghost n5 = n + s1.len() + s2.len() + s3.len() + s4.len();
    let ghost m = module.spec_ops();
    maybe_add_curves(edit, module, &mut current_output_id);
    let ghost (s5, c5) = spec_add_curves(e, n5, c4);
    proof {
        lemma_chain(ops0, acc, m, module.spec_ops(), s5);
    }
    let ghost acc = acc + s5;
    let ghost m = module.spec_ops();
    maybe_add_temperature_tint(edit, module, &mut current_output_id);
    let ghost (s6, c6) = spec_add_temperature_tint(e, n5 + s5.len(), c5);
    proof {
        lemma_ops_match_refl(module.spec_ops());
        lemma_chain(ops0, acc, m, module.spec_ops(), s6);
    }
    let ghost acc = acc + s6;
    let ghost m = module.spec_ops();
    maybe_add_vibrance_saturation(edit, module, &mut current_output_id);
    let ghost (s7, c7) = spec_add_vibrance_saturation(e, n5 + s5.len() + s6.len(), c6);
    proof {
        lemma_ops_match_refl(module.spec_ops());
        lemma_chain(ops0, acc, m, module.spec_ops(), s7);
    }
    let ghost acc = acc + s7;
    let ghost m = module.spec_ops();
    maybe_add_color_mix(edit, module, &mut current_output_id);
    let ghost (s8, c8) = spec_add_color_mix(e, n5 + s5.len() + s6.len() + s7.len(), c7);
    proof {
        lemma_ops_match_refl(module.spec_ops());
        lemma_chain(ops0, acc, m, module.spec_ops(), s8);
    }
    let ghost acc = acc + s8;
    let ghost m = module.spec_ops();
    maybe_add_vignette(edit, module, &mut current_output_id);
    let ghost (s9, c9) = spec_add_vignette(e, n5 + s5.len() + s6.len() + s7.len() + s8.len(), c8);
    proof {
        lemma_ops_match_refl(module.spec_ops());
        lemma_chain(ops0, acc, m, module.spec_ops(), s9);
        assert(acc + s9 =~= s1 + s2 + s3 + s4 + s5 + s6 + s7 + s8 + s9);
    }
    current_output_id
}


/// A masked edit: the mask over `target`, the global edit applied to
/// `target`, then the blend of the edited image into `target` through the
/// mask. Returns the appended operations and the ids (mask, terms, result).
pub open spec fn spec_add_masked_edit(me: MaskedEdit, n: int, target: Id) -> (Seq<Op>, (Id, Seq<Id>, Id)) {
    let (s1, mask_id, term_ids) = spec_mask_ops(me.mask.terms@, target, n);
    let (s2, edited) = spec_add_global_edit(me.edit, n + s1.len(), target);
    let result = (n + s1.len() + s2.len()) as Id;
    let s3 = seq![
        Op::ApplyMaskedEdits(
            ApplyMaskedEditsOp { result, mask: mask_id, original_target: target, edited },
        ),
    ];
    (s1 + s2 + s3, (mask_id, term_ids, result))
}

/// The masked edits applied in order, each to the result of the previous
/// one: the appended operations, the final image id and each edit's ids.
pub open spec fn spec_add_masked_edits(mes: Seq<MaskedEdit>, n: int, cur: Id) -> (Seq<Op>, Id, Seq<(Id, Seq<Id>, Id)>)
    decreases mes.len(),
{
    if mes.len() == 0 {
        (Seq::empty(), cur, Seq::empty())
    } else {
        let (s1, c1, st1) = spec_add_masked_edits(mes.drop_last(), n, cur);
        let (s2, st) = spec_add_masked_edit(mes.last(), n + s1.len(), c1);
        (s1 + s2, st.2, st1.push(st))
    }
}

/// The most operations a masked edit appends.
pub open spec fn spec_masked_edit_bound(me: MaskedEdit) -> int {
    3 * me.mask.terms@.len() as int + 15
}

pub open spec fn spec_masked_edits_bound(mes: Seq<MaskedEdit>) -> int
    decreases mes.len(),
{
    if mes.len() == 0 {
        0
    } else {
        spec_masked_edits_bound(mes.drop_last()) + spec_masked_edit_bound(mes.last())
    }
}

/// Every mask can be compiled: it has a first term, and that term is not
/// subtracted.
pub open spec fn spec_masks_compilable(mes: Seq<MaskedEdit>) -> bool {
    forall|i: int| 0 <= i < mes.len() ==> {
        &&& (#[trigger] mes[i]).mask.terms@.len() > 0
        &&& !mes[i].mask.terms@[0].subtracted
    }
}

proof fn lemma_masked_edits_bound_prefix(mes: Seq<MaskedEdit>, i: int)
    requires
        0 <= i <= mes.len(),
    ensures
        0 <= spec_masked_edits_bound(mes.take(i)) <= spec_masked_edits_bound(mes),
    decreases mes.len(),
{
    if mes.len() > 0 {
        if i < mes.len() {
            assert(mes.drop_last().take(i) == mes.take(i));
            lemma_masked_edits_bound_prefix(mes.drop_last(), i);
        } else {
            assert(mes.take(i) == mes);
            lemma_masked_edits_bound_prefix(mes.drop_last(), i - 1);
            assert(mes.drop_last().take(i - 1) == mes.drop_last());
        }
    }
}

/// Applies a masked edit to the image `target_id`.
pub fn add_masked_edit(masked_edit: &MaskedEdit, module: &mut Module, target_id: Id) -> (r: MaskedEditIdStore)
    requires
        masked_edit.mask.terms@.len() > 0,
        !masked_edit.mask.terms@[0].subtracted,
        can_extend(*old(module), target_id, spec_masked_edit_bound(*masked_edit)),
    ensures
        extends_within(*old(module), *final(module), r.result_image_id, spec_masked_edit_bound(*masked_edit)),
        id_defined(final(module).spec_ops(), r.mask_id),
        forall|k: int| 0 <= k < r.term_ids@.len() ==> id_defined(final(module).spec_ops(), #[trigger] r.term_ids@[k]),
        ({
            let (s, st) = spec_add_masked_edit(*masked_edit, old(module).spec_ops().len() as int, target_id);
            ops_match(final(module).spec_ops(), old(module).spec_ops() + s) && r.spec_view() == st
        }),
{
    let ghost ops0 = module.spec_ops();
    let ghost n = ops0.len() as int;
    let (mask_id, term_ids) = masked_edit.mask.create_compute_mask_ops(target_id, module);
    let ghost ops1 = module.spec_ops();
    let ghost (s1, mid, tids) = spec_mask_ops(masked_edit.mask.terms@, target_id, n);
    let edited_id = add_global_edit(&masked_edit.edit, module, target_id);
    let ghost ops2 = module.spec_ops();
    let ghost (s2, edited) = spec_add_global_edit(masked_edit.edit, n + s1.len(), target_id);
    let result_image_id = module.alloc_id();
    let op = Op::ApplyMaskedEdits(
        ApplyMaskedEditsOp {
            result: result_image_id,
            mask: mask_id,
            original_target: target_id,
            edited: edited_id,
        },
    );
    let ghost g = op;
    proof {
        assert(g.spec_arg_ids() =~= seq![target_id, edited_id, mask_id]);
        lemma_emit(ops2, g);
        lemma_ops_match_refl(ops0);
        lemma_ops_match_refl(s1);
        lemma_ops_match_refl(seq![g]);
        lemma_ops_match_concat(ops1, ops0 + s1, s2, s2);
        // ops2 matches ops1 + s2, which is ops0 + s1 + s2
        lemma_ops_match_refl(ops1 + s2);
        lemma_ops_match_concat(ops1, ops1, s2, s2);
    }
    module.push_op(op);
    proof {
        lemma_ops_match_trans(ops2, ops1 + s2, ops0 + s1 + s2);
        lemma_ops_match_concat(ops2, ops0 + s1 + s2, seq![g], seq![g]);
        assert(ops0 + s1 + s2 + seq![g] =~= ops0 + (s1 + s2 + seq![g]));
        assert(module.spec_ops() == ops2 + seq![g]);
    }
    MaskedEditIdStore { mask_id, term_ids, result_image_id }
}

pub open spec fn spec_add_resize(edit: Edit, n: int, cur: Id) -> (Seq<Op>, Id) {
    match edit.resize_factor {
        Some(factor) => if !factor.spec_eq(F32 { bits: 0x3f80_0000 }) {
            let id = n as Id;
            (seq![Op::Resize(ResizeOp { result: id, arg: cur, factor })], id)
        } else {
            (Seq::empty(), cur)
        },
        None => (Seq::empty(), cur),
    }
}

/// Resizes the image unless no factor is set or the factor equals 1.
pub fn maybe_add_resize(edit: &Edit, module: &mut Module, current_output_id: &mut Id)
    requires
        can_extend(*old(module), *old(current_output_id), 1),
    ensures
        extends_within(*old(module), *final(module), *final(current_output_id), 1),
        ({
            let (s, c) = spec_add_resize(*edit, old(module).spec_ops().len() as int, *old(current_output_id));
            final(module).spec_ops() == old(module).spec_ops() + s && *final(current_output_id) == c
        }),
{
    let ghost ops0 = module.spec_ops();
    if let Some(factor) = edit.resize_factor {
        if !factor.ieee_eq(&F32::one()) {
            let resized_image_id = module.alloc_id();
            let op = Op::Resize(ResizeOp { result: resized_image_id, arg: *current_output_id, factor });
            let ghost g = op;
            proof {
                assert(g.spec_arg_ids() =~= seq![*current_output_id]);
                lemma_emit(ops0, g);
            }
            module.push_op(op);
            *current_output_id = resized_image_id;
            return;
        }
    }
    assert(module.spec_ops() =~= ops0 + Seq::<Op>::empty());
}

pub open spec fn spec_add_rotate_and_crop(edit: Edit, n: int, cur: Id) -> (Seq<Op>, Id) {
    if edit.resize_factor is Some || edit.crop_rect is Some {
        let id = n as Id;
        let rotation_degrees = match edit.rotation_degrees {
            Some(r) => r,
            None => F32 { bits: 0 },
        };
        let crop_rect = match edit.crop_rect {
            Some(c) => c,
            None => Rectangle::spec_regular(),
        };
        (seq![Op::RotateAndCrop(RotateAndCropOp { result: id, arg: cur, rotation_degrees, crop_rect })], id)
    } else {
        (Seq::empty(), cur)
    }
}

/// Rotates and crops the image when a resize factor or a crop rectangle is
/// set; a missing rotation counts as 0 and a missing rectangle as the whole
/// image.
pub fn maybe_add_rotate_and_crop(edit: &Edit, module: &mut Module, current_output_id: &mut Id)
    requires
        can_extend(*old(module), *old(current_output_id), 1),
    ensures
        extends_within(*old(module), *final(module), *final(current_output_id), 1),
        ({
            let (s, c) = spec_add_rotate_and_crop(*edit, old(module).spec_ops().len() as int, *old(current_output_id));
            final(module).spec_ops() == old(module).spec_ops() + s && *final(current_output_id) == c
        }),
{
    let ghost ops0 = module.spec_ops();
    if edit.resize_factor.is_some() || edit.crop_rect.is_some() {
        let cropped_image_id = module.alloc_id();
        let rotation_degrees = match edit.rotation_degrees {
            Some(r) => r,
            None => F32::zero(),
        };
        let crop_rect = match edit.crop_rect {
            Some(c) => c,
            None => Rectangle::regular(),
        };
        let op = Op::RotateAndCrop(
            RotateAndCropOp { result: cropped_image_id, arg: *current_output_id, rotation_degrees, crop_rect },
        );
        let ghost g = op;
        proof {
            assert(g.spec_arg_ids() =~= seq![*current_output_id]);
            lemma_emit(ops0, g);
        }
        module.push_op(op);
        *current_output_id = cropped_image_id;
    } else {
        assert(module.spec_ops() =~= ops0 + Seq::<Op>::empty());
    }
}

/// Appends the histogram of the image `current_output_id`; returns its id.
pub fn add_final_histogram(module: &mut Module, current_output_id: &Id) -> (r: Id)
    requires
        can_extend(*old(module), *current_output_id, 1),
    ensures
        extends_within(*old(module), *final(module), r, 1),
        r == old(module).spec_ops().len(),
        final(module).spec_ops() == old(module).spec_ops().push(
            Op::ComputeHistogram(ComputeHistogramOp { result: r, arg: *current_output_id }),
        ),
{
    let ghost ops0 = module.spec_ops();
    let histogram_id = module.alloc_id();
    let op = Op::ComputeHistogram(ComputeHistogramOp { result: histogram_id, arg: *current_output_id });
    let ghost g = op;
    proof {
        assert(g.spec_arg_ids() =~= seq![*current_output_id]);
        lemma_emit(ops0, g);
    }
    module.push_op(op);
    histogram_id
}

/// The compiled form of an edit: the operations, and the ids of the final
/// image, of the image after resizing, rotating and cropping only, of the
/// final histogram, and of each masked edit.
pub open spec fn spec_to_ir_module(edit: Edit) -> (Seq<Op>, Id, Id, Id, Seq<(Id, Seq<Id>, Id)>) {
    let s0 = seq![Op::Input(InputOp { result: 0 })];
    let (s1, c1) = spec_add_resize(edit, 1, 0);
    let (s2, c2) = spec_add_rotate_and_crop(edit, 1 + s1.len() as int, c1);
    let (s3, c3, stores) = spec_add_masked_edits(edit.masked_edits@, 1 + s1.len() as int + s2.len(), c2);
    let h = (1 + s1.len() + s2.len() + s3.len()) as Id;
    let s4 = seq![Op::ComputeHistogram(ComputeHistogramOp { result: h, arg: c3 })];
    (s0 + s1 + s2 + s3 + s4, c3, c2, h, stores)
}

/// The edit can be compiled: every mask has a first term that is not
/// subtracted, and the operations fit in the id range.
pub open spec fn spec_edit_compilable(edit: Edit) -> bool {
    &&& spec_masks_compilable(edit.masked_edits@)
    &&& 4 + spec_masked_edits_bound(edit.masked_edits@) <= i32::MAX
}

/// Whether `to_ir_module` can compile `edit`: every mask starts with a term
/// that is not subtracted (the compiler panics otherwise), and the ids it
/// allocates fit in an `i32`.
pub fn edit_compilable(edit: &Edit) -> (r: bool)
    ensures
        r == spec_edit_compilable(*edit),
{
    let mes = &edit.masked_edits;
    let mut total: u64 = 0;
    let mut i: usize = 0;
    while i < mes.len()
        invariant
            i <= mes@.len(),
            mes@ == edit.masked_edits@,
            total == spec_masked_edits_bound(mes@.take(i as int)),
            4 + total <= i32::MAX,
            spec_masks_compilable(mes@.take(i as int)),
        decreases mes@.len() - i,
    {
        proof {
            assert(mes@.take(i + 1).drop_last() == mes@.take(i as int));
            assert(mes@.take(i + 1).last() == mes@[i as int]);
        }
        let terms = &mes[i].mask.terms;
        if terms.len() == 0 || terms[0].subtracted {
            proof {
                assert(mes@[i as int] == mes@.take(i + 1)[i as int]);
                lemma_masks_compilable_prefix(mes@, i + 1);
            }
            return false;
        }
        if terms.len() > 1_000_000_000 {
            proof {
                lemma_masked_edits_bound_prefix(mes@, i + 1);
            }
            return false;
        }
        let next: u64 = total + 3 * (terms.len() as u64) + 15;
        if 4 + next > 2147483647 {
            proof {
                lemma_masked_edits_bound_prefix(mes@, i + 1);
            }
            return false;
        }
        total = next;
        i = i + 1;
        proof {
            assert forall|j: int| 0 <= j < mes@.take(i as int).len() implies {
                &&& (#[trigger] mes@.take(i as int)[j]).mask.terms@.len() > 0
                &&& !mes@.take(i as int)[j].mask.terms@[0].subtracted
            } by {
                if j < i - 1 {
                    assert(mes@.take(i as int)[j] == mes@.take(i - 1)[j]);
                }
            }
        }
    }
    proof {
        assert(mes@.take(mes@.len() as int) == mes@);
    }
    true
}

/// Every mask of a list is compilable only if every mask of its prefixes is.
proof fn lemma_masks_compilable_prefix(mes: Seq<MaskedEdit>, i: int)
    requires
        0 <= i <= mes.len(),
        !spec_masks_compilable(mes.take(i)),
    ensures
        !spec_masks_compilable(mes),
{
    let j = choose|j: int| 0 <= j < mes.take(i).len() && !({
        &&& (#[trigger] mes.take(i)[j]).mask.terms@.len() > 0
        &&& !mes.take(i)[j].mask.terms@[0].subtracted
    });
    assert(mes.take(i)[j] == mes[j]);
}

/// Compiles an edit: the input image, then resize, rotate-and-crop, each
/// masked edit in order, and the histogram of the final image.
///
/// The module is well-formed: the operation at index `i` writes id `i` and
/// reads only ids written before it, so the engine can run it in order.
pub fn to_ir_module(edit: &Edit) -> (r: (Module, IdStore))
    requires
        spec_edit_compilable(*edit),
    ensures
        ({
            let (ops, final_image, geometry_only, final_histogram, stores) = spec_to_ir_module(*edit);
            &&& ops_match(r.0.spec_ops(), ops)
            &&& r.1.final_image == final_image
            &&& r.1.geometry_only == geometry_only
            &&& r.1.final_histogram == final_histogram
            &&& r.1.spec_masked() == stores
        }),
        r.0.spec_next_id() == r.0.spec_ops().len(),
        ops_well_formed(r.0.spec_ops()),
        id_defined(r.0.spec_ops(), r.1.final_image),
        id_defined(r.0.spec_ops(), r.1.geometry_only),
        id_defined(r.0.spec_ops(), r.1.final_histogram),
        forall|i: int| 0 <= i < r.1.masked_edit_id_stores@.len() ==> {
            let st = #[trigger] r.1.masked_edit_id_stores@[i];
            &&& id_defined(r.0.spec_ops(), st.mask_id)
            &&& id_defined(r.0.spec_ops(), st.result_image_id)
            &&& forall|k: int| 0 <= k < st.term_ids@.len() ==> id_defined(r.0.spec_ops(), #[trigger] st.term_ids@[k])
        },
{
    let mut module = Module::new_empty();
    let input_id = module.alloc_id();
    let op = Op::Input(InputOp { result: input_id });
    let ghost g0 = op;
    proof {
        assert(g0.spec_arg_ids() =~= Seq::<Id>::empty());
        lemma_emit(Seq::empty(), g0);
        lemma_masked_edits_bound_prefix(edit.masked_edits@, 0);
    }
    module.push_op(op);
    let ghost s0 = seq![g0];
    assert(module.spec_ops() == s0);
    let mut current_output_id = input_id;
    maybe_add_resize(edit, &mut module, &mut current_output_id);
    maybe_add_rotate_and_crop(edit, &mut module, &mut current_output_id);
    let geometry_only = current_output_id;
    let ghost ops2 = module.spec_ops();
    let ghost n2 = ops2.len() as int;
    let ghost mes = edit.masked_edits@;
    proof {
        lemma_ops_match_refl(ops2);
        assert(ops2 + Seq::<Op>::empty() =~= ops2);
        assert(mes.take(0) =~= Seq::<MaskedEdit>::empty());
    }
    let mut masked_edit_id_stores: Vec<MaskedEditIdStore> = Vec::new();
    let mut i: usize = 0;
    while i < edit.masked_edits.len()
        invariant
            mes == edit.masked_edits@,
            i <= mes.len(),
            n2 == ops2.len(),
            n2 <= 3,
            ops_well_formed(ops2),
            spec_edit_compilable(*edit),
            ({
                let (s, c, st) = spec_add_masked_edits(mes.take(i as int), n2, geometry_only);
                &&& ops_match(module.spec_ops(), ops2 + s)
                &&& current_output_id == c
                &&& masked_edit_id_stores@.map_values(|s: MaskedEditIdStore| s.spec_view()) == st
            }),
            module.spec_next_id() == module.spec_ops().len(),
            ops_well_formed(module.spec_ops()),
            id_defined(module.spec_ops(), current_output_id),
            id_defined(module.spec_ops(), geometry_only),
            module.spec_ops().len() <= n2 + spec_masked_edits_bound(mes.take(i as int)),
            forall|j: int| 0 <= j < masked_edit_id_stores@.len() ==> {
                let st = #[trigger] masked_edit_id_stores@[j];
                &&& id_defined(module.spec_ops(), st.mask_id)
                &&& id_defined(module.spec_ops(), st.result_image_id)
                &&& forall|k: int| 0 <= k < st.term_ids@.len() ==> id_defined(module.spec_ops(), #[trigger] st.term_ids@[k])
            },
        decreases mes.len() - i,
    {
        proof {
            lemma_masked_edits_bound_prefix(mes, i + 1);
            assert(mes.take(i + 1).drop_last() == mes.take(i as int));
            assert(mes.take(i + 1).last() == mes[i as int]);
            assert(mes[i as int].mask.terms@.len() > 0);
        }
        let ghost before = module.spec_ops();
        let ghost stores_before = masked_edit_id_stores@;
        let masked_id_store = add_masked_edit(&edit.masked_edits[i], &mut module, current_output_id);
        let ghost (sm, stm) = spec_add_masked_edit(mes[i as int], before.len() as int, current_output_id);
        current_output_id = masked_id_store.result_image_id;
        masked_edit_id_stores.push(masked_id_store);
        proof {
            let (sp, cp, stp) = spec_add_masked_edits(mes.take(i as int), n2, geometry_only);
            lemma_chain(ops2, sp, before, module.spec_ops(), sm);
            assert(masked_edit_id_stores@.map_values(|s: MaskedEditIdStore| s.spec_view())
                =~= stp.push(stm));
            assert forall|j: int| 0 <= j < masked_edit_id_stores@.len() implies {
                let st = #[trigger] masked_edit_id_stores@[j];
                &&& id_defined(module.spec_ops(), st.mask_id)
                &&& id_defined(module.spec_ops(), st.result_image_id)
                &&& forall|k: int| 0 <= k < st.term_ids@.len() ==> id_defined(module.spec_ops(), #[trigger] st.term_ids@[k])
            } by {
                if j < stores_before.len() {
                    assert(masked_edit_id_stores@[j] == stores_before[j]);
                }
            }
        }
        i = i + 1;
    }
    proof {
        assert(mes.take(mes.len() as int) == mes);
        lemma_masked_edits_bound_prefix(mes, mes.len() as int);
    }
    let ghost ops3 = module.spec_ops();
    let final_histogram_id = add_final_histogram(&mut module, &current_output_id);
    let id_store = IdStore {
        final_image: current_output_id,
        geometry_only,
        final_histogram: final_histogram_id,
        masked_edit_id_stores,
    };
    proof {
        let (sa, ca) = spec_add_resize(*edit, 1, 0);
        let (sb, cb) = spec_add_rotate_and_crop(*edit, 1 + sa.len() as int, ca);
        let (sc, cc, stc) = spec_add_masked_edits(mes, 1 + sa.len() as int + sb.len(), cb);
        assert(ops2 == s0 + sa + sb);
        let hop = Op::ComputeHistogram(ComputeHistogramOp { result: final_histogram_id, arg: current_output_id });
        lemma_ops_match_refl(seq![hop]);
        lemma_ops_match_concat(ops3, ops2 + sc, seq![hop], seq![hop]);
        assert(module.spec_ops() =~= ops3 + seq![hop]);
        assert(ops2 + sc + seq![hop] =~= s0 + sa + sb + sc + seq![hop]);
    }
    (module, id_store)
}

/// No operation of `s` adjusts temperature and tint.
pub open spec fn no_temperature_tint_op(s: Seq<Op>) -> bool {
    forall|i: int| 0 <= i < s.len() ==> !(#[trigger] s[i] is AdjustTemperatureAndTint)
}

proof fn lemma_no_temperature_tint_concat(a: Seq<Op>, b: Seq<Op>)
    requires
        no_temperature_tint_op(a),
        no_temperature_tint_op(b),
    ensures
        no_temperature_tint_op(a + b),
{
    assert forall|i: int| 0 <= i < (a + b).len() implies !(#[trigger] (a + b)[i] is AdjustTemperatureAndTint) by {
        if i < a.len() {
            assert((a + b)[i] == a[i]);
        } else {
            assert((a + b)[i] == b[i - a.len()]);
        }
    }
}

/// A global edit adjusts temperature and tint with its own values: every
/// temperature-and-tint operation it compiles to carries the edit's
/// temperature as its temperature and the edit's tint as its tint, and there
/// is exactly one such operation when either value is not zero, none
/// otherwise.
pub proof fn lemma_global_edit_temperature_tint(e: GlobalEdit, n: int, cur: Id)
    ensures
        ({
            let s = spec_add_global_edit(e, n, cur).0;
            &&& forall|i: int| 0 <= i < s.len() ==> (#[trigger] s[i] matches Op::AdjustTemperatureAndTint(o) ==> o.temperature == e.temperature && o.tint == e.tint)
            &&& (!e.temperature.spec_is_zero() || !e.tint.spec_is_zero()) <==> exists|i: int| 0 <= i < s.len() && #[trigger] s[i] is AdjustTemperatureAndTint
            &&& forall|i: int, j: int| 0 <= i < s.len() && 0 <= j < s.len() && #[trigger] s[i] is AdjustTemperatureAndTint && #[trigger] s[j] is AdjustTemperatureAndTint ==> i == j
        }),
{
    let (s1, c1) = spec_add_dehaze(e, n, cur);
    let (s2, c2) = spec_add_exposure(e, n + s1.len(), c1);
    let (s3, c3) = spec_add_contrast(e, n + s1.len() + s2.len(), c2);
    let (s4, c4) = spec_add_highlights_shadows(e, n + s1.len() + s2.len() + s3.len(), c3);
    let n5 = n + s1.len() + s2.len() + s3.len() + s4.len();
    let (s5, c5) = spec_add_curves(e, n5, c4);
    let (s6, c6) = spec_add_temperature_tint(e, n5 + s5.len(), c5);
    let (s7, c7) = spec_add_vibrance_saturation(e, n5 + s5.len() + s6.len(), c6);
    let (s8, c8) = spec_add_color_mix(e, n5 + s5.len() + s6.len() + s7.len(), c7);
    let (s9, c9) = spec_add_vignette(e, n5 + s5.len() + s6.len() + s7.len() + s8.len(), c8);
    lemma_curves_no_temperature_tint(e, n5, c4);
    let before = s1 + s2 + s3 + s4 + s5;
    let after = s7 + s8 + s9;
    lemma_no_temperature_tint_concat(s1, s2);
    lemma_no_temperature_tint_concat(s1 + s2, s3);
    lemma_no_temperature_tint_concat(s1 + s2 + s3, s4);
    lemma_no_temperature_tint_concat(s1 + s2 + s3 + s4, s5);
    lemma_no_temperature_tint_concat(s7, s8);
    lemma_no_temperature_tint_concat(s7 + s8, s9);
    let s = spec_add_global_edit(e, n, cur).0;
    assert(s =~= before + s6 + after);
    assert forall|i: int| 0 <= i < s.len() && #[trigger] s[i] is AdjustTemperatureAndTint implies i == before.len() by {
        if i < before.len() {
            assert(s[i] == before[i]);
        } else if i >= before.len() + s6.len() {
            assert(s[i] == after[i - before.len() - s6.len()]);
        } else {
            assert(s[i] == s6[i - before.len()]);
        }
    }
    if !e.temperature.spec_is_zero() || !e.tint.spec_is_zero() {
        assert(s[before.len() as int] == s6[0]);
    }
}

proof fn lemma_curves_no_temperature_tint(e: GlobalEdit, n: int, cur: Id)
    ensures
        no_temperature_tint_op(spec_add_curves(e, n, cur).0),
{
    let (s1, c1) = spec_add_curve(e.curve_control_points_all, true, true, true, n, cur);
    let (s2, c2) = spec_add_curve(e.curve_control_points_r, true, false, false, n + s1.len(), c1);
    let (s3, c3) = spec_add_curve(e.curve_control_points_g, false, true, false, n + s1.len() + s2.len(), c2);
    let (s4, c4) = spec_add_curve(e.curve_control_points_b, false, false, true, n + s1.len() + s2.len() + s3.len(), c3);
    lemma_no_temperature_tint_concat(s1, s2);
    lemma_no_temperature_tint_concat(s1 + s2, s3);
    lemma_no_temperature_tint_concat(s1 + s2 + s3, s4);
}

/// A masked edit ends by blending: its last operation mixes, through the
/// mask it computed, the image the adjustments produced (`edited`) over the
/// image it was applied to (`original_target`), and writes the masked
/// edit's result.
pub proof fn lemma_masked_edit_blends(me: MaskedEdit, n: int, target: Id)
    ensures
        ({
            let (s, ids) = spec_add_masked_edit(me, n, target);
            let (mask_ops, mask_id, _) = spec_mask_ops(me.mask.terms@, target, n);
            let adjusted = spec_add_global_edit(me.edit, n + mask_ops.len(), target);
            &&& s.len() == mask_ops.len() + adjusted.0.len() + 1
            &&& s.last() matches Op::ApplyMaskedEdits(o) && o.original_target == target && o.edited == adjusted.1
                && o.mask == mask_id && o.result == ids.2
        }),
{
    let (s, ids) = spec_add_masked_edit(me, n, target);
    let (s1, mask_id, term_ids) = spec_mask_ops(me.mask.terms@, target, n);
    let (s2, edited) = spec_add_global_edit(me.edit, n + s1.len(), target);
    let result = (n + s1.len() + s2.len()) as Id;
    let s3 = seq![
        Op::ApplyMaskedEdits(
            ApplyMaskedEditsOp { result, mask: mask_id, original_target: target, edited },
        ),
    ];
    assert(s == s1 + s2 + s3);
    assert(s.last() == s3[0]);
}

} // verus!
