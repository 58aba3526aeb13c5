//! The operations of the IR.
use vstd::prelude::*;

use crate::float::F32;
use crate::ir::id::Id;
use crate::ir::mask::{GlobalMask, LinearGradientMask, RadialGradientMask};
use crate::rectangle::Rectangle;

verus! {

#[derive(Clone, Debug)]
pub enum Op {
    Input(InputOp),
    AdjustExposure(AdjustExposureOp),
    AdjustContrast(AdjustContrastOp),
    AdjustHighlightsAndShadows(AdjustHighlightsAndShadowsOp),
    ApplyCurve(ApplyCurveOp),
    AdjustTemperatureAndTint(AdjustTemperatureAndTintOp),
    AdjustVibranceAndSaturation(AdjustVibranceAndSaturationOp),
    ColorMix(ColorMixOp),
    AdjustVignette(AdjustVignetteOp),
    PrepareDehaze(PrepareDehazeOp),
    ApplyDehaze(ApplyDehazeOp),
    ComputeBasicStatistics(ComputeBasicStatisticsOp),
    ComputeHistogram(ComputeHistogramOp),
    RotateAndCrop(RotateAndCropOp),
    Resize(ResizeOp),
    ComputeGlobalMask(ComputeGlobalMaskOp),
    ComputeRadialGradientMask(ComputeRadialGradientMaskOp),
    ComputeLinearGradientMask(ComputeLinearGradientMaskOp),
    AddMask(AddMaskOp),
    SubtractMask(SubtractMaskOp),
    InvertMask(InvertMaskOp),
    ApplyMaskedEdits(ApplyMaskedEditsOp),
    ApplyFraming(ApplyFramingOp),
}

#[derive(Clone, Copy, Debug)]
pub struct InputOp {
    pub result: Id,
}

impl InputOp {
    pub open spec fn spec_eq(self, other: Self) -> bool {
        self.result == other.result
    }

    pub fn ieee_eq(&self, other: &Self) -> (r: bool)
        ensures
            r == self.spec_eq(*other),
    {
        self.result == other.result
    }
}

#[derive(Clone, Copy, Debug)]
pub struct AdjustExposureOp {
    pub result: Id,
    pub arg: Id,
    pub exposure: F32,
}

impl AdjustExposureOp {
    pub open spec fn spec_eq(self, other: Self) -> bool {
        self.result == other.result
        && self.arg == other.arg
        && self.exposure.spec_eq(other.exposure)
    }

    pub fn ieee_eq(&self, other: &Self) -> (r: bool)
        ensures
            r == self.spec_eq(*other),
    {
        self.result == other.result
        && self.arg == other.arg
        && self.exposure.ieee_eq(&other.exposure)
    }
}

#[derive(Clone, Copy, Debug)]
pub struct AdjustContrastOp {
    pub result: Id,
    pub arg: Id,
    pub basic_stats: Id,
    pub contrast: F32,
}

impl AdjustContrastOp {
    pub open spec fn spec_eq(self, other: Self) -> bool {
        self.result == other.result
        && self.arg == other.arg
        && self.basic_stats == other.basic_stats
        && self.contrast.spec_eq(other.contrast)
    }

    pub fn ieee_eq(&self, other: &Self) -> (r: bool)
        ensures
            r == self.spec_eq(*other),
    {
        self.result == other.result
        && self.arg == other.arg
        && self.basic_stats == other.basic_stats
        && self.contrast.ieee_eq(&other.contrast)
    }
}

#[derive(Clone, Copy, Debug)]
pub struct AdjustHighlightsAndShadowsOp {
    pub result: Id,
    pub arg: Id,
    pub highlights: F32,
    pub shadows: F32,
}

impl AdjustHighlightsAndShadowsOp {
    pub open spec fn spec_eq(self, other: Self) -> bool {
        self.result == other.result
        && self.arg == other.arg
        && self.highlights.spec_eq(other.highlights)
        && self.shadows.spec_eq(other.shadows)
    }

    pub fn ieee_eq(&self, other: &Self) -> (r: bool)
        ensures
            r == self.spec_eq(*other),
    {
        self.result == other.result
        && self.arg == other.arg
        && self.highlights.ieee_eq(&other.highlights)
        && self.shadows.ieee_eq(&other.shadows)
    }
}

#[derive(Clone, Debug)]
pub struct ApplyCurveOp {
    pub result: Id,
    pub arg: Id,
    pub control_points: Vec<(F32, F32)>,
    pub apply_r: bool,
    pub apply_g: bool,
    pub apply_b: bool,
}

impl ApplyCurveOp {
    pub open spec fn spec_eq(self, other: Self) -> bool {
        self.result == other.result
        && self.arg == other.arg
        && control_points_spec_eq(self.control_points@, other.control_points@)
        && self.apply_r == other.apply_r
        && self.apply_g == other.apply_g
        && self.apply_b == other.apply_b
    }

    pub fn ieee_eq(&self, other: &Self) -> (r: bool)
        ensures
            r == self.spec_eq(*other),
    {
        self.result == other.result
        && self.arg == other.arg
        && control_points_eq(&self.control_points, &other.control_points)
        && self.apply_r == other.apply_r
        && self.apply_g == other.apply_g
        && self.apply_b == other.apply_b
    }
}

#[derive(Clone, Copy, Debug)]
pub struct AdjustTemperatureAndTintOp {
    pub result: Id,
    pub arg: Id,
    pub temperature: F32,
    pub tint: F32,
}

impl AdjustTemperatureAndTintOp {
    pub open spec fn spec_eq(self, other: Self) -> bool {
        self.result == other.result
        && self.arg == other.arg
        && self.temperature.spec_eq(other.temperature)
        && self.tint.spec_eq(other.tint)
    }

    pub fn ieee_eq(&self, other: &Self) -> (r: bool)
        ensures
            r == self.spec_eq(*other),
    {
        self.result == other.result
        && self.arg == other.arg
        && self.temperature.ieee_eq(&other.temperature)
        && self.tint.ieee_eq(&other.tint)
    }
}

#[derive(Clone, Copy, Debug)]
pub struct AdjustVibranceAndSaturationOp {
    pub result: Id,
    pub arg: Id,
    pub vibrance: F32,
    pub saturation: F32,
}

impl AdjustVibranceAndSaturationOp {
    pub open spec fn spec_eq(self, other: Self) -> bool {
        self.result == other.result
        && self.arg == other.arg
        && self.vibrance.spec_eq(other.vibrance)
        && self.saturation.spec_eq(other.saturation)
    }

    pub fn ieee_eq(&self, other: &Self) -> (r: bool)
        ensures
            r == self.spec_eq(*other),
    {
        self.result == other.result
        && self.arg == other.arg
        && self.vibrance.ieee_eq(&other.vibrance)
        && self.saturation.ieee_eq(&other.saturation)
    }
}

#[derive(Clone, Copy, Debug)]
pub struct ColorMixOp {
    pub result: Id,
    pub arg: Id,
    pub groups: [ColorMixGroup; 8],
}

impl ColorMixOp {
    pub open spec fn spec_eq(self, other: Self) -> bool {
        self.result == other.result
        && self.arg == other.arg
        && color_mix_groups_spec_eq(self.groups@, other.groups@)
    }

    pub fn ieee_eq(&self, other: &Self) -> (r: bool)
        ensures
            r == self.spec_eq(*other),
    {
        self.result == other.result
        && self.arg == other.arg
        && color_mix_groups_eq(&self.groups, &other.groups)
    }
}

#[derive(Clone, Copy, Debug)]
pub struct AdjustVignetteOp {
    pub result: Id,
    pub arg: Id,
    pub vignette: F32,
}

impl AdjustVignetteOp {
    pub open spec fn spec_eq(self, other: Self) -> bool {
        self.result == other.result
        && self.arg == other.arg
        && self.vignette.spec_eq(other.vignette)
    }

    pub fn ieee_eq(&self, other: &Self) -> (r: bool)
        ensures
            r == self.spec_eq(*other),
    {
        self.result == other.result
        && self.arg == other.arg
        && self.vignette.ieee_eq(&other.vignette)
    }
}

#[derive(Clone, Copy, Debug)]
pub struct PrepareDehazeOp {
    pub result: Id,
    pub arg: Id,
}

impl PrepareDehazeOp {
    pub open spec fn spec_eq(self, other: Self) -> bool {
        self.result == other.result
        && self.arg == other.arg
    }

    pub fn ieee_eq(&self, other: &Self) -> (r: bool)
        ensures
            r == self.spec_eq(*other),
    {
        self.result == other.result
        && self.arg == other.arg
    }
}

#[derive(Clone, Copy, Debug)]
pub struct ApplyDehazeOp {
    pub result: Id,
    pub arg: Id,
    pub dehazed: Id,
    pub amount: F32,
}

impl ApplyDehazeOp {
    pub open spec fn spec_eq(self, other: Self) -> bool {
        self.result == other.result
        && self.arg == other.arg
        && self.dehazed == other.dehazed
        && self.amount.spec_eq(other.amount)
    }

    pub fn ieee_eq(&self, other: &Self) -> (r: bool)
        ensures
            r == self.spec_eq(*other),
    {
        self.result == other.result
        && self.arg == other.arg
        && self.dehazed == other.dehazed
        && self.amount.ieee_eq(&other.amount)
    }
}

#[derive(Clone, Copy, Debug)]
pub struct ComputeBasicStatisticsOp {
    pub result: Id,
    pub arg: Id,
}

impl ComputeBasicStatisticsOp {
    pub open spec fn spec_eq(self, other: Self) -> bool {
        self.result == other.result
        && self.arg == other.arg
    }

    pub fn ieee_eq(&self, other: &Self) -> (r: bool)
        ensures
            r == self.spec_eq(*other),
    {
        self.result == other.result
        && self.arg == other.arg
    }
}

#[derive(Clone, Copy, Debug)]
pub struct ComputeHistogramOp {
    pub result: Id,
    pub arg: Id,
}

impl ComputeHistogramOp {
    pub open spec fn spec_eq(self, other: Self) -> bool {
        self.result == other.result
        && self.arg == other.arg
    }

    pub fn ieee_eq(&self, other: &Self) -> (r: bool)
        ensures
            r == self.spec_eq(*other),
    {
        self.result == other.result
        && self.arg == other.arg
    }
}

#[derive(Clone, Copy, Debug)]
pub struct RotateAndCropOp {
    pub result: Id,
    pub arg: Id,
    pub rotation_degrees: F32,
    pub crop_rect: Rectangle,
}

impl RotateAndCropOp {
    pub open spec fn spec_eq(self, other: Self) -> bool {
        self.result == other.result
        && self.arg == other.arg
        && self.rotation_degrees.spec_eq(other.rotation_degrees)
        && self.crop_rect.spec_eq(other.crop_rect)
    }

    pub fn ieee_eq(&self, other: &Self) -> (r: bool)
        ensures
            r == self.spec_eq(*other),
    {
        self.result == other.result
        && self.arg == other.arg
        && self.rotation_degrees.ieee_eq(&other.rotation_degrees)
        && self.crop_rect.ieee_eq(&other.crop_rect)
    }
}

#[derive(Clone, Copy, Debug)]
pub struct ResizeOp {
    pub result: Id,
    pub arg: Id,
    pub factor: F32,
}

impl ResizeOp {
    pub open spec fn spec_eq(self, other: Self) -> bool {
        self.result == other.result
        && self.arg == other.arg
        && self.factor.spec_eq(other.factor)
    }

    pub fn ieee_eq(&self, other: &Self) -> (r: bool)
        ensures
            r == self.spec_eq(*other),
    {
        self.result == other.result
        && self.arg == other.arg
        && self.factor.ieee_eq(&other.factor)
    }
}

#[derive(Clone, Copy, Debug)]
pub struct ComputeGlobalMaskOp {
    pub result: Id,
    pub mask: GlobalMask,
    pub target: Id,
}

impl ComputeGlobalMaskOp {
    pub open spec fn spec_eq(self, other: Self) -> bool {
        self.result == other.result
        && self.mask.spec_eq(other.mask)
        && self.target == other.target
    }

    pub fn ieee_eq(&self, other: &Self) -> (r: bool)
        ensures
            r == self.spec_eq(*other),
    {
        self.result == other.result
        && self.mask.ieee_eq(&other.mask)
        && self.target == other.target
    }
}

#[derive(Clone, Copy, Debug)]
pub struct ComputeRadialGradientMaskOp {
    pub result: Id,
    pub mask: RadialGradientMask,
    pub target: Id,
}

impl ComputeRadialGradientMaskOp {
    pub open spec fn spec_eq(self, other: Self) -> bool {
        self.result == other.result
        && self.mask.spec_eq(other.mask)
        && self.target == other.target
    }

    pub fn ieee_eq(&self, other: &Self) -> (r: bool)
        ensures
            r == self.spec_eq(*other),
    {
        self.result == other.result
        && self.mask.ieee_eq(&other.mask)
        && self.target == other.target
    }
}

#[derive(Clone, Copy, Debug)]
pub struct ComputeLinearGradientMaskOp {
    pub result: Id,
    pub mask: LinearGradientMask,
    pub target: Id,
}

impl ComputeLinearGradientMaskOp {
    pub open spec fn spec_eq(self, other: Self) -> bool {
        self.result == other.result
        && self.mask.spec_eq(other.mask)
        && self.target == other.target
    }

    pub fn ieee_eq(&self, other: &Self) -> (r: bool)
        ensures
            r == self.spec_eq(*other),
    {
        self.result == other.result
        && self.mask.ieee_eq(&other.mask)
        && self.target == other.target
    }
}

#[derive(Clone, Copy, Debug)]
pub struct AddMaskOp {
    pub result: Id,
    pub mask_0: Id,
    pub mask_1: Id,
}

impl AddMaskOp {
    pub open spec fn spec_eq(self, other: Self) -> bool {
        self.result == other.result
        && self.mask_0 == other.mask_0
        && self.mask_1 == other.mask_1
    }

    pub fn ieee_eq(&self, other: &Self) -> (r: bool)
        ensures
            r == self.spec_eq(*other),
    {
        self.result == other.result
        && self.mask_0 == other.mask_0
        && self.mask_1 == other.mask_1
    }
}

#[derive(Clone, Copy, Debug)]
pub struct SubtractMaskOp {
    pub result: Id,
    pub mask_0: Id,
    pub mask_1: Id,
}

impl SubtractMaskOp {
    pub open spec fn spec_eq(self, other: Self) -> bool {
        self.result == other.result
        && self.mask_0 == other.mask_0
        && self.mask_1 == other.mask_1
    }

    pub fn ieee_eq(&self, other: &Self) -> (r: bool)
        ensures
            r == self.spec_eq(*other),
    {
        self.result == other.result
        && self.mask_0 == other.mask_0
        && self.mask_1 == other.mask_1
    }
}

#[derive(Clone, Copy, Debug)]
pub struct InvertMaskOp {
    pub result: Id,
    pub mask_0: Id,
}

impl InvertMaskOp {
    pub open spec fn spec_eq(self, other: Self) -> bool {
        self.result == other.result
        && self.mask_0 == other.mask_0
    }

    pub fn ieee_eq(&self, other: &Self) -> (r: bool)
        ensures
            r == self.spec_eq(*other),
    {
        self.result == other.result
        && self.mask_0 == other.mask_0
    }
}

#[derive(Clone, Copy, Debug)]
pub struct ApplyMaskedEditsOp {
    pub result: Id,
    pub mask: Id,
    pub original_target: Id,
    pub edited: Id,
}

impl ApplyMaskedEditsOp {
    pub open spec fn spec_eq(self, other: Self) -> bool {
        self.result == other.result
        && self.mask == other.mask
        && self.original_target == other.original_target
        && self.edited == other.edited
    }

    pub fn ieee_eq(&self, other: &Self) -> (r: bool)
        ensures
            r == self.spec_eq(*other),
    {
        self.result == other.result
        && self.mask == other.mask
        && self.original_target == other.original_target
        && self.edited == other.edited
    }
}

#[derive(Clone, Copy, Debug)]
pub struct ApplyFramingOp {
    pub result: Id,
    pub arg: Id,
    pub frame: Frame,
}

impl ApplyFramingOp {
    pub open spec fn spec_eq(self, other: Self) -> bool {
        self.result == other.result
        && self.arg == other.arg
        && self.frame.spec_eq(other.frame)
    }

    pub fn ieee_eq(&self, other: &Self) -> (r: bool)
        ensures
            r == self.spec_eq(*other),
    {
        self.result == other.result
        && self.arg == other.arg
        && self.frame.ieee_eq(&other.frame)
    }
}

impl Op {
    /// The ids of the values that the operation reads, in the order of its fields.
    pub open spec fn spec_arg_ids(self) -> Seq<Id> {
        match self {
            Op::Input(o) => seq![],
            Op::AdjustExposure(o) => seq![o.arg],
            Op::AdjustContrast(o) => seq![o.arg, o.basic_stats],
            Op::AdjustHighlightsAndShadows(o) => seq![o.arg],
            Op::ApplyCurve(o) => seq![o.arg],
            Op::AdjustTemperatureAndTint(o) => seq![o.arg],
            Op::AdjustVibranceAndSaturation(o) => seq![o.arg],
            Op::ColorMix(o) => seq![o.arg],
            Op::AdjustVignette(o) => seq![o.arg],
            Op::PrepareDehaze(o) => seq![o.arg],
            Op::ApplyDehaze(o) => seq![o.arg],
            Op::ComputeBasicStatistics(o) => seq![o.arg],
            Op::ComputeHistogram(o) => seq![o.arg],
            Op::RotateAndCrop(o) => seq![o.arg],
            Op::Resize(o) => seq![o.arg],
            Op::ComputeGlobalMask(o) => seq![o.target],
            Op::ComputeRadialGradientMask(o) => seq![o.target],
            Op::ComputeLinearGradientMask(o) => seq![o.target],
            Op::AddMask(o) => seq![o.mask_0, o.mask_1],
            Op::SubtractMask(o) => seq![o.mask_0, o.mask_1],
            Op::InvertMask(o) => seq![o.mask_0],
            Op::ApplyMaskedEdits(o) => seq![o.original_target, o.edited, o.mask],
            Op::ApplyFraming(o) => seq![o.arg],
        }
    }

    /// The id of the value that the operation writes.
    pub open spec fn spec_result_id(self) -> Id {
        match self {
            Op::Input(o) => o.result,
            Op::AdjustExposure(o) => o.result,
            Op::AdjustContrast(o) => o.result,
            Op::AdjustHighlightsAndShadows(o) => o.result,
            Op::ApplyCurve(o) => o.result,
            Op::AdjustTemperatureAndTint(o) => o.result,
            Op::AdjustVibranceAndSaturation(o) => o.result,
            Op::ColorMix(o) => o.result,
            Op::AdjustVignette(o) => o.result,
            Op::PrepareDehaze(o) => o.result,
            Op::ApplyDehaze(o) => o.result,
            Op::ComputeBasicStatistics(o) => o.result,
            Op::ComputeHistogram(o) => o.result,
            Op::RotateAndCrop(o) => o.result,
            Op::Resize(o) => o.result,
            Op::ComputeGlobalMask(o) => o.result,
            Op::ComputeRadialGradientMask(o) => o.result,
            Op::ComputeLinearGradientMask(o) => o.result,
            Op::AddMask(o) => o.result,
            Op::SubtractMask(o) => o.result,
            Op::InvertMask(o) => o.result,
            Op::ApplyMaskedEdits(o) => o.result,
            Op::ApplyFraming(o) => o.result,
        }
    }

    /// Equality of operations: same kind, equal ids and flags, IEEE-equal parameters.
    pub open spec fn spec_eq(self, other: Op) -> bool {
        match (self, other) {
            (Op::Input(a), Op::Input(b)) => a.spec_eq(b),
            (Op::AdjustExposure(a), Op::AdjustExposure(b)) => a.spec_eq(b),
            (Op::AdjustContrast(a), Op::AdjustContrast(b)) => a.spec_eq(b),
            (Op::AdjustHighlightsAndShadows(a), Op::AdjustHighlightsAndShadows(b)) => a.spec_eq(b),
            (Op::ApplyCurve(a), Op::ApplyCurve(b)) => a.spec_eq(b),
            (Op::AdjustTemperatureAndTint(a), Op::AdjustTemperatureAndTint(b)) => a.spec_eq(b),
            (Op::AdjustVibranceAndSaturation(a), Op::AdjustVibranceAndSaturation(b)) => a.spec_eq(b),
            (Op::ColorMix(a), Op::ColorMix(b)) => a.spec_eq(b),
            (Op::AdjustVignette(a), Op::AdjustVignette(b)) => a.spec_eq(b),
            (Op::PrepareDehaze(a), Op::PrepareDehaze(b)) => a.spec_eq(b),
            (Op::ApplyDehaze(a), Op::ApplyDehaze(b)) => a.spec_eq(b),
            (Op::ComputeBasicStatistics(a), Op::ComputeBasicStatistics(b)) => a.spec_eq(b),
            (Op::ComputeHistogram(a), Op::ComputeHistogram(b)) => a.spec_eq(b),
            (Op::RotateAndCrop(a), Op::RotateAndCrop(b)) => a.spec_eq(b),
            (Op::Resize(a), Op::Resize(b)) => a.spec_eq(b),
            (Op::ComputeGlobalMask(a), Op::ComputeGlobalMask(b)) => a.spec_eq(b),
            (Op::ComputeRadialGradientMask(a), Op::ComputeRadialGradientMask(b)) => a.spec_eq(b),
            (Op::ComputeLinearGradientMask(a), Op::ComputeLinearGradientMask(b)) => a.spec_eq(b),
            (Op::AddMask(a), Op::AddMask(b)) => a.spec_eq(b),
            (Op::SubtractMask(a), Op::SubtractMask(b)) => a.spec_eq(b),
            (Op::InvertMask(a), Op::InvertMask(b)) => a.spec_eq(b),
            (Op::ApplyMaskedEdits(a), Op::ApplyMaskedEdits(b)) => a.spec_eq(b),
            (Op::ApplyFraming(a), Op::ApplyFraming(b)) => a.spec_eq(b),
            _ => false,
        }
    }

    pub fn get_arg_ids(&self) -> (r: Vec<Id>)
        ensures
            r@ == self.spec_arg_ids(),
    {
        match self {
            Op::Input(o) => vec![],
            Op::AdjustExposure(o) => vec![o.arg],
            Op::AdjustContrast(o) => vec![o.arg, o.basic_stats],
            Op::AdjustHighlightsAndShadows(o) => vec![o.arg],
            Op::ApplyCurve(o) => vec![o.arg],
            Op::AdjustTemperatureAndTint(o) => vec![o.arg],
            Op::AdjustVibranceAndSaturation(o) => vec![o.arg],
            Op::ColorMix(o) => vec![o.arg],
            Op::AdjustVignette(o) => vec![o.arg],
            Op::PrepareDehaze(o) => vec![o.arg],
            Op::ApplyDehaze(o) => vec![o.arg],
            Op::ComputeBasicStatistics(o) => vec![o.arg],
            Op::ComputeHistogram(o) => vec![o.arg],
            Op::RotateAndCrop(o) => vec![o.arg],
            Op::Resize(o) => vec![o.arg],
            Op::ComputeGlobalMask(o) => vec![o.target],
            Op::ComputeRadialGradientMask(o) => vec![o.target],
            Op::ComputeLinearGradientMask(o) => vec![o.target],
            Op::AddMask(o) => vec![o.mask_0, o.mask_1],
            Op::SubtractMask(o) => vec![o.mask_0, o.mask_1],
            Op::InvertMask(o) => vec![o.mask_0],
            Op::ApplyMaskedEdits(o) => vec![o.original_target, o.edited, o.mask],
            Op::ApplyFraming(o) => vec![o.arg],
        }
    }

    pub fn get_result_id(&self) -> (r: Id)
        ensures
            r == self.spec_result_id(),
    {
        match self {
            Op::Input(o) => o.result,
            Op::AdjustExposure(o) => o.result,
            Op::AdjustContrast(o) => o.result,
            Op::AdjustHighlightsAndShadows(o) => o.result,
            Op::ApplyCurve(o) => o.result,
            Op::AdjustTemperatureAndTint(o) => o.result,
            Op::AdjustVibranceAndSaturation(o) => o.result,
            Op::ColorMix(o) => o.result,
            Op::AdjustVignette(o) => o.result,
            Op::PrepareDehaze(o) => o.result,
            Op::ApplyDehaze(o) => o.result,
            Op::ComputeBasicStatistics(o) => o.result,
            Op::ComputeHistogram(o) => o.result,
            Op::RotateAndCrop(o) => o.result,
            Op::Resize(o) => o.result,
            Op::ComputeGlobalMask(o) => o.result,
            Op::ComputeRadialGradientMask(o) => o.result,
            Op::ComputeLinearGradientMask(o) => o.result,
            Op::AddMask(o) => o.result,
            Op::SubtractMask(o) => o.result,
            Op::InvertMask(o) => o.result,
            Op::ApplyMaskedEdits(o) => o.result,
            Op::ApplyFraming(o) => o.result,
        }
    }

    /// `self == other`: the operations are of one kind and their fields are equal.
    pub fn ieee_eq(&self, other: &Op) -> (r: bool)
        ensures
            r == self.spec_eq(*other),
    {
        match (self, other) {
            (Op::Input(a), Op::Input(b)) => a.ieee_eq(b),
            (Op::AdjustExposure(a), Op::AdjustExposure(b)) => a.ieee_eq(b),
            (Op::AdjustContrast(a), Op::AdjustContrast(b)) => a.ieee_eq(b),
            (Op::AdjustHighlightsAndShadows(a), Op::AdjustHighlightsAndShadows(b)) => a.ieee_eq(b),
            (Op::ApplyCurve(a), Op::ApplyCurve(b)) => a.ieee_eq(b),
            (Op::AdjustTemperatureAndTint(a), Op::AdjustTemperatureAndTint(b)) => a.ieee_eq(b),
            (Op::AdjustVibranceAndSaturation(a), Op::AdjustVibranceAndSaturation(b)) => a.ieee_eq(b),
            (Op::ColorMix(a), Op::ColorMix(b)) => a.ieee_eq(b),
            (Op::AdjustVignette(a), Op::AdjustVignette(b)) => a.ieee_eq(b),
            (Op::PrepareDehaze(a), Op::PrepareDehaze(b)) => a.ieee_eq(b),
            (Op::ApplyDehaze(a), Op::ApplyDehaze(b)) => a.ieee_eq(b),
            (Op::ComputeBasicStatistics(a), Op::ComputeBasicStatistics(b)) => a.ieee_eq(b),
            (Op::ComputeHistogram(a), Op::ComputeHistogram(b)) => a.ieee_eq(b),
            (Op::RotateAndCrop(a), Op::RotateAndCrop(b)) => a.ieee_eq(b),
            (Op::Resize(a), Op::Resize(b)) => a.ieee_eq(b),
            (Op::ComputeGlobalMask(a), Op::ComputeGlobalMask(b)) => a.ieee_eq(b),
            (Op::ComputeRadialGradientMask(a), Op::ComputeRadialGradientMask(b)) => a.ieee_eq(b),
            (Op::ComputeLinearGradientMask(a), Op::ComputeLinearGradientMask(b)) => a.ieee_eq(b),
            (Op::AddMask(a), Op::AddMask(b)) => a.ieee_eq(b),
            (Op::SubtractMask(a), Op::SubtractMask(b)) => a.ieee_eq(b),
            (Op::InvertMask(a), Op::InvertMask(b)) => a.ieee_eq(b),
            (Op::ApplyMaskedEdits(a), Op::ApplyMaskedEdits(b)) => a.ieee_eq(b),
            (Op::ApplyFraming(a), Op::ApplyFraming(b)) => a.ieee_eq(b),
            _ => false,
        }
    }
}

/// The same operation, where a curve's control points count by their values
/// rather than by the vector that holds them.
pub open spec fn op_matches(a: Op, b: Op) -> bool {
    match (a, b) {
        (Op::ApplyCurve(x), Op::ApplyCurve(y)) => {
            &&& x.result == y.result
            &&& x.arg == y.arg
            &&& x.control_points@ == y.control_points@
            &&& x.apply_r == y.apply_r
            &&& x.apply_g == y.apply_g
            &&& x.apply_b == y.apply_b
        },
        _ => a == b,
    }
}

/// Two operation lists match position by position.
pub open spec fn ops_match(a: Seq<Op>, b: Seq<Op>) -> bool {
    &&& a.len() == b.len()
    &&& forall|i: int| 0 <= i < a.len() ==> #[trigger] op_matches(a[i], b[i])
}

pub proof fn lemma_ops_match_refl(a: Seq<Op>)
    ensures
        ops_match(a, a),
{
    assert forall|i: int| 0 <= i < a.len() implies #[trigger] op_matches(a[i], a[i]) by {
        match a[i] {
            Op::ApplyCurve(x) => {},
            _ => {},
        }
    }
}

pub proof fn lemma_ops_match_trans(a: Seq<Op>, b: Seq<Op>, c: Seq<Op>)
    requires
        ops_match(a, b),
        ops_match(b, c),
    ensures
        ops_match(a, c),
{
    assert forall|i: int| 0 <= i < a.len() implies #[trigger] op_matches(a[i], c[i]) by {
        assert(op_matches(a[i], b[i]));
        assert(op_matches(b[i], c[i]));
    }
}

pub proof fn lemma_ops_match_concat(a: Seq<Op>, b: Seq<Op>, s: Seq<Op>, t: Seq<Op>)
    requires
        ops_match(a, b),
        ops_match(s, t),
    ensures
        ops_match(a + s, b + t),
{
    assert forall|i: int| 0 <= i < (a + s).len() implies #[trigger] op_matches((a + s)[i], (b + t)[i]) by {
        if i < a.len() {
            assert(op_matches(a[i], b[i]));
        } else {
            assert(op_matches(s[i - a.len()], t[i - a.len()]));
        }
    }
}

/// Two lists of curve control points are equal: same length, and IEEE-equal
/// coordinates at each position.
pub open spec fn control_points_spec_eq(a: Seq<(F32, F32)>, b: Seq<(F32, F32)>) -> bool {
    &&& a.len() == b.len()
    &&& forall|i: int| 0 <= i < a.len() ==> #[trigger] point_spec_eq(a[i], b[i])
}

/// Two control points are equal: both coordinates are IEEE-equal.
pub open spec fn point_spec_eq(p: (F32, F32), q: (F32, F32)) -> bool {
    p.0.spec_eq(q.0) && p.1.spec_eq(q.1)
}

pub fn control_points_eq(a: &Vec<(F32, F32)>, b: &Vec<(F32, F32)>) -> (r: bool)
    ensures
        r == control_points_spec_eq(a@, b@),
{
    if a.len() != b.len() {
        return false;
    }
    let mut i: usize = 0;
    while i < a.len()
        invariant
            a@.len() == b@.len(),
            i <= a@.len(),
            forall|j: int| 0 <= j < i ==> #[trigger] point_spec_eq(a@[j], b@[j]),
        decreases a@.len() - i,
    {
        if !(a[i].0.ieee_eq(&b[i].0) && a[i].1.ieee_eq(&b[i].1)) {
            assert(!point_spec_eq(a@[i as int], b@[i as int]));
            return false;
        }
        i = i + 1;
    }
    true
}

/// Copies a list of control points value by value.
pub fn copy_control_points(a: &Vec<(F32, F32)>) -> (r: Vec<(F32, F32)>)
    ensures
        r@ == a@,
{
    let mut r: Vec<(F32, F32)> = Vec::new();
    let mut i: usize = 0;
    while i < a.len()
        invariant
            i <= a@.len(),
            r@ == a@.take(i as int),
        decreases a@.len() - i,
    {
        r.push(a[i]);
        i = i + 1;
        assert(r@ == a@.take(i as int));
    }
    assert(a@.take(a@.len() as int) == a@);
    r
}

#[derive(Clone, Copy, Debug)]
pub struct ColorMixGroup {
    pub hue: F32,
    pub saturation: F32,
    pub lightness: F32,
}

impl ColorMixGroup {
    pub open spec fn spec_eq(self, other: ColorMixGroup) -> bool {
        self.hue.spec_eq(other.hue) && self.saturation.spec_eq(other.saturation)
            && self.lightness.spec_eq(other.lightness)
    }

    pub fn ieee_eq(&self, other: &ColorMixGroup) -> (r: bool)
        ensures
            r == self.spec_eq(*other),
    {
        self.hue.ieee_eq(&other.hue) && self.saturation.ieee_eq(&other.saturation)
            && self.lightness.ieee_eq(&other.lightness)
    }

    /// A group that leaves colors unchanged.
    pub open spec fn spec_new() -> ColorMixGroup {
        ColorMixGroup { hue: F32 { bits: 0 }, saturation: F32 { bits: 0 }, lightness: F32 { bits: 0 } }
    }

    pub fn new() -> (r: Self)
        ensures
            r == Self::spec_new(),
    {
        ColorMixGroup { hue: F32 { bits: 0 }, saturation: F32 { bits: 0 }, lightness: F32 { bits: 0 } }
    }

    /// The group compares equal to `ColorMixGroup::new()`: all three values are zero.
    pub open spec fn spec_is_neutral(self) -> bool {
        self.hue.spec_is_zero() && self.saturation.spec_is_zero() && self.lightness.spec_is_zero()
    }
}

pub open spec fn color_mix_groups_spec_eq(a: Seq<ColorMixGroup>, b: Seq<ColorMixGroup>) -> bool {
    &&& a.len() == b.len()
    &&& forall|i: int| 0 <= i < a.len() ==> #[trigger] a[i].spec_eq(b[i])
}

pub fn color_mix_groups_eq(a: &[ColorMixGroup; 8], b: &[ColorMixGroup; 8]) -> (r: bool)
    ensures
        r == color_mix_groups_spec_eq(a@, b@),
{
    let mut i: usize = 0;
    while i < 8
        invariant
            a@.len() == 8,
            b@.len() == 8,
            i <= 8,
            forall|j: int| 0 <= j < i ==> #[trigger] a@[j].spec_eq(b@[j]),
        decreases 8 - i,
    {
        if !a[i].ieee_eq(&b[i]) {
            return false;
        }
        i = i + 1;
    }
    true
}

/// A frame added around the image: the aspect ratio of the framed image, and
/// the gap between the image and the frame's border, relative to the image.
#[derive(Clone, Copy, Debug)]
pub struct Frame {
    pub aspect_ratio: (u32, u32),
    pub gap: F32,
}

impl Frame {
    pub open spec fn spec_eq(self, other: Frame) -> bool {
        self.aspect_ratio == other.aspect_ratio && self.gap.spec_eq(other.gap)
    }

    pub fn ieee_eq(&self, other: &Frame) -> (r: bool)
        ensures
            r == self.spec_eq(*other),
    {
        self.aspect_ratio.0 == other.aspect_ratio.0 && self.aspect_ratio.1 == other.aspect_ratio.1
            && self.gap.ieee_eq(&other.gap)
    }

    /// A square frame with a gap of 0.1.
    pub fn defualt() -> (r: Self)
        ensures
            r.aspect_ratio == (1u32, 1u32),
            r.gap.bits == 0x3dcc_cccd,
    {
        Frame { aspect_ratio: (1, 1), gap: F32 { bits: 0x3dcc_cccd } }
    }
}

} // verus!
