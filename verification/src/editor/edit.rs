//! The edit model: what the user asked for, as plain values.
use vstd::prelude::*;

use crate::float::F32;
use crate::ir::mask::{GlobalMask, Mask, MaskPrimitive, MaskTerm};
use crate::ir::op::{
    color_mix_groups_eq, color_mix_groups_spec_eq, control_points_eq, control_points_spec_eq, point_spec_eq,
    ColorMixGroup, Frame,
};
use crate::rectangle::Rectangle;

verus! {

/// A whole edit of one image: geometry, the masked edits applied in order,
/// and an optional frame.
#[derive(Clone, Debug)]
pub struct Edit {
    pub resize_factor: Option<F32>,
    pub rotation_degrees: Option<F32>,
    pub crop_rect: Option<Rectangle>,
    pub masked_edits: Vec<MaskedEdit>,
    pub framing: Option<Frame>,
}

/// A global edit applied through a mask, under a user-visible name.
#[derive(Clone, Debug)]
pub struct MaskedEdit {
    pub mask: Mask,
    pub edit: GlobalEdit,
    pub name: String,
}

/// The adjustments of one masked edit.
#[derive(Clone, Debug)]
pub struct GlobalEdit {
    pub exposure: F32,
    pub contrast: F32,
    pub highlights: F32,
    pub shadows: F32,
    pub curve_control_points_all: Vec<(F32, F32)>,
    pub curve_control_points_r: Vec<(F32, F32)>,
    pub curve_control_points_g: Vec<(F32, F32)>,
    pub curve_control_points_b: Vec<(F32, F32)>,
    pub temperature: F32,
    pub tint: F32,
    pub vibrance: F32,
    pub saturation: F32,
    pub color_mixer_edits: [ColorMixGroup; 8],
    pub dehaze: F32,
    pub vignette: F32,
}

/// Two optional values are equal: both absent, or both present and IEEE-equal.
pub open spec fn option_f32_spec_eq(a: Option<F32>, b: Option<F32>) -> bool {
    match (a, b) {
        (None, None) => true,
        (Some(x), Some(y)) => x.spec_eq(y),
        _ => false,
    }
}

pub fn option_f32_eq(a: &Option<F32>, b: &Option<F32>) -> (r: bool)
    ensures
        r == option_f32_spec_eq(*a, *b),
{
    match (a, b) {
        (None, None) => true,
        (Some(x), Some(y)) => x.ieee_eq(y),
        _ => false,
    }
}

/// The identity curve: (0, 0) and (1, 1).
pub open spec fn spec_initial_control_points() -> Seq<(F32, F32)> {
    seq![(F32 { bits: 0 }, F32 { bits: 0 }), (F32 { bits: 0x3f80_0000 }, F32 { bits: 0x3f80_0000 })]
}

impl GlobalEdit {
    /// The edit that changes nothing.
    pub open spec fn spec_is_new(self) -> bool {
        &&& self.exposure.bits == 0
        &&& self.contrast.bits == 0
        &&& self.highlights.bits == 0
        &&& self.shadows.bits == 0
        &&& self.curve_control_points_all@ == spec_initial_control_points()
        &&& self.curve_control_points_r@ == spec_initial_control_points()
        &&& self.curve_control_points_g@ == spec_initial_control_points()
        &&& self.curve_control_points_b@ == spec_initial_control_points()
        &&& self.temperature.bits == 0
        &&& self.tint.bits == 0
        &&& self.vibrance.bits == 0
        &&& self.saturation.bits == 0
        &&& forall|i: int| 0 <= i < 8 ==> #[trigger] self.color_mixer_edits@[i] == ColorMixGroup::spec_new()
        &&& self.dehaze.bits == 0
        &&& self.vignette.bits == 0
    }

    pub fn new() -> (r: Self)
        ensures
            r.spec_is_new(),
    {
        let g = ColorMixGroup::new();
        GlobalEdit {
            exposure: F32::zero(),
            contrast: F32::zero(),
            highlights: F32::zero(),
            shadows: F32::zero(),
            curve_control_points_all: GlobalEdit::initial_control_points(),
            curve_control_points_r: GlobalEdit::initial_control_points(),
            curve_control_points_g: GlobalEdit::initial_control_points(),
            curve_control_points_b: GlobalEdit::initial_control_points(),
            temperature: F32::zero(),
            tint: F32::zero(),
            vibrance: F32::zero(),
            saturation: F32::zero(),
            color_mixer_edits: [g, g, g, g, g, g, g, g],
            dehaze: F32::zero(),
            vignette: F32::zero(),
        }
    }

    pub fn initial_control_points() -> (r: Vec<(F32, F32)>)
        ensures
            r@ == spec_initial_control_points(),
    {
        let mut r: Vec<(F32, F32)> = Vec::new();
        r.push((F32::zero(), F32::zero()));
        r.push((F32::one(), F32::one()));
        assert(r@ =~= spec_initial_control_points());
        r
    }

    pub open spec fn spec_eq(self, other: GlobalEdit) -> bool {
        &&& self.exposure.spec_eq(other.exposure)
        &&& self.contrast.spec_eq(other.contrast)
        &&& self.highlights.spec_eq(other.highlights)
        &&& self.shadows.spec_eq(other.shadows)
        &&& control_points_spec_eq(self.curve_control_points_all@, other.curve_control_points_all@)
        &&& control_points_spec_eq(self.curve_control_points_r@, other.curve_control_points_r@)
        &&& control_points_spec_eq(self.curve_control_points_g@, other.curve_control_points_g@)
        &&& control_points_spec_eq(self.curve_control_points_b@, other.curve_control_points_b@)
        &&& self.temperature.spec_eq(other.temperature)
        &&& self.tint.spec_eq(other.tint)
        &&& self.vibrance.spec_eq(other.vibrance)
        &&& self.saturation.spec_eq(other.saturation)
        &&& color_mix_groups_spec_eq(self.color_mixer_edits@, other.color_mixer_edits@)
        &&& self.dehaze.spec_eq(other.dehaze)
        &&& self.vignette.spec_eq(other.vignette)
    }

    /// `self == other`: every field equal, parameters compared as IEEE floats.
    pub fn ieee_eq(&self, other: &GlobalEdit) -> (r: bool)
        ensures
            r == self.spec_eq(*other),
    {
        self.exposure.ieee_eq(&other.exposure) && self.contrast.ieee_eq(&other.contrast)
            && self.highlights.ieee_eq(&other.highlights) && self.shadows.ieee_eq(&other.shadows)
            && control_points_eq(&self.curve_control_points_all, &other.curve_control_points_all)
            && control_points_eq(&self.curve_control_points_r, &other.curve_control_points_r)
            && control_points_eq(&self.curve_control_points_g, &other.curve_control_points_g)
            && control_points_eq(&self.curve_control_points_b, &other.curve_control_points_b)
            && self.temperature.ieee_eq(&other.temperature) && self.tint.ieee_eq(&other.tint)
            && self.vibrance.ieee_eq(&other.vibrance) && self.saturation.ieee_eq(&other.saturation)
            && color_mix_groups_eq(&self.color_mixer_edits, &other.color_mixer_edits)
            && self.dehaze.ieee_eq(&other.dehaze) && self.vignette.ieee_eq(&other.vignette)
    }
}

impl MaskedEdit {
    pub fn new(mask: Mask, edit: GlobalEdit, name: String) -> (r: Self)
        ensures
            r.mask == mask,
            r.edit == edit,
            r.name == name,
    {
        MaskedEdit { mask, edit, name }
    }

    pub open spec fn spec_eq(self, other: MaskedEdit) -> bool {
        self.mask.spec_eq(other.mask) && self.edit.spec_eq(other.edit) && self.name@ == other.name@
    }

    pub fn ieee_eq(&self, other: &MaskedEdit) -> (r: bool)
        ensures
            r == self.spec_eq(*other),
    {
        self.mask.ieee_eq(&other.mask) && self.edit.ieee_eq(&other.edit) && self.name == other.name
    }
}

/// Two lists of masked edits are equal element by element.
pub open spec fn masked_edits_spec_eq(a: Seq<MaskedEdit>, b: Seq<MaskedEdit>) -> bool {
    &&& a.len() == b.len()
    &&& forall|i: int| 0 <= i < a.len() ==> #[trigger] a[i].spec_eq(b[i])
}

pub open spec fn option_rectangle_spec_eq(a: Option<Rectangle>, b: Option<Rectangle>) -> bool {
    match (a, b) {
        (None, None) => true,
        (Some(x), Some(y)) => x.spec_eq(y),
        _ => false,
    }
}

pub open spec fn option_frame_spec_eq(a: Option<Frame>, b: Option<Frame>) -> bool {
    match (a, b) {
        (None, None) => true,
        (Some(x), Some(y)) => x.spec_eq(y),
        _ => false,
    }
}

impl Edit {
    /// The edit of a freshly opened image: no geometry change, one global
    /// masked edit named "Global" that changes nothing, no frame.
    pub open spec fn spec_is_trivial(self) -> bool {
        &&& self.resize_factor is None
        &&& self.rotation_degrees is None
        &&& self.crop_rect is None
        &&& self.framing is None
        &&& self.masked_edits@.len() == 1
        &&& self.masked_edits@[0].mask.spec_is_global()
        &&& self.masked_edits@[0].edit.spec_is_new()
        &&& self.masked_edits@[0].name@ == "Global"@
    }

    pub fn trivial() -> (r: Self)
        ensures
            r.spec_is_trivial(),
    {
        let mut terms: Vec<MaskTerm> = Vec::new();
        terms.push(
            MaskTerm { primitive: MaskPrimitive::Global(GlobalMask {}), inverted: false, subtracted: false },
        );
        let mut masked_edits: Vec<MaskedEdit> = Vec::new();
        masked_edits.push(MaskedEdit::new(Mask { terms }, GlobalEdit::new(), String::from_str("Global")));
        Edit {
            resize_factor: None,
            rotation_degrees: None,
            crop_rect: None,
            masked_edits,
            framing: None,
        }
    }

    pub open spec fn spec_eq(self, other: Edit) -> bool {
        &&& option_f32_spec_eq(self.resize_factor, other.resize_factor)
        &&& option_f32_spec_eq(self.rotation_degrees, other.rotation_degrees)
        &&& option_rectangle_spec_eq(self.crop_rect, other.crop_rect)
        &&& masked_edits_spec_eq(self.masked_edits@, other.masked_edits@)
        &&& option_frame_spec_eq(self.framing, other.framing)
    }

    /// `self == other`: every field equal, parameters compared as IEEE floats.
    pub fn ieee_eq(&self, other: &Edit) -> (r: bool)
        ensures
            r == self.spec_eq(*other),
    {
        if !option_f32_eq(&self.resize_factor, &other.resize_factor) {
            return false;
        }
        if !option_f32_eq(&self.rotation_degrees, &other.rotation_degrees) {
            return false;
        }
        let rect_eq = match (&self.crop_rect, &other.crop_rect) {
            (None, None) => true,
            (Some(x), Some(y)) => x.ieee_eq(y),
            _ => false,
        };
        if !rect_eq {
            return false;
        }
        let frame_eq = match (&self.framing, &other.framing) {
            (None, None) => true,
            (Some(x), Some(y)) => x.ieee_eq(y),
            _ => false,
        };
        if !frame_eq {
            return false;
        }
        if self.masked_edits.len() != other.masked_edits.len() {
            return false;
        }
        let mut i: usize = 0;
        while i < self.masked_edits.len()
            invariant
                self.masked_edits@.len() == other.masked_edits@.len(),
                i <= self.masked_edits@.len(),
                forall|j: int| 0 <= j < i ==> #[trigger] self.masked_edits@[j].spec_eq(other.masked_edits@[j]),
            decreases self.masked_edits@.len() - i,
        {
            if !self.masked_edits[i].ieee_eq(&other.masked_edits[i]) {
                return false;
            }
            i = i + 1;
        }
        true
    }
}


/// Copies a vector of plain values element by element.
pub fn copy_vec<T: Copy>(v: &Vec<T>) -> (r: Vec<T>)
    ensures
        r@ == v@,
{
    let mut r: Vec<T> = Vec::new();
    let mut i: usize = 0;
    while i < v.len()
        invariant
            i <= v@.len(),
            r@ == v@.take(i as int),
        decreases v@.len() - i,
    {
        r.push(v[i]);
        i = i + 1;
        assert(r@ == v@.take(i as int));
    }
    assert(v@.take(v@.len() as int) == v@);
    r
}

impl GlobalEdit {
    /// The same edit: identical values in every field.
    pub open spec fn spec_same(self, other: GlobalEdit) -> bool {
        &&& self.exposure == other.exposure
        &&& self.contrast == other.contrast
        &&& self.highlights == other.highlights
        &&& self.shadows == other.shadows
        &&& self.curve_control_points_all@ == other.curve_control_points_all@
        &&& self.curve_control_points_r@ == other.curve_control_points_r@
        &&& self.curve_control_points_g@ == other.curve_control_points_g@
        &&& self.curve_control_points_b@ == other.curve_control_points_b@
        &&& self.temperature == other.temperature
        &&& self.tint == other.tint
        &&& self.vibrance == other.vibrance
        &&& self.saturation == other.saturation
        &&& self.color_mixer_edits == other.color_mixer_edits
        &&& self.dehaze == other.dehaze
        &&& self.vignette == other.vignette
    }

    /// A copy of the edit.
    pub fn duplicate(&self) -> (r: GlobalEdit)
        ensures
            r.spec_same(*self),
    {
        GlobalEdit {
            exposure: self.exposure,
            contrast: self.contrast,
            highlights: self.highlights,
            shadows: self.shadows,
            curve_control_points_all: copy_vec(&self.curve_control_points_all),
            curve_control_points_r: copy_vec(&self.curve_control_points_r),
            curve_control_points_g: copy_vec(&self.curve_control_points_g),
            curve_control_points_b: copy_vec(&self.curve_control_points_b),
            temperature: self.temperature,
            tint: self.tint,
            vibrance: self.vibrance,
            saturation: self.saturation,
            color_mixer_edits: self.color_mixer_edits,
            dehaze: self.dehaze,
            vignette: self.vignette,
        }
    }
}

impl MaskedEdit {
    /// The same masked edit: identical mask terms, edit and name.
    pub open spec fn spec_same(self, other: MaskedEdit) -> bool {
        &&& self.mask.terms@ == other.mask.terms@
        &&& self.edit.spec_same(other.edit)
        &&& self.name@ == other.name@
    }

    /// A copy of the masked edit.
    pub fn duplicate(&self) -> (r: MaskedEdit)
        ensures
            r.spec_same(*self),
    {
        MaskedEdit {
            mask: Mask { terms: copy_vec(&self.mask.terms) },
            edit: self.edit.duplicate(),
            name: self.name.clone(),
        }
    }
}

impl Edit {
    /// The same edit: identical values in every field.
    pub open spec fn spec_same(self, other: Edit) -> bool {
        &&& self.resize_factor == other.resize_factor
        &&& self.rotation_degrees == other.rotation_degrees
        &&& self.crop_rect == other.crop_rect
        &&& self.framing == other.framing
        &&& self.masked_edits@.len() == other.masked_edits@.len()
        &&& forall|i: int| 0 <= i < self.masked_edits@.len() ==> #[trigger] self.masked_edits@[i].spec_same(other.masked_edits@[i])
    }

    /// A copy of the edit.
    pub fn duplicate(&self) -> (r: Edit)
        ensures
            r.spec_same(*self),
    {
        let mut masked_edits: Vec<MaskedEdit> = Vec::new();
        let mut i: usize = 0;
        while i < self.masked_edits.len()
            invariant
                i <= self.masked_edits@.len(),
                masked_edits@.len() == i,
                forall|j: int| 0 <= j < i ==> #[trigger] masked_edits@[j].spec_same(self.masked_edits@[j]),
            decreases self.masked_edits@.len() - i,
        {
            masked_edits.push(self.masked_edits[i].duplicate());
            i = i + 1;
        }
        Edit {
            resize_factor: self.resize_factor,
            rotation_degrees: self.rotation_degrees,
            crop_rect: self.crop_rect,
            masked_edits,
            framing: self.framing,
        }
    }
}


/// `x` and `y` hold the same number: the same bit pattern, or both a zero.
pub open spec fn same_number(x: F32, y: F32) -> bool {
    x.bits == y.bits || (x.bits & 0x7fff_ffffu32 == 0 && y.bits & 0x7fff_ffffu32 == 0)
}

/// Equal global edits hold the same numbers in every parameter: each
/// adjustment (vignette included), every point of the four curves, and every
/// color group. So two edits that differ in any parameter (with no NaN) are
/// not equal.
pub proof fn lemma_global_edit_eq_same_numbers(a: GlobalEdit, b: GlobalEdit)
    requires
        a.spec_eq(b),
    ensures
        same_number(a.exposure, b.exposure),
        same_number(a.contrast, b.contrast),
        same_number(a.highlights, b.highlights),
        same_number(a.shadows, b.shadows),
        same_number(a.temperature, b.temperature),
        same_number(a.tint, b.tint),
        same_number(a.vibrance, b.vibrance),
        same_number(a.saturation, b.saturation),
        same_number(a.dehaze, b.dehaze),
        same_number(a.vignette, b.vignette),
        ({
            let pairs = seq![
                (a.curve_control_points_all@, b.curve_control_points_all@),
                (a.curve_control_points_r@, b.curve_control_points_r@),
                (a.curve_control_points_g@, b.curve_control_points_g@),
                (a.curve_control_points_b@, b.curve_control_points_b@),
            ];
            forall|c: int, i: int| 0 <= c < 4 && 0 <= i < pairs[c].0.len() ==> {
                &&& pairs[c].0.len() == pairs[c].1.len()
                &&& same_number((#[trigger] pairs[c].0[i]).0, pairs[c].1[i].0)
                &&& same_number(pairs[c].0[i].1, pairs[c].1[i].1)
            }
        }),
        forall|i: int| 0 <= i < 8 ==> {
            &&& same_number((#[trigger] a.color_mixer_edits@[i]).hue, b.color_mixer_edits@[i].hue)
            &&& same_number(a.color_mixer_edits@[i].saturation, b.color_mixer_edits@[i].saturation)
            &&& same_number(a.color_mixer_edits@[i].lightness, b.color_mixer_edits@[i].lightness)
        },
{
    lemma_f32_eq_same_number(a.exposure, b.exposure);
    lemma_f32_eq_same_number(a.contrast, b.contrast);
    lemma_f32_eq_same_number(a.highlights, b.highlights);
    lemma_f32_eq_same_number(a.shadows, b.shadows);
    lemma_f32_eq_same_number(a.temperature, b.temperature);
    lemma_f32_eq_same_number(a.tint, b.tint);
    lemma_f32_eq_same_number(a.vibrance, b.vibrance);
    lemma_f32_eq_same_number(a.saturation, b.saturation);
    lemma_f32_eq_same_number(a.dehaze, b.dehaze);
    lemma_f32_eq_same_number(a.vignette, b.vignette);
    let pairs = seq![
        (a.curve_control_points_all@, b.curve_control_points_all@),
        (a.curve_control_points_r@, b.curve_control_points_r@),
        (a.curve_control_points_g@, b.curve_control_points_g@),
        (a.curve_control_points_b@, b.curve_control_points_b@),
    ];
    assert forall|c: int, i: int| 0 <= c < 4 && 0 <= i < pairs[c].0.len() implies {
        &&& pairs[c].0.len() == pairs[c].1.len()
        &&& same_number((#[trigger] pairs[c].0[i]).0, pairs[c].1[i].0)
        &&& same_number(pairs[c].0[i].1, pairs[c].1[i].1)
    } by {
        assert(control_points_spec_eq(pairs[c].0, pairs[c].1));
        assert(point_spec_eq(pairs[c].0[i], pairs[c].1[i]));
        lemma_f32_eq_same_number(pairs[c].0[i].0, pairs[c].1[i].0);
        lemma_f32_eq_same_number(pairs[c].0[i].1, pairs[c].1[i].1);
    }
    assert forall|i: int| 0 <= i < 8 implies {
        &&& same_number((#[trigger] a.color_mixer_edits@[i]).hue, b.color_mixer_edits@[i].hue)
        &&& same_number(a.color_mixer_edits@[i].saturation, b.color_mixer_edits@[i].saturation)
        &&& same_number(a.color_mixer_edits@[i].lightness, b.color_mixer_edits@[i].lightness)
    } by {
        assert(a.color_mixer_edits@[i].spec_eq(b.color_mixer_edits@[i]));
        lemma_f32_eq_same_number(a.color_mixer_edits@[i].hue, b.color_mixer_edits@[i].hue);
        lemma_f32_eq_same_number(a.color_mixer_edits@[i].saturation, b.color_mixer_edits@[i].saturation);
        lemma_f32_eq_same_number(a.color_mixer_edits@[i].lightness, b.color_mixer_edits@[i].lightness);
    }
}

proof fn lemma_f32_eq_same_number(x: F32, y: F32)
    requires
        x.spec_eq(y),
    ensures
        same_number(x, y),
{
    let a = x.bits;
    let b = y.bits;
    assert((a == 0 || a == 0x8000_0000u32) ==> a & 0x7fff_ffffu32 == 0) by (bit_vector);
    assert((b == 0 || b == 0x8000_0000u32) ==> b & 0x7fff_ffffu32 == 0) by (bit_vector);
}

/// Equal edits have equal masked edits, one for one, so by
/// `lemma_global_edit_eq_same_numbers` the same numbers in every parameter
/// of every masked edit's adjustments.
pub proof fn lemma_edit_eq_masked_edits(a: Edit, b: Edit)
    requires
        a.spec_eq(b),
    ensures
        a.masked_edits@.len() == b.masked_edits@.len(),
        forall|i: int| 0 <= i < a.masked_edits@.len() ==> (#[trigger] a.masked_edits@[i]).edit.spec_eq(b.masked_edits@[i].edit),
{
    assert forall|i: int| 0 <= i < a.masked_edits@.len() implies (#[trigger] a.masked_edits@[i]).edit.spec_eq(b.masked_edits@[i].edit) by {
        assert(a.masked_edits@[i].spec_eq(b.masked_edits@[i]));
    }
}

/// Equality of control points is symmetric.
pub proof fn lemma_control_points_eq_symmetric(a: Seq<(F32, F32)>, b: Seq<(F32, F32)>)
    ensures
        control_points_spec_eq(a, b) == control_points_spec_eq(b, a),
{
    if control_points_spec_eq(a, b) {
        assert forall|i: int| 0 <= i < b.len() implies #[trigger] point_spec_eq(b[i], a[i]) by {
            assert(point_spec_eq(a[i], b[i]));
        }
    }
    if control_points_spec_eq(b, a) {
        assert forall|i: int| 0 <= i < a.len() implies #[trigger] point_spec_eq(a[i], b[i]) by {
            assert(point_spec_eq(b[i], a[i]));
        }
    }
}

/// Equality of global edits is symmetric.
pub proof fn lemma_global_edit_eq_symmetric(a: GlobalEdit, b: GlobalEdit)
    ensures
        a.spec_eq(b) == b.spec_eq(a),
{
    lemma_control_points_eq_symmetric(a.curve_control_points_all@, b.curve_control_points_all@);
    lemma_control_points_eq_symmetric(a.curve_control_points_r@, b.curve_control_points_r@);
    lemma_control_points_eq_symmetric(a.curve_control_points_g@, b.curve_control_points_g@);
    lemma_control_points_eq_symmetric(a.curve_control_points_b@, b.curve_control_points_b@);
    let ga = a.color_mixer_edits@;
    let gb = b.color_mixer_edits@;
    if color_mix_groups_spec_eq(ga, gb) {
        assert forall|i: int| 0 <= i < gb.len() implies #[trigger] gb[i].spec_eq(ga[i]) by {
            assert(ga[i].spec_eq(gb[i]));
        }
    }
    if color_mix_groups_spec_eq(gb, ga) {
        assert forall|i: int| 0 <= i < ga.len() implies #[trigger] ga[i].spec_eq(gb[i]) by {
            assert(gb[i].spec_eq(ga[i]));
        }
    }
}

/// Equality of masked edits is symmetric.
pub proof fn lemma_masked_edit_eq_symmetric(a: MaskedEdit, b: MaskedEdit)
    ensures
        a.spec_eq(b) == b.spec_eq(a),
{
    lemma_global_edit_eq_symmetric(a.edit, b.edit);
    let ta = a.mask.terms@;
    let tb = b.mask.terms@;
    if a.mask.spec_eq(b.mask) {
        assert forall|i: int| 0 <= i < tb.len() implies #[trigger] tb[i].spec_eq(ta[i]) by {
            assert(ta[i].spec_eq(tb[i]));
        }
    }
    if b.mask.spec_eq(a.mask) {
        assert forall|i: int| 0 <= i < ta.len() implies #[trigger] ta[i].spec_eq(tb[i]) by {
            assert(tb[i].spec_eq(ta[i]));
        }
    }
}

/// Equality of edits is symmetric.
pub proof fn lemma_edit_eq_symmetric(a: Edit, b: Edit)
    ensures
        a.spec_eq(b) == b.spec_eq(a),
{
    let ma = a.masked_edits@;
    let mb = b.masked_edits@;
    if masked_edits_spec_eq(ma, mb) {
        assert forall|i: int| 0 <= i < mb.len() implies #[trigger] mb[i].spec_eq(ma[i]) by {
            assert(ma[i].spec_eq(mb[i]));
            lemma_masked_edit_eq_symmetric(ma[i], mb[i]);
        }
    }
    if masked_edits_spec_eq(mb, ma) {
        assert forall|i: int| 0 <= i < ma.len() implies #[trigger] ma[i].spec_eq(mb[i]) by {
            assert(mb[i].spec_eq(ma[i]));
            lemma_masked_edit_eq_symmetric(ma[i], mb[i]);
        }
    }
}

} // verus!
