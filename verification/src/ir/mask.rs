//! Masks: which part of the image an edit applies to.
use vstd::prelude::*;

use crate::float::F32;
use crate::ir::id::Id;
use crate::ir::module::Module;
use crate::ir::op::{
    AddMaskOp, ComputeGlobalMaskOp, ComputeLinearGradientMaskOp, ComputeRadialGradientMaskOp,
    InvertMaskOp, Op, SubtractMaskOp,
};
use crate::ir::well_formed::{id_defined, lemma_push_well_formed, ops_well_formed};

verus! {

#[derive(Clone, Copy, Debug)]
pub struct GlobalMask {}

impl GlobalMask {
    pub open spec fn spec_eq(self, other: GlobalMask) -> bool {
        true
    }

    pub fn ieee_eq(&self, other: &GlobalMask) -> (r: bool)
        ensures
            r == self.spec_eq(*other),
    {
        true
    }
}

#[derive(Clone, Copy, Debug)]
pub struct RadialGradientMask {
    pub center_x: F32,
    pub center_y: F32,
    pub radius_x: F32,
    pub radius_y: F32,
    pub feather: F32,
    pub rotation: F32,
}

impl RadialGradientMask {
    pub open spec fn spec_eq(self, other: RadialGradientMask) -> bool {
        &&& self.center_x.spec_eq(other.center_x)
        &&& self.center_y.spec_eq(other.center_y)
        &&& self.radius_x.spec_eq(other.radius_x)
        &&& self.radius_y.spec_eq(other.radius_y)
        &&& self.feather.spec_eq(other.feather)
        &&& self.rotation.spec_eq(other.rotation)
    }

    pub fn ieee_eq(&self, other: &RadialGradientMask) -> (r: bool)
        ensures
            r == self.spec_eq(*other),
    {
        self.center_x.ieee_eq(&other.center_x) && self.center_y.ieee_eq(&other.center_y)
            && self.radius_x.ieee_eq(&other.radius_x) && self.radius_y.ieee_eq(&other.radius_y)
            && self.feather.ieee_eq(&other.feather) && self.rotation.ieee_eq(&other.rotation)
    }
}

#[derive(Clone, Copy, Debug)]
pub struct LinearGradientMask {
    pub begin_x: F32,
    pub begin_y: F32,
    pub saturate_x: F32,
    pub saturate_y: F32,
}

impl LinearGradientMask {
    pub open spec fn spec_eq(self, other: LinearGradientMask) -> bool {
        &&& self.begin_x.spec_eq(other.begin_x)
        &&& self.begin_y.spec_eq(other.begin_y)
        &&& self.saturate_x.spec_eq(other.saturate_x)
        &&& self.saturate_y.spec_eq(other.saturate_y)
    }

    pub fn ieee_eq(&self, other: &LinearGradientMask) -> (r: bool)
        ensures
            r == self.spec_eq(*other),
    {
        self.begin_x.ieee_eq(&other.begin_x) && self.begin_y.ieee_eq(&other.begin_y)
            && self.saturate_x.ieee_eq(&other.saturate_x) && self.saturate_y.ieee_eq(&other.saturate_y)
    }

    /// A vertical gradient across the middle of the image: from (0.5, 0.4) to (0.5, 0.6).
    pub fn default() -> (r: Self)
        ensures
            r.begin_x.bits == 0x3f00_0000,
            r.begin_y.bits == 0x3ecc_cccd,
            r.saturate_x.bits == 0x3f00_0000,
            r.saturate_y.bits == 0x3f19_999a,
    {
        LinearGradientMask {
            begin_x: F32 { bits: 0x3f00_0000 },
            begin_y: F32 { bits: 0x3ecc_cccd },
            saturate_x: F32 { bits: 0x3f00_0000 },
            saturate_y: F32 { bits: 0x3f19_999a },
        }
    }
}


#[derive(Clone, Copy, Debug)]
pub enum MaskPrimitive {
    Global(GlobalMask),
    RadialGradient(RadialGradientMask),
    LinearGradient(LinearGradientMask),
}

#[derive(Clone, Copy, Debug)]
pub struct MaskTerm {
    pub primitive: MaskPrimitive,
    pub inverted: bool,
    pub subtracted: bool,
}

/// A mask is a sequence of terms: the first is the base, each later term is
/// added to (or, if `subtracted`, removed from) what came before, and each
/// term may be inverted first.
#[derive(Clone, Debug)]
pub struct Mask {
    pub terms: Vec<MaskTerm>,
}

impl MaskPrimitive {
    pub open spec fn spec_eq(self, other: MaskPrimitive) -> bool {
        match (self, other) {
            (MaskPrimitive::Global(a), MaskPrimitive::Global(b)) => a.spec_eq(b),
            (MaskPrimitive::RadialGradient(a), MaskPrimitive::RadialGradient(b)) => a.spec_eq(b),
            (MaskPrimitive::LinearGradient(a), MaskPrimitive::LinearGradient(b)) => a.spec_eq(b),
            _ => false,
        }
    }

    pub fn ieee_eq(&self, other: &MaskPrimitive) -> (r: bool)
        ensures
            r == self.spec_eq(*other),
    {
        match (self, other) {
            (MaskPrimitive::Global(a), MaskPrimitive::Global(b)) => a.ieee_eq(b),
            (MaskPrimitive::RadialGradient(a), MaskPrimitive::RadialGradient(b)) => a.ieee_eq(b),
            (MaskPrimitive::LinearGradient(a), MaskPrimitive::LinearGradient(b)) => a.ieee_eq(b),
            _ => false,
        }
    }

    /// The operation that computes this primitive over the image `target`,
    /// writing `result`.
    pub open spec fn spec_compute_op(self, target: Id, result: Id) -> Op {
        match self {
            MaskPrimitive::Global(m) => Op::ComputeGlobalMask(
                ComputeGlobalMaskOp { result, mask: m, target },
            ),
            MaskPrimitive::RadialGradient(m) => Op::ComputeRadialGradientMask(
                ComputeRadialGradientMaskOp { result, mask: m, target },
            ),
            MaskPrimitive::LinearGradient(m) => Op::ComputeLinearGradientMask(
                ComputeLinearGradientMaskOp { result, mask: m, target },
            ),
        }
    }

    /// Appends the operation that computes the primitive and returns the id it writes.
    pub fn create_compute_mask_ops(&self, target: Id, module: &mut Module) -> (id: Id)
        requires
            old(module).spec_next_id() < i32::MAX,
        ensures
            id == old(module).spec_next_id(),
            final(module).spec_next_id() == old(module).spec_next_id() + 1,
            final(module).spec_ops() == old(module).spec_ops().push(self.spec_compute_op(target, id)),
    {
        match self {
            MaskPrimitive::Global(m) => m.create_compute_mask_ops(target, module),
            MaskPrimitive::RadialGradient(m) => m.create_compute_mask_ops(target, module),
            MaskPrimitive::LinearGradient(m) => m.create_compute_mask_ops(target, module),
        }
    }
}

impl GlobalMask {
    pub fn create_compute_mask_ops(&self, target: Id, module: &mut Module) -> (id: Id)
        requires
            old(module).spec_next_id() < i32::MAX,
        ensures
            id == old(module).spec_next_id(),
            final(module).spec_next_id() == old(module).spec_next_id() + 1,
            final(module).spec_ops() == old(module).spec_ops().push(
                Op::ComputeGlobalMask(ComputeGlobalMaskOp { result: id, mask: *self, target }),
            ),
    {
        let result = module.alloc_id();
        module.push_op(Op::ComputeGlobalMask(ComputeGlobalMaskOp { result, mask: *self, target }));
        result
    }
}

impl RadialGradientMask {
    pub fn create_compute_mask_ops(&self, target: Id, module: &mut Module) -> (id: Id)
        requires
            old(module).spec_next_id() < i32::MAX,
        ensures
            id == old(module).spec_next_id(),
            final(module).spec_next_id() == old(module).spec_next_id() + 1,
            final(module).spec_ops() == old(module).spec_ops().push(
                Op::ComputeRadialGradientMask(
                    ComputeRadialGradientMaskOp { result: id, mask: *self, target },
                ),
            ),
    {
        let result = module.alloc_id();
        module.push_op(
            Op::ComputeRadialGradientMask(
                ComputeRadialGradientMaskOp { result, mask: *self, target },
            ),
        );
        result
    }
}

impl LinearGradientMask {
    pub fn create_compute_mask_ops(&self, target: Id, module: &mut Module) -> (id: Id)
        requires
            old(module).spec_next_id() < i32::MAX,
        ensures
            id == old(module).spec_next_id(),
            final(module).spec_next_id() == old(module).spec_next_id() + 1,
            final(module).spec_ops() == old(module).spec_ops().push(
                Op::ComputeLinearGradientMask(
                    ComputeLinearGradientMaskOp { result: id, mask: *self, target },
                ),
            ),
    {
        let result = module.alloc_id();
        module.push_op(
            Op::ComputeLinearGradientMask(
                ComputeLinearGradientMaskOp { result, mask: *self, target },
            ),
        );
        result
    }
}

impl MaskTerm {
    pub open spec fn spec_eq(self, other: MaskTerm) -> bool {
        self.primitive.spec_eq(other.primitive) && self.inverted == other.inverted
            && self.subtracted == other.subtracted
    }

    pub fn ieee_eq(&self, other: &MaskTerm) -> (r: bool)
        ensures
            r == self.spec_eq(*other),
    {
        self.primitive.ieee_eq(&other.primitive) && self.inverted == other.inverted
            && self.subtracted == other.subtracted
    }
}

/// The operations that compute each term of a mask over `target`, appended
/// after `n` existing operations, and the id of each term's value: a term's
/// primitive, followed by its inversion when the term is inverted.
pub open spec fn spec_mask_terms(terms: Seq<MaskTerm>, target: Id, n: int) -> (Seq<Op>, Seq<Id>)
    decreases terms.len(),
{
    if terms.len() == 0 {
        (Seq::empty(), Seq::empty())
    } else {
        let (s1, ids1) = spec_mask_terms(terms.drop_last(), target, n);
        let t = terms.last();
        let primitive_id = (n + s1.len()) as Id;
        let s2 = s1.push(t.primitive.spec_compute_op(target, primitive_id));
        if t.inverted {
            let inverted_id = (n + s2.len()) as Id;
            (
                s2.push(Op::InvertMask(InvertMaskOp { result: inverted_id, mask_0: primitive_id })),
                ids1.push(inverted_id),
            )
        } else {
            (s2, ids1.push(primitive_id))
        }
    }
}

/// The operations, appended after `n` existing ones, that fold terms `1 .. k`
/// into the running result, starting from `first`: each adds (or subtracts)
/// term `i` and writes a new id.
pub open spec fn spec_mask_combine(
    terms: Seq<MaskTerm>,
    term_ids: Seq<Id>,
    first: Id,
    n: int,
    k: int,
) -> (Seq<Op>, Id)
    decreases k,
{
    if k <= 1 {
        (Seq::empty(), first)
    } else {
        let (s1, r) = spec_mask_combine(terms, term_ids, first, n, k - 1);
        let i = k - 1;
        let new_result = (n + s1.len()) as Id;
        let op = if terms[i].subtracted {
            Op::SubtractMask(SubtractMaskOp { result: new_result, mask_0: r, mask_1: term_ids[i] })
        } else {
            Op::AddMask(AddMaskOp { result: new_result, mask_0: r, mask_1: term_ids[i] })
        };
        (s1.push(op), new_result)
    }
}

/// What `Mask::create_compute_mask_ops` appends after `n` operations, the id
/// of the whole mask, and the ids of its terms. The terms are combined from
/// the second up to, but not including, the last one.
pub open spec fn spec_mask_ops(terms: Seq<MaskTerm>, target: Id, n: int) -> (Seq<Op>, Id, Seq<Id>) {
    let (s1, ids) = spec_mask_terms(terms, target, n);
    let (s2, r) = spec_mask_combine(terms, ids, ids[0], n + s1.len(), ids.len() - 1);
    (s1 + s2, r, ids)
}

/// Computing the terms appends one or two operations per term, and gives
/// one id per term.
pub proof fn lemma_mask_terms_len(terms: Seq<MaskTerm>, target: Id, n: int)
    ensures
        ({
            let (s, ids) = spec_mask_terms(terms, target, n);
            &&& terms.len() <= s.len() <= 2 * terms.len()
            &&& ids.len() == terms.len()
        }),
    decreases terms.len(),
{
    if terms.len() > 0 {
        lemma_mask_terms_len(terms.drop_last(), target, n);
    }
}

/// Combining terms `1 .. k` appends one operation per combined term.
pub proof fn lemma_mask_combine_len(terms: Seq<MaskTerm>, term_ids: Seq<Id>, first: Id, n: int, k: int)
    ensures
        spec_mask_combine(terms, term_ids, first, n, k).0.len() == if k <= 1 { 0 } else { k - 1 },
    decreases k,
{
    if k > 1 {
        lemma_mask_combine_len(terms, term_ids, first, n, k - 1);
    }
}

/// Combining folds the terms into a running mask: operation `j` adds term
/// `j + 1` to the mask built so far (`first`, then the result of operation
/// `j - 1`), or, for a subtracted term, takes that term out of it: the
/// running mask is always the first operand and the term the second. Each
/// operation writes the next id, and the result is the last one written.
pub proof fn lemma_mask_combine_folds(terms: Seq<MaskTerm>, term_ids: Seq<Id>, first: Id, n: int, k: int)
    requires
        k <= terms.len(),
        k <= term_ids.len(),
        n + k <= i32::MAX,
        n >= 0,
    ensures
        ({
            let (s, r) = spec_mask_combine(terms, term_ids, first, n, k);
            &&& forall|j: int| 0 <= j < s.len() ==> {
                let running = if j == 0 { first } else { s[j - 1].spec_result_id() };
                &&& (#[trigger] s[j]).spec_result_id() == n + j
                &&& match s[j] {
                    Op::SubtractMask(o) => terms[j + 1].subtracted && o.mask_0 == running && o.mask_1 == term_ids[j + 1],
                    Op::AddMask(o) => !terms[j + 1].subtracted && o.mask_0 == running && o.mask_1 == term_ids[j + 1],
                    _ => false,
                }
            }
            &&& r == if s.len() == 0 { first } else { s.last().spec_result_id() }
        }),
    decreases k,
{
    lemma_mask_combine_len(terms, term_ids, first, n, k);
    if k > 1 {
        lemma_mask_combine_folds(terms, term_ids, first, n, k - 1);
        lemma_mask_combine_len(terms, term_ids, first, n, k - 1);
        let (s1, r1) = spec_mask_combine(terms, term_ids, first, n, k - 1);
        let (s, r) = spec_mask_combine(terms, term_ids, first, n, k);
        assert forall|j: int| 0 <= j < s1.len() implies s[j] == s1[j] by {}
    }
}

/// A mask's operations end by folding its terms, from the second up to
/// but not including the last, into the first: each adds its term to the
/// mask built so far, or, for a subtracted term, takes the term out of it
/// (the mask built so far is the first operand, the term the second). The
/// mask's id is the result of the last fold, or the first term's id when
/// there is none.
pub proof fn lemma_mask_ops_fold(terms: Seq<MaskTerm>, target: Id, n: int)
    requires
        terms.len() > 0,
        n >= 0,
        n + 3 * terms.len() <= i32::MAX,
    ensures
        ({
            let (s, mask_id, ids) = spec_mask_ops(terms, target, n);
            let c = if terms.len() >= 2 { terms.len() - 2 } else { 0 };
            &&& ids.len() == terms.len()
            &&& c <= s.len()
            &&& forall|j: int| 0 <= j < c ==> {
                let op = #[trigger] s[s.len() - c + j];
                let running = if j == 0 { ids[0] } else { s[s.len() - c + j - 1].spec_result_id() };
                match op {
                    Op::SubtractMask(o) => terms[j + 1].subtracted && o.mask_0 == running && o.mask_1 == ids[j + 1],
                    Op::AddMask(o) => !terms[j + 1].subtracted && o.mask_0 == running && o.mask_1 == ids[j + 1],
                    _ => false,
                }
            }
            &&& mask_id == if c == 0 { ids[0] } else { s.last().spec_result_id() }
        }),
{
    let (s1, ids) = spec_mask_terms(terms, target, n);
    lemma_mask_terms_len(terms, target, n);
    let k = ids.len() - 1;
    lemma_mask_combine_folds(terms, ids, ids[0], n + s1.len(), k);
    lemma_mask_combine_len(terms, ids, ids[0], n + s1.len(), k);
    let (s2, r) = spec_mask_combine(terms, ids, ids[0], n + s1.len(), k);
    let (s, mask_id, ids2) = spec_mask_ops(terms, target, n);
    assert(s == s1 + s2);
    let c = if terms.len() >= 2 { terms.len() - 2 } else { 0 };
    assert(s2.len() == c);
    assert forall|j: int| 0 <= j < c implies s[s.len() - c + j] == s2[j] by {}
    if c > 0 {
        assert(s.last() == s2.last());
    }
}

/// Computing the terms keeps the list well-formed, defines every term id,
/// and appends at most two operations per term.
pub proof fn lemma_mask_terms(terms: Seq<MaskTerm>, target: Id, ops: Seq<Op>)
    requires
        ops_well_formed(ops),
        id_defined(ops, target),
        ops.len() + 2 * terms.len() <= i32::MAX,
    ensures
        ({
            let (s, ids) = spec_mask_terms(terms, target, ops.len() as int);
            &&& ops_well_formed(ops + s)
            &&& s.len() <= 2 * terms.len()
            &&& ids.len() == terms.len()
            &&& forall|k: int| 0 <= k < ids.len() ==> id_defined(ops + s, #[trigger] ids[k])
        }),
    decreases terms.len(),
{
    if terms.len() > 0 {
        let n = ops.len() as int;
        lemma_mask_terms(terms.drop_last(), target, ops);
        let (s1, ids1) = spec_mask_terms(terms.drop_last(), target, n);
        let t = terms.last();
        let primitive_id = (n + s1.len()) as Id;
        let op1 = t.primitive.spec_compute_op(target, primitive_id);
        assert(op1.spec_arg_ids() =~= seq![target]);
        lemma_push_well_formed(ops + s1, op1);
        let s2 = s1.push(op1);
        assert(ops + s2 == (ops + s1).push(op1));
        if t.inverted {
            let inverted_id = (n + s2.len()) as Id;
            let op2 = Op::InvertMask(InvertMaskOp { result: inverted_id, mask_0: primitive_id });
            assert(op2.spec_arg_ids() =~= seq![primitive_id]);
            lemma_push_well_formed(ops + s2, op2);
            assert(ops + s2.push(op2) == (ops + s2).push(op2));
        }
        let (s3, ids3) = spec_mask_terms(terms, target, n);
        assert forall|k: int| 0 <= k < ids3.len() implies id_defined(ops + s3, #[trigger] ids3[k]) by {
            if k < ids1.len() {
                assert(ids3[k] == ids1[k]);
            }
        }
    }
}

/// Combining terms keeps the list well-formed, defines the result, and
/// appends at most one operation per combined term.
pub proof fn lemma_mask_combine(
    terms: Seq<MaskTerm>,
    term_ids: Seq<Id>,
    first: Id,
    ops: Seq<Op>,
    k: int,
)
    requires
        ops_well_formed(ops),
        id_defined(ops, first),
        k <= term_ids.len(),
        k <= terms.len(),
        forall|j: int| 0 <= j < term_ids.len() ==> id_defined(ops, #[trigger] term_ids[j]),
        ops.len() + k <= i32::MAX,
    ensures
        ({
            let (s, r) = spec_mask_combine(terms, term_ids, first, ops.len() as int, k);
            &&& ops_well_formed(ops + s)
            &&& id_defined(ops + s, r)
            &&& s.len() <= if k <= 1 { 0 } else { k - 1 }
        }),
    decreases k,
{
    if k <= 1 {
        assert(ops + Seq::<Op>::empty() == ops);
    } else {
        let n = ops.len() as int;
        lemma_mask_combine(terms, term_ids, first, ops, k - 1);
        let (s1, r) = spec_mask_combine(terms, term_ids, first, n, k - 1);
        let i = k - 1;
        let new_result = (n + s1.len()) as Id;
        let op = if terms[i].subtracted {
            Op::SubtractMask(SubtractMaskOp { result: new_result, mask_0: r, mask_1: term_ids[i] })
        } else {
            Op::AddMask(AddMaskOp { result: new_result, mask_0: r, mask_1: term_ids[i] })
        };
        assert(op.spec_arg_ids() =~= seq![r, term_ids[i]]);
        assert(id_defined(ops, term_ids[i]));
        lemma_push_well_formed(ops + s1, op);
        assert(ops + s1.push(op) == (ops + s1).push(op));
    }
}

impl Mask {
    /// Appends the operations that compute the mask over the image `target`,
    /// and returns the id of the mask and the ids of its terms. The new ids
    /// are allocated from the module's next free id. On a module whose
    /// operation `i` writes id `i`, and where `target` is written, the module
    /// stays so, and the mask and its terms are written.
    pub fn create_compute_mask_ops(&self, target: Id, module: &mut Module) -> (r: (Id, Vec<Id>))
        requires
            self.terms@.len() > 0,
            !self.terms@[0].subtracted,
            old(module).spec_next_id() + 3 * self.terms@.len() <= i32::MAX,
        ensures
            ({
                let (s, id, ids) = spec_mask_ops(self.terms@, target, old(module).spec_next_id() as int);
                &&& final(module).spec_ops() == old(module).spec_ops() + s
                &&& final(module).spec_next_id() == old(module).spec_next_id() + s.len()
                &&& r.0 == id
                &&& r.1@ == ids
            }),
            r.1@.len() == self.terms@.len(),
            old(module).spec_ops().len() <= final(module).spec_ops().len()
                <= old(module).spec_ops().len() + 3 * self.terms@.len(),
            ({
                &&& old(module).spec_next_id() == old(module).spec_ops().len()
                &&& ops_well_formed(old(module).spec_ops())
                &&& id_defined(old(module).spec_ops(), target)
            }) ==> {
                &&& final(module).spec_next_id() == final(module).spec_ops().len()
                &&& ops_well_formed(final(module).spec_ops())
                &&& id_defined(final(module).spec_ops(), r.0)
                &&& forall|k: int| 0 <= k < r.1@.len() ==> id_defined(final(module).spec_ops(), #[trigger] r.1@[k])
            },
    {
        let ghost ops0 = module.spec_ops();
        let ghost n = module.spec_next_id() as int;
        let ghost terms = self.terms@;
        let mut term_ids: Vec<Id> = Vec::new();
        let mut i: usize = 0;
        while i < self.terms.len()
            invariant
                terms == self.terms@,
                i <= terms.len(),
                ({
                    let (s, ids) = spec_mask_terms(terms.take(i as int), target, n);
                    module.spec_ops() == ops0 + s && term_ids@ == ids && module.spec_next_id() == n + s.len()
                }),
                n + 3 * terms.len() <= i32::MAX,
            decreases terms.len() - i,
        {
            proof {
                lemma_mask_terms_len(terms.take(i as int), target, n);
                assert(terms.take(i + 1).drop_last() == terms.take(i as int));
            }
            let ghost before = module.spec_ops();
            let term = &self.terms[i];
            let primitive_id = term.primitive.create_compute_mask_ops(target, module);
            let mut term_id = primitive_id;
            if term.inverted {
                term_id = module.alloc_id();
                module.push_op(Op::InvertMask(InvertMaskOp { result: term_id, mask_0: primitive_id }));
            }
            term_ids.push(term_id);
            i = i + 1;
            proof {
                let (s1, ids1) = spec_mask_terms(terms.take(i - 1), target, n);
                let (s, ids) = spec_mask_terms(terms.take(i as int), target, n);
                assert(before == ops0 + s1);
                assert(module.spec_ops() =~= ops0 + s);
            }
        }
        proof {
            assert(terms.take(terms.len() as int) == terms);
            lemma_mask_terms_len(terms, target, n);
        }
        let ghost ops1 = module.spec_ops();
        let ghost ids = term_ids@;
        let ghost n1 = module.spec_next_id() as int;
        let mut result_id = term_ids[0];
        let end = term_ids.len() - 1;
        let mut i: usize = 1;
        while i < end
            invariant
                1 <= i,
                end == ids.len() - 1,
                ids == term_ids@,
                ids.len() == terms.len(),
                terms == self.terms@,
                i <= end || i == 1,
                ({
                    let (s, r) = spec_mask_combine(terms, ids, ids[0], n1, i as int);
                    module.spec_ops() == ops1 + s && result_id == r && module.spec_next_id() == n1 + s.len()
                }),
                n1 + terms.len() <= i32::MAX,
            decreases end - i,
        {
            proof {
                lemma_mask_combine_len(terms, ids, ids[0], n1, i as int);
            }
            let ghost before = module.spec_ops();
            let new_result = module.alloc_id();
            if self.terms[i].subtracted {
                module.push_op(
                    Op::SubtractMask(
                        SubtractMaskOp { result: new_result, mask_0: result_id, mask_1: term_ids[i] },
                    ),
                );
            } else {
                module.push_op(
                    Op::AddMask(AddMaskOp { result: new_result, mask_0: result_id, mask_1: term_ids[i] }),
                );
            }
            result_id = new_result;
            i = i + 1;
            proof {
                let (s, r) = spec_mask_combine(terms, ids, ids[0], n1, i as int);
                assert(module.spec_ops() =~= ops1 + s);
            }
        }
        proof {
            lemma_mask_combine_len(terms, ids, ids[0], n1, (ids.len() - 1) as int);
            let (s1, ids1) = spec_mask_terms(terms, target, n);
            let (s2, r) = spec_mask_combine(terms, ids, ids[0], n1, (ids.len() - 1) as int);
            assert(ops0 + (s1 + s2) =~= (ops0 + s1) + s2);
            if n == ops0.len() && ops_well_formed(ops0) && id_defined(ops0, target) {
                lemma_mask_terms(terms, target, ops0);
                lemma_mask_combine(terms, ids, ids[0], ops1, (ids.len() - 1) as int);
            }
        }
        (result_id, term_ids)
    }

    /// The mask is the plain global mask: one term, neither inverted nor subtracted.
    pub open spec fn spec_is_global(self) -> bool {
        &&& self.terms@.len() == 1
        &&& !self.terms@[0].inverted
        &&& !self.terms@[0].subtracted
        &&& self.terms@[0].primitive is Global
    }

    pub fn is_global(&self) -> (r: bool)
        ensures
            r == self.spec_is_global(),
    {
        self.terms.len() == 1 && !self.terms[0].inverted && !self.terms[0].subtracted
            && match self.terms[0].primitive {
            MaskPrimitive::Global(_) => true,
            _ => false,
        }
    }

    pub open spec fn spec_eq(self, other: Mask) -> bool {
        &&& self.terms@.len() == other.terms@.len()
        &&& forall|i: int| 0 <= i < self.terms@.len() ==> #[trigger] self.terms@[i].spec_eq(other.terms@[i])
    }

    pub fn ieee_eq(&self, other: &Mask) -> (r: bool)
        ensures
            r == self.spec_eq(*other),
    {
        if self.terms.len() != other.terms.len() {
            return false;
        }
        let mut i: usize = 0;
        while i < self.terms.len()
            invariant
                self.terms@.len() == other.terms@.len(),
                i <= self.terms@.len(),
                forall|j: int| 0 <= j < i ==> #[trigger] self.terms@[j].spec_eq(other.terms@[j]),
            decreases self.terms@.len() - i,
        {
            if !self.terms[i].ieee_eq(&other.terms[i]) {
                return false;
            }
            i = i + 1;
        }
        true
    }
}

} // verus!
