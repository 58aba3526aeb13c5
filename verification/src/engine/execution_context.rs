//! What the engine remembers between two runs, and which values of the
//! previous run a new module can reuse.
use std::collections::HashMap;
use std::collections::HashSet;
use vstd::prelude::*;

use crate::engine::value_store::ValueStore;
use crate::ir::id::Id;
use crate::ir::module::{lemma_result_id_to_op_index, spec_result_id_to_op_index, Module};
use crate::ir::op::Op;

verus! {

pub struct ExecutionContext<I, B> {
    pub value_store: ValueStore<I, B>,
    last_module: Option<Module>,
    last_input_image_uuid: Option<u32>,
    last_module_result_id_to_op_index: Option<HashMap<Id, usize>>,
}

/// The op that computes `id` in `last` (the last one that writes it) is
/// equal to `op`.
pub open spec fn unchanged_in(last: Seq<Op>, id: Id, op: Op) -> bool {
    let index = spec_result_id_to_op_index(last);
    &&& index.dom().contains(id)
    &&& op.spec_eq(last[index[id] as int])
}

/// The ids of `new_ops` whose values from a run of `last` can be reused:
/// walking `new_ops` in order, an operation's result is reusable when the
/// operation is unchanged from the one that wrote that id in `last` and every
/// id it reads is already reusable.
pub open spec fn spec_reusable_ids(last: Seq<Op>, new_ops: Seq<Op>) -> Set<Id>
    decreases new_ops.len(),
{
    if new_ops.len() == 0 {
        Set::empty()
    } else {
        let reusable = spec_reusable_ids(last, new_ops.drop_last());
        let op = new_ops.last();
        if unchanged_in(last, op.spec_result_id(), op) && forall|k: int|
            0 <= k < op.spec_arg_ids().len() ==> reusable.contains(#[trigger] op.spec_arg_ids()[k]) {
            reusable.insert(op.spec_result_id())
        } else {
            reusable
        }
    }
}

/// Reusable ids only grow as more operations are considered.
pub proof fn lemma_reusable_ids_monotone(last: Seq<Op>, new_ops: Seq<Op>, i: int)
    requires
        0 <= i <= new_ops.len(),
    ensures
        spec_reusable_ids(last, new_ops.take(i)).subset_of(spec_reusable_ids(last, new_ops)),
    decreases new_ops.len(),
{
    if i < new_ops.len() {
        assert(new_ops.drop_last().take(i) == new_ops.take(i));
        lemma_reusable_ids_monotone(last, new_ops.drop_last(), i);
    } else {
        assert(new_ops.take(i) == new_ops);
    }
}

/// Reuse is sound: an id is reusable only if some operation of the new
/// module writes it, that operation equals the one that wrote the id in the
/// last module, and every id it reads is reusable as well.
pub proof fn lemma_reusable_ids_sound(last: Seq<Op>, new_ops: Seq<Op>, id: Id)
    requires
        spec_reusable_ids(last, new_ops).contains(id),
    ensures
        exists|i: int|
            #![trigger new_ops[i]]
            0 <= i < new_ops.len() && new_ops[i].spec_result_id() == id && unchanged_in(last, id, new_ops[i])
                && forall|k: int|
                0 <= k < new_ops[i].spec_arg_ids().len() ==> spec_reusable_ids(last, new_ops).contains(
                    #[trigger] new_ops[i].spec_arg_ids()[k],
                ),
    decreases new_ops.len(),
{
    let prefix = new_ops.drop_last();
    let op = new_ops.last();
    let i = new_ops.len() - 1;
    lemma_reusable_ids_monotone(last, new_ops, i);
    assert(new_ops.take(i) == prefix);
    if spec_reusable_ids(last, prefix).contains(id) {
        lemma_reusable_ids_sound(last, prefix, id);
        let j = choose|j: int|
            #![trigger prefix[j]]
            0 <= j < prefix.len() && prefix[j].spec_result_id() == id && unchanged_in(last, id, prefix[j])
                && forall|k: int|
                0 <= k < prefix[j].spec_arg_ids().len() ==> spec_reusable_ids(last, prefix).contains(
                    #[trigger] prefix[j].spec_arg_ids()[k],
                );
        assert(new_ops[j] == prefix[j]);
    } else {
        assert(new_ops[i] == op);
    }
}

/// The ids that the operations of `ops` write.
pub open spec fn result_ids(ops: Seq<Op>) -> Set<Id> {
    Set::new(|id: Id| exists|i: int| 0 <= i < ops.len() && #[trigger] ops[i].spec_result_id() == id)
}

/// No two operations write the same id, and every id an operation reads is
/// written by an earlier operation.
pub open spec fn ops_distinct_and_ordered(ops: Seq<Op>) -> bool {
    &&& forall|i: int, j: int| 0 <= i < j < ops.len() ==> #[trigger] ops[i].spec_result_id() != #[trigger] ops[j].spec_result_id()
    &&& forall|i: int, k: int| 0 <= i < ops.len() && 0 <= k < ops[i].spec_arg_ids().len() ==> exists|j: int|
        0 <= j < i && #[trigger] ops[j].spec_result_id() == #[trigger] ops[i].spec_arg_ids()[k]
}

/// Running an unchanged module again on the same input reuses every value:
/// when no two operations write the same id, every id read is written
/// earlier, and every operation equals itself (no NaN parameter), the
/// reusable ids are exactly the ids the module writes. (With another input
/// image nothing is reusable: see `compute_reusable_ids_set`.)
pub proof fn lemma_rerun_reuses_everything(ops: Seq<Op>)
    requires
        ops.len() <= usize::MAX,
        ops_distinct_and_ordered(ops),
        forall|i: int| 0 <= i < ops.len() ==> (#[trigger] ops[i]).spec_eq(ops[i]),
    ensures
        spec_reusable_ids(ops, ops) == result_ids(ops),
{
    lemma_reuse_prefix(ops, ops.len() as int);
    assert(ops.take(ops.len() as int) == ops);
}

proof fn lemma_reuse_prefix(ops: Seq<Op>, n: int)
    requires
        ops.len() <= usize::MAX,
        ops_distinct_and_ordered(ops),
        forall|i: int| 0 <= i < ops.len() ==> (#[trigger] ops[i]).spec_eq(ops[i]),
        0 <= n <= ops.len(),
    ensures
        spec_reusable_ids(ops, ops.take(n)) == result_ids(ops.take(n)),
    decreases n,
{
    if n == 0 {
        assert(result_ids(ops.take(0)) =~= Set::<Id>::empty());
    } else {
        lemma_reuse_prefix(ops, n - 1);
        let prev = spec_reusable_ids(ops, ops.take(n - 1));
        assert(ops.take(n).drop_last() == ops.take(n - 1));
        let op = ops[n - 1];
        assert(ops.take(n).last() == op);
        lemma_result_id_to_op_index(ops);
        let index = spec_result_id_to_op_index(ops);
        assert(ops[n - 1].spec_result_id() == op.spec_result_id());
        assert(index.dom().contains(op.spec_result_id()));
        let m = index[op.spec_result_id()] as int;
        if m != n - 1 {
            if m < n - 1 {
                assert(ops[m].spec_result_id() != ops[n - 1].spec_result_id());
            } else {
                assert(ops[n - 1].spec_result_id() != ops[m].spec_result_id());
            }
        }
        assert(unchanged_in(ops, op.spec_result_id(), op));
        assert forall|k: int| 0 <= k < op.spec_arg_ids().len() implies prev.contains(
            #[trigger] op.spec_arg_ids()[k],
        ) by {
            let j = choose|j: int| 0 <= j < n - 1 && #[trigger] ops[j].spec_result_id() == op.spec_arg_ids()[k];
            assert(ops.take(n - 1)[j] == ops[j]);
        }
        assert forall|id: Id| #[trigger] result_ids(ops.take(n)).contains(id) <==> prev.insert(op.spec_result_id()).contains(id) by {
            if result_ids(ops.take(n)).contains(id) {
                let i = choose|i: int| 0 <= i < n && #[trigger] ops.take(n)[i].spec_result_id() == id;
                if i < n - 1 {
                    assert(ops.take(n - 1)[i] == ops.take(n)[i]);
                }
            }
            if prev.contains(id) {
                let i = choose|i: int| 0 <= i < n - 1 && #[trigger] ops.take(n - 1)[i].spec_result_id() == id;
                assert(ops.take(n - 1)[i] == ops.take(n)[i]);
            }
            if id == op.spec_result_id() {
                assert(ops.take(n)[n - 1] == op);
            }
        }
        assert(result_ids(ops.take(n)) =~= prev.insert(op.spec_result_id()));
    }
}

impl<I, B> ExecutionContext<I, B> {
    /// The stored index map is the one of the stored module.
    pub closed spec fn well_formed(self) -> bool {
        &&& self.last_module is Some <==> self.last_module_result_id_to_op_index is Some
        &&& self.last_module is Some ==> self.last_module_result_id_to_op_index->0@
            == spec_result_id_to_op_index(self.last_module->0.spec_ops())
    }

    /// The operations of the module run last, if any.
    pub closed spec fn spec_last_ops(self) -> Option<Seq<Op>> {
        match self.last_module {
            Some(m) => Some(m.spec_ops()),
            None => None,
        }
    }

    /// The values the engine holds between runs.
    pub closed spec fn spec_value_store(self) -> ValueStore<I, B> {
        self.value_store
    }

    /// The uuid of the input image of the last run, if any.
    pub closed spec fn spec_last_input_image_uuid(self) -> Option<u32> {
        self.last_input_image_uuid
    }

    pub fn new() -> (r: Self)
        ensures
            r.well_formed(),
            r.spec_last_ops() is None,
            r.spec_last_input_image_uuid() is None,
    {
        ExecutionContext {
            value_store: ValueStore::new(),
            last_module: None,
            last_input_image_uuid: None,
            last_module_result_id_to_op_index: None,
        }
    }

    /// Remembers the module just run and the uuid of its input image.
    pub fn set_last(&mut self, module: Module, input_image_uuid: u32)
        ensures
            final(self).well_formed(),
            final(self).spec_last_ops() == Some(module.spec_ops()),
            final(self).spec_last_input_image_uuid() == Some(input_image_uuid),
            final(self).spec_value_store() == old(self).spec_value_store(),
    {
        self.last_module_result_id_to_op_index = Some(module.get_result_id_to_op_index());
        self.last_module = Some(module);
        self.last_input_image_uuid = Some(input_image_uuid);
    }

    /// The ids of `new_module` whose values from the last run can be reused.
    /// Nothing is reusable when the input image changed or nothing ran yet.
    pub fn compute_reusable_ids_set(&self, new_module: &Module, new_image_uuid: u32) -> (r: HashSet<Id>)
        requires
            self.well_formed(),
        ensures
            r@ == match self.spec_last_ops() {
                Some(last) => if self.spec_last_input_image_uuid() == Some(new_image_uuid) {
                    spec_reusable_ids(last, new_module.spec_ops())
                } else {
                    Set::empty()
                },
                None => Set::empty(),
            },
    {
        let mut resuable: HashSet<Id> = HashSet::new();
        match self.last_input_image_uuid {
            Some(uuid) => {
                if uuid != new_image_uuid {
                    return resuable;
                }
            },
            None => {
                return resuable;
            },
        }
        if self.last_module.is_none() {
            return resuable;
        }
        let last_module = self.last_module.as_ref().unwrap();
        let result_id_to_op_index = self.last_module_result_id_to_op_index.as_ref().unwrap();
        let ghost last = last_module.spec_ops();
        let ghost new_ops = new_module.spec_ops();
        let ops = new_module.ops();
        let last_ops = last_module.ops();
        let mut i: usize = 0;
        while i < ops.len()
            invariant
                ops@ == new_ops,
                last_ops@ == last,
                result_id_to_op_index@ == spec_result_id_to_op_index(last),
                i <= new_ops.len(),
                resuable@ == spec_reusable_ids(last, new_ops.take(i as int)),
            decreases new_ops.len() - i,
        {
            let op = &ops[i];
            let result_id = op.get_result_id();
            let ghost prev = resuable@;
            proof {
                assert(new_ops.take(i + 1).drop_last() == new_ops.take(i as int));
                assert(new_ops.take(i + 1).last() == new_ops[i as int]);
            }
            match result_id_to_op_index.get(&result_id) {
                Some(last_index) => {
                    proof {
                        assert(last_ops.len() <= usize::MAX);
                        lemma_result_id_to_op_index(last);
                    }
                    if op.ieee_eq(&last_ops[*last_index]) {
                        let arg_ids = op.get_arg_ids();
                        let mut all_args_resuable = true;
                        let mut k: usize = 0;
                        while k < arg_ids.len()
                            invariant
                                resuable@ == prev,
                                arg_ids@ == op.spec_arg_ids(),
                                k <= arg_ids@.len(),
                                all_args_resuable == forall|j: int|
                                    0 <= j < k ==> prev.contains(#[trigger] arg_ids@[j]),
                            decreases arg_ids@.len() - k,
                        {
                            if !resuable.contains(&arg_ids[k]) {
                                all_args_resuable = false;
                            }
                            k = k + 1;
                        }
                        proof {
                            let o = new_ops[i as int];
                            assert(o.spec_arg_ids() == arg_ids@);
                            if all_args_resuable {
                                assert(forall|j: int| 0 <= j < o.spec_arg_ids().len() ==> prev.contains(#[trigger] o.spec_arg_ids()[j]));
                            } else {
                                assert(!(forall|j: int| 0 <= j < o.spec_arg_ids().len() ==> prev.contains(#[trigger] o.spec_arg_ids()[j])));
                            }
                        }
                        if all_args_resuable {
                            resuable.insert(result_id);
                        }
                    }
                },
                None => {},
            }
            i = i + 1;
        }
        proof {
            assert(new_ops.take(new_ops.len() as int) == new_ops);
        }
        resuable
    }
}

/// The positions, in order, of the operations of `module` that have to run:
/// those whose result is not among the `reusable` values.
pub fn ops_to_run(module: &Module, reusable: &HashSet<Id>) -> (r: Vec<usize>)
    ensures
        forall|a: int, b: int| 0 <= a < b < r@.len() ==> r@[a] < r@[b],
        forall|a: int| 0 <= a < r@.len() ==> {
            &&& (#[trigger] r@[a]) < module.spec_ops().len()
            &&& !reusable@.contains(module.spec_ops()[r@[a] as int].spec_result_id())
        },
        forall|i: int| 0 <= i < module.spec_ops().len() && !reusable@.contains(#[trigger] module.spec_ops()[i].spec_result_id())
            ==> exists|a: int| 0 <= a < r@.len() && r@[a] == i,
{
    let ops = module.ops();
    let mut r: Vec<usize> = Vec::new();
    let mut i: usize = 0;
    while i < ops.len()
        invariant
            ops@ == module.spec_ops(),
            i <= ops@.len(),
            forall|a: int, b: int| 0 <= a < b < r@.len() ==> r@[a] < r@[b],
            forall|a: int| 0 <= a < r@.len() ==> {
                &&& (#[trigger] r@[a]) < i
                &&& !reusable@.contains(ops@[r@[a] as int].spec_result_id())
            },
            forall|x: int| 0 <= x < i && !reusable@.contains(#[trigger] ops@[x].spec_result_id())
                ==> exists|a: int| 0 <= a < r@.len() && r@[a] == x,
        decreases ops@.len() - i,
    {
        let result_id = ops[i].get_result_id();
        let ghost old_r = r@;
        if !reusable.contains(&result_id) {
            r.push(i);
        }
        proof {
            assert forall|x: int| 0 <= x < i + 1 && !reusable@.contains(#[trigger] ops@[x].spec_result_id())
                implies exists|a: int| 0 <= a < r@.len() && r@[a] == x by {
                if x < i {
                    let a = choose|a: int| 0 <= a < old_r.len() && old_r[a] == x;
                    assert(r@[a] == old_r[a]);
                } else {
                    assert(r@[r@.len() - 1] == i);
                }
            }
        }
        i = i + 1;
    }
    r
}

/// What running one operation takes: the input operation stores the input
/// image at its result id; every other operation is encoded by its
/// implementation.
#[derive(Clone, Copy, PartialEq, Eq, Structural, Debug)]
pub enum RunStep {
    StoreInput(Id),
    Encode,
}

/// The step that runs `op`.
pub fn run_step(op: &Op) -> (r: RunStep)
    ensures
        r == match *op {
            Op::Input(input) => RunStep::StoreInput(input.result),
            _ => RunStep::Encode,
        },
{
    match op {
        Op::Input(input) => RunStep::StoreInput(input.result),
        _ => RunStep::Encode,
    }
}

} // verus!
