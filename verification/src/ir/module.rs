//! A module: the operations in execution order, and the next free value id.
use std::collections::HashMap;
use vstd::prelude::*;

use crate::ir::id::Id;
use crate::ir::op::Op;

verus! {

#[derive(Clone, Debug)]
pub struct Module {
    ops: Vec<Op>,
    next_available_id: Id,
}

/// Maps each result id of `ops` to the index of the last operation that
/// writes it.
pub open spec fn spec_result_id_to_op_index(ops: Seq<Op>) -> Map<Id, usize>
    decreases ops.len(),
{
    if ops.len() == 0 {
        Map::empty()
    } else {
        spec_result_id_to_op_index(ops.drop_last()).insert(
            ops.last().spec_result_id(),
            (ops.len() - 1) as usize,
        )
    }
}

/// The map holds exactly the result ids of `ops`, and maps each one to the
/// last index at which it is written.
pub proof fn lemma_result_id_to_op_index(ops: Seq<Op>)
    requires
        ops.len() <= usize::MAX,
    ensures
        forall|id: Id| #[trigger]
            spec_result_id_to_op_index(ops).dom().contains(id) <==> exists|i: int|
                0 <= i < ops.len() && ops[i].spec_result_id() == id,
        forall|id: Id| #[trigger] spec_result_id_to_op_index(ops).dom().contains(id) ==> {
            let i = spec_result_id_to_op_index(ops)[id] as int;
            &&& 0 <= i < ops.len()
            &&& ops[i].spec_result_id() == id
            &&& forall|j: int| i < j < ops.len() ==> ops[j].spec_result_id() != id
        },
    decreases ops.len(),
{
    if ops.len() > 0 {
        let prefix = ops.drop_last();
        lemma_result_id_to_op_index(prefix);
        assert forall|id: Id| #[trigger]
            spec_result_id_to_op_index(ops).dom().contains(id) <==> exists|i: int|
                0 <= i < ops.len() && ops[i].spec_result_id() == id by {
            if spec_result_id_to_op_index(ops).dom().contains(id) {
                if id == ops.last().spec_result_id() {
                    assert(ops[ops.len() - 1].spec_result_id() == id);
                } else {
                    assert(spec_result_id_to_op_index(prefix).dom().contains(id));
                    let i = choose|i: int| 0 <= i < prefix.len() && prefix[i].spec_result_id() == id;
                    assert(ops[i] == prefix[i]);
                }
            }
            if exists|i: int| 0 <= i < ops.len() && ops[i].spec_result_id() == id {
                let i = choose|i: int| 0 <= i < ops.len() && ops[i].spec_result_id() == id;
                if i < ops.len() - 1 {
                    assert(prefix[i] == ops[i]);
                    assert(spec_result_id_to_op_index(prefix).dom().contains(id));
                }
            }
        }
        assert forall|id: Id| #[trigger] spec_result_id_to_op_index(ops).dom().contains(id) implies {
            let i = spec_result_id_to_op_index(ops)[id] as int;
            &&& 0 <= i < ops.len()
            &&& ops[i].spec_result_id() == id
            &&& forall|j: int| i < j < ops.len() ==> ops[j].spec_result_id() != id
        } by {
            if id == ops.last().spec_result_id() {
                assert(spec_result_id_to_op_index(ops)[id] == (ops.len() - 1) as usize);
            } else {
                assert(spec_result_id_to_op_index(prefix).dom().contains(id));
                let i = spec_result_id_to_op_index(prefix)[id] as int;
                assert(spec_result_id_to_op_index(ops)[id] == spec_result_id_to_op_index(prefix)[id]);
                assert(ops[i] == prefix[i]);
                assert forall|j: int| i < j < ops.len() implies ops[j].spec_result_id() != id by {
                    if j < ops.len() - 1 {
                        assert(ops[j] == prefix[j]);
                    }
                }
            }
        }
    }
}

impl Module {
    pub closed spec fn spec_ops(self) -> Seq<Op> {
        self.ops@
    }

    pub closed spec fn spec_next_id(self) -> int {
        self.next_available_id as int
    }

    pub fn ops(&self) -> (r: &Vec<Op>)
        ensures
            r@ == self.spec_ops(),
    {
        &self.ops
    }

    pub fn push_op(&mut self, op: Op)
        ensures
            final(self).spec_ops() == old(self).spec_ops().push(op),
            final(self).spec_next_id() == old(self).spec_next_id(),
    {
        self.ops.push(op);
    }

    pub fn new_empty() -> (r: Self)
        ensures
            r.spec_ops() == Seq::<Op>::empty(),
            r.spec_next_id() == 0,
    {
        Module { ops: Vec::new(), next_available_id: 0 }
    }

    /// Hands out the next free id.
    pub fn alloc_id(&mut self) -> (id: Id)
        requires
            old(self).spec_next_id() < i32::MAX,
        ensures
            id == old(self).spec_next_id(),
            final(self).spec_next_id() == old(self).spec_next_id() + 1,
            final(self).spec_ops() == old(self).spec_ops(),
    {
        let id = self.next_available_id;
        self.next_available_id = self.next_available_id + 1;
        id
    }

    /// The index of the last operation that writes each result id.
    pub fn get_result_id_to_op_index(&self) -> (mapping: HashMap<Id, usize>)
        ensures
            mapping@ == spec_result_id_to_op_index(self.spec_ops()),
    {
        let mut mapping: HashMap<Id, usize> = HashMap::new();
        let mut i: usize = 0;
        while i < self.ops.len()
            invariant
                i <= self.ops@.len(),
                mapping@ == spec_result_id_to_op_index(self.ops@.take(i as int)),
            decreases self.ops@.len() - i,
        {
            let result_id = self.ops[i].get_result_id();
            mapping.insert(result_id, i);
            assert(self.ops@.take(i + 1).drop_last() == self.ops@.take(i as int));
            i = i + 1;
        }
        assert(self.ops@.take(self.ops@.len() as int) == self.ops@);
        mapping
    }
}

} // verus!
