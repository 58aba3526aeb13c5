//! Well-formed operation lists: the operation at index `i` writes the value
//! id `i`, and reads only values written before it.
use vstd::prelude::*;

use crate::ir::id::Id;
use crate::ir::op::Op;

verus! {

/// Every operation writes the id equal to its index, and every id it reads
/// is written by an earlier operation.
pub open spec fn ops_well_formed(ops: Seq<Op>) -> bool {
    &&& forall|i: int| 0 <= i < ops.len() ==> (#[trigger] ops[i]).spec_result_id() == i
    &&& forall|i: int, k: int|
        0 <= i < ops.len() && 0 <= k < ops[i].spec_arg_ids().len() ==> 0
            <= #[trigger] ops[i].spec_arg_ids()[k] < i
}

/// `id` names a value written by one of `ops`.
pub open spec fn id_defined(ops: Seq<Op>, id: Id) -> bool {
    0 <= id < ops.len()
}

/// The id that the next operation appended to `ops` writes.
pub open spec fn next_id(ops: Seq<Op>) -> Id {
    ops.len() as Id
}

/// Appending an operation that writes the next id and reads only ids already
/// written keeps the list well-formed.
pub proof fn lemma_push_well_formed(ops: Seq<Op>, op: Op)
    requires
        ops_well_formed(ops),
        op.spec_result_id() == ops.len(),
        forall|k: int| 0 <= k < op.spec_arg_ids().len() ==> id_defined(ops, #[trigger] op.spec_arg_ids()[k]),
    ensures
        ops_well_formed(ops.push(op)),
{
    let s = ops.push(op);
    assert forall|i: int| 0 <= i < s.len() implies (#[trigger] s[i]).spec_result_id() == i by {
        if i < ops.len() {
            assert(s[i] == ops[i]);
        }
    }
    assert forall|i: int, k: int|
        0 <= i < s.len() && 0 <= k < s[i].spec_arg_ids().len() implies 0
            <= #[trigger] s[i].spec_arg_ids()[k] < i by {
        if i < ops.len() {
            assert(s[i] == ops[i]);
        }
    }
}

/// Appending one operation is concatenating a one-element list.
pub proof fn lemma_emit(ops: Seq<Op>, op: Op)
    requires
        ops_well_formed(ops),
        op.spec_result_id() == ops.len(),
        forall|k: int| 0 <= k < op.spec_arg_ids().len() ==> id_defined(ops, #[trigger] op.spec_arg_ids()[k]),
    ensures
        ops_well_formed(ops + seq![op]),
        ops + seq![op] == ops.push(op),
{
    assert(ops + seq![op] =~= ops.push(op));
    lemma_push_well_formed(ops, op);
}

} // verus!
