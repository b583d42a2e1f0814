//! Interactive loop cut. What it does to a mesh is the host's.

use vstd::prelude::*;

use crate::operator::{OpFlags, Operator};
use crate::registry::{add_ops, OpInfo, Registry};

verus! {

/// Cut an edge loop through a ring of quads and slide it.
pub struct LoopCut;

impl Operator for LoopCut {
    open spec fn spec_info() -> OpInfo {
        OpInfo { id: "mesh.loop_cut", label: "Loop Cut", flags: OpFlags(7) }
    }

    fn info() -> (r: OpInfo) {
        OpInfo { id: "mesh.loop_cut", label: "Loop Cut", flags: OpFlags(7) }
    }
}

/// What `register` adds, in order.
pub open spec fn ops() -> Seq<OpInfo> {
    seq![LoopCut::spec_info()]
}

pub fn register(r: &mut Registry)
    ensures
        final(r).view() == add_ops(old(r).view(), ops()),
{
    let infos = vec![LoopCut::info()];
    proof {
        assert(infos@ =~= ops());
    }
    r.register_infos(infos.as_slice());
}

} // verus!
