//! Interactive face inset. What it does to a mesh is the host's.

use vstd::prelude::*;

use crate::operator::{OpFlags, Operator};
use crate::registry::{add_ops, OpInfo, Registry};

verus! {

/// Inset the selected faces, following the pointer.
pub struct Inset;

impl Operator for Inset {
    open spec fn spec_info() -> OpInfo {
        OpInfo { id: "mesh.inset", label: "Inset Faces", flags: OpFlags(7) }
    }

    fn info() -> (r: OpInfo) {
        OpInfo { id: "mesh.inset", label: "Inset Faces", flags: OpFlags(7) }
    }
}

/// What `register` adds, in order.
pub open spec fn ops() -> Seq<OpInfo> {
    seq![Inset::spec_info()]
}

pub fn register(r: &mut Registry)
    ensures
        final(r).view() == add_ops(old(r).view(), ops()),
{
    let infos = vec![Inset::info()];
    proof {
        assert(infos@ =~= ops());
    }
    r.register_infos(infos.as_slice());
}

} // verus!
