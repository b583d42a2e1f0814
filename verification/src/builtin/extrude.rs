//! Interactive extrusion, and extrusion to a target point. What each does
//! to a mesh is the host's.

use vstd::prelude::*;

use crate::operator::{OpFlags, Operator};
use crate::registry::{add_ops, OpInfo, Registry};

verus! {

/// Extrude the selected faces, dragging them along their normals.
pub struct Extrude;

impl Operator for Extrude {
    open spec fn spec_info() -> OpInfo {
        OpInfo { id: "mesh.extrude", label: "Extrude Faces", flags: OpFlags(7) }
    }

    fn info() -> (r: OpInfo) {
        OpInfo { id: "mesh.extrude", label: "Extrude Faces", flags: OpFlags(7) }
    }
}

/// Extrude the selected faces to a target point.
pub struct ExtrudeToCursor;

impl Operator for ExtrudeToCursor {
    open spec fn spec_info() -> OpInfo {
        OpInfo { id: "mesh.extrude_to_cursor", label: "Extrude to Cursor", flags: OpFlags(3) }
    }

    fn info() -> (r: OpInfo) {
        OpInfo { id: "mesh.extrude_to_cursor", label: "Extrude to Cursor", flags: OpFlags(3) }
    }
}

/// What `register` adds, in order.
pub open spec fn ops() -> Seq<OpInfo> {
    seq![Extrude::spec_info(), ExtrudeToCursor::spec_info()]
}

pub fn register(r: &mut Registry)
    ensures
        final(r).view() == add_ops(old(r).view(), ops()),
{
    let infos = vec![Extrude::info(), ExtrudeToCursor::info()];
    proof {
        assert(infos@ =~= ops());
    }
    r.register_infos(infos.as_slice());
}

} // verus!
