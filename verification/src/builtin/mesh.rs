//! Edit-mode mesh operators: selection, deletion, extrusion, dissolving,
//! subdivision, merging and normals. What each does to a mesh is the host's.

use vstd::prelude::*;

use crate::operator::{OpFlags, Operator};
use crate::registry::{add_ops, OpInfo, Registry};

verus! {

pub struct SelectAll;

impl Operator for SelectAll {
    open spec fn spec_info() -> OpInfo {
        OpInfo { id: "mesh.select_all", label: "Select All (Mesh)", flags: OpFlags(3) }
    }

    fn info() -> (r: OpInfo) {
        OpInfo { id: "mesh.select_all", label: "Select All (Mesh)", flags: OpFlags(3) }
    }
}

pub struct Delete;

impl Operator for Delete {
    open spec fn spec_info() -> OpInfo {
        OpInfo { id: "mesh.delete", label: "Delete (Mesh)", flags: OpFlags(3) }
    }

    fn info() -> (r: OpInfo) {
        OpInfo { id: "mesh.delete", label: "Delete (Mesh)", flags: OpFlags(3) }
    }
}

pub struct Extrude;

impl Operator for Extrude {
    open spec fn spec_info() -> OpInfo {
        OpInfo { id: "mesh.extrude", label: "Extrude Faces", flags: OpFlags(3) }
    }

    fn info() -> (r: OpInfo) {
        OpInfo { id: "mesh.extrude", label: "Extrude Faces", flags: OpFlags(3) }
    }
}

pub struct Dissolve;

impl Operator for Dissolve {
    open spec fn spec_info() -> OpInfo {
        OpInfo { id: "mesh.dissolve", label: "Dissolve", flags: OpFlags(3) }
    }

    fn info() -> (r: OpInfo) {
        OpInfo { id: "mesh.dissolve", label: "Dissolve", flags: OpFlags(3) }
    }
}

pub struct Subdivide;

impl Operator for Subdivide {
    open spec fn spec_info() -> OpInfo {
        OpInfo { id: "mesh.subdivide", label: "Subdivide Edges", flags: OpFlags(3) }
    }

    fn info() -> (r: OpInfo) {
        OpInfo { id: "mesh.subdivide", label: "Subdivide Edges", flags: OpFlags(3) }
    }
}

pub struct MergeByDistance;

impl Operator for MergeByDistance {
    open spec fn spec_info() -> OpInfo {
        OpInfo { id: "mesh.merge_by_distance", label: "Merge by Distance", flags: OpFlags(3) }
    }

    fn info() -> (r: OpInfo) {
        OpInfo { id: "mesh.merge_by_distance", label: "Merge by Distance", flags: OpFlags(3) }
    }
}

pub struct FlipNormals;

impl Operator for FlipNormals {
    open spec fn spec_info() -> OpInfo {
        OpInfo { id: "mesh.flip_normals", label: "Flip Normals", flags: OpFlags(3) }
    }

    fn info() -> (r: OpInfo) {
        OpInfo { id: "mesh.flip_normals", label: "Flip Normals", flags: OpFlags(3) }
    }
}

pub struct NormalsMakeConsistent;

impl Operator for NormalsMakeConsistent {
    open spec fn spec_info() -> OpInfo {
        OpInfo { id: "mesh.normals_make_consistent", label: "Recalculate Normals", flags: OpFlags(3) }
    }

    fn info() -> (r: OpInfo) {
        OpInfo { id: "mesh.normals_make_consistent", label: "Recalculate Normals", flags: OpFlags(3) }
    }
}

/// What `register` adds, in order.
pub open spec fn ops() -> Seq<OpInfo> {
    seq![SelectAll::spec_info(), Delete::spec_info(), Extrude::spec_info(), Dissolve::spec_info(), Subdivide::spec_info(), MergeByDistance::spec_info(), FlipNormals::spec_info(), NormalsMakeConsistent::spec_info()]
}

pub fn register(r: &mut Registry)
    ensures
        final(r).view() == add_ops(old(r).view(), ops()),
{
    let infos = vec![SelectAll::info(), Delete::info(), Extrude::info(), Dissolve::info(), Subdivide::info(), MergeByDistance::info(), FlipNormals::info(), NormalsMakeConsistent::info()];
    proof {
        assert(infos@ =~= ops());
    }
    r.register_infos(infos.as_slice());
}

} // verus!
