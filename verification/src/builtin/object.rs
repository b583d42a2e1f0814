//! Object-mode operators: adding, deleting, selecting, duplicating, moving,
//! renaming objects, switching modes and shading. What each does to a
//! document is the host's.

use vstd::prelude::*;

use crate::operator::{OpFlags, Operator};
use crate::registry::{add_ops, OpInfo, Registry};

verus! {

/// Add a primitive mesh object at a location.
pub struct AddPrimitive;

impl Operator for AddPrimitive {
    open spec fn spec_info() -> OpInfo {
        OpInfo { id: "object.add_primitive", label: "Add Primitive", flags: OpFlags(3) }
    }

    fn info() -> (r: OpInfo) {
        OpInfo { id: "object.add_primitive", label: "Add Primitive", flags: OpFlags(3) }
    }
}

/// Delete the selected objects.
pub struct Delete;

impl Operator for Delete {
    open spec fn spec_info() -> OpInfo {
        OpInfo { id: "object.delete", label: "Delete", flags: OpFlags(3) }
    }

    fn info() -> (r: OpInfo) {
        OpInfo { id: "object.delete", label: "Delete", flags: OpFlags(3) }
    }
}

/// Select one object, replacing, extending or toggling the selection.
pub struct Select;

impl Operator for Select {
    open spec fn spec_info() -> OpInfo {
        OpInfo { id: "object.select", label: "Select Object", flags: OpFlags(2) }
    }

    fn info() -> (r: OpInfo) {
        OpInfo { id: "object.select", label: "Select Object", flags: OpFlags(2) }
    }
}

/// Select, deselect or invert every object of the scene.
pub struct SelectAll;

impl Operator for SelectAll {
    open spec fn spec_info() -> OpInfo {
        OpInfo { id: "object.select_all", label: "Select All", flags: OpFlags(3) }
    }

    fn info() -> (r: OpInfo) {
        OpInfo { id: "object.select_all", label: "Select All", flags: OpFlags(3) }
    }
}

/// Copy the selected objects.
pub struct Duplicate;

impl Operator for Duplicate {
    open spec fn spec_info() -> OpInfo {
        OpInfo { id: "object.duplicate", label: "Duplicate", flags: OpFlags(3) }
    }

    fn info() -> (r: OpInfo) {
        OpInfo { id: "object.duplicate", label: "Duplicate", flags: OpFlags(3) }
    }
}

/// Move the selected objects by a fixed offset.
pub struct Translate;

impl Operator for Translate {
    open spec fn spec_info() -> OpInfo {
        OpInfo { id: "object.translate", label: "Move", flags: OpFlags(3) }
    }

    fn info() -> (r: OpInfo) {
        OpInfo { id: "object.translate", label: "Move", flags: OpFlags(3) }
    }
}

/// Rename the active object.
pub struct Rename;

impl Operator for Rename {
    open spec fn spec_info() -> OpInfo {
        OpInfo { id: "object.rename", label: "Rename", flags: OpFlags(3) }
    }

    fn info() -> (r: OpInfo) {
        OpInfo { id: "object.rename", label: "Rename", flags: OpFlags(3) }
    }
}

/// Switch the active object between object and edit mode.
pub struct ModeSet;

impl Operator for ModeSet {
    open spec fn spec_info() -> OpInfo {
        OpInfo { id: "object.mode_set", label: "Set Mode", flags: OpFlags(3) }
    }

    fn info() -> (r: OpInfo) {
        OpInfo { id: "object.mode_set", label: "Set Mode", flags: OpFlags(3) }
    }
}

/// Shade the selected meshes smooth or flat.
pub struct Shade;

impl Operator for Shade {
    open spec fn spec_info() -> OpInfo {
        OpInfo { id: "object.shade", label: "Shade Smooth / Flat", flags: OpFlags(3) }
    }

    fn info() -> (r: OpInfo) {
        OpInfo { id: "object.shade", label: "Shade Smooth / Flat", flags: OpFlags(3) }
    }
}

/// What `register` adds, in order.
pub open spec fn ops() -> Seq<OpInfo> {
    seq![AddPrimitive::spec_info(), Delete::spec_info(), Select::spec_info(), SelectAll::spec_info(), Duplicate::spec_info(), Translate::spec_info(), Rename::spec_info(), ModeSet::spec_info(), Shade::spec_info()]
}

pub fn register(r: &mut Registry)
    ensures
        final(r).view() == add_ops(old(r).view(), ops()),
{
    let infos = vec![AddPrimitive::info(), Delete::info(), Select::info(), SelectAll::info(), Duplicate::info(), Translate::info(), Rename::info(), ModeSet::info(), Shade::info()];
    proof {
        assert(infos@ =~= ops());
    }
    r.register_infos(infos.as_slice());
}

} // verus!
