//! The modifier stack: add, remove, apply. What each does to an object is
//! the host's.

use vstd::prelude::*;

use crate::operator::{OpFlags, Operator};
use crate::registry::{add_ops, OpInfo, Registry};

verus! {

pub struct ModifierAdd;

impl Operator for ModifierAdd {
    open spec fn spec_info() -> OpInfo {
        OpInfo { id: "object.modifier_add", label: "Add Modifier", flags: OpFlags(3) }
    }

    fn info() -> (r: OpInfo) {
        OpInfo { id: "object.modifier_add", label: "Add Modifier", flags: OpFlags(3) }
    }
}

pub struct ModifierRemove;

impl Operator for ModifierRemove {
    open spec fn spec_info() -> OpInfo {
        OpInfo { id: "object.modifier_remove", label: "Remove Modifier", flags: OpFlags(2) }
    }

    fn info() -> (r: OpInfo) {
        OpInfo { id: "object.modifier_remove", label: "Remove Modifier", flags: OpFlags(2) }
    }
}

pub struct ModifierApply;

impl Operator for ModifierApply {
    open spec fn spec_info() -> OpInfo {
        OpInfo { id: "object.modifier_apply", label: "Apply Modifier", flags: OpFlags(2) }
    }

    fn info() -> (r: OpInfo) {
        OpInfo { id: "object.modifier_apply", label: "Apply Modifier", flags: OpFlags(2) }
    }
}

/// What `register` adds, in order.
pub open spec fn ops() -> Seq<OpInfo> {
    seq![ModifierAdd::spec_info(), ModifierRemove::spec_info(), ModifierApply::spec_info()]
}

pub fn register(r: &mut Registry)
    ensures
        final(r).view() == add_ops(old(r).view(), ops()),
{
    let infos = vec![ModifierAdd::info(), ModifierRemove::info(), ModifierApply::info()];
    proof {
        assert(infos@ =~= ops());
    }
    r.register_infos(infos.as_slice());
}

} // verus!
