//! The operators that ship with Prism.
//!
//! Each one is known here by its id, label and flags. What the window and
//! viewport operators ask of the UI is decided here too; what the object
//! and mesh operators do to a document is the host's, which runs them
//! through the executor.

pub mod extrude;
pub mod inset;
pub mod io;
pub mod loop_cut;
pub mod mesh;
pub mod modifier;
pub mod object;
pub mod select;
pub mod transform;
pub mod view3d;
pub mod wm;

use vstd::prelude::*;

use crate::registry::{add_ops, lemma_add_ops, OpInfo, Registry};

verus! {

/// Everything `register_all` adds, in order.
pub open spec fn builtin_ops() -> Seq<OpInfo> {
    wm::ops() + object::ops() + mesh::ops() + view3d::ops()
}

/// Adding two lists one after the other is adding their concatenation.
pub proof fn lemma_add_ops_concat(reg: Seq<OpInfo>, a: Seq<OpInfo>, b: Seq<OpInfo>)
    ensures
        add_ops(add_ops(reg, a), b) == add_ops(reg, a + b),
    decreases b.len(),
{
    if b.len() == 0 {
        assert(a + b =~= a);
    } else {
        lemma_add_ops_concat(reg, a, b.drop_last());
        assert((a + b).drop_last() =~= a + b.drop_last());
        assert((a + b).last() == b.last());
    }
}

/// Register every built-in operator.
pub fn register_all(r: &mut Registry)
    ensures
        final(r).view() == add_ops(old(r).view(), builtin_ops()),
{
    wm::register(r);
    object::register(r);
    mesh::register(r);
    view3d::register(r);
    proof {
        let v = old(r).view();
        lemma_add_ops_concat(v, wm::ops(), object::ops());
        lemma_add_ops_concat(v, wm::ops() + object::ops(), mesh::ops());
        lemma_add_ops_concat(v, wm::ops() + object::ops() + mesh::ops(), view3d::ops());
    }
}

/// Every built-in operator can be found by its id once registered.
pub proof fn law_builtins_registered(reg: Seq<OpInfo>)
    ensures
        forall|k: int| 0 <= k < builtin_ops().len() ==> exists|i: int|
            0 <= i < add_ops(reg, builtin_ops()).len() && add_ops(reg, builtin_ops())[i].id@ == (#[trigger] builtin_ops()[k]).id@,
{
    lemma_add_ops(reg, builtin_ops());
}

} // verus!
