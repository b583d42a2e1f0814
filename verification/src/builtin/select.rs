//! Mesh selection: one `select` flag per vertex, edge and face. Vertices
//! are primary; edges and faces follow from their vertices, except that
//! `flush_mode` lets the edge or face domain lead.
//!
//! A mesh is held here as its topology (each edge's two vertices, each
//! face's vertices and edges, all by index) and its three selection arrays.

use vstd::prelude::*;

use crate::ui::context_menu::SelectMode;

verus! {

/// A mesh's topology and selection, elements by index.
pub struct SelMesh {
    /// Each edge's two vertices.
    pub edges: Vec<(usize, usize)>,
    /// Each face's vertices, in order.
    pub face_verts: Vec<Vec<usize>>,
    /// Each face's edges, in order.
    pub face_edges: Vec<Vec<usize>>,
    pub vsel: Vec<bool>,
    pub esel: Vec<bool>,
    pub fsel: Vec<bool>,
}

impl SelMesh {
    pub open spec fn nv(&self) -> int {
        self.vsel@.len() as int
    }

    pub open spec fn ne(&self) -> int {
        self.edges@.len() as int
    }

    pub open spec fn nf(&self) -> int {
        self.face_verts@.len() as int
    }

    /// One flag per element, and every index names an element.
    pub open spec fn wf(&self) -> bool {
        &&& self.esel@.len() == self.ne()
        &&& self.fsel@.len() == self.nf()
        &&& self.face_edges@.len() == self.nf()
        &&& forall|i: int| 0 <= i < self.ne() ==> (#[trigger] self.edges@[i]).0 < self.nv() && self.edges@[i].1 < self.nv()
        &&& forall|j: int, k: int|
            0 <= j < self.nf() && 0 <= k < self.face_verts@[j]@.len() ==> #[trigger] self.face_verts@[j]@[k] < self.nv()
        &&& forall|j: int, k: int|
            0 <= j < self.nf() && 0 <= k < self.face_edges@[j]@.len() ==> #[trigger] self.face_edges@[j]@[k] < self.ne()
    }

    /// The same elements, wired the same way.
    pub open spec fn same_topology(&self, o: SelMesh) -> bool {
        &&& self.edges == o.edges
        &&& self.face_verts == o.face_verts
        &&& self.face_edges == o.face_edges
        &&& self.vsel@.len() == o.vsel@.len()
        &&& self.esel@.len() == o.esel@.len()
        &&& self.fsel@.len() == o.fsel@.len()
    }

    /// Edge `i` has both its vertices selected in `v`.
    pub open spec fn edge_by_verts(&self, v: Seq<bool>, i: int) -> bool {
        v[self.edges@[i].0 as int] && v[self.edges@[i].1 as int]
    }

    /// Face `j` has all its vertices selected in `v`.
    pub open spec fn face_by_verts(&self, v: Seq<bool>, j: int) -> bool {
        forall|k: int| 0 <= k < self.face_verts@[j]@.len() ==> v[#[trigger] self.face_verts@[j]@[k] as int]
    }

    /// Face `j` has all its edges selected in `e`.
    pub open spec fn face_by_edges(&self, e: Seq<bool>, j: int) -> bool {
        forall|k: int| 0 <= k < self.face_edges@[j]@.len() ==> e[#[trigger] self.face_edges@[j]@[k] as int]
    }

    /// Vertex `x` ends an edge selected in `e`.
    pub open spec fn vert_by_edges(&self, e: Seq<bool>, x: int) -> bool {
        exists|i: int| 0 <= i < self.ne() && e[i] && ((#[trigger] self.edges@[i]).0 == x || self.edges@[i].1 == x)
    }

    /// Vertex `x` belongs to a face selected in `f`.
    pub open spec fn vert_by_faces(&self, f: Seq<bool>, x: int) -> bool {
        exists|j: int| 0 <= j < self.nf() && f[j] && (#[trigger] self.face_verts@[j])@.contains(x as usize)
    }

    /// Edge `i` belongs to a face selected in `f`.
    pub open spec fn edge_by_faces(&self, f: Seq<bool>, i: int) -> bool {
        exists|j: int| 0 <= j < self.nf() && f[j] && (#[trigger] self.face_edges@[j])@.contains(i as usize)
    }
}

/// Edges and faces of `m1` follow the vertex selection of `m0`, which `m1`
/// keeps.
pub open spec fn flushed_from_verts(m0: SelMesh, m1: SelMesh) -> bool {
    &&& m1.vsel@ == m0.vsel@
    &&& forall|i: int| 0 <= i < m0.ne() ==> #[trigger] m1.esel@[i] == m0.edge_by_verts(m0.vsel@, i)
    &&& forall|j: int| 0 <= j < m0.nf() ==> #[trigger] m1.fsel@[j] == m0.face_by_verts(m0.vsel@, j)
}

/// The three domains of `m1` made to agree with the `mode` domain of a
/// mesh wired as `t` whose selection is `v`, `e` and `f`; `m1` keeps that
/// domain. From vertices, edges and faces follow as in `flush`; from
/// edges, a vertex is selected when it ends a selected edge and a face when
/// all its edges are; from faces, a vertex or edge is selected when it
/// belongs to a selected face.
pub open spec fn flushed_sel(t: SelMesh, v: Seq<bool>, e: Seq<bool>, f: Seq<bool>, m1: SelMesh, mode: SelectMode) -> bool {
    match mode {
        SelectMode::Vertex => {
            &&& m1.vsel@ == v
            &&& forall|i: int| 0 <= i < t.ne() ==> #[trigger] m1.esel@[i] == t.edge_by_verts(v, i)
            &&& forall|j: int| 0 <= j < t.nf() ==> #[trigger] m1.fsel@[j] == t.face_by_verts(v, j)
        },
        SelectMode::Edge => {
            &&& m1.esel@ == e
            &&& forall|x: int| 0 <= x < t.nv() ==> #[trigger] m1.vsel@[x] == t.vert_by_edges(e, x)
            &&& forall|j: int| 0 <= j < t.nf() ==> #[trigger] m1.fsel@[j] == t.face_by_edges(e, j)
        },
        SelectMode::Face => {
            &&& m1.fsel@ == f
            &&& forall|x: int| 0 <= x < t.nv() ==> #[trigger] m1.vsel@[x] == t.vert_by_faces(f, x)
            &&& forall|i: int| 0 <= i < t.ne() ==> #[trigger] m1.esel@[i] == t.edge_by_faces(f, i)
        },
    }
}

/// The three domains of `m1` made to agree with the `mode` domain of `m0`.
pub open spec fn flushed(m0: SelMesh, m1: SelMesh, mode: SelectMode) -> bool {
    flushed_sel(m0, m0.vsel@, m0.esel@, m0.fsel@, m1, mode)
}

/// The positions in `s` that hold `true`, in order.
pub open spec fn chosen(s: Seq<bool>) -> Seq<usize>
    decreases s.len(),
{
    if s.len() == 0 {
        Seq::empty()
    } else {
        chosen(s.drop_last()) + (if s.last() { seq![(s.len() - 1) as usize] } else { Seq::empty() })
    }
}

/// The positions of `flags` that hold `true`, in order.
fn chosen_of(flags: &Vec<bool>) -> (r: Vec<usize>)
    ensures
        r@ == chosen(flags@),
{
    let mut r: Vec<usize> = Vec::new();
    let mut i: usize = 0;
    while i < flags.len()
        invariant
            i <= flags@.len(),
            r@ == chosen(flags@.take(i as int)),
        decreases flags@.len() - i,
    {
        proof {
            assert(flags@.take(i + 1).drop_last() =~= flags@.take(i as int));
        }
        if flags[i] {
            r.push(i);
            proof {
                assert(r@ =~= chosen(flags@.take(i as int)) + seq![i]);
            }
        } else {
            proof {
                assert(r@ =~= chosen(flags@.take(i as int)) + Seq::<usize>::empty());
            }
        }
        i = i + 1;
    }
    assert(flags@.take(flags@.len() as int) =~= flags@);
    r
}

/// Whether every position `idx` names holds `true` in `flags`.
fn all_at(flags: &Vec<bool>, idx: &Vec<usize>) -> (r: bool)
    requires
        forall|k: int| 0 <= k < idx@.len() ==> #[trigger] idx@[k] < flags@.len(),
    ensures
        r == forall|k: int| 0 <= k < idx@.len() ==> flags@[#[trigger] idx@[k] as int],
{
    let mut k: usize = 0;
    while k < idx.len()
        invariant
            k <= idx@.len(),
            forall|t: int| 0 <= t < idx@.len() ==> #[trigger] idx@[t] < flags@.len(),
            forall|t: int| 0 <= t < k ==> flags@[#[trigger] idx@[t] as int],
        decreases idx@.len() - k,
    {
        if !flags[idx[k]] {
            return false;
        }
        k = k + 1;
    }
    true
}

/// Set every position `idx` names in `flags` to `on`.
fn mark(flags: &mut Vec<bool>, idx: &Vec<usize>, on: bool)
    requires
        forall|k: int| 0 <= k < idx@.len() ==> #[trigger] idx@[k] < old(flags)@.len(),
    ensures
        final(flags)@.len() == old(flags)@.len(),
        forall|x: int| 0 <= x < old(flags)@.len() ==> #[trigger] final(flags)@[x] == (if idx@.contains(x as usize) { on } else { old(flags)@[x] }),
{
    let mut k: usize = 0;
    while k < idx.len()
        invariant
            k <= idx@.len(),
            flags@.len() == old(flags)@.len(),
            forall|t: int| 0 <= t < idx@.len() ==> #[trigger] idx@[t] < flags@.len(),
            forall|x: int| 0 <= x < flags@.len() ==> #[trigger] flags@[x] == (if idx@.take(k as int).contains(x as usize) { on } else { old(flags)@[x] }),
        decreases idx@.len() - k,
    {
        let ghost before = flags@;
        let ghost pre = idx@.take(k as int);
        flags.set(idx[k], on);
        let len = flags.len();
        proof {
            assert(idx@.take(k + 1) =~= pre.push(idx@[k as int]));
            assert forall|x: int| 0 <= x < flags@.len() implies #[trigger] flags@[x] == (if idx@.take(k + 1).contains(x as usize) { on } else { old(flags)@[x] }) by {
                let full = idx@.take(k + 1);
                if x == idx@[k as int] as int {
                    assert(full[k as int] == x as usize);
                } else {
                    assert(flags@[x] == before[x]);
                    if pre.contains(x as usize) {
                        let t = choose|t: int| 0 <= t < pre.len() && pre[t] == x as usize;
                        assert(full[t] == x as usize);
                    }
                    if full.contains(x as usize) {
                        let t = choose|t: int| 0 <= t < full.len() && full[t] == x as usize;
                        assert(full[k as int] == idx@[k as int]);
                        assert(x < len);
                        assert((x as usize) as int == x);
                        assert(t != k);
                        assert(pre[t] == x as usize);
                    }
                }
            }
        }
        k = k + 1;
    }
    assert(idx@.take(idx@.len() as int) =~= idx@);
}

/// Set every flag to `on`.
fn fill(flags: &mut Vec<bool>, on: bool)
    ensures
        final(flags)@.len() == old(flags)@.len(),
        forall|x: int| 0 <= x < old(flags)@.len() ==> #[trigger] final(flags)@[x] == on,
{
    let mut k: usize = 0;
    while k < flags.len()
        invariant
            k <= flags@.len(),
            flags@.len() == old(flags)@.len(),
            forall|x: int| 0 <= x < k ==> #[trigger] flags@[x] == on,
        decreases flags@.len() - k,
    {
        flags.set(k, on);
        k = k + 1;
    }
}

impl SelMesh {
    /// The selected vertices, in index order.
    pub fn selected_verts(&self) -> (r: Vec<usize>)
        ensures
            r@ == chosen(self.vsel@),
    {
        chosen_of(&self.vsel)
    }

    /// The selected edges, in index order.
    pub fn selected_edges(&self) -> (r: Vec<usize>)
        ensures
            r@ == chosen(self.esel@),
    {
        chosen_of(&self.esel)
    }

    /// The selected faces, in index order.
    pub fn selected_faces(&self) -> (r: Vec<usize>)
        ensures
            r@ == chosen(self.fsel@),
    {
        chosen_of(&self.fsel)
    }

    /// Whether some vertex is selected.
    pub fn any_selected(&self) -> (r: bool)
        ensures
            r == exists|x: int| 0 <= x < self.nv() && self.vsel@[x],
    {
        let mut x: usize = 0;
        while x < self.vsel.len()
            invariant
                x <= self.vsel@.len(),
                forall|t: int| 0 <= t < x ==> !self.vsel@[t],
            decreases self.vsel@.len() - x,
        {
            if self.vsel[x] {
                return true;
            }
            x = x + 1;
        }
        false
    }
}

/// Select or deselect every element.
pub fn set_all(m: &mut SelMesh, on: bool)
    requires
        old(m).wf(),
    ensures
        final(m).wf(),
        final(m).same_topology(*old(m)),
        forall|x: int| 0 <= x < old(m).nv() ==> #[trigger] final(m).vsel@[x] == on,
        forall|i: int| 0 <= i < old(m).ne() ==> #[trigger] final(m).esel@[i] == on,
        forall|j: int| 0 <= j < old(m).nf() ==> #[trigger] final(m).fsel@[j] == on,
{
    fill(&mut m.vsel, on);
    fill(&mut m.esel, on);
    fill(&mut m.fsel, on);
}

/// Derive edge and face selection from vertex selection.
pub fn flush(m: &mut SelMesh)
    requires
        old(m).wf(),
    ensures
        final(m).wf(),
        final(m).same_topology(*old(m)),
        flushed_from_verts(*old(m), *final(m)),
{
    let ghost m0 = *m;
    let ne = m.edges.len();
    let mut i: usize = 0;
    while i < ne
        invariant
            ne == m0.ne(),
            m0.wf(),
            m.same_topology(m0),
            m.vsel@ == m0.vsel@,
            m.fsel@ == m0.fsel@,
            i <= ne,
            forall|t: int| 0 <= t < i ==> #[trigger] m.esel@[t] == m0.edge_by_verts(m0.vsel@, t),
        decreases ne - i,
    {
        let (a, b) = m.edges[i];
        assert(m.edges@[i as int] == m0.edges@[i as int]);
        let on = m.vsel[a] && m.vsel[b];
        m.esel.set(i, on);
        i = i + 1;
    }
    let nf = m.face_verts.len();
    let mut j: usize = 0;
    while j < nf
        invariant
            nf == m0.nf(),
            m0.wf(),
            m.same_topology(m0),
            m.vsel@ == m0.vsel@,
            forall|t: int| 0 <= t < ne ==> #[trigger] m.esel@[t] == m0.edge_by_verts(m0.vsel@, t),
            j <= nf,
            forall|t: int| 0 <= t < j ==> #[trigger] m.fsel@[t] == m0.face_by_verts(m0.vsel@, t),
        decreases nf - j,
    {
        assert forall|k: int| 0 <= k < m.face_verts@[j as int]@.len() implies #[trigger] m.face_verts@[j as int]@[k] < m.vsel@.len() by {
            assert(m0.face_verts@[j as int]@[k] < m0.nv());
        }
        let on = all_at(&m.vsel, &m.face_verts[j]);
        m.fsel.set(j, on);
        j = j + 1;
    }
}

/// Make the three domains agree, treating `mode`'s domain as primary.
pub fn flush_mode(m: &mut SelMesh, mode: SelectMode)
    requires
        old(m).wf(),
    ensures
        final(m).wf(),
        final(m).same_topology(*old(m)),
        flushed(*old(m), *final(m), mode),
{
    let ghost m0 = *m;
    match mode {
        SelectMode::Vertex => flush(m),
        SelectMode::Edge => {
            fill(&mut m.vsel, false);
            let ne = m.edges.len();
            let mut i: usize = 0;
            while i < ne
                invariant
                    ne == m0.ne(),
                    m0.wf(),
                    m.same_topology(m0),
                    m.esel@ == m0.esel@,
                    m.fsel@ == m0.fsel@,
                    i <= ne,
                    forall|x: int| 0 <= x < m0.nv() ==> #[trigger] m.vsel@[x] == exists|t: int|
                        0 <= t < i && m0.esel@[t] && ((#[trigger] m0.edges@[t]).0 == x || m0.edges@[t].1 == x),
                decreases ne - i,
            {
                let ghost before = m.vsel@;
                let (a, b) = m.edges[i];
                assert(m0.edges@[i as int] == (a, b));
                if m.esel[i] {
                    m.vsel.set(a, true);
                    m.vsel.set(b, true);
                }
                proof {
                    assert forall|x: int| 0 <= x < m0.nv() implies #[trigger] m.vsel@[x] == exists|t: int|
                        0 <= t < i + 1 && m0.esel@[t] && ((#[trigger] m0.edges@[t]).0 == x || m0.edges@[t].1 == x) by {
                        if before[x] {
                            let t = choose|t: int| 0 <= t < i && m0.esel@[t] && ((#[trigger] m0.edges@[t]).0 == x || m0.edges@[t].1 == x);
                            assert(0 <= t < i + 1 && m0.esel@[t] && (m0.edges@[t].0 == x || m0.edges@[t].1 == x));
                        }
                        if m0.esel@[i as int] && (a == x || b == x) {
                            assert(0 <= i < i + 1 && m0.esel@[i as int] && (m0.edges@[i as int].0 == x || m0.edges@[i as int].1 == x));
                        }
                        if exists|t: int| 0 <= t < i + 1 && m0.esel@[t] && ((#[trigger] m0.edges@[t]).0 == x || m0.edges@[t].1 == x) {
                            let t = choose|t: int| 0 <= t < i + 1 && m0.esel@[t] && ((#[trigger] m0.edges@[t]).0 == x || m0.edges@[t].1 == x);
                            if t < i {
                                assert(before[x]);
                            }
                        }
                    }
                }
                i = i + 1;
            }
            let nf = m.face_edges.len();
            let mut j: usize = 0;
            while j < nf
                invariant
                    nf == m0.nf(),
                    m0.wf(),
                    m.same_topology(m0),
                    m.esel@ == m0.esel@,
                    forall|x: int| 0 <= x < m0.nv() ==> #[trigger] m.vsel@[x] == m0.vert_by_edges(m0.esel@, x),
                    j <= nf,
                    forall|t: int| 0 <= t < j ==> #[trigger] m.fsel@[t] == m0.face_by_edges(m0.esel@, t),
                decreases nf - j,
            {
                assert forall|k: int| 0 <= k < m.face_edges@[j as int]@.len() implies #[trigger] m.face_edges@[j as int]@[k] < m.esel@.len() by {
                    assert(m0.face_edges@[j as int]@[k] < m0.ne());
                }
                let on = all_at(&m.esel, &m.face_edges[j]);
                m.fsel.set(j, on);
                j = j + 1;
            }
        },
        SelectMode::Face => {
            fill(&mut m.vsel, false);
            fill(&mut m.esel, false);
            let nf = m.face_verts.len();
            let mut j: usize = 0;
            while j < nf
                invariant
                    nf == m0.nf(),
                    m0.wf(),
                    m.same_topology(m0),
                    m.fsel@ == m0.fsel@,
                    j <= nf,
                    forall|x: int| 0 <= x < m0.nv() ==> #[trigger] m.vsel@[x] == exists|t: int|
                        0 <= t < j && m0.fsel@[t] && (#[trigger] m0.face_verts@[t])@.contains(x as usize),
                    forall|x: int| 0 <= x < m0.ne() ==> #[trigger] m.esel@[x] == exists|t: int|
                        0 <= t < j && m0.fsel@[t] && (#[trigger] m0.face_edges@[t])@.contains(x as usize),
                decreases nf - j,
            {
                let ghost bv = m.vsel@;
                let ghost be = m.esel@;
                let on = m.fsel[j];
                if on {
                    assert forall|k: int| 0 <= k < m.face_verts@[j as int]@.len() implies #[trigger] m.face_verts@[j as int]@[k] < m.vsel@.len() by {
                        assert(m0.face_verts@[j as int]@[k] < m0.nv());
                    }
                    assert forall|k: int| 0 <= k < m.face_edges@[j as int]@.len() implies #[trigger] m.face_edges@[j as int]@[k] < m.esel@.len() by {
                        assert(m0.face_edges@[j as int]@[k] < m0.ne());
                    }
                    mark(&mut m.vsel, &m.face_verts[j], true);
                    mark(&mut m.esel, &m.face_edges[j], true);
                }
                proof {
                    assert forall|x: int| 0 <= x < m0.nv() implies #[trigger] m.vsel@[x] == exists|t: int|
                        0 <= t < j + 1 && m0.fsel@[t] && (#[trigger] m0.face_verts@[t])@.contains(x as usize) by {
                        if bv[x] {
                            let t = choose|t: int| 0 <= t < j && m0.fsel@[t] && (#[trigger] m0.face_verts@[t])@.contains(x as usize);
                            assert(0 <= t < j + 1 && m0.fsel@[t] && m0.face_verts@[t]@.contains(x as usize));
                        }
                        if on && m0.face_verts@[j as int]@.contains(x as usize) {
                            assert(0 <= j < j + 1 && m0.fsel@[j as int] && m0.face_verts@[j as int]@.contains(x as usize));
                        }
                        if exists|t: int| 0 <= t < j + 1 && m0.fsel@[t] && (#[trigger] m0.face_verts@[t])@.contains(x as usize) {
                            let t = choose|t: int| 0 <= t < j + 1 && m0.fsel@[t] && (#[trigger] m0.face_verts@[t])@.contains(x as usize);
                            if t < j {
                                assert(bv[x]);
                            }
                        }
                    }
                    assert forall|x: int| 0 <= x < m0.ne() implies #[trigger] m.esel@[x] == exists|t: int|
                        0 <= t < j + 1 && m0.fsel@[t] && (#[trigger] m0.face_edges@[t])@.contains(x as usize) by {
                        if be[x] {
                            let t = choose|t: int| 0 <= t < j && m0.fsel@[t] && (#[trigger] m0.face_edges@[t])@.contains(x as usize);
                            assert(0 <= t < j + 1 && m0.fsel@[t] && m0.face_edges@[t]@.contains(x as usize));
                        }
                        if on && m0.face_edges@[j as int]@.contains(x as usize) {
                            assert(0 <= j < j + 1 && m0.fsel@[j as int] && m0.face_edges@[j as int]@.contains(x as usize));
                        }
                        if exists|t: int| 0 <= t < j + 1 && m0.fsel@[t] && (#[trigger] m0.face_edges@[t])@.contains(x as usize) {
                            let t = choose|t: int| 0 <= t < j + 1 && m0.fsel@[t] && (#[trigger] m0.face_edges@[t])@.contains(x as usize);
                            if t < j {
                                assert(be[x]);
                            }
                        }
                    }
                }
                j = j + 1;
            }
        },
    }
}

/// Flushing twice is flushing once: a flushed mesh is left as it is.
pub proof fn law_flush_idempotent(m0: SelMesh, m1: SelMesh, m2: SelMesh)
    requires
        m0.wf(),
        m1.same_topology(m0),
        flushed_from_verts(m0, m1),
        m2.same_topology(m1),
        flushed_from_verts(m1, m2),
    ensures
        m2.vsel@ == m1.vsel@,
        m2.esel@ == m1.esel@,
        m2.fsel@ == m1.fsel@,
{
    assert(m2.esel@ =~= m1.esel@);
    assert(m2.fsel@ =~= m1.fsel@);
}

/// Flip every vertex's selection, then flush.
pub fn invert(m: &mut SelMesh)
    requires
        old(m).wf(),
    ensures
        final(m).wf(),
        final(m).same_topology(*old(m)),
        forall|x: int| 0 <= x < old(m).nv() ==> #[trigger] final(m).vsel@[x] == !old(m).vsel@[x],
        forall|i: int| 0 <= i < old(m).ne() ==> #[trigger] final(m).esel@[i] == old(m).edge_by_verts(final(m).vsel@, i),
        forall|j: int| 0 <= j < old(m).nf() ==> #[trigger] final(m).fsel@[j] == old(m).face_by_verts(final(m).vsel@, j),
{
    let ghost m0 = *m;
    let mut x: usize = 0;
    while x < m.vsel.len()
        invariant
            m0.wf(),
            m.same_topology(m0),
            m.esel@ == m0.esel@,
            m.fsel@ == m0.fsel@,
            x <= m.vsel@.len(),
            forall|t: int| 0 <= t < x ==> #[trigger] m.vsel@[t] == !m0.vsel@[t],
            forall|t: int| x <= t < m.vsel@.len() ==> #[trigger] m.vsel@[t] == m0.vsel@[t],
        decreases m.vsel@.len() - x,
    {
        let cur = m.vsel[x];
        m.vsel.set(x, !cur);
        x = x + 1;
    }
    flush(m);
}

/// Select (`on`) or deselect the vertices `verts` names, skipping indices
/// past the last vertex, then flush.
pub fn select_verts(m: &mut SelMesh, verts: &[usize], on: bool)
    requires
        old(m).wf(),
    ensures
        final(m).wf(),
        final(m).same_topology(*old(m)),
        forall|x: int| 0 <= x < old(m).nv() ==> #[trigger] final(m).vsel@[x] == (if verts@.contains(x as usize) { on } else { old(m).vsel@[x] }),
        forall|i: int| 0 <= i < old(m).ne() ==> #[trigger] final(m).esel@[i] == old(m).edge_by_verts(final(m).vsel@, i),
        forall|j: int| 0 <= j < old(m).nf() ==> #[trigger] final(m).fsel@[j] == old(m).face_by_verts(final(m).vsel@, j),
{
    let ghost m0 = *m;
    let mut k: usize = 0;
    while k < verts.len()
        invariant
            m0.wf(),
            m.same_topology(m0),
            m.esel@ == m0.esel@,
            m.fsel@ == m0.fsel@,
            k <= verts@.len(),
            forall|x: int| 0 <= x < m0.nv() ==> #[trigger] m.vsel@[x] == (if verts@.take(k as int).contains(x as usize) { on } else { m0.vsel@[x] }),
        decreases verts@.len() - k,
    {
        let v = verts[k];
        let ghost pre = verts@.take(k as int);
        let ghost before = m.vsel@;
        if v < m.vsel.len() {
            m.vsel.set(v, on);
        }
        proof {
            let full = verts@.take(k + 1);
            assert(full =~= pre.push(v));
            assert forall|x: int| 0 <= x < m0.nv() implies #[trigger] m.vsel@[x] == (if full.contains(x as usize) { on } else { m0.vsel@[x] }) by {
                if pre.contains(x as usize) {
                    let t = choose|t: int| 0 <= t < pre.len() && pre[t] == x as usize;
                    assert(full[t] == x as usize);
                }
                if x as usize == v {
                    assert(full[k as int] == x as usize);
                } else if full.contains(x as usize) {
                    let t = choose|t: int| 0 <= t < full.len() && full[t] == x as usize;
                    assert(pre[t] == x as usize);
                }
            }
        }
        k = k + 1;
    }
    assert(verts@.take(verts@.len() as int) =~= verts@);
    flush(m);
}

/// Select exactly the faces `faces` names: their vertices, then flush.
pub fn select_faces(m: &mut SelMesh, faces: &[usize])
    requires
        old(m).wf(),
        forall|k: int| 0 <= k < faces@.len() ==> #[trigger] faces@[k] < old(m).nf(),
    ensures
        final(m).wf(),
        final(m).same_topology(*old(m)),
        forall|x: int| 0 <= x < old(m).nv() ==> #[trigger] final(m).vsel@[x] == exists|k: int|
            0 <= k < faces@.len() && (#[trigger] old(m).face_verts@[faces@[k] as int])@.contains(x as usize),
        forall|i: int| 0 <= i < old(m).ne() ==> #[trigger] final(m).esel@[i] == old(m).edge_by_verts(final(m).vsel@, i),
        forall|j: int| 0 <= j < old(m).nf() ==> #[trigger] final(m).fsel@[j] == old(m).face_by_verts(final(m).vsel@, j),
{
    let ghost m0 = *m;
    set_all(m, false);
    let mut k: usize = 0;
    while k < faces.len()
        invariant
            m0.wf(),
            m.wf(),
            m.same_topology(m0),
            k <= faces@.len(),
            forall|t: int| 0 <= t < faces@.len() ==> #[trigger] faces@[t] < m0.nf(),
            forall|x: int| 0 <= x < m0.nv() ==> #[trigger] m.vsel@[x] == exists|t: int|
                0 <= t < k && (#[trigger] m0.face_verts@[faces@[t] as int])@.contains(x as usize),
        decreases faces@.len() - k,
    {
        let f = faces[k];
        let ghost before = m.vsel@;
        assert forall|t: int| 0 <= t < m.face_verts@[f as int]@.len() implies #[trigger] m.face_verts@[f as int]@[t] < m.vsel@.len() by {
            assert(m0.face_verts@[f as int]@[t] < m0.nv());
        }
        mark(&mut m.vsel, &m.face_verts[f], true);
        proof {
            assert forall|x: int| 0 <= x < m0.nv() implies #[trigger] m.vsel@[x] == exists|t: int|
                0 <= t < k + 1 && (#[trigger] m0.face_verts@[faces@[t] as int])@.contains(x as usize) by {
                if before[x] {
                    let t = choose|t: int| 0 <= t < k && (#[trigger] m0.face_verts@[faces@[t] as int])@.contains(x as usize);
                    assert(0 <= t < k + 1 && m0.face_verts@[faces@[t] as int]@.contains(x as usize));
                }
                if m0.face_verts@[f as int]@.contains(x as usize) {
                    assert(0 <= k < k + 1 && m0.face_verts@[faces@[k as int] as int]@.contains(x as usize));
                }
                if exists|t: int| 0 <= t < k + 1 && (#[trigger] m0.face_verts@[faces@[t] as int])@.contains(x as usize) {
                    let t = choose|t: int| 0 <= t < k + 1 && (#[trigger] m0.face_verts@[faces@[t] as int])@.contains(x as usize);
                    if t < k {
                        assert(before[x]);
                    }
                }
            }
        }
        k = k + 1;
    }
    flush(m);
}

// ---------------------------------------------------------------------------
// Box selection of elements
// ---------------------------------------------------------------------------

/// One element of a mesh, by index.
#[derive(Clone, Copy, Debug, PartialEq, Eq, Structural)]
pub enum Elem {
    Vert(usize),
    Edge(usize),
    Face(usize),
}

impl SelMesh {
    /// `e` names an element of this mesh.
    pub open spec fn has_elem(&self, e: Elem) -> bool {
        match e {
            Elem::Vert(v) => v < self.nv(),
            Elem::Edge(i) => i < self.ne(),
            Elem::Face(j) => j < self.nf(),
        }
    }

    pub open spec fn selected_spec(&self, e: Elem) -> bool {
        match e {
            Elem::Vert(v) => self.vsel@[v as int],
            Elem::Edge(i) => self.esel@[i as int],
            Elem::Face(j) => self.fsel@[j as int],
        }
    }

    /// Whether element `e` is selected.
    pub fn is_selected(&self, e: Elem) -> (r: bool)
        requires
            self.wf(),
            self.has_elem(e),
        ensures
            r == self.selected_spec(e),
    {
        match e {
            Elem::Vert(v) => self.vsel[v],
            Elem::Edge(i) => self.esel[i],
            Elem::Face(j) => self.fsel[j],
        }
    }
}

/// Some element of `s` satisfies `p`.
pub open spec fn names(s: Seq<Elem>, p: spec_fn(Elem) -> bool) -> bool {
    exists|t: int| 0 <= t < s.len() && #[trigger] p(s[t])
}

proof fn lemma_names_push(s: Seq<Elem>, e: Elem, p: spec_fn(Elem) -> bool)
    ensures
        names(s.push(e), p) == (names(s, p) || p(e)),
{
    let s1 = s.push(e);
    if names(s, p) {
        let t = choose|t: int| 0 <= t < s.len() && #[trigger] p(s[t]);
        assert(s1[t] == s[t]);
    }
    if p(e) {
        assert(s1[s.len() as int] == e);
    }
    if names(s1, p) {
        let t = choose|t: int| 0 <= t < s1.len() && #[trigger] p(s1[t]);
        if t < s.len() {
            assert(s1[t] == s[t]);
        }
    }
}

/// Vertex `x` is `e`, or ends edge `e`, or belongs to face `e`.
pub open spec fn vert_in(m: SelMesh, e: Elem, x: int) -> bool {
    match e {
        Elem::Vert(v) => v == x,
        Elem::Edge(i) => m.edges@[i as int].0 == x || m.edges@[i as int].1 == x,
        Elem::Face(j) => m.face_verts@[j as int]@.contains(x as usize),
    }
}

/// Edge `x` is `e`, or belongs to face `e`.
pub open spec fn edge_in(m: SelMesh, e: Elem, x: int) -> bool {
    match e {
        Elem::Vert(_) => false,
        Elem::Edge(i) => i == x,
        Elem::Face(j) => m.face_edges@[j as int]@.contains(x as usize),
    }
}

/// Face `x` is `e`.
pub open spec fn face_in(e: Elem, x: int) -> bool {
    e matches Elem::Face(j) && j == x
}

/// `base` with every position `named` set to `on`, and the others cleared
/// when `replace`.
pub open spec fn marked(base: Seq<bool>, named: spec_fn(int) -> bool, on: bool, replace: bool) -> Seq<bool> {
    Seq::new(base.len(), |x: int| if named(x) { on } else if replace { false } else { base[x] })
}

/// What box-selecting `elems` asks of a mesh wired as `m` before the
/// flush: the selection of the vertices, edges and faces `elems` names,
/// with the vertices and edges of named edges and faces, set on (off when
/// `subtract`); with neither flag, everything else is cleared first.
pub open spec fn box_vsel(m: SelMesh, elems: Seq<Elem>, extend: bool, subtract: bool) -> Seq<bool> {
    marked(m.vsel@, |x: int| names(elems, |e: Elem| vert_in(m, e, x)), !subtract, !extend && !subtract)
}

pub open spec fn box_esel(m: SelMesh, elems: Seq<Elem>, extend: bool, subtract: bool) -> Seq<bool> {
    marked(m.esel@, |x: int| names(elems, |e: Elem| edge_in(m, e, x)), !subtract, !extend && !subtract)
}

pub open spec fn box_fsel(m: SelMesh, elems: Seq<Elem>, extend: bool, subtract: bool) -> Seq<bool> {
    marked(m.fsel@, |x: int| names(elems, |e: Elem| face_in(e, x)), !subtract, !extend && !subtract)
}

/// The edit-mode bookkeeping that follows the selection: the elements in
/// the order they were selected, and the active one.
pub struct EditSel {
    pub history: Vec<Elem>,
    pub active: Option<Elem>,
}

fn copy_flags(v: &Vec<bool>) -> (r: Vec<bool>)
    ensures
        r@ == v@,
{
    let mut r: Vec<bool> = Vec::new();
    let mut k: usize = 0;
    while k < v.len()
        invariant
            k <= v@.len(),
            r@ == v@.take(k as int),
        decreases v@.len() - k,
    {
        r.push(v[k]);
        assert(r@ =~= v@.take(k + 1));
        k = k + 1;
    }
    assert(v@.take(v@.len() as int) =~= v@);
    r
}

fn same_flags(a: &Vec<bool>, b: &Vec<bool>) -> (r: bool)
    ensures
        r == (a@ == b@),
{
    if a.len() != b.len() {
        return false;
    }
    let mut k: usize = 0;
    while k < a.len()
        invariant
            a@.len() == b@.len(),
            k <= a@.len(),
            forall|t: int| 0 <= t < k ==> a@[t] == b@[t],
        decreases a@.len() - k,
    {
        if a[k] != b[k] {
            return false;
        }
        k = k + 1;
    }
    assert(a@ =~= b@);
    true
}

/// Set the selection of element `e` and of the vertices and edges it
/// holds to `on`.
fn set_elem(m: &mut SelMesh, e: Elem, on: bool)
    requires
        old(m).wf(),
        old(m).has_elem(e),
    ensures
        final(m).wf(),
        final(m).same_topology(*old(m)),
        forall|x: int| 0 <= x < old(m).nv() ==> #[trigger] final(m).vsel@[x] == (if vert_in(*old(m), e, x) { on } else { old(m).vsel@[x] }),
        forall|x: int| 0 <= x < old(m).ne() ==> #[trigger] final(m).esel@[x] == (if edge_in(*old(m), e, x) { on } else { old(m).esel@[x] }),
        forall|x: int| 0 <= x < old(m).nf() ==> #[trigger] final(m).fsel@[x] == (if face_in(e, x) { on } else { old(m).fsel@[x] }),
{
    let ghost m0 = *m;
    match e {
        Elem::Vert(v) => {
            m.vsel.set(v, on);
        },
        Elem::Edge(i) => {
            let (a, b) = m.edges[i];
            assert(m0.edges@[i as int] == (a, b));
            m.esel.set(i, on);
            m.vsel.set(a, on);
            m.vsel.set(b, on);
        },
        Elem::Face(j) => {
            m.fsel.set(j, on);
            assert forall|k: int| 0 <= k < m.face_verts@[j as int]@.len() implies #[trigger] m.face_verts@[j as int]@[k] < m.vsel@.len() by {
                assert(m0.face_verts@[j as int]@[k] < m0.nv());
            }
            assert forall|k: int| 0 <= k < m.face_edges@[j as int]@.len() implies #[trigger] m.face_edges@[j as int]@[k] < m.esel@.len() by {
                assert(m0.face_edges@[j as int]@[k] < m0.ne());
            }
            mark(&mut m.vsel, &m.face_verts[j], on);
            mark(&mut m.esel, &m.face_edges[j], on);
        },
    }
}

/// Box-select elements of one domain. With neither flag `elems` replaces
/// the selection; `extend` adds them, `subtract` removes them. Vertices
/// (and edges) of chosen edges and faces follow, then the domains are
/// flushed for `mode`. The selection history keeps only what is still
/// selected, and an active element that ended up deselected gives way to
/// the last one left in it. Returns whether the selection changed.
pub fn select_elems(m: &mut SelMesh, edit: &mut EditSel, mode: SelectMode, elems: &[Elem], extend: bool, subtract: bool) -> (r: bool)
    requires
        old(m).wf(),
        forall|k: int| 0 <= k < elems@.len() ==> old(m).has_elem(#[trigger] elems@[k]),
        forall|k: int| 0 <= k < old(edit).history@.len() ==> old(m).has_elem(#[trigger] old(edit).history@[k]),
        old(edit).active matches Some(a) ==> old(m).has_elem(a),
    ensures
        final(m).wf(),
        final(m).same_topology(*old(m)),
        flushed_sel(
            *old(m),
            box_vsel(*old(m), elems@, extend, subtract),
            box_esel(*old(m), elems@, extend, subtract),
            box_fsel(*old(m), elems@, extend, subtract),
            *final(m),
            mode,
        ),
        final(edit).history@ == old(edit).history@.filter(|e: Elem| final(m).selected_spec(e)),
        final(edit).active == (match old(edit).active {
            Some(a) => if final(m).selected_spec(a) {
                Some(a)
            } else if final(edit).history@.len() > 0 {
                Some(final(edit).history@.last())
            } else {
                None
            },
            None => None,
        }),
        r == !(final(m).vsel@ == old(m).vsel@ && final(m).esel@ == old(m).esel@ && final(m).fsel@ == old(m).fsel@),
{
    let ghost m0 = *m;
    let bv = copy_flags(&m.vsel);
    let be = copy_flags(&m.esel);
    let bf = copy_flags(&m.fsel);
    let replace = !extend && !subtract;
    if replace {
        set_all(m, false);
    }
    let on = !subtract;
    let ghost base_v = Seq::new(m0.vsel@.len(), |x: int| if replace { false } else { m0.vsel@[x] });
    let ghost base_e = Seq::new(m0.esel@.len(), |x: int| if replace { false } else { m0.esel@[x] });
    let ghost base_f = Seq::new(m0.fsel@.len(), |x: int| if replace { false } else { m0.fsel@[x] });
    let mut k: usize = 0;
    while k < elems.len()
        invariant
            m0.wf(),
            m.wf(),
            m.same_topology(m0),
            k <= elems@.len(),
            forall|t: int| 0 <= t < elems@.len() ==> m0.has_elem(#[trigger] elems@[t]),
            forall|x: int| 0 <= x < m0.nv() ==> #[trigger] m.vsel@[x] == (if names(elems@.take(k as int), |e: Elem| vert_in(m0, e, x)) { on } else { base_v[x] }),
            forall|x: int| 0 <= x < m0.ne() ==> #[trigger] m.esel@[x] == (if names(elems@.take(k as int), |e: Elem| edge_in(m0, e, x)) { on } else { base_e[x] }),
            forall|x: int| 0 <= x < m0.nf() ==> #[trigger] m.fsel@[x] == (if names(elems@.take(k as int), |e: Elem| face_in(e, x)) { on } else { base_f[x] }),
        decreases elems@.len() - k,
    {
        let e = elems[k];
        let ghost pre = elems@.take(k as int);
        let ghost m1 = *m;
        assert(m.has_elem(e)) by {
            assert(m0.has_elem(elems@[k as int]));
        }
        set_elem(m, e, on);
        proof {
            assert(elems@.take(k + 1) =~= pre.push(e));
            assert forall|x: int| 0 <= x < m0.nv() implies #[trigger] m.vsel@[x] == (if names(elems@.take(k + 1), |e: Elem| vert_in(m0, e, x)) { on } else { base_v[x] }) by {
                lemma_names_push(pre, e, |e: Elem| vert_in(m0, e, x));
                assert(vert_in(m1, e, x) == vert_in(m0, e, x));
            }
            assert forall|x: int| 0 <= x < m0.ne() implies #[trigger] m.esel@[x] == (if names(elems@.take(k + 1), |e: Elem| edge_in(m0, e, x)) { on } else { base_e[x] }) by {
                lemma_names_push(pre, e, |e: Elem| edge_in(m0, e, x));
                assert(edge_in(m1, e, x) == edge_in(m0, e, x));
            }
            assert forall|x: int| 0 <= x < m0.nf() implies #[trigger] m.fsel@[x] == (if names(elems@.take(k + 1), |e: Elem| face_in(e, x)) { on } else { base_f[x] }) by {
                lemma_names_push(pre, e, |e: Elem| face_in(e, x));
            }
        }
        k = k + 1;
    }
    proof {
        assert(elems@.take(elems@.len() as int) =~= elems@);
        assert(m.vsel@ =~= box_vsel(m0, elems@, extend, subtract));
        assert(m.esel@ =~= box_esel(m0, elems@, extend, subtract));
        assert(m.fsel@ =~= box_fsel(m0, elems@, extend, subtract));
    }
    flush_mode(m, mode);
    let ghost mf = *m;
    let mut kept: Vec<Elem> = Vec::new();
    let mut i: usize = 0;
    while i < edit.history.len()
        invariant
            mf == *m,
            m.wf(),
            m.same_topology(m0),
            i <= edit.history@.len(),
            edit.history@ == old(edit).history@,
            forall|t: int| 0 <= t < edit.history@.len() ==> m0.has_elem(#[trigger] edit.history@[t]),
            kept@ == edit.history@.take(i as int).filter(|e: Elem| mf.selected_spec(e)),
        decreases edit.history@.len() - i,
    {
        let e = edit.history[i];
        proof {
            assert(edit.history@.take(i + 1).drop_last() =~= edit.history@.take(i as int));
            assert(m.has_elem(e)) by {
                assert(m0.has_elem(edit.history@[i as int]));
            }
            reveal_with_fuel(Seq::<_>::filter, 1);
        }
        if m.is_selected(e) {
            kept.push(e);
        }
        i = i + 1;
    }
    proof {
        assert(edit.history@.take(i as int) =~= edit.history@);
    }
    let old_active = edit.active;
    match old_active {
        Some(a) => {
            if !m.is_selected(a) {
                edit.active = if kept.len() > 0 { Some(kept[kept.len() - 1]) } else { None };
            }
        },
        None => {},
    }
    edit.history = kept;
    let same = same_flags(&m.vsel, &bv) && same_flags(&m.esel, &be) && same_flags(&m.fsel, &bf);
    !same
}

// ---------------------------------------------------------------------------
// Box selection of objects
// ---------------------------------------------------------------------------

/// The scene's object selection: one flag per object, and the active
/// object.
pub struct ObjSel {
    pub selected: Vec<bool>,
    pub active: Option<usize>,
}

/// The object selection after box-selecting `ids` (ids past the last
/// object are skipped): with neither flag `ids` replaces the selection,
/// `extend` adds them, `subtract` removes them.
pub open spec fn boxed_objects(sel: Seq<bool>, ids: Seq<usize>, extend: bool, subtract: bool) -> Seq<bool> {
    Seq::new(sel.len(), |x: int| if ids.contains(x as usize) { !subtract } else if !extend && !subtract { false } else { sel[x] })
}

/// The first of `ids` that is a selected object in `sel`.
pub open spec fn first_picked(sel: Seq<bool>, ids: Seq<usize>) -> Option<usize>
    decreases ids.len(),
{
    if ids.len() == 0 {
        None
    } else if ids[0] < sel.len() && sel[ids[0] as int] {
        Some(ids[0])
    } else {
        first_picked(sel, ids.drop_first())
    }
}

/// The first selected object in `sel`, from position `from` on.
pub open spec fn first_selected(sel: Seq<bool>, from: int) -> Option<usize>
    decreases sel.len() - from,
{
    if from >= sel.len() || from < 0 {
        None
    } else if sel[from] {
        Some(from as usize)
    } else {
        first_selected(sel, from + 1)
    }
}

/// The active object after a selection change: kept while it is selected;
/// else the first picked object that is selected, else the first selected
/// object, else none.
pub open spec fn next_active(sel: Seq<bool>, ids: Seq<usize>, active: Option<usize>) -> Option<usize> {
    if active matches Some(a) && a < sel.len() && sel[a as int] {
        active
    } else if first_picked(sel, ids) is Some {
        first_picked(sel, ids)
    } else {
        first_selected(sel, 0)
    }
}

fn holds(ids: &[usize], x: usize) -> (r: bool)
    ensures
        r == ids@.contains(x),
{
    let mut k: usize = 0;
    while k < ids.len()
        invariant
            k <= ids@.len(),
            forall|t: int| 0 <= t < k ==> ids@[t] != x,
        decreases ids@.len() - k,
    {
        if ids[k] == x {
            assert(ids@[k as int] == x);
            return true;
        }
        k = k + 1;
    }
    false
}

fn find_picked(sel: &Vec<bool>, ids: &[usize]) -> (r: Option<usize>)
    ensures
        r == first_picked(sel@, ids@),
{
    let mut k: usize = 0;
    assert(ids@.skip(0) =~= ids@);
    while k < ids.len()
        invariant
            k <= ids@.len(),
            first_picked(sel@, ids@) == first_picked(sel@, ids@.skip(k as int)),
        decreases ids@.len() - k,
    {
        let id = ids[k];
        assert(ids@.skip(k as int)[0] == id);
        assert(ids@.skip(k as int).drop_first() =~= ids@.skip(k + 1));
        if id < sel.len() && sel[id] {
            return Some(id);
        }
        k = k + 1;
    }
    assert(ids@.skip(k as int).len() == 0);
    None
}

fn find_selected(sel: &Vec<bool>) -> (r: Option<usize>)
    ensures
        r == first_selected(sel@, 0),
{
    let mut x: usize = 0;
    while x < sel.len()
        invariant
            x <= sel@.len(),
            first_selected(sel@, 0) == first_selected(sel@, x as int),
        decreases sel@.len() - x,
    {
        if sel[x] {
            return Some(x);
        }
        x = x + 1;
    }
    None
}

/// Box-select objects. With neither flag `ids` replaces the selection;
/// `extend` adds them, `subtract` removes them. The active object must stay
/// selected: otherwise it goes to the first picked object that is, else to
/// the first selected object, else to none. Returns whether the selection
/// changed.
pub fn select_objects(s: &mut ObjSel, ids: &[usize], extend: bool, subtract: bool) -> (r: bool)
    ensures
        final(s).selected@ == boxed_objects(old(s).selected@, ids@, extend, subtract),
        final(s).active == next_active(final(s).selected@, ids@, old(s).active),
        r == (final(s).selected@ != old(s).selected@),
{
    let before = copy_flags(&s.selected);
    let ghost s0 = s.selected@;
    let replace = !extend && !subtract;
    let n = s.selected.len();
    if replace {
        let mut x: usize = 0;
        while x < n
            invariant
                n == s0.len(),
                s.active == old(s).active,
                s.selected@.len() == n,
                x <= n,
                forall|t: int| 0 <= t < x ==> #[trigger] s.selected@[t] == (s0[t] && ids@.contains(t as usize)),
                forall|t: int| x <= t < n ==> #[trigger] s.selected@[t] == s0[t],
            decreases n - x,
        {
            if s.selected[x] && !holds(ids, x) {
                s.selected.set(x, false);
            }
            x = x + 1;
        }
    }
    let ghost mid = s.selected@;
    let mut k: usize = 0;
    while k < ids.len()
        invariant
            n == s0.len(),
            s.active == old(s).active,
            s.selected@.len() == n,
            mid.len() == n,
            k <= ids@.len(),
            forall|t: int| 0 <= t < n ==> #[trigger] s.selected@[t] == (if ids@.take(k as int).contains(t as usize) { !subtract } else { mid[t] }),
        decreases ids@.len() - k,
    {
        let id = ids[k];
        let ghost pre = ids@.take(k as int);
        let ghost cur = s.selected@;
        if id < n && s.selected[id] == subtract {
            s.selected.set(id, !subtract);
        }
        proof {
            let full = ids@.take(k + 1);
            assert(full =~= pre.push(id));
            assert forall|t: int| 0 <= t < n implies #[trigger] s.selected@[t] == (if full.contains(t as usize) { !subtract } else { mid[t] }) by {
                if pre.contains(t as usize) {
                    let w = choose|w: int| 0 <= w < pre.len() && pre[w] == t as usize;
                    assert(full[w] == t as usize);
                }
                if t as usize == id {
                    assert(full[k as int] == t as usize);
                } else if full.contains(t as usize) {
                    let w = choose|w: int| 0 <= w < full.len() && full[w] == t as usize;
                    assert(w != k);
                    assert(pre[w] == t as usize);
                }
            }
        }
        k = k + 1;
    }
    proof {
        assert(ids@.take(ids@.len() as int) =~= ids@);
        assert(s.selected@ =~= boxed_objects(s0, ids@, extend, subtract));
    }
    let changed = !same_flags(&s.selected, &before);
    let ghost sel1 = s.selected@;
    let keep = match s.active {
        Some(a) => a < s.selected.len() && s.selected[a],
        None => false,
    };
    assert(keep == (old(s).active matches Some(a) && a < sel1.len() && sel1[a as int]));
    if !keep {
        s.active = match find_picked(&s.selected, ids) {
            Some(p) => Some(p),
            None => find_selected(&s.selected),
        };
    }
    changed
}

} // verus!
