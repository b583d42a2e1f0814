use prism::builtin::select::{flush, flush_mode, invert, select_elems, select_faces, select_verts, set_all, EditSel, Elem, ObjSel, SelMesh};
use prism::builtin::select::select_objects;
use prism::ui::context_menu::SelectMode;

/// Two quads sharing the edge 1-2: verts 0..6, edges 0..7, faces 0 and 1.
fn two_quads() -> SelMesh {
    SelMesh {
        edges: vec![(0, 1), (1, 2), (2, 3), (3, 0), (1, 4), (4, 5), (5, 2)],
        face_verts: vec![vec![0, 1, 2, 3], vec![1, 4, 5, 2]],
        face_edges: vec![vec![0, 1, 2, 3], vec![4, 5, 6, 1]],
        vsel: vec![false; 6],
        esel: vec![false; 7],
        fsel: vec![false; 2],
    }
}

#[test]
fn flush_follows_vertices() {
    let mut m = two_quads();
    m.vsel = vec![true, true, true, true, false, false];
    flush(&mut m);
    assert_eq!(m.esel, vec![true, true, true, true, false, false, false]);
    assert_eq!(m.fsel, vec![true, false]);
    assert_eq!(m.selected_faces(), vec![0]);
    assert_eq!(m.selected_edges(), vec![0, 1, 2, 3]);
    let before = (m.vsel.clone(), m.esel.clone(), m.fsel.clone());
    flush(&mut m);
    assert_eq!((m.vsel.clone(), m.esel.clone(), m.fsel.clone()), before, "flushing twice changes nothing");
}

#[test]
fn edge_mode_leads() {
    let mut m = two_quads();
    m.esel = vec![false, true, false, false, false, false, false];
    m.vsel = vec![true; 6];
    flush_mode(&mut m, SelectMode::Edge);
    assert_eq!(m.selected_verts(), vec![1, 2]);
    assert_eq!(m.esel, vec![false, true, false, false, false, false, false], "edges are kept");
    assert_eq!(m.fsel, vec![false, false]);
    m.esel = vec![true, true, true, true, false, false, false];
    flush_mode(&mut m, SelectMode::Edge);
    assert_eq!(m.fsel, vec![true, false]);
    assert_eq!(m.selected_verts(), vec![0, 1, 2, 3]);
}

#[test]
fn face_mode_leads() {
    let mut m = two_quads();
    m.fsel = vec![false, true];
    flush_mode(&mut m, SelectMode::Face);
    assert_eq!(m.selected_verts(), vec![1, 2, 4, 5]);
    assert_eq!(m.selected_edges(), vec![1, 4, 5, 6]);
    assert_eq!(m.fsel, vec![false, true]);
    flush_mode(&mut m, SelectMode::Vertex);
    assert_eq!(m.fsel, vec![false, true]);
}

#[test]
fn selecting_faces_and_verts() {
    let mut m = two_quads();
    set_all(&mut m, true);
    select_faces(&mut m, &[0]);
    assert_eq!(m.selected_verts(), vec![0, 1, 2, 3]);
    assert_eq!(m.fsel, vec![true, false]);
    select_verts(&mut m, &[0, 99], false);
    assert_eq!(m.selected_verts(), vec![1, 2, 3]);
    assert_eq!(m.fsel, vec![false, false]);
    assert_eq!(m.selected_edges(), vec![1, 2]);
    invert(&mut m);
    assert_eq!(m.selected_verts(), vec![0, 4, 5]);
    assert_eq!(m.selected_edges(), vec![5]);
    assert!(m.any_selected());
    set_all(&mut m, false);
    assert!(!m.any_selected());
    assert!(m.selected_faces().is_empty());
}

#[test]
fn box_select_elements() {
    let mut m = two_quads();
    let mut edit = EditSel { history: vec![], active: None };
    assert!(select_elems(&mut m, &mut edit, SelectMode::Face, &[Elem::Face(0)], false, false));
    assert_eq!(m.fsel, vec![true, false]);
    assert_eq!(m.selected_verts(), vec![0, 1, 2, 3]);
    assert!(m.is_selected(Elem::Edge(1)));
    assert!(!select_elems(&mut m, &mut edit, SelectMode::Face, &[Elem::Face(0)], true, false), "nothing new");
    // Extending by the other face keeps the first.
    edit = EditSel { history: vec![Elem::Face(0), Elem::Face(1)], active: Some(Elem::Face(1)) };
    assert!(select_elems(&mut m, &mut edit, SelectMode::Face, &[Elem::Face(1)], true, false));
    assert_eq!(m.fsel, vec![true, true]);
    // Subtracting face 1 prunes it from the history and hands on the active element.
    assert!(select_elems(&mut m, &mut edit, SelectMode::Face, &[Elem::Face(1)], false, true));
    assert_eq!(m.fsel, vec![true, false]);
    assert_eq!(edit.history, vec![Elem::Face(0)]);
    assert_eq!(edit.active, Some(Elem::Face(0)));
    assert_eq!(m.selected_verts(), vec![0, 1, 2, 3], "face mode keeps the shared edge's vertices with face 0");
    // Replacing in vertex mode: an edge brings its two vertices.
    let mut edit = EditSel { history: vec![Elem::Vert(0)], active: Some(Elem::Vert(0)) };
    assert!(select_elems(&mut m, &mut edit, SelectMode::Vertex, &[Elem::Edge(5)], false, false));
    assert_eq!(m.selected_verts(), vec![4, 5]);
    assert_eq!(m.selected_edges(), vec![5]);
    assert!(m.selected_faces().is_empty());
    assert!(edit.history.is_empty());
    assert_eq!(edit.active, None);
}

fn cube() -> SelMesh {
    SelMesh {
        edges: vec![(0, 1), (1, 2), (2, 3), (3, 0), (4, 5), (5, 6), (6, 7), (7, 4), (0, 4), (1, 5), (2, 6), (3, 7)],
        face_verts: vec![vec![0, 1, 2, 3], vec![4, 5, 6, 7], vec![0, 1, 5, 4], vec![1, 2, 6, 5], vec![2, 3, 7, 6], vec![3, 0, 4, 7]],
        face_edges: vec![vec![0, 1, 2, 3], vec![4, 5, 6, 7], vec![0, 9, 4, 8], vec![1, 10, 5, 9], vec![2, 11, 6, 10], vec![3, 8, 7, 11]],
        vsel: vec![false; 8],
        esel: vec![false; 12],
        fsel: vec![false; 6],
    }
}

#[test]
fn box_select_objects_replaces_extends_subtracts() {
    // The starter scene: a cube and a light, nothing selected.
    let (cube, light) = (0usize, 1usize);
    let mut doc = ObjSel { selected: vec![false, false], active: None };
    assert!(select_objects(&mut doc, &[cube], false, false));
    assert!(doc.selected[cube] && doc.active == Some(cube));
    assert!(!select_objects(&mut doc, &[cube], false, false), "nothing changed");
    assert!(select_objects(&mut doc, &[light], true, false));
    assert_eq!(doc.selected.iter().filter(|s| **s).count(), 2);
    assert!(select_objects(&mut doc, &[cube], false, true));
    assert_eq!(doc.selected, vec![false, true]);
    assert_eq!(doc.active, Some(light), "active follows when the old one goes");
    assert!(select_objects(&mut doc, &[], false, false), "an empty box clears");
    assert_eq!(doc.selected, vec![false, false]);
    assert_eq!(doc.active, None);
}

#[test]
fn box_select_faces_flushes_and_prunes_active() {
    let mut m = cube();
    let mut edit = EditSel { history: vec![Elem::Face(0)], active: Some(Elem::Face(0)) };
    assert!(select_elems(&mut m, &mut edit, SelectMode::Face, &[Elem::Face(1)], false, false));
    assert_eq!(m.selected_faces(), vec![1]);
    assert_eq!(m.selected_verts().len(), 4);
    assert_eq!(edit.active, None, "the old active face is no longer selected");
    assert!(select_elems(&mut m, &mut edit, SelectMode::Face, &[Elem::Face(0)], true, false));
    assert_eq!(m.selected_faces().len(), 2);
    assert!(select_elems(&mut m, &mut edit, SelectMode::Face, &[Elem::Face(1)], false, true));
    assert_eq!(m.selected_faces(), vec![0]);
    assert!(!select_elems(&mut m, &mut edit, SelectMode::Face, &[], true, false), "extend with nothing: no change");
}
