//! Interaction modes, the panel-hover flag that gates pointer gestures, and
//! the edit panel's delete action.

use vstd::prelude::*;
use crate::editor::Editor;
use crate::scene::GraphSelection;

verus! {

/// The editor's top-level interaction mode.  Only `Edit` admits the
/// edge-creation gesture; `Interact` suppresses dragging.
#[derive(Clone, Copy, PartialEq, Eq, Structural, Debug)]
pub enum Mode {
    Edit,
    Settings,
    SaveLoad,
    Interact,
}

impl Default for Mode {
    /// The editor starts in `Edit` mode.
    fn default() -> (m: Mode)
        ensures
            m == Mode::Edit,
    {
        Mode::Edit
    }
}

/// Whether the pointer currently hovers a UI panel; pointer gestures are
/// suppressed while it does.
#[derive(Clone, Copy, PartialEq, Eq, Structural, Debug)]
pub struct EguiHover(pub bool);

impl Default for EguiHover {
    fn default() -> (h: EguiHover)
        ensures
            h == (EguiHover(false)),
    {
        EguiHover(false)
    }
}

/// Run condition for the pointer gestures: true when the cursor is not over
/// a UI panel.
pub fn egui_unfocused(egui_hover: &EguiHover) -> (r: bool)
    ensures
        r == !egui_hover.0,
{
    !egui_hover.0
}

/// The edit panel's delete action: destroy the selected element's visual
/// object, queue the matching graph mutation for the next synchronization
/// pass, and clear the selection.  A vertex spawned in the same cycle, which
/// the graph has never seen, simply forgets its pending insertion.  With no
/// selection, nothing happens.
pub fn delete_selected(ed: &mut Editor)
    requires
        old(ed).inv(),
    ensures
        final(ed).inv(),
        final(ed).selection is None,
        final(ed).graph == old(ed).graph,
        final(ed).cursor_node_diff == old(ed).cursor_node_diff,
        final(ed).creation_line == old(ed).creation_line,
        final(ed).builders@ == old(ed).builders@,
        final(ed).moved_vertices@ == old(ed).moved_vertices@,
        final(ed).next_id == old(ed).next_id,
        match old(ed).selection {
            None => final(ed).scene == old(ed).scene && final(ed).added_vertices@ == old(ed).added_vertices@ && final(ed).removed_vertices@ == old(ed).removed_vertices@ && final(ed).removed_edges@ == old(ed).removed_edges@,
            Some(GraphSelection::Vertex(v)) => {
                &&& final(ed).scene.edges@ == old(ed).scene.edges@
                &&& final(ed).removed_edges@ == old(ed).removed_edges@
                &&& !final(ed).scene.has_v(v)
                &&& forall|x: u64| x != v ==> (final(ed).scene.has_v(x) <==> old(ed).scene.has_v(x))
                &&& forall|x: u64| x != v && old(ed).scene.has_v(x) ==> final(ed).scene.v_bundle(x) == old(ed).scene.v_bundle(x)
                &&& if old(ed).scene.has_v(v) {
                    if old(ed).added_vertices@.contains(v) {
                        &&& !final(ed).added_vertices@.contains(v)
                        &&& forall|x: u64| x != v ==> (final(ed).added_vertices@.contains(x) <==> old(ed).added_vertices@.contains(x))
                        &&& final(ed).removed_vertices@ == old(ed).removed_vertices@
                    } else {
                        &&& final(ed).added_vertices@ == old(ed).added_vertices@
                        &&& final(ed).removed_vertices@ == old(ed).removed_vertices@.push(v)
                    }
                } else {
                    &&& final(ed).scene == old(ed).scene
                    &&& final(ed).added_vertices@ == old(ed).added_vertices@
                    &&& final(ed).removed_vertices@ == old(ed).removed_vertices@
                }
            },
            Some(GraphSelection::Edge(e)) => {
                &&& final(ed).scene.vertices@ == old(ed).scene.vertices@
                &&& final(ed).added_vertices@ == old(ed).added_vertices@
                &&& final(ed).removed_vertices@ == old(ed).removed_vertices@
                &&& !final(ed).scene.has_e(e)
                &&& forall|x: u64| x != e ==> (final(ed).scene.has_e(x) <==> old(ed).scene.has_e(x))
                &&& forall|x: u64| x != e && old(ed).scene.has_e(x) ==> final(ed).scene.e_line(x) == old(ed).scene.e_line(x)
                &&& if old(ed).scene.has_e(e) {
                    final(ed).removed_edges@ == old(ed).removed_edges@.push(e)
                } else {
                    final(ed).scene == old(ed).scene && final(ed).removed_edges@ == old(ed).removed_edges@
                }
            },
        },
{
    let sel = ed.selection;
    match sel {
        None => {},
        Some(GraphSelection::Vertex(v)) => {
            match ed.scene.vertex_index(v) {
                None => {},
                Some(_) => {
                    ed.scene.remove_vertex_visual(v);
                    if crate::graph::vec_contains(&ed.added_vertices, v) {
                        crate::graph::vec_remove_value(&mut ed.added_vertices, v);
                        proof {
                            assert(!old(ed).graph.vertices().contains(v)) by {
                                let j = choose|j: int| 0 <= j < old(ed).added_vertices@.len() && old(ed).added_vertices@[j] == v;
                                assert(!old(ed).graph.vertices().contains(old(ed).added_vertices@[j]));
                            }
                            crate::scene::lemma_same_edges(ed.scene, old(ed).scene);
                            assert forall|i2: int| 0 <= i2 < ed.added_vertices@.len() implies #[trigger] ed.added_vertices@[i2] < ed.next_id && ed.scene.has_v(ed.added_vertices@[i2]) && !ed.graph.vertices().contains(ed.added_vertices@[i2]) by {
                                let x = ed.added_vertices@[i2];
                                assert(ed.added_vertices@.contains(x));
                                assert(x != v);
                                assert(old(ed).added_vertices@.contains(x));
                                let j = choose|j: int| 0 <= j < old(ed).added_vertices@.len() && old(ed).added_vertices@[j] == x;
                                assert(old(ed).added_vertices@[j] < old(ed).next_id);
                                assert(old(ed).scene.has_v(old(ed).added_vertices@[j]));
                                assert(!old(ed).graph.vertices().contains(old(ed).added_vertices@[j]));
                            }
                        }
                    } else {
                        ed.removed_vertices.push(v);
                        proof {
                            crate::scene::lemma_same_edges(ed.scene, old(ed).scene);
                            assert(old(ed).scene.has_v(v));
                            assert(old(ed).graph.vertices().contains(v));
                            let q0 = old(ed).removed_vertices@;
                            assert(forall|i2: int| 0 <= i2 < q0.len() ==> #[trigger] ed.removed_vertices@[i2] == q0[i2]);
                            assert(ed.removed_vertices@[q0.len() as int] == v);
                            assert(!q0.contains(v)) by {
                                if q0.contains(v) {
                                    let j = choose|j: int| 0 <= j < q0.len() && q0[j] == v;
                                    assert(!old(ed).scene.has_v(old(ed).removed_vertices@[j]));
                                }
                            }
                            assert forall|i2: int, j2: int| #![trigger ed.removed_vertices@[i2], ed.removed_vertices@[j2]] 0 <= i2 < j2 < ed.removed_vertices@.len() implies ed.removed_vertices@[i2] != ed.removed_vertices@[j2] by {
                                if j2 == q0.len() {
                                    assert(q0.contains(q0[i2]));
                                } else {
                                    assert(q0[i2] != q0[j2]);
                                }
                            }
                            assert forall|i2: int| 0 <= i2 < ed.removed_vertices@.len() implies #[trigger] ed.removed_vertices@[i2] < ed.next_id && !ed.scene.has_v(ed.removed_vertices@[i2]) by {
                                if i2 < q0.len() {
                                    assert(old(ed).removed_vertices@[i2] < old(ed).next_id);
                                    assert(!old(ed).scene.has_v(old(ed).removed_vertices@[i2]));
                                } else {
                                    assert(ed.removed_vertices@[i2] == v);
                                    let k = choose|k: int| 0 <= k < old(ed).scene.vertices@.len() && (#[trigger] old(ed).scene.vertices@[k]).0 == v;
                                    assert(old(ed).scene.vertices@[k].0 < old(ed).next_id);
                                }
                            }
                            assert forall|i2: int| 0 <= i2 < ed.added_vertices@.len() implies #[trigger] ed.added_vertices@[i2] < ed.next_id && ed.scene.has_v(ed.added_vertices@[i2]) && !ed.graph.vertices().contains(ed.added_vertices@[i2]) by {
                                let x = ed.added_vertices@[i2];
                                assert(old(ed).added_vertices@[i2] == x);
                                assert(old(ed).added_vertices@[i2] < old(ed).next_id);
                                assert(old(ed).scene.has_v(old(ed).added_vertices@[i2]));
                                assert(!old(ed).graph.vertices().contains(old(ed).added_vertices@[i2]));
                                assert(x != v) by {
                                    assert(ed.added_vertices@.contains(x));
                                    assert(old(ed).added_vertices@.contains(x));
                                }
                            }
                            assert forall|id: u64| #[trigger] ed.graph.vertices().contains(id) implies ((ed.scene.has_v(id) && !ed.added_vertices@.contains(id)) || ed.removed_vertices@.contains(id)) by {
                                assert(old(ed).graph.vertices().contains(id));
                                if id == v {
                                    assert(ed.removed_vertices@[q0.len() as int] == v);
                                    assert(ed.removed_vertices@.contains(v));
                                } else {
                                    if old(ed).removed_vertices@.contains(id) {
                                        let j = choose|j: int| 0 <= j < q0.len() && q0[j] == id;
                                        assert(ed.removed_vertices@[j] == id);
                                        assert(ed.removed_vertices@.contains(id));
                                    } else {
                                        assert(old(ed).scene.has_v(id) && !old(ed).added_vertices@.contains(id));
                                        assert(ed.scene.has_v(id));
                                    }
                                }
                            }
                            assert forall|id: u64| #[trigger] ed.scene.has_v(id) && !ed.added_vertices@.contains(id) implies ed.graph.vertices().contains(id) by {
                                assert(id != v);
                                assert(old(ed).scene.has_v(id));
                            }
                        }
                    }
                },
            }
            ed.selection = None;
        },
        Some(GraphSelection::Edge(e)) => {
            match ed.scene.edge_index(e) {
                None => {},
                Some(_) => {
                    ed.scene.remove_edge_visual(e);
                    ed.removed_edges.push(e);
                    proof {
                        crate::scene::lemma_same_vertices(ed.scene, old(ed).scene);
                        assert(old(ed).scene.has_e(e));
                        assert(old(ed).graph.edges().dom().contains(e));
                        let q0 = old(ed).removed_edges@;
                        assert(forall|i2: int| 0 <= i2 < q0.len() ==> #[trigger] ed.removed_edges@[i2] == q0[i2]);
                        assert(ed.removed_edges@[q0.len() as int] == e);
                        assert forall|i2: int| 0 <= i2 < ed.removed_edges@.len() implies #[trigger] ed.removed_edges@[i2] < ed.next_id && !ed.scene.has_e(ed.removed_edges@[i2]) by {
                            if i2 < q0.len() {
                                assert(old(ed).removed_edges@[i2] < old(ed).next_id);
                                assert(!old(ed).scene.has_e(old(ed).removed_edges@[i2]));
                            } else {
                                assert(ed.removed_edges@[i2] == e);
                                let k = choose|k: int| 0 <= k < old(ed).scene.edges@.len() && (#[trigger] old(ed).scene.edges@[k]).0 == e;
                                assert(old(ed).scene.edges@[k].0 < old(ed).next_id);
                            }
                        }
                        assert forall|x: u64| #[trigger] ed.scene.has_e(x) implies ed.graph.edges().dom().contains(x) by {
                            assert(old(ed).scene.has_e(x));
                            assert(old(ed).graph.edges().dom().contains(x));
                        }
                        assert forall|x: u64| #[trigger] ed.graph.edges().dom().contains(x) implies (ed.scene.has_e(x) || ed.removed_edges@.contains(x)) by {
                            assert(old(ed).graph.edges().dom().contains(x));
                            if x == e {
                                assert(ed.removed_edges@[q0.len() as int] == e);
                                assert(ed.removed_edges@.contains(e));
                            } else {
                                if !old(ed).scene.has_e(x) {
                                    assert(old(ed).removed_edges@.contains(x));
                                    let j = choose|j: int| 0 <= j < q0.len() && q0[j] == x;
                                    assert(ed.removed_edges@[j] == x);
                                }
                            }
                        }
                        assert forall|i2: int| 0 <= i2 < ed.builders@.len() implies !ed.graph.edges().dom().contains((#[trigger] ed.builders@[i2]).0) && !ed.scene.has_e(ed.builders@[i2].0) && !ed.removed_edges@.contains(ed.builders@[i2].0) by {
                            let b = ed.builders@[i2].0;
                            assert(old(ed).builders@[i2] == ed.builders@[i2]);
                            assert(!old(ed).graph.edges().dom().contains(old(ed).builders@[i2].0) && !old(ed).scene.has_e(old(ed).builders@[i2].0) && !old(ed).removed_edges@.contains(old(ed).builders@[i2].0));
                            if ed.removed_edges@.contains(b) {
                                let j = choose|j: int| 0 <= j < ed.removed_edges@.len() && ed.removed_edges@[j] == b;
                                if j < q0.len() {
                                    assert(q0.contains(b));
                                } else {
                                    assert(b == e);
                                }
                            }
                        }
                    }
                },
            }
            ed.selection = None;
        },
    }
}

} // verus!
