//! The graph-to-visual synchronization pass, run once per cycle after the
//! gesture systems, in a fixed order: vertex lifecycle, edge-creation
//! commit, position propagation, edge removal.  Each handler drains one of
//! the editor's pending-event queues.

use vstd::prelude::*;
use crate::geometry::Point;
use crate::graph::Graph;
use crate::graph::canonical_pair;
use crate::scene::Scene;
use crate::scene::Edge;
use crate::scene::EdgeBuilder;
use crate::scene::GraphSelection;
use crate::editor::Editor;

verus! {

/// A prefix extended by one element holds exactly its values plus that
/// element.
pub proof fn lemma_take_succ(s: Seq<u64>, k: int)
    requires
        0 <= k < s.len(),
    ensures
        forall|x: u64|
            #[trigger] s.take(k + 1).contains(x) <==> s.take(k).contains(x) || s[k] == x,
{
    assert forall|x: u64|
        #[trigger] s.take(k + 1).contains(x) <==> s.take(k).contains(x) || s[k] == x by {
        if s.take(k + 1).contains(x) {
            let j = choose|j: int| 0 <= j < k + 1 && #[trigger] s.take(k + 1)[j] == x;
            if j < k {
                assert(s.take(k)[j] == x);
            }
        }
        if s.take(k).contains(x) {
            let j = choose|j: int| 0 <= j < k && #[trigger] s.take(k)[j] == x;
            assert(s.take(k + 1)[j] == x);
        }
        if s[k] == x {
            assert(s.take(k + 1)[k] == x);
        }
    }
}

/// Edge `e` is incident, in graph `g`, to at least one of the vertices `vs`.
pub open spec fn incident_to_any(g: Graph, vs: Seq<u64>, e: u64) -> bool {
    exists|k: int| 0 <= k < vs.len() && g.incident_to(#[trigger] vs[k]).contains(e)
}

/// Extending the vertex list by one extends the incident edges by that
/// vertex's incident set.
pub proof fn lemma_incident_any_succ(g: Graph, vs: Seq<u64>, r: int)
    requires
        0 <= r < vs.len(),
    ensures
        forall|e: u64|
            #[trigger] incident_to_any(g, vs.take(r + 1), e) <==> incident_to_any(g, vs.take(r), e)
                || g.incident_to(vs[r]).contains(e),
{
    assert forall|e: u64|
        #[trigger] incident_to_any(g, vs.take(r + 1), e) <==> incident_to_any(g, vs.take(r), e)
            || g.incident_to(vs[r]).contains(e) by {
        if incident_to_any(g, vs.take(r + 1), e) {
            let k = choose|k: int|
                0 <= k < r + 1 && g.incident_to(#[trigger] vs.take(r + 1)[k]).contains(e);
            if k < r {
                assert(vs.take(r)[k] == vs.take(r + 1)[k]);
                assert(g.incident_to(vs.take(r)[k]).contains(e));
            } else {
                assert(vs.take(r + 1)[k] == vs[r]);
            }
        }
        if incident_to_any(g, vs.take(r), e) {
            let k = choose|k: int| 0 <= k < r && g.incident_to(#[trigger] vs.take(r)[k]).contains(e);
            assert(vs.take(r + 1)[k] == vs.take(r)[k]);
            assert(g.incident_to(vs.take(r + 1)[k]).contains(e));
        }
        if g.incident_to(vs[r]).contains(e) {
            assert(vs.take(r + 1)[r] == vs[r]);
            assert(g.incident_to(vs.take(r + 1)[r]).contains(e));
        }
    }
}

/// Drain the vertex lifecycle queues: register freshly spawned vertices in
/// the graph; for each despawned vertex, destroy the visuals of its incident
/// edges (queueing them for graph removal) and then remove it from the graph
/// with its cascade.  A selection pointing at a removed vertex or at one of
/// the destroyed edges is cleared.
pub fn on_vertex_change(ed: &mut Editor)
    requires
        old(ed).inv(),
    ensures
        final(ed).inv(),
        final(ed).added_vertices@.len() == 0,
        final(ed).removed_vertices@.len() == 0,
        final(ed).scene.vertices@ == old(ed).scene.vertices@,
        forall|x: u64| #[trigger] final(ed).graph.vertices().contains(x) <==> (old(ed).graph.vertices().contains(x) && !old(ed).removed_vertices@.contains(x)) || old(ed).added_vertices@.contains(x),
        forall|x: u64| #[trigger] final(ed).graph.edges().dom().contains(x) <==> old(ed).graph.edges().dom().contains(x) && !incident_to_any(old(ed).graph, old(ed).removed_vertices@, x),
        forall|x: u64| #[trigger] final(ed).graph.edges().dom().contains(x) ==> final(ed).graph.edges()[x] == old(ed).graph.edges()[x],
        forall|x: u64| #[trigger] final(ed).scene.has_e(x) <==> old(ed).scene.has_e(x) && !incident_to_any(old(ed).graph, old(ed).removed_vertices@, x),
        forall|x: u64| #[trigger] final(ed).scene.has_e(x) ==> final(ed).scene.e_line(x) == old(ed).scene.e_line(x),
        forall|x: u64| #[trigger] final(ed).removed_edges@.contains(x) <==> old(ed).removed_edges@.contains(x) || incident_to_any(old(ed).graph, old(ed).removed_vertices@, x),
        final(ed).selection == (match old(ed).selection {
            Some(GraphSelection::Vertex(v)) => if old(ed).removed_vertices@.contains(v) { Option::<GraphSelection>::None } else { old(ed).selection },
            Some(GraphSelection::Edge(e)) => if incident_to_any(old(ed).graph, old(ed).removed_vertices@, e) { Option::<GraphSelection>::None } else { old(ed).selection },
            None => Option::<GraphSelection>::None,
        }),
        final(ed).moved_vertices@ == old(ed).moved_vertices@,
        final(ed).builders@ == old(ed).builders@,
        final(ed).cursor_node_diff == old(ed).cursor_node_diff,
        final(ed).creation_line == old(ed).creation_line,
        final(ed).next_id == old(ed).next_id,
{
    let ghost added = old(ed).added_vertices@;
    let ghost removed = old(ed).removed_vertices@;
    let ghost g0 = old(ed).graph;
    let mut i: usize = 0;
    while i < ed.added_vertices.len()
        invariant
            old(ed).inv(),
            added == old(ed).added_vertices@,
            removed == old(ed).removed_vertices@,
            g0 == old(ed).graph,
            ed.graph.wf(),
            ed.scene == old(ed).scene,
            ed.added_vertices@ == added,
            ed.removed_vertices@ == removed,
            ed.moved_vertices@ == old(ed).moved_vertices@,
            ed.builders@ == old(ed).builders@,
            ed.removed_edges@ == old(ed).removed_edges@,
            ed.selection == old(ed).selection,
            ed.cursor_node_diff == old(ed).cursor_node_diff,
            ed.creation_line == old(ed).creation_line,
            ed.next_id == old(ed).next_id,
            0 <= i <= added.len(),
            forall|x: u64| #[trigger] ed.graph.vertices().contains(x) <==> g0.vertices().contains(x) || added.take(i as int).contains(x),
            ed.graph.edges() == g0.edges(),
        decreases added.len() - i,
    {
        let v = ed.added_vertices[i];
        proof {
            if added.take(i as int).contains(v) {
                let j = choose|j: int| 0 <= j < i && #[trigger] added.take(i as int)[j] == v;
                assert(added[j] == v);
                assert(added[i as int] == v);
            }
            assert(!g0.vertices().contains(v)) by {
                assert(old(ed).added_vertices@[i as int] == v);
            }
        }
        ed.graph.insert_vertex(v);
        proof {
            lemma_take_succ(added, i as int);
        }
        i += 1;
    }
    proof {
        assert(added.take(added.len() as int) =~= added);
    }
    let ghost g1 = ed.graph;
    let mut r: usize = 0;
    while r < ed.removed_vertices.len()
        invariant
            old(ed).inv(),
            added == old(ed).added_vertices@,
            removed == old(ed).removed_vertices@,
            g0 == old(ed).graph,
            forall|x: u64| #[trigger] g1.vertices().contains(x) <==> g0.vertices().contains(x) || added.contains(x),
            g1.edges() == g0.edges(),
            ed.graph.wf(),
            ed.scene.wf(),
            ed.scene.vertices@ == old(ed).scene.vertices@,
            ed.added_vertices@ == added,
            ed.removed_vertices@ == removed,
            ed.moved_vertices@ == old(ed).moved_vertices@,
            ed.builders@ == old(ed).builders@,
            ed.cursor_node_diff == old(ed).cursor_node_diff,
            ed.creation_line == old(ed).creation_line,
            ed.next_id == old(ed).next_id,
            0 <= r <= removed.len(),
            forall|x: u64| #[trigger] ed.graph.vertices().contains(x) <==> g1.vertices().contains(x) && !removed.take(r as int).contains(x),
            forall|x: u64| #[trigger] ed.graph.edges().dom().contains(x) <==> g0.edges().dom().contains(x) && !incident_to_any(g0, removed.take(r as int), x),
            forall|x: u64| #[trigger] ed.graph.edges().dom().contains(x) ==> ed.graph.edges()[x] == g0.edges()[x],
            forall|x: u64| #[trigger] ed.scene.has_e(x) <==> old(ed).scene.has_e(x) && !incident_to_any(g0, removed.take(r as int), x),
            forall|x: u64| #[trigger] ed.scene.has_e(x) ==> ed.scene.e_line(x) == old(ed).scene.e_line(x),
            forall|x: u64| #[trigger] ed.removed_edges@.contains(x) <==> old(ed).removed_edges@.contains(x) || incident_to_any(g0, removed.take(r as int), x),
            forall|k: int| 0 <= k < ed.removed_edges@.len() ==> #[trigger] ed.removed_edges@[k] < ed.next_id,
            ed.selection == (match old(ed).selection {
                Some(GraphSelection::Vertex(v)) => if removed.take(r as int).contains(v) { Option::<GraphSelection>::None } else { old(ed).selection },
                Some(GraphSelection::Edge(e)) => if incident_to_any(g0, removed.take(r as int), e) { Option::<GraphSelection>::None } else { old(ed).selection },
                None => Option::<GraphSelection>::None,
            }),
        decreases removed.len() - r,
    {
        let v = ed.removed_vertices[r];
        let ev = ed.graph.iter_edges(&v);
        let ghost g_cur = ed.graph;
        let ghost scene_r = ed.scene;
        let ghost q_r = ed.removed_edges@;
        let ghost sel_r = ed.selection;
        proof {
            // Facts about the captured ghosts that survive the inner loop.
            assert(g_cur.wf());
            assert forall|x: u64| #[trigger] g_cur.edges().dom().contains(x) implies x < old(ed).next_id by {
                assert(ed.graph.edges().dom().contains(x));
                assert(g0.edges().dom().contains(x));
                assert(old(ed).graph.edges().dom().contains(x));
            }
            assert forall|x: u64| #[trigger] scene_r.has_e(x) <==> (old(ed).scene.has_e(x) && !incident_to_any(g0, removed.take(r as int), x)) by {
                assert(scene_r.has_e(x) == ed.scene.has_e(x));
                if ed.scene.has_e(x) {
                }
                if old(ed).scene.has_e(x) && !incident_to_any(g0, removed.take(r as int), x) {
                    assert(ed.scene.has_e(x));
                }
            }
            assert forall|x: u64| #[trigger] scene_r.has_e(x) implies scene_r.e_line(x) == old(ed).scene.e_line(x) by {
                assert(ed.scene.has_e(x));
                assert(ed.scene.e_line(x) == old(ed).scene.e_line(x));
            }
            assert forall|x: u64| #[trigger] q_r.contains(x) <==> (old(ed).removed_edges@.contains(x) || incident_to_any(g0, removed.take(r as int), x)) by {
                assert(q_r.contains(x) == ed.removed_edges@.contains(x));
            }
            assert forall|x: u64| #[trigger] g_cur.edges().dom().contains(x) <==> (g0.edges().dom().contains(x) && !incident_to_any(g0, removed.take(r as int), x)) by {
                assert(g_cur.edges().dom().contains(x) == ed.graph.edges().dom().contains(x));
                if g0.edges().dom().contains(x) && !incident_to_any(g0, removed.take(r as int), x) {
                    assert(ed.graph.edges().dom().contains(x));
                }
            }
            assert forall|x: u64| #[trigger] g_cur.edges().dom().contains(x) implies g_cur.edges()[x] == g0.edges()[x] by {
                assert(ed.graph.edges().dom().contains(x));
            }
            assert forall|x: u64| #[trigger] g_cur.vertices().contains(x) <==> (g1.vertices().contains(x) && !removed.take(r as int).contains(x)) by {
                assert(g_cur.vertices().contains(x) == ed.graph.vertices().contains(x));
                if g1.vertices().contains(x) && !removed.take(r as int).contains(x) {
                    assert(ed.graph.vertices().contains(x));
                }
            }
            assert(sel_r == (match old(ed).selection {
                Some(GraphSelection::Vertex(v2)) => if removed.take(r as int).contains(v2) { Option::<GraphSelection>::None } else { old(ed).selection },
                Some(GraphSelection::Edge(e2)) => if incident_to_any(g0, removed.take(r as int), e2) { Option::<GraphSelection>::None } else { old(ed).selection },
                None => Option::<GraphSelection>::None,
            }));
        }
        let mut t: usize = 0;
        while t < ev.len()
            invariant
                g_cur.wf(),
                scene_r.wf(),
                ed.graph == g_cur,
                ed.scene.wf(),
                ed.scene.vertices@ == scene_r.vertices@,
                ev@ == if g_cur.vertices().contains(v) { g_cur.adj(v) } else { Seq::<u64>::empty() },
                forall|x: u64| #[trigger] g_cur.edges().dom().contains(x) ==> x < ed.next_id,
                ed.added_vertices@ == added,
                ed.removed_vertices@ == removed,
                ed.moved_vertices@ == old(ed).moved_vertices@,
                ed.builders@ == old(ed).builders@,
                ed.cursor_node_diff == old(ed).cursor_node_diff,
                ed.creation_line == old(ed).creation_line,
                ed.next_id == old(ed).next_id,
                0 <= t <= ev@.len(),
                forall|x: u64| #[trigger] ed.scene.has_e(x) <==> scene_r.has_e(x) && !ev@.take(t as int).contains(x),
                forall|x: u64| #[trigger] ed.scene.has_e(x) ==> ed.scene.e_line(x) == scene_r.e_line(x),
                forall|x: u64| #[trigger] ed.removed_edges@.contains(x) <==> q_r.contains(x) || ev@.take(t as int).contains(x),
                forall|k: int| 0 <= k < ed.removed_edges@.len() ==> #[trigger] ed.removed_edges@[k] < ed.next_id,
                ed.selection == (match sel_r {
                    Some(GraphSelection::Edge(e)) => if ev@.take(t as int).contains(e) { Option::<GraphSelection>::None } else { sel_r },
                    _ => sel_r,
                }),
            decreases ev@.len() - t,
        {
            let e = ev[t];
            proof {
                assert(g_cur.vertices().contains(v));
                assert(g_cur.adj(v)[t as int] == e);
                assert(g_cur.adj(v).contains(e));
                crate::graph::lemma_adj_member(g_cur, v, e);
            }
            let clear = match ed.selection {
                Some(GraphSelection::Edge(se)) => se == e,
                _ => false,
            };
            if clear {
                ed.selection = None;
            }
            ed.scene.remove_edge_visual(e);
            let ghost q_prev = ed.removed_edges@;
            ed.removed_edges.push(e);
            proof {
                lemma_take_succ(ev@, t as int);
                assert(ev@.take(t as int + 1).contains(e)) by {
                    assert(ev@[t as int] == e);
                }
                let qn = ed.removed_edges@;
                assert(qn == q_prev.push(e));
                assert forall|x: u64| #[trigger] qn.contains(x) implies (q_prev.contains(x) || x == e) by {
                    let k = choose|k: int| 0 <= k < qn.len() && qn[k] == x;
                    if k < q_prev.len() {
                        assert(q_prev[k] == x);
                    }
                }
                assert forall|x: u64| q_prev.contains(x) implies #[trigger] qn.contains(x) by {
                    let k = choose|k: int| 0 <= k < q_prev.len() && q_prev[k] == x;
                    assert(qn[k] == x);
                }
                assert(qn.contains(e)) by {
                    assert(qn[q_prev.len() as int] == e);
                }
            }
            t += 1;
        }
        proof {
            assert(ev@.take(ev@.len() as int) =~= ev@);
            crate::graph::lemma_adj_is_incident(g_cur, v);
            assert forall|x: u64| ev@.contains(x) <==> #[trigger] g_cur.incident_to(v).contains(x) by {
                if !g_cur.vertices().contains(v) {
                    assert(!g_cur.incident_to(v).contains(x));
                }
            }
            // Incidence to `v` now equals incidence to `v` in the starting
            // graph, restricted to edges that survived earlier cascades.
            assert forall|x: u64| #[trigger] g_cur.incident_to(v).contains(x) <==> (g0.incident_to(v).contains(x) && !incident_to_any(g0, removed.take(r as int), x)) by {
                if g_cur.incident_to(v).contains(x) {
                    assert(g_cur.edges().dom().contains(x));
                    assert(g_cur.edges()[x] == g0.edges()[x]);
                    assert(g0.incident_to(v).contains(x));
                }
                if g0.incident_to(v).contains(x) && !incident_to_any(g0, removed.take(r as int), x) {
                    assert(g0.edges().dom().contains(x));
                    assert(g_cur.edges().dom().contains(x));
                    assert(g_cur.edges()[x] == g0.edges()[x]);
                }
            }
        }
        let clear_v = match ed.selection {
            Some(GraphSelection::Vertex(sv)) => sv == v,
            _ => false,
        };
        if clear_v {
            ed.selection = None;
        }
        let ghost scene_mid = ed.scene;
        let ghost q_mid = ed.removed_edges@;
        proof {
            lemma_take_succ(removed, r as int);
            lemma_incident_any_succ(g0, removed, r as int);
            assert(removed[r as int] == v);
            assert forall|x: u64| #[trigger] scene_mid.has_e(x) <==> (old(ed).scene.has_e(x) && !incident_to_any(g0, removed.take(r as int + 1), x)) by {
                assert(scene_mid.has_e(x) == ed.scene.has_e(x));
                assert(ed.scene.has_e(x) <==> scene_r.has_e(x) && !ev@.take(t as int).contains(x));
                assert(ev@.take(t as int) == ev@);
                assert(ev@.contains(x) == g_cur.incident_to(v).contains(x));
                assert(incident_to_any(g0, removed.take(r as int + 1), x) <==> incident_to_any(g0, removed.take(r as int), x) || g0.incident_to(v).contains(x));
            }
            assert forall|x: u64| #[trigger] scene_mid.has_e(x) implies scene_mid.e_line(x) == old(ed).scene.e_line(x) by {
                assert(ed.scene.has_e(x));
                assert(ed.scene.e_line(x) == scene_r.e_line(x));
                assert(scene_r.has_e(x));
            }
            assert forall|x: u64| #[trigger] q_mid.contains(x) <==> (old(ed).removed_edges@.contains(x) || incident_to_any(g0, removed.take(r as int + 1), x)) by {
                assert(q_mid.contains(x) == ed.removed_edges@.contains(x));
                assert(ed.removed_edges@.contains(x) <==> q_r.contains(x) || ev@.take(t as int).contains(x));
                assert(ev@.take(t as int) == ev@);
                assert(ev@.contains(x) == g_cur.incident_to(v).contains(x));
                assert(incident_to_any(g0, removed.take(r as int + 1), x) <==> incident_to_any(g0, removed.take(r as int), x) || g0.incident_to(v).contains(x));
            }
            assert forall|k: int| 0 <= k < q_mid.len() implies q_mid[k] < old(ed).next_id by {
                assert(q_mid[k] == ed.removed_edges@[k]);
            }
        }
        ed.graph.remove_vertex(&v);
        proof {
            assert(ed.scene == scene_mid);
            assert(ed.removed_edges@ == q_mid);
            assert(ed.graph.vertices() == g_cur.vertices().remove(v));
            assert(ed.graph.edges() == g_cur.edges().remove_keys(g_cur.incident_to(v)));
            assert forall|x: u64| #[trigger] ed.graph.vertices().contains(x) <==> (g1.vertices().contains(x) && !removed.take(r as int + 1).contains(x)) by {}
            assert forall|x: u64| #[trigger] ed.graph.edges().dom().contains(x) <==> (g0.edges().dom().contains(x) && !incident_to_any(g0, removed.take(r as int + 1), x)) by {
                assert(ed.graph.edges().dom().contains(x) <==> g_cur.edges().dom().contains(x) && !g_cur.incident_to(v).contains(x));
            }
            assert forall|x: u64| #[trigger] ed.graph.edges().dom().contains(x) implies ed.graph.edges()[x] == g0.edges()[x] by {
                assert(g_cur.edges().dom().contains(x));
            }
            assert forall|x: u64| #[trigger] ed.scene.has_e(x) <==> (old(ed).scene.has_e(x) && !incident_to_any(g0, removed.take(r as int + 1), x)) by {
                assert(ed.scene.has_e(x) == scene_mid.has_e(x));
            }
            assert forall|x: u64| #[trigger] ed.scene.has_e(x) implies ed.scene.e_line(x) == old(ed).scene.e_line(x) by {
                assert(scene_mid.has_e(x));
                assert(ed.scene.e_line(x) == scene_mid.e_line(x));
            }
            assert forall|x: u64| #[trigger] ed.removed_edges@.contains(x) <==> (old(ed).removed_edges@.contains(x) || incident_to_any(g0, removed.take(r as int + 1), x)) by {
                assert(ed.removed_edges@.contains(x) == q_mid.contains(x));
            }
            assert forall|k: int| 0 <= k < ed.removed_edges@.len() implies #[trigger] ed.removed_edges@[k] < ed.next_id by {
                assert(ed.removed_edges@[k] == q_mid[k]);
            }
            match old(ed).selection {
                Some(GraphSelection::Edge(e2)) => {
                    assert(ev@.take(t as int) == ev@);
                    assert(ev@.contains(e2) == g_cur.incident_to(v).contains(e2));
                    assert(incident_to_any(g0, removed.take(r as int + 1), e2) <==> incident_to_any(g0, removed.take(r as int), e2) || g0.incident_to(v).contains(e2));
                },
                Some(GraphSelection::Vertex(v2)) => {
                    assert(removed.take(r as int + 1).contains(v2) <==> removed.take(r as int).contains(v2) || v2 == v);
                },
                None => {},
            }
        }
        r += 1;
    }
    proof {
        assert(removed.take(removed.len() as int) =~= removed);
    }
    let ghost scene_fin = ed.scene;
    let ghost q_fin = ed.removed_edges@;
    ed.added_vertices = Vec::new();
    ed.removed_vertices = Vec::new();
    proof {
        assert(ed.scene == scene_fin);
        assert(ed.removed_edges@ == q_fin);
        assert forall|x: u64| #[trigger] ed.scene.has_e(x) <==> (old(ed).scene.has_e(x) && !incident_to_any(g0, removed, x)) by {
            assert(ed.scene.has_e(x) == scene_fin.has_e(x));
        }
        assert forall|x: u64| #[trigger] ed.scene.has_e(x) implies ed.scene.e_line(x) == old(ed).scene.e_line(x) by {
            assert(scene_fin.has_e(x));
            assert(ed.scene.e_line(x) == scene_fin.e_line(x));
        }
        assert forall|x: u64| #[trigger] ed.removed_edges@.contains(x) <==> (old(ed).removed_edges@.contains(x) || incident_to_any(g0, removed, x)) by {
            assert(ed.removed_edges@.contains(x) == q_fin.contains(x));
        }
        // Handle bounds for the invariant.
        assert forall|i2: int| 0 <= i2 < ed.scene.edges@.len() implies (#[trigger] ed.scene.edges@[i2]).0 < ed.next_id by {
            crate::scene::lemma_scene_e_lookup(ed.scene, i2);
            let x = ed.scene.edges@[i2].0;
            assert(ed.scene.has_e(x));
            assert(old(ed).scene.has_e(x));
            let k = choose|k: int| 0 <= k < old(ed).scene.edges@.len() && (#[trigger] old(ed).scene.edges@[k]).0 == x;
            assert(old(ed).scene.edges@[k].0 < old(ed).next_id);
        }
        assert(ed.scene.vertices@ == old(ed).scene.vertices@);
        assert forall|i2: int| 0 <= i2 < ed.scene.vertices@.len() implies (#[trigger] ed.scene.vertices@[i2]).0 < ed.next_id by {
            assert(old(ed).scene.vertices@[i2] == ed.scene.vertices@[i2]);
            assert(old(ed).scene.vertices@[i2].0 < old(ed).next_id);
        }
        assert forall|i2: int| 0 <= i2 < ed.builders@.len() implies (#[trigger] ed.builders@[i2]).0 < ed.next_id by {
            assert(old(ed).builders@[i2] == ed.builders@[i2]);
            assert(old(ed).builders@[i2].0 < old(ed).next_id);
        }
        assert forall|i2: int| 0 <= i2 < ed.moved_vertices@.len() implies #[trigger] ed.moved_vertices@[i2] < ed.next_id by {
            assert(old(ed).moved_vertices@[i2] == ed.moved_vertices@[i2]);
            assert(old(ed).moved_vertices@[i2] < old(ed).next_id);
        }
        assert forall|x: u64| #[trigger] ed.graph.edges().dom().contains(x) implies x < ed.next_id by {
            assert(g0.edges().dom().contains(x));
            assert(old(ed).graph.edges().dom().contains(x));
        }
        crate::scene::lemma_same_vertices(ed.scene, old(ed).scene);
        assert forall|x: u64| #[trigger] ed.graph.vertices().contains(x) <==> ((g0.vertices().contains(x) && !removed.contains(x)) || added.contains(x)) by {
            if added.contains(x) {
                let j = choose|j: int| 0 <= j < added.len() && added[j] == x;
                assert(old(ed).added_vertices@[j] == x);
                assert(old(ed).scene.has_v(x));
                if removed.contains(x) {
                    let k = choose|k: int| 0 <= k < removed.len() && removed[k] == x;
                    assert(!old(ed).scene.has_v(old(ed).removed_vertices@[k]));
                }
            }
        }
        assert forall|x: u64| #[trigger] ed.graph.vertices().contains(x) <==> ed.scene.has_v(x) by {
            if ed.graph.vertices().contains(x) {
                if added.contains(x) {
                    let j = choose|j: int| 0 <= j < added.len() && added[j] == x;
                    assert(old(ed).added_vertices@[j] == x);
                    assert(old(ed).scene.has_v(x));
                } else {
                    assert(g0.vertices().contains(x) && !removed.contains(x));
                    assert(old(ed).scene.has_v(x));
                }
            }
            if ed.scene.has_v(x) {
                assert(old(ed).scene.has_v(x));
                if removed.contains(x) {
                    let k = choose|k: int| 0 <= k < removed.len() && removed[k] == x;
                    assert(!old(ed).scene.has_v(old(ed).removed_vertices@[k]));
                }
                if !added.contains(x) {
                    assert(g0.vertices().contains(x));
                }
            }
        }
        assert forall|x: u64| #[trigger] ed.graph.vertices().contains(x) implies x < ed.next_id by {
            assert(ed.scene.has_v(x));
            assert(old(ed).scene.has_v(x));
            let k = choose|k: int| 0 <= k < old(ed).scene.vertices@.len() && (#[trigger] old(ed).scene.vertices@[k]).0 == x;
            assert(old(ed).scene.vertices@[k].0 < old(ed).next_id);
        }
        // The edge stores still mirror one another.
        assert forall|x: u64| #[trigger] ed.scene.has_e(x) implies ed.graph.edges().dom().contains(x) by {
            assert(old(ed).scene.has_e(x));
            assert(old(ed).graph.edges().dom().contains(x));
        }
        assert forall|x: u64| #[trigger] ed.graph.edges().dom().contains(x) implies (ed.scene.has_e(x) || ed.removed_edges@.contains(x)) by {
            assert(old(ed).graph.edges().dom().contains(x));
            if !old(ed).scene.has_e(x) {
                assert(old(ed).removed_edges@.contains(x));
            }
        }
        assert forall|i2: int| 0 <= i2 < ed.removed_edges@.len() implies !ed.scene.has_e(#[trigger] ed.removed_edges@[i2]) by {
            let x = ed.removed_edges@[i2];
            assert(ed.removed_edges@.contains(x));
            if ed.scene.has_e(x) {
                assert(old(ed).scene.has_e(x));
                if old(ed).removed_edges@.contains(x) {
                    let k = choose|k: int| 0 <= k < old(ed).removed_edges@.len() && old(ed).removed_edges@[k] == x;
                    assert(!old(ed).scene.has_e(old(ed).removed_edges@[k]));
                }
            }
        }
        // Pending edge-creation requests are still fresh.
        assert forall|i2: int| 0 <= i2 < ed.builders@.len() implies !ed.graph.edges().dom().contains((#[trigger] ed.builders@[i2]).0) && !ed.scene.has_e(ed.builders@[i2].0) && !ed.removed_edges@.contains(ed.builders@[i2].0) by {
            assert(ed.builders@[i2] == old(ed).builders@[i2]);
            let b = old(ed).builders@[i2].0;
            assert(!old(ed).graph.edges().dom().contains(b) && !old(ed).scene.has_e(b) && !old(ed).removed_edges@.contains(b));
            if ed.removed_edges@.contains(b) {
                assert(incident_to_any(g0, removed, b));
                let k = choose|k: int| 0 <= k < removed.len() && g0.incident_to(#[trigger] removed[k]).contains(b);
                assert(g0.edges().dom().contains(b));
            }
        }
    }
}

/// Edge `e` sits in the adjacency list of at least one of the (live)
/// vertices `vs`.
pub open spec fn adj_of_any(g: Graph, vs: Seq<u64>, e: u64) -> bool {
    exists|k: int|
        0 <= k < vs.len() && g.vertices().contains(#[trigger] vs[k]) && g.adj(vs[k]).contains(e)
}

/// Extending the vertex list by one extends the adjacency-membership test by
/// that vertex's list.
pub proof fn lemma_adj_any_succ(g: Graph, vs: Seq<u64>, m: int)
    requires
        0 <= m < vs.len(),
    ensures
        forall|e: u64|
            #[trigger] adj_of_any(g, vs.take(m + 1), e) <==> adj_of_any(g, vs.take(m), e) || (
            g.vertices().contains(vs[m]) && g.adj(vs[m]).contains(e)),
{
    assert forall|e: u64|
        #[trigger] adj_of_any(g, vs.take(m + 1), e) <==> adj_of_any(g, vs.take(m), e) || (
        g.vertices().contains(vs[m]) && g.adj(vs[m]).contains(e)) by {
        if adj_of_any(g, vs.take(m + 1), e) {
            let k = choose|k: int|
                0 <= k < m + 1 && g.vertices().contains(#[trigger] vs.take(m + 1)[k]) && g.adj(
                    vs.take(m + 1)[k],
                ).contains(e);
            if k < m {
                assert(vs.take(m)[k] == vs.take(m + 1)[k]);
                assert(g.vertices().contains(vs.take(m)[k]) && g.adj(vs.take(m)[k]).contains(e));
            } else {
                assert(vs.take(m + 1)[k] == vs[m]);
            }
        }
        if adj_of_any(g, vs.take(m), e) {
            let k = choose|k: int|
                0 <= k < m && g.vertices().contains(#[trigger] vs.take(m)[k]) && g.adj(
                    vs.take(m)[k],
                ).contains(e);
            assert(vs.take(m + 1)[k] == vs.take(m)[k]);
            assert(g.vertices().contains(vs.take(m + 1)[k]) && g.adj(vs.take(m + 1)[k]).contains(
                e,
            ));
        }
        if g.vertices().contains(vs[m]) && g.adj(vs[m]).contains(e) {
            assert(vs.take(m + 1)[m] == vs[m]);
            assert(g.vertices().contains(vs.take(m + 1)[m]) && g.adj(vs.take(m + 1)[m]).contains(
                e,
            ));
        }
    }
}

/// Both endpoint positions of live edge `e` can be looked up in the scene.
pub open spec fn endpoints_available(g: Graph, s: Scene, e: u64) -> bool {
    &&& g.edges().dom().contains(e)
    &&& s.has_v(g.edges()[e].0)
    &&& s.has_v(g.edges()[e].1)
}

/// Edge `e`'s rendered line gets refreshed this cycle: it is incident to a
/// moved vertex and both of its endpoint positions are available.
pub open spec fn line_refresh_applies(g: Graph, s: Scene, moved: Seq<u64>, e: u64) -> bool {
    endpoints_available(g, s, e) && adj_of_any(g, moved, e)
}

/// The line recomputed for edge `e` from its endpoints' current positions.
pub open spec fn refreshed_line(g: Graph, s: Scene, e: u64) -> Edge {
    Edge { line_a: s.v_pos(g.edges()[e].0), line_b: s.v_pos(g.edges()[e].1) }
}

/// Drain the moved-vertices queue: for every vertex moved this cycle,
/// recompute the rendered lines of its incident edges from both endpoints'
/// current positions, skipping any edge whose visual or endpoint position is
/// unavailable.
pub fn on_vertex_position_change(ed: &mut Editor)
    requires
        old(ed).inv(),
    ensures
        final(ed).inv(),
        final(ed).moved_vertices@.len() == 0,
        final(ed).graph == old(ed).graph,
        final(ed).scene.vertices@ == old(ed).scene.vertices@,
        final(ed).scene.edges@.len() == old(ed).scene.edges@.len(),
        forall|j: int| 0 <= j < old(ed).scene.edges@.len() ==> (#[trigger] final(ed).scene.edges@[j]).0 == old(ed).scene.edges@[j].0,
        forall|x: u64| final(ed).scene.has_e(x) == old(ed).scene.has_e(x),
        forall|x: u64| #[trigger] old(ed).scene.has_e(x) ==> final(ed).scene.e_line(x) == (if line_refresh_applies(old(ed).graph, old(ed).scene, old(ed).moved_vertices@, x) { refreshed_line(old(ed).graph, old(ed).scene, x) } else { old(ed).scene.e_line(x) }),
        final(ed).selection == old(ed).selection,
        final(ed).cursor_node_diff == old(ed).cursor_node_diff,
        final(ed).creation_line == old(ed).creation_line,
        final(ed).builders@ == old(ed).builders@,
        final(ed).added_vertices@ == old(ed).added_vertices@,
        final(ed).removed_vertices@ == old(ed).removed_vertices@,
        final(ed).removed_edges@ == old(ed).removed_edges@,
        final(ed).next_id == old(ed).next_id,
{
    let ghost moved = old(ed).moved_vertices@;
    let ghost g0 = old(ed).graph;
    let ghost s0 = old(ed).scene;
    let mut m: usize = 0;
    while m < ed.moved_vertices.len()
        invariant
            old(ed).inv(),
            moved == old(ed).moved_vertices@,
            g0 == old(ed).graph,
            s0 == old(ed).scene,
            ed.graph == g0,
            ed.scene.wf(),
            ed.scene.vertices@ == s0.vertices@,
            ed.moved_vertices@ == moved,
            ed.selection == old(ed).selection,
            ed.cursor_node_diff == old(ed).cursor_node_diff,
            ed.creation_line == old(ed).creation_line,
            ed.builders@ == old(ed).builders@,
            ed.added_vertices@ == old(ed).added_vertices@,
            ed.removed_vertices@ == old(ed).removed_vertices@,
            ed.removed_edges@ == old(ed).removed_edges@,
            ed.next_id == old(ed).next_id,
            0 <= m <= moved.len(),
            ed.scene.edges@.len() == s0.edges@.len(),
            forall|j: int| 0 <= j < s0.edges@.len() ==> (#[trigger] ed.scene.edges@[j]).0 == s0.edges@[j].0,
            forall|x: u64| ed.scene.has_e(x) == s0.has_e(x),
            forall|x: u64| #[trigger] s0.has_e(x) ==> ed.scene.e_line(x) == (if line_refresh_applies(g0, s0, moved.take(m as int), x) { refreshed_line(g0, s0, x) } else { s0.e_line(x) }),
        decreases moved.len() - m,
    {
        let v = ed.moved_vertices[m];
        let ev = ed.graph.iter_edges(&v);
        let ghost scene_m = ed.scene;
        let mut t: usize = 0;
        while t < ev.len()
            invariant
                g0.wf(),
                s0.wf(),
                scene_m.wf(),
                ed.graph == g0,
                ed.scene.wf(),
                ed.scene.vertices@ == s0.vertices@,
                scene_m.vertices@ == s0.vertices@,
                ev@ == if g0.vertices().contains(v) { g0.adj(v) } else { Seq::<u64>::empty() },
                ed.moved_vertices@ == moved,
                ed.selection == old(ed).selection,
                ed.cursor_node_diff == old(ed).cursor_node_diff,
                ed.creation_line == old(ed).creation_line,
                ed.builders@ == old(ed).builders@,
                ed.added_vertices@ == old(ed).added_vertices@,
                ed.removed_vertices@ == old(ed).removed_vertices@,
                ed.removed_edges@ == old(ed).removed_edges@,
                ed.next_id == old(ed).next_id,
                0 <= t <= ev@.len(),
                ed.scene.edges@.len() == scene_m.edges@.len(),
                forall|j: int| 0 <= j < scene_m.edges@.len() ==> (#[trigger] ed.scene.edges@[j]).0 == scene_m.edges@[j].0,
                forall|x: u64| ed.scene.has_e(x) == scene_m.has_e(x),
                forall|x: u64| #[trigger] scene_m.has_e(x) ==> ed.scene.e_line(x) == (if ev@.take(t as int).contains(x) && endpoints_available(g0, s0, x) { refreshed_line(g0, s0, x) } else { scene_m.e_line(x) }),
            decreases ev@.len() - t,
        {
            let e = ev[t];
            let ghost scene_t = ed.scene;
            match ed.graph.incident_vertices(&e) {
                None => {},
                Some((u, w)) => {
                    match ed.scene.position_of(u) {
                        None => {},
                        Some(pu) => {
                            match ed.scene.position_of(w) {
                                None => {},
                                Some(pw) => {
                                    proof {
                                        assert(crate::geometry::point_ok(pu)) by {
                                            let i2 = choose|i2: int| 0 <= i2 < ed.scene.vertices@.len() && (#[trigger] ed.scene.vertices@[i2]).0 == u;
                                            crate::scene::lemma_scene_v_lookup(ed.scene, i2);
                                        }
                                        assert(crate::geometry::point_ok(pw)) by {
                                            let i2 = choose|i2: int| 0 <= i2 < ed.scene.vertices@.len() && (#[trigger] ed.scene.vertices@[i2]).0 == w;
                                            crate::scene::lemma_scene_v_lookup(ed.scene, i2);
                                        }
                                        crate::scene::lemma_same_vertices(ed.scene, s0);
                                        assert(pu == s0.v_pos(u) && pw == s0.v_pos(w));
                                    }
                                    ed.scene.set_edge_line(e, Edge { line_a: pu, line_b: pw });
                                },
                            }
                        },
                    }
                },
            }
            proof {
                lemma_take_succ(ev@, t as int);
                assert(ev@.take(t as int + 1).contains(e)) by {
                    assert(ev@[t as int] == e);
                }
                crate::scene::lemma_same_vertices(ed.scene, scene_t);
                assert forall|x: u64| #[trigger] scene_m.has_e(x) implies ed.scene.e_line(x) == (if ev@.take(t as int + 1).contains(x) && endpoints_available(g0, s0, x) { refreshed_line(g0, s0, x) } else { scene_m.e_line(x) }) by {
                    if x == e && endpoints_available(g0, s0, x) {
                        assert(scene_t.has_e(x));
                        assert(ed.scene.e_line(x) == refreshed_line(g0, s0, x));
                    } else {
                        assert(scene_t.has_e(x));
                        assert(ed.scene.e_line(x) == scene_t.e_line(x));
                    }
                }
            }
            t += 1;
        }
        proof {
            assert(ev@.take(ev@.len() as int) =~= ev@);
            lemma_adj_any_succ(g0, moved, m as int);
            assert(moved[m as int] == v);
            assert forall|x: u64| #[trigger] s0.has_e(x) implies ed.scene.e_line(x) == (if line_refresh_applies(g0, s0, moved.take(m as int + 1), x) { refreshed_line(g0, s0, x) } else { s0.e_line(x) }) by {
                assert(scene_m.has_e(x));
                assert(ed.scene.e_line(x) == (if ev@.take(ev@.len() as int).contains(x) && endpoints_available(g0, s0, x) { refreshed_line(g0, s0, x) } else { scene_m.e_line(x) }));
                assert(ev@.contains(x) <==> (g0.vertices().contains(v) && g0.adj(v).contains(x)));
                assert(adj_of_any(g0, moved.take(m as int + 1), x) <==> adj_of_any(g0, moved.take(m as int), x) || (g0.vertices().contains(v) && g0.adj(v).contains(x)));
            }
        }
        m += 1;
    }
    proof {
        assert(moved.take(moved.len() as int) =~= moved);
    }
    let ghost scene_fin = ed.scene;
    ed.moved_vertices = Vec::new();
    proof {
        assert(ed.scene == scene_fin);
        assert forall|x: u64| ed.scene.has_e(x) == s0.has_e(x) by {
            assert(ed.scene.has_e(x) == scene_fin.has_e(x));
        }
        assert forall|x: u64| #[trigger] s0.has_e(x) implies ed.scene.e_line(x) == (if line_refresh_applies(g0, s0, moved, x) { refreshed_line(g0, s0, x) } else { s0.e_line(x) }) by {
            assert(ed.scene.e_line(x) == scene_fin.e_line(x));
        }
        crate::scene::lemma_same_vertices(ed.scene, s0);
        // Handle bounds and the edge mirror for the invariant.
        assert forall|i2: int| 0 <= i2 < ed.scene.edges@.len() implies (#[trigger] ed.scene.edges@[i2]).0 < ed.next_id by {
            assert(ed.scene.edges@[i2].0 == s0.edges@[i2].0);
            assert(old(ed).scene.edges@[i2].0 < old(ed).next_id);
        }
        assert forall|i2: int| 0 <= i2 < ed.scene.vertices@.len() implies (#[trigger] ed.scene.vertices@[i2]).0 < ed.next_id by {
            assert(old(ed).scene.vertices@[i2] == ed.scene.vertices@[i2]);
            assert(old(ed).scene.vertices@[i2].0 < old(ed).next_id);
        }
        assert forall|i2: int| 0 <= i2 < ed.builders@.len() implies (#[trigger] ed.builders@[i2]).0 < ed.next_id by {
            assert(old(ed).builders@[i2] == ed.builders@[i2]);
            assert(old(ed).builders@[i2].0 < old(ed).next_id);
        }
        assert forall|i2: int| 0 <= i2 < ed.removed_edges@.len() implies #[trigger] ed.removed_edges@[i2] < ed.next_id by {
            assert(old(ed).removed_edges@[i2] == ed.removed_edges@[i2]);
            assert(old(ed).removed_edges@[i2] < old(ed).next_id);
        }
        assert forall|i2: int| 0 <= i2 < ed.added_vertices@.len() implies #[trigger] ed.added_vertices@[i2] < ed.next_id && ed.scene.has_v(ed.added_vertices@[i2]) && !ed.graph.vertices().contains(ed.added_vertices@[i2]) by {
            assert(old(ed).added_vertices@[i2] == ed.added_vertices@[i2]);
            assert(old(ed).added_vertices@[i2] < old(ed).next_id);
            assert(old(ed).scene.has_v(old(ed).added_vertices@[i2]));
            assert(!old(ed).graph.vertices().contains(old(ed).added_vertices@[i2]));
        }
        assert forall|i2: int| 0 <= i2 < ed.removed_vertices@.len() implies #[trigger] ed.removed_vertices@[i2] < ed.next_id && !ed.scene.has_v(ed.removed_vertices@[i2]) by {
            assert(old(ed).removed_vertices@[i2] == ed.removed_vertices@[i2]);
            assert(old(ed).removed_vertices@[i2] < old(ed).next_id);
            assert(!old(ed).scene.has_v(old(ed).removed_vertices@[i2]));
        }
        assert forall|x: u64| #[trigger] ed.scene.has_e(x) implies ed.graph.edges().dom().contains(x) by {
            assert(old(ed).scene.has_e(x));
            assert(old(ed).graph.edges().dom().contains(x));
        }
        assert forall|i2: int| 0 <= i2 < ed.removed_edges@.len() implies !ed.scene.has_e(#[trigger] ed.removed_edges@[i2]) by {
            assert(ed.removed_edges@[i2] == old(ed).removed_edges@[i2]);
            assert(!old(ed).scene.has_e(old(ed).removed_edges@[i2]));
        }
        assert forall|i2: int| 0 <= i2 < ed.builders@.len() implies !ed.scene.has_e((#[trigger] ed.builders@[i2]).0) by {
            assert(ed.builders@[i2] == old(ed).builders@[i2]);
            assert(!old(ed).scene.has_e(old(ed).builders@[i2].0));
        }
    }
}

/// The edge store after the pending creation requests are applied in order:
/// a request is committed when it is no self-loop, both its endpoints are
/// live, and no edge already connects the same canonical vertex pair;
/// otherwise it is silently discarded.
pub open spec fn commit_result(
    edges0: Map<u64, (u64, u64)>,
    verts: Set<u64>,
    builders: Seq<(u64, EdgeBuilder)>,
) -> Map<u64, (u64, u64)>
    decreases builders.len(),
{
    if builders.len() == 0 {
        edges0
    } else {
        let id = builders[0].0;
        let b = builders[0].1;
        let accept = b.u != b.v && verts.contains(b.u) && verts.contains(b.v) && !(exists|e: u64|
            edges0.dom().contains(e) && edges0[e] == canonical_pair(b.u, b.v));
        if accept {
            commit_result(edges0.insert(id, canonical_pair(b.u, b.v)), verts, builders.drop_first())
        } else {
            commit_result(edges0, verts, builders.drop_first())
        }
    }
}

/// Drain the pending edge-creation requests in order, applying the commit
/// rule: rejected requests vanish without error; committed ones enter the
/// graph and get an edge visual whose line runs between the endpoints'
/// current positions.  Runs after the vertex lifecycle queues are drained.
pub fn on_edge_builder(ed: &mut Editor)
    requires
        old(ed).inv(),
        old(ed).added_vertices@.len() == 0,
        old(ed).removed_vertices@.len() == 0,
    ensures
        final(ed).inv(),
        final(ed).builders@.len() == 0,
        final(ed).graph.vertices() == old(ed).graph.vertices(),
        final(ed).graph.edges() == commit_result(old(ed).graph.edges(), old(ed).graph.vertices(), old(ed).builders@),
        final(ed).scene.vertices@ == old(ed).scene.vertices@,
        forall|x: u64| #[trigger] final(ed).scene.has_e(x) <==> old(ed).scene.has_e(x) || (final(ed).graph.edges().dom().contains(x) && !old(ed).graph.edges().dom().contains(x)),
        forall|x: u64| old(ed).scene.has_e(x) ==> final(ed).scene.e_line(x) == old(ed).scene.e_line(x),
        forall|x: u64| #[trigger] final(ed).graph.edges().dom().contains(x) && !old(ed).graph.edges().dom().contains(x) ==> exists|j: int| 0 <= j < old(ed).builders@.len() && (#[trigger] old(ed).builders@[j]).0 == x && final(ed).scene.e_line(x) == (Edge { line_a: old(ed).scene.v_pos(old(ed).builders@[j].1.u), line_b: old(ed).scene.v_pos(old(ed).builders@[j].1.v) }) && final(ed).graph.edges()[x] == canonical_pair(old(ed).builders@[j].1.u, old(ed).builders@[j].1.v) && old(ed).graph.vertices().contains(old(ed).builders@[j].1.u) && old(ed).graph.vertices().contains(old(ed).builders@[j].1.v),
        forall|x: u64| #[trigger] old(ed).graph.edges().dom().contains(x) ==> final(ed).graph.edges().dom().contains(x) && final(ed).graph.edges()[x] == old(ed).graph.edges()[x],
        final(ed).selection == old(ed).selection,
        final(ed).cursor_node_diff == old(ed).cursor_node_diff,
        final(ed).creation_line == old(ed).creation_line,
        final(ed).added_vertices@ == old(ed).added_vertices@,
        final(ed).removed_vertices@ == old(ed).removed_vertices@,
        final(ed).moved_vertices@ == old(ed).moved_vertices@,
        final(ed).removed_edges@ == old(ed).removed_edges@,
        final(ed).next_id == old(ed).next_id,
{
    let ghost bs = old(ed).builders@;
    let ghost g0 = old(ed).graph;
    proof {
        assert(bs.skip(0) =~= bs);
    }
    let mut k: usize = 0;
    while k < ed.builders.len()
        invariant
            old(ed).inv(),
            old(ed).added_vertices@.len() == 0,
            old(ed).removed_vertices@.len() == 0,
            bs == old(ed).builders@,
            g0 == old(ed).graph,
            ed.builders@ == bs,
            ed.graph.wf(),
            ed.scene.wf(),
            ed.graph.vertices() == g0.vertices(),
            ed.scene.vertices@ == old(ed).scene.vertices@,
            0 <= k <= bs.len(),
            commit_result(ed.graph.edges(), g0.vertices(), bs.skip(k as int)) == commit_result(g0.edges(), g0.vertices(), bs),
            forall|x: u64| #[trigger] ed.graph.edges().dom().contains(x) ==> g0.edges().dom().contains(x) || exists|j: int| 0 <= j < k && (#[trigger] bs[j]).0 == x,
            forall|x: u64| #[trigger] g0.edges().dom().contains(x) ==> ed.graph.edges().dom().contains(x) && ed.graph.edges()[x] == g0.edges()[x],
            forall|x: u64| #[trigger] ed.scene.has_e(x) <==> old(ed).scene.has_e(x) || (ed.graph.edges().dom().contains(x) && !g0.edges().dom().contains(x)),
            forall|x: u64| old(ed).scene.has_e(x) ==> ed.scene.e_line(x) == old(ed).scene.e_line(x),
            forall|x: u64| #[trigger] ed.graph.edges().dom().contains(x) && !g0.edges().dom().contains(x) ==> exists|j: int| 0 <= j < bs.len() && (#[trigger] bs[j]).0 == x && ed.scene.e_line(x) == (Edge { line_a: old(ed).scene.v_pos(bs[j].1.u), line_b: old(ed).scene.v_pos(bs[j].1.v) }) && ed.graph.edges()[x] == canonical_pair(bs[j].1.u, bs[j].1.v) && g0.vertices().contains(bs[j].1.u) && g0.vertices().contains(bs[j].1.v),
            forall|x: u64| #[trigger] ed.graph.vertices().contains(x) ==> ed.scene.has_v(x),
            forall|x: u64| #[trigger] ed.scene.has_v(x) ==> ed.graph.vertices().contains(x),
            ed.selection == old(ed).selection,
            ed.cursor_node_diff == old(ed).cursor_node_diff,
            ed.creation_line == old(ed).creation_line,
            ed.added_vertices@ == old(ed).added_vertices@,
            ed.removed_vertices@ == old(ed).removed_vertices@,
            ed.moved_vertices@ == old(ed).moved_vertices@,
            ed.removed_edges@ == old(ed).removed_edges@,
            ed.next_id == old(ed).next_id,
        decreases bs.len() - k,
    {
        let id = ed.builders[k].0;
        let bu = ed.builders[k].1.u;
        let bv = ed.builders[k].1.v;
        let ghost accept = bu != bv && g0.vertices().contains(bu) && g0.vertices().contains(bv) && !(exists|e: u64| ed.graph.edges().dom().contains(e) && ed.graph.edges()[e] == canonical_pair(bu, bv));
        let mut reject: bool = bu == bv;
        if !reject {
            reject = !ed.graph.has_vertex(&bu) || !ed.graph.has_vertex(&bv);
        }
        if !reject {
            match ed.graph.get_edge_between(bu, bv) {
                Some(_) => {
                    reject = true;
                },
                None => {},
            }
        }
        proof {
            assert(reject == !accept);
            assert(bs.skip(k as int)[0] == bs[k as int]);
            assert(bs.skip(k as int).drop_first() =~= bs.skip(k as int + 1));
        }
        let ghost g_k = ed.graph;
        let ghost scene_k = ed.scene;
        if !reject {
            proof {
                // The request's handle collides with nothing live.
                assert(!g0.edges().dom().contains(id) && !old(ed).scene.has_e(id)) by {
                    assert(old(ed).builders@[k as int].0 == id);
                }
                assert(!ed.graph.edges().dom().contains(id)) by {
                    if ed.graph.edges().dom().contains(id) {
                        let j = choose|j: int| 0 <= j < k && (#[trigger] bs[j]).0 == id;
                        assert(old(ed).builders@[j].0 == old(ed).builders@[k as int].0);
                    }
                }
                assert(!ed.scene.has_e(id));
            }
            ed.graph.insert_edge(id, bu, bv);
            let pu = match ed.scene.position_of(bu) {
                Some(p) => p,
                None => {
                    proof {
                        assert(false);
                    }
                    Point { x: 0, y: 0 }
                },
            };
            let pv = match ed.scene.position_of(bv) {
                Some(p) => p,
                None => {
                    proof {
                        assert(false);
                    }
                    Point { x: 0, y: 0 }
                },
            };
            proof {
                assert(crate::geometry::point_ok(pu)) by {
                    let i2 = choose|i2: int| 0 <= i2 < ed.scene.vertices@.len() && (#[trigger] ed.scene.vertices@[i2]).0 == bu;
                    crate::scene::lemma_scene_v_lookup(ed.scene, i2);
                }
                assert(crate::geometry::point_ok(pv)) by {
                    let i2 = choose|i2: int| 0 <= i2 < ed.scene.vertices@.len() && (#[trigger] ed.scene.vertices@[i2]).0 == bv;
                    crate::scene::lemma_scene_v_lookup(ed.scene, i2);
                }
            }
            ed.scene.add_edge(id, Edge { line_a: pu, line_b: pv });
            proof {
                assert(ed.graph.edges() == g_k.edges().insert(id, canonical_pair(bu, bv)));
                assert(commit_result(ed.graph.edges(), g0.vertices(), bs.skip(k as int + 1)) == commit_result(g0.edges(), g0.vertices(), bs)) by {
                    assert(commit_result(g_k.edges(), g0.vertices(), bs.skip(k as int)) == commit_result(g_k.edges().insert(id, canonical_pair(bu, bv)), g0.vertices(), bs.skip(k as int).drop_first()));
                }
                assert(ed.scene.v_pos(bu) == old(ed).scene.v_pos(bu) && ed.scene.v_pos(bv) == old(ed).scene.v_pos(bv)) by {
                    crate::scene::lemma_same_vertices(ed.scene, old(ed).scene);
                    crate::scene::lemma_same_vertices(scene_k, old(ed).scene);
                }
                assert(pu == old(ed).scene.v_pos(bu) && pv == old(ed).scene.v_pos(bv)) by {
                    crate::scene::lemma_same_vertices(scene_k, old(ed).scene);
                }
                crate::scene::lemma_push_edge(scene_k, ed.scene, id, Edge { line_a: pu, line_b: pv });
                assert forall|x: u64| #[trigger] ed.scene.has_e(x) <==> (old(ed).scene.has_e(x) || (ed.graph.edges().dom().contains(x) && !g0.edges().dom().contains(x))) by {
                    if x != id {
                        assert(ed.scene.has_e(x) == scene_k.has_e(x));
                        assert(ed.graph.edges().dom().contains(x) == g_k.edges().dom().contains(x));
                    } else {
                        assert(ed.scene.has_e(id));
                        assert(ed.graph.edges().dom().contains(id));
                    }
                }
                assert forall|x: u64| old(ed).scene.has_e(x) implies ed.scene.e_line(x) == old(ed).scene.e_line(x) by {
                    assert(x != id);
                    assert(scene_k.has_e(x));
                    assert(ed.scene.e_line(x) == scene_k.e_line(x));
                }
                assert forall|x: u64| #[trigger] ed.graph.edges().dom().contains(x) && !g0.edges().dom().contains(x) implies exists|j: int| 0 <= j < bs.len() && (#[trigger] bs[j]).0 == x && ed.scene.e_line(x) == (Edge { line_a: old(ed).scene.v_pos(bs[j].1.u), line_b: old(ed).scene.v_pos(bs[j].1.v) }) && ed.graph.edges()[x] == canonical_pair(bs[j].1.u, bs[j].1.v) && g0.vertices().contains(bs[j].1.u) && g0.vertices().contains(bs[j].1.v) by {
                    if x == id {
                        assert(bs[k as int].0 == id);
                        assert(ed.scene.e_line(id) == (Edge { line_a: pu, line_b: pv }));
                        assert(ed.scene.e_line(id) == (Edge { line_a: old(ed).scene.v_pos(bs[k as int].1.u), line_b: old(ed).scene.v_pos(bs[k as int].1.v) }));
                        assert(ed.graph.edges()[id] == canonical_pair(bs[k as int].1.u, bs[k as int].1.v));
                        assert(g0.vertices().contains(bs[k as int].1.u) && g0.vertices().contains(bs[k as int].1.v));
                    } else {
                        assert(g_k.edges().dom().contains(x));
                        let j = choose|j: int| 0 <= j < bs.len() && (#[trigger] bs[j]).0 == x && scene_k.e_line(x) == (Edge { line_a: old(ed).scene.v_pos(bs[j].1.u), line_b: old(ed).scene.v_pos(bs[j].1.v) }) && g_k.edges()[x] == canonical_pair(bs[j].1.u, bs[j].1.v) && g0.vertices().contains(bs[j].1.u) && g0.vertices().contains(bs[j].1.v);
                        assert(scene_k.has_e(x));
                        assert(ed.scene.e_line(x) == scene_k.e_line(x));
                        assert(ed.graph.edges()[x] == g_k.edges()[x]);
                        assert(bs[j].0 == x && ed.scene.e_line(x) == (Edge { line_a: old(ed).scene.v_pos(bs[j].1.u), line_b: old(ed).scene.v_pos(bs[j].1.v) }));
                    }
                }
                assert forall|x: u64| #[trigger] ed.scene.has_v(x) <==> ed.graph.vertices().contains(x) by {
                    assert(ed.scene.has_v(x) == scene_k.has_v(x)) by {
                        crate::scene::lemma_same_vertices(ed.scene, scene_k);
                    }
                }
            }
        } else {
            proof {
                assert(commit_result(ed.graph.edges(), g0.vertices(), bs.skip(k as int + 1)) == commit_result(g0.edges(), g0.vertices(), bs)) by {
                    assert(commit_result(g_k.edges(), g0.vertices(), bs.skip(k as int)) == commit_result(g_k.edges(), g0.vertices(), bs.skip(k as int).drop_first()));
                }
            }
        }
        k += 1;
    }
    proof {
        assert(bs.skip(bs.len() as int) =~= Seq::<(u64, EdgeBuilder)>::empty());
    }
    let ghost scene_fin = ed.scene;
    ed.builders = Vec::new();
    proof {
        assert(ed.scene == scene_fin);
        assert forall|x: u64| #[trigger] ed.scene.has_e(x) <==> (old(ed).scene.has_e(x) || (ed.graph.edges().dom().contains(x) && !g0.edges().dom().contains(x))) by {
            assert(ed.scene.has_e(x) == scene_fin.has_e(x));
        }
        assert forall|x: u64| old(ed).scene.has_e(x) implies ed.scene.e_line(x) == old(ed).scene.e_line(x) by {
            assert(scene_fin.has_e(x));
            assert(ed.scene.e_line(x) == scene_fin.e_line(x));
        }
        assert forall|x: u64| #[trigger] ed.graph.edges().dom().contains(x) && !g0.edges().dom().contains(x) implies exists|j: int| 0 <= j < bs.len() && (#[trigger] bs[j]).0 == x && ed.scene.e_line(x) == (Edge { line_a: old(ed).scene.v_pos(bs[j].1.u), line_b: old(ed).scene.v_pos(bs[j].1.v) }) && ed.graph.edges()[x] == canonical_pair(bs[j].1.u, bs[j].1.v) && g0.vertices().contains(bs[j].1.u) && g0.vertices().contains(bs[j].1.v) by {
            let j = choose|j: int| 0 <= j < bs.len() && (#[trigger] bs[j]).0 == x && scene_fin.e_line(x) == (Edge { line_a: old(ed).scene.v_pos(bs[j].1.u), line_b: old(ed).scene.v_pos(bs[j].1.v) }) && ed.graph.edges()[x] == canonical_pair(bs[j].1.u, bs[j].1.v) && g0.vertices().contains(bs[j].1.u) && g0.vertices().contains(bs[j].1.v);
            assert(scene_fin.has_e(x));
            assert(ed.scene.e_line(x) == scene_fin.e_line(x));
            assert(bs[j].0 == x && ed.scene.e_line(x) == (Edge { line_a: old(ed).scene.v_pos(bs[j].1.u), line_b: old(ed).scene.v_pos(bs[j].1.v) }));
        }
        // Bounds and freshness for the invariant.
        assert forall|x: u64| #[trigger] ed.graph.edges().dom().contains(x) implies x < ed.next_id by {
            if g0.edges().dom().contains(x) {
                assert(old(ed).graph.edges().dom().contains(x));
            } else {
                let j = choose|j: int| 0 <= j < bs.len() && (#[trigger] bs[j]).0 == x;
                assert(old(ed).builders@[j].0 < old(ed).next_id);
            }
        }
        assert forall|i2: int| 0 <= i2 < ed.scene.edges@.len() implies (#[trigger] ed.scene.edges@[i2]).0 < ed.next_id by {
            crate::scene::lemma_scene_e_lookup(ed.scene, i2);
            let x = ed.scene.edges@[i2].0;
            assert(ed.scene.has_e(x));
            if old(ed).scene.has_e(x) {
                let k2 = choose|k2: int| 0 <= k2 < old(ed).scene.edges@.len() && (#[trigger] old(ed).scene.edges@[k2]).0 == x;
                assert(old(ed).scene.edges@[k2].0 < old(ed).next_id);
            } else {
                assert(ed.graph.edges().dom().contains(x));
            }
        }
        assert(ed.scene.vertices@ == old(ed).scene.vertices@);
        assert forall|i2: int| 0 <= i2 < ed.scene.vertices@.len() implies (#[trigger] ed.scene.vertices@[i2]).0 < ed.next_id by {
            assert(old(ed).scene.vertices@[i2] == ed.scene.vertices@[i2]);
            assert(old(ed).scene.vertices@[i2].0 < old(ed).next_id);
        }
        assert forall|x: u64| #[trigger] ed.graph.vertices().contains(x) implies x < ed.next_id by {
            assert(old(ed).graph.vertices().contains(x));
        }
        assert forall|i2: int| 0 <= i2 < ed.moved_vertices@.len() implies #[trigger] ed.moved_vertices@[i2] < ed.next_id by {
            assert(old(ed).moved_vertices@[i2] == ed.moved_vertices@[i2]);
            assert(old(ed).moved_vertices@[i2] < old(ed).next_id);
        }
        assert forall|i2: int| 0 <= i2 < ed.removed_edges@.len() implies #[trigger] ed.removed_edges@[i2] < ed.next_id by {
            assert(old(ed).removed_edges@[i2] == ed.removed_edges@[i2]);
            assert(old(ed).removed_edges@[i2] < old(ed).next_id);
        }
        // The edge stores mirror one another again.
        assert forall|x: u64| #[trigger] ed.scene.has_e(x) implies ed.graph.edges().dom().contains(x) by {
            if old(ed).scene.has_e(x) {
                assert(g0.edges().dom().contains(x)) by {
                    assert(old(ed).graph.edges().dom().contains(x));
                }
            }
        }
        assert forall|x: u64| #[trigger] ed.graph.edges().dom().contains(x) implies (ed.scene.has_e(x) || ed.removed_edges@.contains(x)) by {
            if g0.edges().dom().contains(x) {
                assert(old(ed).graph.edges().dom().contains(x));
                if !old(ed).scene.has_e(x) {
                    assert(old(ed).removed_edges@.contains(x));
                }
            }
        }
        assert forall|i2: int| 0 <= i2 < ed.removed_edges@.len() implies !ed.scene.has_e(#[trigger] ed.removed_edges@[i2]) by {
            let x = ed.removed_edges@[i2];
            assert(old(ed).removed_edges@[i2] == x);
            assert(!old(ed).scene.has_e(x));
            if ed.scene.has_e(x) {
                assert(ed.graph.edges().dom().contains(x) && !g0.edges().dom().contains(x));
                let j = choose|j: int| 0 <= j < bs.len() && (#[trigger] bs[j]).0 == x;
                assert(!old(ed).removed_edges@.contains(old(ed).builders@[j].0));
                assert(old(ed).removed_edges@.contains(x));
            }
        }
        crate::scene::lemma_same_vertices(ed.scene, old(ed).scene);
    }
}

/// Drain the edge-removal queue: drop each queued edge from the graph, and
/// clear the selection if it pointed at one of them.
pub fn on_edge_removal(ed: &mut Editor)
    requires
        old(ed).inv(),
    ensures
        final(ed).inv(),
        final(ed).removed_edges@.len() == 0,
        final(ed).scene == old(ed).scene,
        final(ed).graph.vertices() == old(ed).graph.vertices(),
        forall|x: u64|
            #[trigger] final(ed).graph.edges().dom().contains(x) <==> old(
                ed,
            ).graph.edges().dom().contains(x) && !old(ed).removed_edges@.contains(x),
        forall|x: u64|
            final(ed).graph.edges().dom().contains(x) ==> final(ed).graph.edges()[x] == old(
                ed,
            ).graph.edges()[x],
        final(ed).selection == if (match old(ed).selection {
            Some(GraphSelection::Edge(e)) => old(ed).removed_edges@.contains(e),
            _ => false,
        }) {
            Option::<GraphSelection>::None
        } else {
            old(ed).selection
        },
        final(ed).builders@ == old(ed).builders@,
        final(ed).added_vertices@ == old(ed).added_vertices@,
        final(ed).removed_vertices@ == old(ed).removed_vertices@,
        final(ed).moved_vertices@ == old(ed).moved_vertices@,
        final(ed).cursor_node_diff == old(ed).cursor_node_diff,
        final(ed).creation_line == old(ed).creation_line,
        final(ed).next_id == old(ed).next_id,
{
    let ghost q = old(ed).removed_edges@;
    let mut i: usize = 0;
    while i < ed.removed_edges.len()
        invariant
            old(ed).inv(),
            ed.graph.wf(),
            ed.scene == old(ed).scene,
            ed.removed_edges@ == q,
            ed.builders@ == old(ed).builders@,
            ed.added_vertices@ == old(ed).added_vertices@,
            ed.removed_vertices@ == old(ed).removed_vertices@,
            ed.moved_vertices@ == old(ed).moved_vertices@,
            ed.cursor_node_diff == old(ed).cursor_node_diff,
            ed.creation_line == old(ed).creation_line,
            ed.next_id == old(ed).next_id,
            0 <= i <= q.len(),
            ed.graph.vertices() == old(ed).graph.vertices(),
            forall|x: u64|
                #[trigger] ed.graph.edges().dom().contains(x) <==> old(
                    ed,
                ).graph.edges().dom().contains(x) && !q.take(i as int).contains(x),
            forall|x: u64|
                ed.graph.edges().dom().contains(x) ==> ed.graph.edges()[x] == old(
                    ed,
                ).graph.edges()[x],
            ed.selection == if (match old(ed).selection {
                Some(GraphSelection::Edge(e)) => q.take(i as int).contains(e),
                _ => false,
            }) {
                Option::<GraphSelection>::None
            } else {
                old(ed).selection
            },
        decreases q.len() - i,
    {
        let e = ed.removed_edges[i];
        let clear = match ed.selection {
            Some(GraphSelection::Edge(se)) => se == e,
            _ => false,
        };
        if clear {
            ed.selection = None;
        }
        ed.graph.remove_edge(&e);
        proof {
            lemma_take_succ(q, i as int);
            assert(q.take(i as int + 1).contains(e)) by {
                assert(q[i as int] == e);
            }
        }
        i += 1;
    }
    proof {
        assert(q.take(q.len() as int) =~= q);
    }
    ed.removed_edges = Vec::new();
}

} // verus!
