//! The pointer-driven gesture systems, run once per cycle in this order:
//! selection on a primary-button press, vertex dragging while the button is
//! held, and the edge-creation gesture while the modifier key is held.

use vstd::prelude::*;
use crate::geometry::Point;
use crate::geometry::point_ok;
use crate::geometry::coord_ok;
use crate::geometry::in_box;
use crate::geometry::near_segment;
use crate::geometry::edge_collide;
use crate::geometry::quantize;
use crate::geometry::quantize_spec;
use crate::geometry::POS_LIMIT;
use crate::graph::Graph;
use crate::scene::Scene;
use crate::scene::GraphSelection;
use crate::scene::EdgeBuilder;
use crate::editor::Editor;
use crate::editor::FrameInput;

verus! {

/// The first vertex at or after index `i`, in storage order, whose hit-box
/// strictly contains `p`.
pub open spec fn first_vertex_hit_from(s: Scene, p: Point, i: int) -> Option<u64>
    decreases s.vertices@.len() - i,
{
    if i < 0 || i >= s.vertices@.len() {
        None
    } else if in_box(s.vertices@[i].1.pos, s.vertices@[i].1.vertex_area.half_extend as int, p) {
        Some(s.vertices@[i].0)
    } else {
        first_vertex_hit_from(s, p, i + 1)
    }
}

/// The first vertex, in storage order, whose hit-box strictly contains `p`.
pub open spec fn first_vertex_hit(s: Scene, p: Point) -> Option<u64> {
    first_vertex_hit_from(s, p, 0)
}

/// A click at `p` hits edge `e`: the edge is live, both endpoint positions
/// are available in the scene, and `p` is near the segment between them.
pub open spec fn edge_hit(g: Graph, s: Scene, e: u64, p: Point) -> bool {
    &&& g.edges().dom().contains(e)
    &&& s.has_v(g.edges()[e].0)
    &&& s.has_v(g.edges()[e].1)
    &&& near_segment(p, s.v_pos(g.edges()[e].0), s.v_pos(g.edges()[e].1))
}

/// The first edge visual at or after index `i`, in storage order, hit by a
/// click at `p`.
pub open spec fn first_edge_hit_from(g: Graph, s: Scene, p: Point, i: int) -> Option<u64>
    decreases s.edges@.len() - i,
{
    if i < 0 || i >= s.edges@.len() {
        None
    } else if edge_hit(g, s, s.edges@[i].0, p) {
        Some(s.edges@[i].0)
    } else {
        first_edge_hit_from(g, s, p, i + 1)
    }
}

/// The first edge visual, in storage order, hit by a click at `p`.
pub open spec fn first_edge_hit(g: Graph, s: Scene, p: Point) -> Option<u64> {
    first_edge_hit_from(g, s, p, 0)
}

/// Two scenes with the same vertex store agree on the vertex hit test.
pub proof fn lemma_first_vertex_hit_same(s1: Scene, s2: Scene, p: Point, i: int)
    requires
        s1.vertices@ == s2.vertices@,
    ensures
        first_vertex_hit_from(s1, p, i) == first_vertex_hit_from(s2, p, i),
    decreases s1.vertices@.len() - i,
{
    if 0 <= i < s1.vertices@.len() {
        assert(s1.vertices@[i] == s2.vertices@[i]);
        if !in_box(s1.vertices@[i].1.pos, s1.vertices@[i].1.vertex_area.half_extend as int, p) {
            lemma_first_vertex_hit_same(s1, s2, p, i + 1);
        }
    }
}

/// A vertex returned by the hit test exists in the scene.
pub proof fn lemma_first_vertex_hit_live(s: Scene, p: Point, i: int)
    ensures
        match first_vertex_hit_from(s, p, i) {
            Some(v) => s.has_v(v),
            None => true,
        },
    decreases s.vertices@.len() - i,
{
    if 0 <= i < s.vertices@.len() {
        if in_box(s.vertices@[i].1.pos, s.vertices@[i].1.vertex_area.half_extend as int, p) {
            assert(s.vertices@[i].0 == first_vertex_hit_from(s, p, i)->0);
            assert(s.has_v(s.vertices@[i].0));
        } else {
            lemma_first_vertex_hit_live(s, p, i + 1);
        }
    }
}

/// An edge returned by the hit test exists in the scene and in the graph.
pub proof fn lemma_first_edge_hit_live(g: Graph, s: Scene, p: Point, i: int)
    ensures
        match first_edge_hit_from(g, s, p, i) {
            Some(e) => s.has_e(e) && g.edges().dom().contains(e),
            None => true,
        },
    decreases s.edges@.len() - i,
{
    if 0 <= i < s.edges@.len() {
        if edge_hit(g, s, s.edges@[i].0, p) {
            assert(s.has_e(s.edges@[i].0));
        } else {
            lemma_first_edge_hit_live(g, s, p, i + 1);
        }
    }
}

/// What a primary-button press at `c` selects: vertices take priority over
/// edges, first match in storage order wins, and a click that hits nothing
/// clears the selection.
pub open spec fn click_selection(g: Graph, s: Scene, c: Point) -> Option<GraphSelection> {
    match first_vertex_hit(s, c) {
        Some(v) => Some(GraphSelection::Vertex(v)),
        None => match first_edge_hit(g, s, c) {
            Some(e) => Some(GraphSelection::Edge(e)),
            None => None,
        },
    }
}

/// On a primary-button press with a known world position, resolve the click
/// to a graph element and make it the selection.  A press whose position is
/// unavailable is a no-op for the cycle, like every cycle without a press:
/// the selection stays.
pub fn select(ed: &mut Editor, input: &FrameInput)
    requires
        old(ed).inv(),
        input.wf(),
    ensures
        final(ed).inv(),
        final(ed).selection == if input.mouse_just_pressed {
            match input.last_cursor_pos.0 {
                Some(c) => click_selection(old(ed).graph, old(ed).scene, c),
                None => old(ed).selection,
            }
        } else {
            old(ed).selection
        },
        final(ed).graph == old(ed).graph,
        final(ed).scene == old(ed).scene,
        final(ed).cursor_node_diff == old(ed).cursor_node_diff,
        final(ed).creation_line == old(ed).creation_line,
        final(ed).builders@ == old(ed).builders@,
        final(ed).added_vertices@ == old(ed).added_vertices@,
        final(ed).removed_vertices@ == old(ed).removed_vertices@,
        final(ed).moved_vertices@ == old(ed).moved_vertices@,
        final(ed).removed_edges@ == old(ed).removed_edges@,
        final(ed).next_id == old(ed).next_id,
{
    if !input.mouse_just_pressed {
        return ;
    }
    let c = match input.last_cursor_pos.0 {
        Some(c) => c,
        None => {
            return ;
        },
    };
    let mut i: usize = 0;
    while i < ed.scene.vertices.len()
        invariant
            old(ed).inv(),
            *ed == *old(ed),
            input.wf(),
            input.mouse_just_pressed,
            input.last_cursor_pos.0 == Some(c),
            point_ok(c),
            0 <= i <= ed.scene.vertices@.len(),
            first_vertex_hit(ed.scene, c) == first_vertex_hit_from(ed.scene, c, i as int),
        decreases ed.scene.vertices@.len() - i,
    {
        proof {
            assert(ed.scene.vertices@[i as int].1.wf());
        }
        let hit = ed.scene.vertices[i].1.vertex_area.intersects(ed.scene.vertices[i].1.pos, c);
        if hit {
            proof {
                assert(first_vertex_hit_from(ed.scene, c, i as int) == Some(
                    ed.scene.vertices@[i as int].0,
                ));
            }
            ed.selection = Some(GraphSelection::Vertex(ed.scene.vertices[i].0));
            return ;
        }
        i += 1;
    }
    proof {
        assert(first_vertex_hit(ed.scene, c) is None);
    }
    let mut j: usize = 0;
    while j < ed.scene.edges.len()
        invariant
            old(ed).inv(),
            *ed == *old(ed),
            input.wf(),
            input.mouse_just_pressed,
            input.last_cursor_pos.0 == Some(c),
            point_ok(c),
            0 <= j <= ed.scene.edges@.len(),
            first_vertex_hit(ed.scene, c) is None,
            first_edge_hit(ed.graph, ed.scene, c) == first_edge_hit_from(
                ed.graph,
                ed.scene,
                c,
                j as int,
            ),
        decreases ed.scene.edges@.len() - j,
    {
        let eid = ed.scene.edges[j].0;
        let mut this_hit: bool = false;
        match ed.graph.incident_vertices(&eid) {
            None => {},
            Some((u, w)) => {
                match ed.scene.position_of(u) {
                    None => {},
                    Some(pu) => {
                        match ed.scene.position_of(w) {
                            None => {},
                            Some(pw) => {
                                this_hit = edge_collide(c, pu, pw);
                            },
                        }
                    },
                }
            },
        }
        proof {
            assert(this_hit == edge_hit(ed.graph, ed.scene, eid, c));
        }
        if this_hit {
            proof {
                assert(first_edge_hit_from(ed.graph, ed.scene, c, j as int) == Some(eid));
            }
            ed.selection = Some(GraphSelection::Edge(eid));
            return ;
        }
        j += 1;
    }
    ed.selection = None;
}

/// How one held-button drag cycle transforms the editor: the offset is the
/// captured one, or is captured now from the cursor and the vertex's current
/// position; the vertex then moves to the grid-snapped cursor-plus-offset
/// target, provided that target is in range.
pub open spec fn drag_outcome(ed0: Editor, ed1: Editor, c: Point, sv: u64) -> bool {
    let vp = ed0.scene.v_pos(sv);
    let offx: int = match ed0.cursor_node_diff {
        Some(o) => o.x as int,
        None => vp.x - c.x,
    };
    let offy: int = match ed0.cursor_node_diff {
        Some(o) => o.y as int,
        None => vp.y - c.y,
    };
    let tx = quantize_spec(c.x + offx);
    let ty = quantize_spec(c.y + offy);
    &&& ed1.cursor_node_diff matches Some(o2) && o2.x == offx && o2.y == offy
    &&& if coord_ok(tx) && coord_ok(ty) {
        &&& ed1.scene.v_pos(sv).x == tx
        &&& ed1.scene.v_pos(sv).y == ty
        &&& ed1.scene.v_bundle(sv).vertex_area == ed0.scene.v_bundle(sv).vertex_area
        &&& ed1.scene.v_bundle(sv).vertex_name.0 == ed0.scene.v_bundle(sv).vertex_name.0
        &&& ed1.moved_vertices@ == ed0.moved_vertices@.push(sv)
        &&& ed1.scene.vertices@.len() == ed0.scene.vertices@.len()
        &&& forall|k: int|
            0 <= k < ed0.scene.vertices@.len() ==> (#[trigger] ed1.scene.vertices@[k]).0
                == ed0.scene.vertices@[k].0
        &&& forall|x: u64| ed1.scene.has_v(x) == ed0.scene.has_v(x)
        &&& forall|x: u64|
            x != sv && ed0.scene.has_v(x) ==> ed1.scene.v_bundle(x) == ed0.scene.v_bundle(x)
    } else {
        ed1.scene == ed0.scene && ed1.moved_vertices@ == ed0.moved_vertices@
    }
}

/// While the primary button is held in `VertexSelected`, drag the selected
/// vertex, snapping to the grid; a fresh press resets the captured offset.
pub fn drag_node(ed: &mut Editor, input: &FrameInput)
    requires
        old(ed).inv(),
        input.wf(),
        old(ed).selection is Some,
    ensures
        final(ed).inv(),
        final(ed).graph == old(ed).graph,
        final(ed).selection == old(ed).selection,
        final(ed).creation_line == old(ed).creation_line,
        final(ed).builders@ == old(ed).builders@,
        final(ed).added_vertices@ == old(ed).added_vertices@,
        final(ed).removed_vertices@ == old(ed).removed_vertices@,
        final(ed).removed_edges@ == old(ed).removed_edges@,
        final(ed).next_id == old(ed).next_id,
        final(ed).scene.edges@ == old(ed).scene.edges@,
        input.mouse_just_pressed ==> final(ed).cursor_node_diff is None && final(ed).scene == old(ed).scene && final(ed).moved_vertices@ == old(ed).moved_vertices@,
        !input.mouse_just_pressed && !input.mouse_pressed ==> final(ed).cursor_node_diff == old(ed).cursor_node_diff && final(ed).scene == old(ed).scene && final(ed).moved_vertices@ == old(ed).moved_vertices@,
        !input.mouse_just_pressed && input.mouse_pressed ==> match (
            old(ed).selection,
            input.last_cursor_pos.0,
        ) {
            (Some(GraphSelection::Vertex(sv)), Some(c)) => if old(ed).scene.has_v(sv) {
                drag_outcome(*old(ed), *final(ed), c, sv)
            } else {
                final(ed).cursor_node_diff == old(ed).cursor_node_diff && final(ed).scene == old(ed).scene && final(ed).moved_vertices@ == old(ed).moved_vertices@
            },
            _ => final(ed).cursor_node_diff == old(ed).cursor_node_diff && final(ed).scene == old(ed).scene && final(ed).moved_vertices@ == old(ed).moved_vertices@,
        },
{
    if input.mouse_just_pressed {
        ed.cursor_node_diff = None;
        return ;
    }
    if !input.mouse_pressed {
        return ;
    }
    let sv = match ed.selection {
        Some(GraphSelection::Vertex(sv)) => sv,
        _ => { return ; },
    };
    let idx = match ed.scene.vertex_index(sv) {
        Some(i) => i,
        None => { return ; },
    };
    let c = match input.last_cursor_pos.0 {
        Some(c) => c,
        None => { return ; },
    };
    proof {
        crate::scene::lemma_scene_v_lookup(old(ed).scene, idx as int);
        assert(ed.scene.vertices@[idx as int].1.wf());
    }
    let off = match ed.cursor_node_diff {
        Some(o) => o,
        None => {
            let vp = ed.scene.vertices[idx].1.pos;
            Point { x: vp.x - c.x, y: vp.y - c.y }
        },
    };
    ed.cursor_node_diff = Some(off);
    let tx = quantize(c.x + off.x);
    let ty = quantize(c.y + off.y);
    if -POS_LIMIT <= tx && tx <= POS_LIMIT && -POS_LIMIT <= ty && ty <= POS_LIMIT {
        ed.scene.set_vertex_pos(sv, Point { x: tx, y: ty });
        ed.moved_vertices.push(sv);
        proof {
            crate::scene::lemma_same_edges(ed.scene, old(ed).scene);
            assert(ed.scene.vertices@[idx as int].0 == sv);
            let m0 = old(ed).moved_vertices@;
            assert(forall|k: int| 0 <= k < m0.len() ==> #[trigger] ed.moved_vertices@[k] == m0[k]);
        }
    }
}

/// While the modifier key is held in `VertexSelected`, draw the transient
/// creation line from the selected vertex's position to the cursor; on
/// release, hide it and, if the release point hits a vertex other than the
/// selected one, emit a provisional edge-creation request between the two.
pub fn create_edge(ed: &mut Editor, input: &FrameInput)
    requires
        old(ed).inv(),
        input.wf(),
        old(ed).selection is Some,
        old(ed).next_id < u64::MAX,
    ensures
        final(ed).inv(),
        final(ed).graph == old(ed).graph,
        final(ed).scene == old(ed).scene,
        final(ed).selection == old(ed).selection,
        final(ed).cursor_node_diff == old(ed).cursor_node_diff,
        final(ed).added_vertices@ == old(ed).added_vertices@,
        final(ed).removed_vertices@ == old(ed).removed_vertices@,
        final(ed).moved_vertices@ == old(ed).moved_vertices@,
        final(ed).removed_edges@ == old(ed).removed_edges@,
        input.key_pressed ==> final(ed).builders@ == old(ed).builders@ && final(ed).next_id == old(ed).next_id && match (old(ed).selection, input.last_cursor_pos.0) {
            (Some(GraphSelection::Vertex(sv)), Some(c)) => if old(ed).scene.has_v(sv) {
                &&& final(ed).creation_line.line_a == old(ed).scene.v_pos(sv)
                &&& final(ed).creation_line.line_b == c
                &&& final(ed).creation_line.visible == (input.key_just_pressed || old(ed).creation_line.visible)
            } else {
                final(ed).creation_line == old(ed).creation_line
            },
            _ => final(ed).creation_line == old(ed).creation_line,
        },
        !input.key_pressed && input.key_just_released ==> {
            &&& final(ed).creation_line.visible == false
            &&& final(ed).creation_line.line_a == old(ed).creation_line.line_a
            &&& final(ed).creation_line.line_b == old(ed).creation_line.line_b
            &&& match input.last_cursor_pos.0 {
                None => final(ed).builders@ == old(ed).builders@ && final(ed).next_id == old(ed).next_id,
                Some(c) => match first_vertex_hit(old(ed).scene, c) {
                    None => final(ed).builders@ == old(ed).builders@ && final(ed).next_id == old(ed).next_id,
                    Some(h) => match old(ed).selection {
                        Some(GraphSelection::Vertex(sv)) => if h != sv {
                            final(ed).builders@ == old(ed).builders@.push((old(ed).next_id, EdgeBuilder { u: sv, v: h })) && final(ed).next_id == old(ed).next_id + 1
                        } else {
                            final(ed).builders@ == old(ed).builders@ && final(ed).next_id == old(ed).next_id
                        },
                        _ => final(ed).builders@ == old(ed).builders@ && final(ed).next_id == old(ed).next_id,
                    },
                },
            }
        },
        !input.key_pressed && !input.key_just_released ==> final(ed).creation_line == old(ed).creation_line && final(ed).builders@ == old(ed).builders@ && final(ed).next_id == old(ed).next_id,
{
    if input.key_pressed {
        let sv = match ed.selection {
            Some(GraphSelection::Vertex(s)) => s,
            _ => { return ; },
        };
        let c = match input.last_cursor_pos.0 {
            Some(c) => c,
            None => { return ; },
        };
        let start = match ed.scene.position_of(sv) {
            Some(p) => p,
            None => { return ; },
        };
        if input.key_just_pressed {
            ed.creation_line.visible = true;
        }
        ed.creation_line.line_a = start;
        ed.creation_line.line_b = c;
        proof {
            assert(ed.scene.v_bundle(sv).wf()) by {
                let k = choose|k: int|
                    0 <= k < ed.scene.vertices@.len() && (#[trigger] ed.scene.vertices@[k]).0
                        == sv;
                crate::scene::lemma_scene_v_lookup(ed.scene, k);
            }
        }
    } else if input.key_just_released {
        ed.creation_line.visible = false;
        let c = match input.last_cursor_pos.0 {
            Some(c) => c,
            None => { return ; },
        };
        let mut i: usize = 0;
        while i < ed.scene.vertices.len()
            invariant
                old(ed).inv(),
                ed.graph == old(ed).graph,
                ed.scene == old(ed).scene,
                ed.selection == old(ed).selection,
                ed.cursor_node_diff == old(ed).cursor_node_diff,
                ed.builders@ == old(ed).builders@,
                ed.added_vertices@ == old(ed).added_vertices@,
                ed.removed_vertices@ == old(ed).removed_vertices@,
                ed.moved_vertices@ == old(ed).moved_vertices@,
                ed.removed_edges@ == old(ed).removed_edges@,
                ed.next_id == old(ed).next_id,
                ed.creation_line.visible == false,
                ed.creation_line.line_a == old(ed).creation_line.line_a,
                ed.creation_line.line_b == old(ed).creation_line.line_b,
                input.wf(),
                !input.key_pressed,
                input.key_just_released,
                input.last_cursor_pos.0 == Some(c),
                point_ok(c),
                old(ed).selection is Some,
                old(ed).next_id < u64::MAX,
                0 <= i <= ed.scene.vertices@.len(),
                first_vertex_hit(ed.scene, c) == first_vertex_hit_from(ed.scene, c, i as int),
            decreases ed.scene.vertices@.len() - i,
        {
            proof {
                assert(ed.scene.vertices@[i as int].1.wf());
            }
            let hit = ed.scene.vertices[i].1.vertex_area.intersects(
                ed.scene.vertices[i].1.pos,
                c,
            );
            if hit {
                proof {
                    assert(first_vertex_hit_from(ed.scene, c, i as int) == Some(
                        ed.scene.vertices@[i as int].0,
                    ));
                }
                let sv = match ed.selection {
                    Some(GraphSelection::Vertex(s)) => s,
                    _ => { return ; },
                };
                let h = ed.scene.vertices[i].0;
                if h == sv {
                    return ;
                }
                let id = ed.next_id;
                ed.builders.push((id, EdgeBuilder { u: sv, v: h }));
                ed.next_id = id + 1;
                proof {
                    let n = old(ed).builders@.len() as int;
                    assert(forall|k: int|
                        0 <= k < n ==> #[trigger] ed.builders@[k] == old(ed).builders@[k]);
                    assert(ed.builders@[n].0 == id);
                    if ed.scene.has_e(id) {
                        let k = choose|k: int|
                            0 <= k < ed.scene.edges@.len() && (#[trigger] ed.scene.edges@[k]).0
                                == id;
                        assert(ed.scene.edges@[k].0 < id);
                    }
                    if ed.removed_edges@.contains(id) {
                        let k = choose|k: int|
                            0 <= k < ed.removed_edges@.len() && ed.removed_edges@[k] == id;
                        assert(ed.removed_edges@[k] < id);
                    }
                    assert forall|a: int, b: int|
                        #![trigger ed.builders@[a], ed.builders@[b]]
                        0 <= a < b < ed.builders@.len() implies ed.builders@[a].0
                        != ed.builders@[b].0 by {
                        if b == n {
                            assert(old(ed).builders@[a].0 < id);
                        } else {
                            assert(old(ed).builders@[a].0 != old(ed).builders@[b].0);
                        }
                    }
                }
                return ;
            }
            i += 1;
        }
    }
}

} // verus!
