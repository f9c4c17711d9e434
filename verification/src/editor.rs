//! The top-level editor state: the graph, the scene, the selection, the
//! per-gesture scratch state, the pending-event queues that the
//! synchronization pass drains once per cycle, and the handle allocator.

use vstd::prelude::*;
use crate::geometry::Point;
use crate::geometry::point_ok;
use crate::geometry::POS_LIMIT;
use crate::geometry::OFFSET_LIMIT;
use crate::graph::Graph;
use crate::graph::no_dup;
use crate::scene::Scene;
use crate::scene::GraphSelection;
use crate::scene::VertexBundle;
use crate::helper::LastPrimaryCursorPos;
use crate::scene::EdgeBuilder;
use crate::scene::Edge;
use crate::ui::Mode;
use crate::ui::EguiHover;
use crate::ui::egui_unfocused;
use crate::interaction::select;
use crate::interaction::drag_node;
use crate::interaction::create_edge;
use crate::interaction::click_selection;
use crate::interaction::first_vertex_hit;
use crate::geometry::quantize_spec;
use crate::geometry::coord_ok;
use crate::sync::incident_to_any;
use crate::sync::commit_result;
use crate::sync::on_vertex_change;
use crate::sync::on_edge_builder;
use crate::sync::on_vertex_position_change;
use crate::sync::on_edge_removal;

verus! {

/// The transient line drawn while the edge-creation gesture is active.
#[derive(Clone, Copy, PartialEq, Eq, Structural, Debug)]
pub struct CreationLine {
    pub visible: bool,
    pub line_a: Point,
    pub line_b: Point,
}

/// One cycle's worth of resolved input.
pub struct FrameInput {
    pub mouse_just_pressed: bool,
    pub mouse_pressed: bool,
    pub key_just_pressed: bool,
    pub key_pressed: bool,
    pub key_just_released: bool,
    pub last_cursor_pos: LastPrimaryCursorPos,
    pub mode: Mode,
    pub egui_hover: EguiHover,
}

impl FrameInput {
    /// Internal consistency of one cycle's input: edge-triggered flags agree
    /// with the level-triggered ones, and the cursor, if known, is in range.
    pub open spec fn wf(self) -> bool {
        &&& self.last_cursor_pos.wf()
        &&& self.mouse_just_pressed ==> self.mouse_pressed
        &&& self.key_just_pressed ==> self.key_pressed
        &&& self.key_just_released ==> !self.key_pressed
    }
}

/// The whole editor state, threaded through every per-cycle system.
pub struct Editor {
    pub graph: Graph,
    pub scene: Scene,
    pub selection: Option<GraphSelection>,
    pub cursor_node_diff: Option<Point>,
    pub creation_line: CreationLine,
    pub builders: Vec<(u64, EdgeBuilder)>,
    pub added_vertices: Vec<u64>,
    pub removed_vertices: Vec<u64>,
    pub moved_vertices: Vec<u64>,
    pub removed_edges: Vec<u64>,
    pub next_id: u64,
}

impl Editor {
    /// Every handle the state mentions was allocated below `next_id`, so a
    /// fresh handle collides with nothing.
    pub open spec fn ids_bounded(self) -> bool {
        &&& forall|id: u64| #[trigger] self.graph.vertices().contains(id) ==> id < self.next_id
        &&& forall|id: u64|
            #[trigger] self.graph.edges().dom().contains(id) ==> id < self.next_id
        &&& forall|i: int|
            0 <= i < self.scene.vertices@.len() ==> (#[trigger] self.scene.vertices@[i]).0
                < self.next_id
        &&& forall|i: int|
            0 <= i < self.scene.edges@.len() ==> (#[trigger] self.scene.edges@[i]).0 < self.next_id
        &&& forall|i: int|
            0 <= i < self.builders@.len() ==> (#[trigger] self.builders@[i]).0 < self.next_id
        &&& forall|i: int|
            0 <= i < self.added_vertices@.len() ==> (#[trigger] self.added_vertices@[i])
                < self.next_id
        &&& forall|i: int|
            0 <= i < self.removed_vertices@.len() ==> (#[trigger] self.removed_vertices@[i])
                < self.next_id
        &&& forall|i: int|
            0 <= i < self.moved_vertices@.len() ==> (#[trigger] self.moved_vertices@[i])
                < self.next_id
        &&& forall|i: int|
            0 <= i < self.removed_edges@.len() ==> (#[trigger] self.removed_edges@[i])
                < self.next_id
    }

    /// The vertex stores mirror one another up to the pending queues: the
    /// graph knows exactly the scene's vertices, except that freshly spawned
    /// ones are still queued for insertion and freshly despawned ones are
    /// still queued for cascading removal.
    pub open spec fn vertex_sync(self) -> bool {
        &&& no_dup(self.added_vertices@)
        &&& no_dup(self.removed_vertices@)
        &&& forall|i: int|
            0 <= i < self.added_vertices@.len() ==> self.scene.has_v(
                #[trigger] self.added_vertices@[i],
            ) && !self.graph.vertices().contains(self.added_vertices@[i])
        &&& forall|i: int|
            0 <= i < self.removed_vertices@.len() ==> !self.scene.has_v(
                #[trigger] self.removed_vertices@[i],
            )
        &&& forall|id: u64|
            #[trigger] self.graph.vertices().contains(id) ==> (self.scene.has_v(id)
                && !self.added_vertices@.contains(id)) || self.removed_vertices@.contains(id)
        &&& forall|id: u64|
            #[trigger] self.scene.has_v(id) && !self.added_vertices@.contains(id)
                ==> self.graph.vertices().contains(id)
    }

    /// The edge stores mirror one another up to the pending removal queue:
    /// every visual edge is known to the graph, and every graph edge either
    /// has its visual or is queued for removal.
    pub open spec fn edge_sync(self) -> bool {
        &&& forall|id: u64|
            #[trigger] self.scene.has_e(id) ==> self.graph.edges().dom().contains(id)
        &&& forall|id: u64|
            #[trigger] self.graph.edges().dom().contains(id) ==> self.scene.has_e(id)
                || self.removed_edges@.contains(id)
        &&& forall|i: int|
            0 <= i < self.removed_edges@.len() ==> !self.scene.has_e(
                #[trigger] self.removed_edges@[i],
            )
    }

    /// Pending edge-creation requests carry handles that collide with
    /// nothing live and with each other not at all.
    pub open spec fn builders_fresh(self) -> bool {
        &&& forall|i: int, j: int|
            #![trigger self.builders@[i], self.builders@[j]]
            0 <= i < j < self.builders@.len() ==> self.builders@[i].0 != self.builders@[j].0
        &&& forall|i: int|
            0 <= i < self.builders@.len() ==> !self.graph.edges().dom().contains(
                (#[trigger] self.builders@[i]).0,
            ) && !self.scene.has_e(self.builders@[i].0) && !self.removed_edges@.contains(
                self.builders@[i].0,
            )
    }

    /// The selection, if any, refers to an element that still exists as a
    /// visual object: never a dangling reference.
    pub open spec fn selection_live(self) -> bool {
        match self.selection {
            Some(GraphSelection::Vertex(v)) => self.scene.has_v(v),
            Some(GraphSelection::Edge(e)) => self.scene.has_e(e),
            None => true,
        }
    }

    /// The editor's sole invariant, preserved by every public operation.
    pub open spec fn inv(self) -> bool {
        &&& self.graph.wf()
        &&& self.scene.wf()
        &&& self.ids_bounded()
        &&& self.vertex_sync()
        &&& self.edge_sync()
        &&& self.builders_fresh()
        &&& match self.cursor_node_diff {
            Some(o) => -OFFSET_LIMIT <= o.x <= OFFSET_LIMIT && -OFFSET_LIMIT <= o.y
                <= OFFSET_LIMIT,
            None => true,
        }
        &&& point_ok(self.creation_line.line_a)
        &&& point_ok(self.creation_line.line_b)
    }

    /// A fresh editor: empty graph, empty scene, nothing selected, no
    /// gesture in flight, the transient creation line hidden.
    pub fn new() -> (ed: Editor)
        ensures
            ed.inv(),
            ed.graph.vertices() == Set::<u64>::empty(),
            ed.graph.edges() == Map::<u64, (u64, u64)>::empty(),
            ed.scene.vertices@.len() == 0,
            ed.scene.edges@.len() == 0,
            ed.selection is None,
            ed.cursor_node_diff is None,
            !ed.creation_line.visible,
            ed.builders@.len() == 0,
            ed.added_vertices@.len() == 0,
            ed.removed_vertices@.len() == 0,
            ed.moved_vertices@.len() == 0,
            ed.removed_edges@.len() == 0,
    {
        Editor {
            graph: Graph::new(),
            scene: Scene::new(),
            selection: None,
            cursor_node_diff: None,
            creation_line: CreationLine { visible: false, line_a: Point { x: 0, y: 0 }, line_b: Point { x: 0, y: 0 } },
            builders: Vec::new(),
            added_vertices: Vec::new(),
            removed_vertices: Vec::new(),
            moved_vertices: Vec::new(),
            removed_edges: Vec::new(),
            next_id: 0,
        }
    }

    /// Spawn a new vertex object in the scene and queue it for insertion
    /// into the graph at the next synchronization pass.  Returns its fresh
    /// handle.
    pub fn spawn_vertex(&mut self, pos: Point, name: String, half_extend: i64) -> (id: u64)
        requires
            old(self).inv(),
            point_ok(pos),
            0 <= half_extend <= POS_LIMIT,
            old(self).next_id < u64::MAX,
        ensures
            final(self).inv(),
            id == old(self).next_id,
            final(self).next_id == old(self).next_id + 1,
            final(self).scene.vertices@ == old(self).scene.vertices@.push(
                (id, final(self).scene.v_bundle(id)),
            ),
            final(self).scene.v_bundle(id).pos == pos,
            final(self).scene.v_bundle(id).vertex_area.half_extend == half_extend,
            final(self).scene.v_bundle(id).vertex_name.0 == name,
            final(self).added_vertices@ == old(self).added_vertices@.push(id),
            old(self).selection_live() ==> final(self).selection_live(),
            final(self).scene.edges@ == old(self).scene.edges@,
            final(self).graph == old(self).graph,
            final(self).selection == old(self).selection,
            final(self).cursor_node_diff == old(self).cursor_node_diff,
            final(self).creation_line == old(self).creation_line,
            final(self).builders@ == old(self).builders@,
            final(self).removed_vertices@ == old(self).removed_vertices@,
            final(self).moved_vertices@ == old(self).moved_vertices@,
            final(self).removed_edges@ == old(self).removed_edges@,
    {
        let id = self.next_id;
        proof {
            if self.scene.has_v(id) {
                let i = choose|i: int|
                    0 <= i < self.scene.vertices@.len() && (#[trigger] self.scene.vertices@[i]).0
                        == id;
                assert(self.scene.vertices@[i].0 < id);
            }
        }
        let b = VertexBundle::new(pos, name, half_extend);
        self.scene.add_vertex(id, b);
        self.added_vertices.push(id);
        self.next_id = id + 1;
        proof {
            crate::scene::lemma_same_edges(self.scene, old(self).scene);
            let n = old(self).added_vertices@.len() as int;
            assert(self.added_vertices@[n] == id);
            let sv0 = old(self).scene.vertices@;
            assert forall|x: u64| #[trigger] self.scene.has_v(x) implies x == id || old(
                self,
            ).scene.has_v(x) by {
                let i = choose|i: int|
                    0 <= i < self.scene.vertices@.len() && (#[trigger] self.scene.vertices@[i]).0
                        == x;
                if i < sv0.len() {
                    assert(sv0[i].0 == x);
                }
            }
            assert forall|x: u64| old(self).scene.has_v(x) implies self.scene.has_v(x) by {
                let i = choose|i: int| 0 <= i < sv0.len() && (#[trigger] sv0[i]).0 == x;
                assert(self.scene.vertices@[i].0 == x);
            }
            assert forall|x: u64| self.added_vertices@.contains(x) implies x == id || old(
                self,
            ).added_vertices@.contains(x) by {
                let i = choose|i: int|
                    0 <= i < self.added_vertices@.len() && self.added_vertices@[i] == x;
                if i < n {
                    assert(old(self).added_vertices@[i] == x);
                }
            }
            assert(forall|i: int|
                0 <= i < n ==> old(self).added_vertices@[i] == #[trigger] self.added_vertices@[i]);
            assert forall|x: u64| old(self).added_vertices@.contains(x) implies self.added_vertices@.contains(x) by {
                let i = choose|i: int|
                    0 <= i < old(self).added_vertices@.len() && old(self).added_vertices@[i] == x;
                assert(self.added_vertices@[i] == x);
            }
            assert(no_dup(self.added_vertices@)) by {
                assert forall|i: int, j: int|
                    #![trigger self.added_vertices@[i], self.added_vertices@[j]]
                    0 <= i < j < self.added_vertices@.len() implies self.added_vertices@[i]
                    != self.added_vertices@[j] by {
                    if j == n {
                        assert(old(self).added_vertices@[i] < id);
                    } else {
                        assert(old(self).added_vertices@[i] != old(self).added_vertices@[j]);
                    }
                }
            }
        }
        id
    }
}

/// The pointer-gesture systems run this cycle only when the cursor is off
/// the UI panels.
pub open spec fn gestures_on(input: FrameInput) -> bool {
    !input.egui_hover.0
}

/// The selection after the selection system has run, or been gated off: a
/// press resolves the click against the cycle's starting state; anything
/// else keeps the selection, including a press whose world position is
/// unavailable.
pub open spec fn selection_after_click(ed0: Editor, input: FrameInput) -> Option<GraphSelection> {
    if gestures_on(input) && input.mouse_just_pressed {
        match input.last_cursor_pos.0 {
            Some(c) => click_selection(ed0.graph, ed0.scene, c),
            None => ed0.selection,
        }
    } else {
        ed0.selection
    }
}

/// The drag system runs this cycle: pointer off the panels, something
/// selected, and not in the exclusive interaction mode.
pub open spec fn drag_runs(ed0: Editor, input: FrameInput) -> bool {
    &&& gestures_on(input)
    &&& !(input.mode is Interact)
    &&& selection_after_click(ed0, input) is Some
}

/// The drag system writes a position this cycle: the button is held (not
/// freshly pressed), a present vertex is selected, and the cursor is known.
pub open spec fn drag_engaged(ed0: Editor, input: FrameInput) -> bool {
    &&& drag_runs(ed0, input)
    &&& !input.mouse_just_pressed
    &&& input.mouse_pressed
    &&& match (selection_after_click(ed0, input), input.last_cursor_pos.0) {
        (Some(GraphSelection::Vertex(sv)), Some(_)) => ed0.scene.has_v(sv),
        _ => false,
    }
}

/// The vertex an engaged drag moves.
pub open spec fn drag_vertex(ed0: Editor, input: FrameInput) -> u64 {
    match selection_after_click(ed0, input) {
        Some(GraphSelection::Vertex(sv)) => sv,
        _ => 0,
    }
}

/// The cursor position of an engaged drag.
pub open spec fn drag_cursor(input: FrameInput) -> Point {
    match input.last_cursor_pos.0 {
        Some(c) => c,
        None => Point { x: 0, y: 0 },
    }
}

/// The offset an engaged drag uses: the one captured earlier in the
/// gesture, or, on the gesture's first held cycle, the difference between
/// the vertex's position and the cursor's.
pub open spec fn drag_offset(ed0: Editor, input: FrameInput) -> (int, int) {
    let vp = ed0.scene.v_pos(drag_vertex(ed0, input));
    let c = drag_cursor(input);
    match ed0.cursor_node_diff {
        Some(o) => (o.x as int, o.y as int),
        None => (vp.x - c.x, vp.y - c.y),
    }
}

/// The grid-snapped position an engaged drag steers the vertex towards.
pub open spec fn drag_target(ed0: Editor, input: FrameInput) -> (int, int) {
    let c = drag_cursor(input);
    let off = drag_offset(ed0, input);
    (quantize_spec(c.x + off.0), quantize_spec(c.y + off.1))
}

/// The drag target lies in the representable coordinate range.
pub open spec fn drag_in_range(ed0: Editor, input: FrameInput) -> bool {
    coord_ok(drag_target(ed0, input).0) && coord_ok(drag_target(ed0, input).1)
}

/// The edge-creation system runs this cycle.
pub open spec fn creation_runs(ed0: Editor, input: FrameInput) -> bool {
    &&& gestures_on(input)
    &&& input.mode is Edit
    &&& selection_after_click(ed0, input) is Some
}

/// The pending edge-creation requests after the gesture phase: releasing
/// the modifier key over a vertex other than the selected source appends
/// one request with a fresh handle.  The release point is hit-tested
/// against the positions the vertices hold at release time, which are the
/// cycle's final positions (`edf.scene`): nothing after the gesture phase
/// moves a vertex.
pub open spec fn builders_after_gesture(ed0: Editor, edf: Editor, input: FrameInput) -> Seq<
    (u64, EdgeBuilder),
> {
    if creation_runs(ed0, input) && !input.key_pressed && input.key_just_released {
        match input.last_cursor_pos.0 {
            Some(c) => match first_vertex_hit(edf.scene, c) {
                Some(h) => match selection_after_click(ed0, input) {
                    Some(GraphSelection::Vertex(sv)) => if h != sv {
                        ed0.builders@.push((ed0.next_id, EdgeBuilder { u: sv, v: h }))
                    } else {
                        ed0.builders@
                    },
                    _ => ed0.builders@,
                },
                None => ed0.builders@,
            },
            None => ed0.builders@,
        }
    } else {
        ed0.builders@
    }
}

/// The moved-vertices queue the position-propagation pass drains: the
/// pending entries plus the vertex an engaged in-range drag moved.
pub open spec fn moved_after_gesture(ed0: Editor, input: FrameInput) -> Seq<u64> {
    if drag_engaged(ed0, input) && drag_in_range(ed0, input) {
        ed0.moved_vertices@.push(drag_vertex(ed0, input))
    } else {
        ed0.moved_vertices@
    }
}

/// The edges the cascade of the queued vertex removals takes away.
pub open spec fn cascade_removed(ed0: Editor) -> Set<u64> {
    Set::new(|e: u64| incident_to_any(ed0.graph, ed0.removed_vertices@, e))
}

/// The vertex set after the vertex lifecycle queues are drained.
pub open spec fn synced_vertices(ed0: Editor) -> Set<u64> {
    Set::new(
        |v: u64|
            (ed0.graph.vertices().contains(v) && !ed0.removed_vertices@.contains(v))
                || ed0.added_vertices@.contains(v),
    )
}

/// The queued edge removals as a set.
pub open spec fn queued_edge_removals(ed0: Editor) -> Set<u64> {
    Set::new(|e: u64| ed0.removed_edges@.contains(e))
}

/// The selection at the end of the cycle: the click outcome, cleared when
/// the synchronization pass deletes the selected element.
pub open spec fn selection_after_cycle(ed0: Editor, input: FrameInput) -> Option<GraphSelection> {
    match selection_after_click(ed0, input) {
        Some(GraphSelection::Vertex(v)) => if ed0.removed_vertices@.contains(v) {
            Option::<GraphSelection>::None
        } else {
            Some(GraphSelection::Vertex(v))
        },
        Some(GraphSelection::Edge(e)) => if incident_to_any(ed0.graph, ed0.removed_vertices@, e)
            || ed0.removed_edges@.contains(e) {
            Option::<GraphSelection>::None
        } else {
            Some(GraphSelection::Edge(e))
        },
        None => Option::<GraphSelection>::None,
    }
}

/// Edge `e` got its rendered line refreshed by the position-propagation
/// pass: it is incident to one of the vertices moved this cycle.
pub open spec fn line_refreshed(ed0: Editor, edf: Editor, input: FrameInput, e: u64) -> bool {
    exists|k: int|
        0 <= k < moved_after_gesture(ed0, input).len() && edf.graph.incident_to(
            #[trigger] moved_after_gesture(ed0, input)[k],
        ).contains(e)
}

/// One full input-processing cycle, in the fixed order the scheduling
/// labels of `AppSet` describe: the gesture systems (selection, drag, edge
/// creation, each gated on the pointer being off the UI panels, a live
/// selection and the interaction mode), then the synchronization pass
/// (vertex lifecycle, edge-creation commit, position propagation, edge
/// removal).  The contract fixes the cycle's entire outcome over the
/// starting state: the selection a press resolves, the drag movement, the
/// transient creation line, the emitted edge-creation request, and the
/// synchronized graph, which ends as the commit of the gesture's requests
/// over the cascade-reduced edge store, minus the queued edge removals.
/// Afterwards every pending-event queue is drained, the graph and the scene
/// mirror each other exactly, and the selection dangles on nothing.
#[verifier::rlimit(100)]
pub fn frame(ed: &mut Editor, input: &FrameInput)
    requires
        old(ed).inv(),
        input.wf(),
        old(ed).next_id < u64::MAX,
        old(ed).selection_live(),
    ensures
        final(ed).inv(),
        final(ed).added_vertices@.len() == 0,
        final(ed).removed_vertices@.len() == 0,
        final(ed).moved_vertices@.len() == 0,
        final(ed).builders@.len() == 0,
        final(ed).removed_edges@.len() == 0,
        forall|x: u64| #[trigger] final(ed).graph.vertices().contains(x) <==> final(ed).scene.has_v(x),
        forall|x: u64| #[trigger] final(ed).graph.edges().dom().contains(x) <==> final(ed).scene.has_e(x),
        final(ed).selection_live(),
        // the selection: the click's outcome, cleared when the cycle deletes
        // the selected element
        final(ed).selection == selection_after_cycle(*old(ed), *input),
        // the scene's vertex objects: same handles in the same order; only
        // an engaged in-range drag moves one of them
        final(ed).scene.vertices@.len() == old(ed).scene.vertices@.len(),
        forall|j: int| 0 <= j < old(ed).scene.vertices@.len() ==> (#[trigger] final(ed).scene.vertices@[j]).0 == old(ed).scene.vertices@[j].0,
        forall|x: u64| old(ed).scene.has_v(x) && !(drag_engaged(*old(ed), *input) && drag_in_range(*old(ed), *input) && x == drag_vertex(*old(ed), *input)) ==> final(ed).scene.v_bundle(x) == old(ed).scene.v_bundle(x),
        drag_engaged(*old(ed), *input) && drag_in_range(*old(ed), *input) ==> final(ed).scene.v_pos(drag_vertex(*old(ed), *input)).x == drag_target(*old(ed), *input).0 && final(ed).scene.v_pos(drag_vertex(*old(ed), *input)).y == drag_target(*old(ed), *input).1 && final(ed).scene.v_bundle(drag_vertex(*old(ed), *input)).vertex_area == old(ed).scene.v_bundle(drag_vertex(*old(ed), *input)).vertex_area && final(ed).scene.v_bundle(drag_vertex(*old(ed), *input)).vertex_name.0 == old(ed).scene.v_bundle(drag_vertex(*old(ed), *input)).vertex_name.0,
        // the captured drag offset
        drag_runs(*old(ed), *input) && input.mouse_just_pressed ==> final(ed).cursor_node_diff is None,
        drag_engaged(*old(ed), *input) ==> (final(ed).cursor_node_diff matches Some(o) && o.x == drag_offset(*old(ed), *input).0 && o.y == drag_offset(*old(ed), *input).1),
        drag_runs(*old(ed), *input) && !input.mouse_just_pressed && !drag_engaged(*old(ed), *input) ==> final(ed).cursor_node_diff == old(ed).cursor_node_diff,
        !drag_runs(*old(ed), *input) ==> final(ed).cursor_node_diff == old(ed).cursor_node_diff,
        // the transient creation line
        creation_runs(*old(ed), *input) && input.key_pressed ==> (match (selection_after_click(*old(ed), *input), input.last_cursor_pos.0) {
            (Some(GraphSelection::Vertex(sv)), Some(c)) => if old(ed).scene.has_v(sv) {
                final(ed).creation_line == (CreationLine { visible: input.key_just_pressed || old(ed).creation_line.visible, line_a: final(ed).scene.v_pos(sv), line_b: c })
            } else {
                final(ed).creation_line == old(ed).creation_line
            },
            _ => final(ed).creation_line == old(ed).creation_line,
        }),
        creation_runs(*old(ed), *input) && !input.key_pressed && input.key_just_released ==> final(ed).creation_line == (CreationLine { visible: false, ..old(ed).creation_line }),
        creation_runs(*old(ed), *input) && !input.key_pressed && !input.key_just_released ==> final(ed).creation_line == old(ed).creation_line,
        !creation_runs(*old(ed), *input) ==> final(ed).creation_line == old(ed).creation_line,
        // the graph: vertices after the lifecycle pass; edges as the commit
        // of the gesture's requests over the cascade-reduced store, minus
        // the queued removals
        forall|x: u64| #[trigger] final(ed).graph.vertices().contains(x) <==> synced_vertices(*old(ed)).contains(x),
        final(ed).graph.edges() == commit_result(old(ed).graph.edges().remove_keys(cascade_removed(*old(ed))), synced_vertices(*old(ed)), builders_after_gesture(*old(ed), *final(ed), *input)).remove_keys(queued_edge_removals(*old(ed))),
        // rendered edge lines: surviving edges keep their line unless a
        // moved vertex refreshed it; committed edges get theirs from the
        // request's endpoints, in canonical orientation when also refreshed
        forall|x: u64| #[trigger] final(ed).scene.has_e(x) && old(ed).scene.has_e(x) ==> final(ed).scene.e_line(x) == (if line_refreshed(*old(ed), *final(ed), *input, x) {
            Edge { line_a: final(ed).scene.v_pos(final(ed).graph.edges()[x].0), line_b: final(ed).scene.v_pos(final(ed).graph.edges()[x].1) }
        } else {
            old(ed).scene.e_line(x)
        }),
        forall|x: u64| #[trigger] final(ed).scene.has_e(x) && !old(ed).scene.has_e(x) ==> exists|j: int| 0 <= j < builders_after_gesture(*old(ed), *final(ed), *input).len() && (#[trigger] builders_after_gesture(*old(ed), *final(ed), *input)[j]).0 == x && final(ed).scene.e_line(x) == (if line_refreshed(*old(ed), *final(ed), *input, x) {
            Edge { line_a: final(ed).scene.v_pos(final(ed).graph.edges()[x].0), line_b: final(ed).scene.v_pos(final(ed).graph.edges()[x].1) }
        } else {
            Edge { line_a: final(ed).scene.v_pos(builders_after_gesture(*old(ed), *final(ed), *input)[j].1.u), line_b: final(ed).scene.v_pos(builders_after_gesture(*old(ed), *final(ed), *input)[j].1.v) }
        }),
{
    let unfocused = egui_unfocused(&input.egui_hover);
    let ghost ed0 = *old(ed);
    let ghost sel1 = selection_after_click(ed0, *input);
    if unfocused {
        select(ed, input);
        proof {
            if input.mouse_just_pressed {
                match input.last_cursor_pos.0 {
                    Some(c) => {
                        crate::interaction::lemma_first_vertex_hit_live(ed0.scene, c, 0);
                        crate::interaction::lemma_first_edge_hit_live(ed0.graph, ed0.scene, c, 0);
                    },
                    None => {},
                }
            }
            crate::scene::lemma_same_vertices(ed.scene, ed0.scene);
            crate::scene::lemma_same_edges(ed.scene, ed0.scene);
            assert(ed.selection_live());
        }
    }
    proof {
        assert(ed.selection == sel1);
        assert(ed.selection_live());
    }
    let ghost e_s = *ed;
    if unfocused && !(matches!(input.mode, Mode::Interact)) {
        if ed.selection.is_some() {
            drag_node(ed, input);
            proof {
                crate::scene::lemma_same_edges(ed.scene, e_s.scene);
                assert(ed.selection_live());
            }
        }
    }
    let ghost e_d = *ed;
    proof {
        assert(drag_runs(ed0, *input) == (unfocused && !(input.mode is Interact) && sel1 is Some));
        if drag_engaged(ed0, *input) {
            assert(e_d.cursor_node_diff matches Some(o) && o.x == drag_offset(ed0, *input).0 && o.y == drag_offset(ed0, *input).1);
        }
    }
    if unfocused && matches!(input.mode, Mode::Edit) {
        if ed.selection.is_some() {
            create_edge(ed, input);
        }
    }
    proof {
        assert(ed.selection_live());
        assert(ed.scene == e_d.scene);
    }
    let ghost e_c = *ed;
    on_vertex_change(ed);
    proof {
        crate::scene::lemma_same_vertices(ed.scene, e_c.scene);
        assert(ed.selection_live());
    }
    let ghost e_1 = *ed;
    on_edge_builder(ed);
    proof {
        crate::scene::lemma_same_vertices(ed.scene, e_1.scene);
        assert(ed.selection_live());
    }
    let ghost e_2 = *ed;
    on_vertex_position_change(ed);
    proof {
        crate::scene::lemma_same_vertices(ed.scene, e_2.scene);
        assert(ed.selection_live());
    }
    let ghost e_3 = *ed;
    on_edge_removal(ed);
    proof {
        assert(ed.selection_live());
        crate::scene::lemma_same_vertices(ed.scene, e_3.scene);
        crate::scene::lemma_same_edges(ed.scene, e_3.scene);
        crate::scene::lemma_same_vertices(ed.scene, e_d.scene);
        // The selection ran the gauntlet exactly as `selection_after_cycle`
        // describes.
        assert(ed.selection == selection_after_cycle(ed0, *input)) by {
            assert(e_c.selection == sel1);
            assert(incident_to_any(e_c.graph, e_c.removed_vertices@, (match sel1 { Some(GraphSelection::Edge(e2)) => e2, _ => 0u64 })) == incident_to_any(ed0.graph, ed0.removed_vertices@, (match sel1 { Some(GraphSelection::Edge(e2)) => e2, _ => 0u64 })));
            match sel1 {
                Some(GraphSelection::Edge(e2)) => {
                    assert(e_3.removed_edges@.contains(e2) == (ed0.removed_edges@.contains(e2) || incident_to_any(ed0.graph, ed0.removed_vertices@, e2)));
                },
                _ => {},
            }
        }
        // The captured drag offset ends as stated.
        assert(ed.cursor_node_diff == e_d.cursor_node_diff);
        // Vertex objects: order kept, only the dragged vertex moved.
        assert(ed.scene.vertices@.len() == ed0.scene.vertices@.len());
        assert(forall|j: int| 0 <= j < ed0.scene.vertices@.len() ==> (#[trigger] ed.scene.vertices@[j]).0 == ed0.scene.vertices@[j].0) by {
            assert(forall|j: int| 0 <= j < ed0.scene.vertices@.len() ==> (#[trigger] e_d.scene.vertices@[j]).0 == ed0.scene.vertices@[j].0);
        }
        assert forall|x: u64| ed0.scene.has_v(x) && !(drag_engaged(ed0, *input) && drag_in_range(ed0, *input) && x == drag_vertex(ed0, *input)) implies ed.scene.v_bundle(x) == ed0.scene.v_bundle(x) by {
            assert(e_d.scene.v_bundle(x) == ed0.scene.v_bundle(x));
            assert(e_d.scene.has_v(x));
            assert(ed.scene.v_bundle(x) == e_d.scene.v_bundle(x));
        }
        if drag_engaged(ed0, *input) && drag_in_range(ed0, *input) {
            let sv = drag_vertex(ed0, *input);
            assert(e_d.scene.v_pos(sv).x == drag_target(ed0, *input).0 && e_d.scene.v_pos(sv).y == drag_target(ed0, *input).1);
            assert(e_d.scene.has_v(sv));
            assert(ed.scene.v_bundle(sv) == e_d.scene.v_bundle(sv));
        }
        // The creation line ends as the gesture left it.
        assert(ed.creation_line == e_c.creation_line);
        if creation_runs(ed0, *input) && input.key_pressed {
            match (sel1, input.last_cursor_pos.0) {
                (Some(GraphSelection::Vertex(sv)), Some(c)) => {
                    if ed0.scene.has_v(sv) {
                        assert(e_d.scene.has_v(sv));
                        assert(e_c.creation_line.line_a == e_d.scene.v_pos(sv));
                        assert(ed.scene.v_bundle(sv) == e_d.scene.v_bundle(sv));
                    }
                },
                _ => {},
            }
        }
        // Vertices of the graph after the lifecycle pass.
        assert forall|x: u64| #[trigger] ed.graph.vertices().contains(x) <==> synced_vertices(ed0).contains(x) by {
            assert(e_1.graph.vertices().contains(x) <==> (e_c.graph.vertices().contains(x) && !e_c.removed_vertices@.contains(x)) || e_c.added_vertices@.contains(x));
        }
        // The requests the commit pass consumed are the gesture's.
        let ghost gb = builders_after_gesture(ed0, *ed, *input);
        assert(ed.scene.vertices@ == e_d.scene.vertices@);
        assert(e_1.builders@ == gb) by {
            assert(e_1.builders@ == e_c.builders@);
            assert(creation_runs(ed0, *input) == (unfocused && (input.mode is Edit) && sel1 is Some));
            match input.last_cursor_pos.0 {
                Some(c) => {
                    crate::interaction::lemma_first_vertex_hit_same(ed.scene, e_d.scene, c, 0);
                },
                None => {},
            }
        }
        // The cascade-reduced edge store the commit pass started from.
        assert forall|x: u64| #[trigger] e_1.graph.edges().dom().contains(x) <==> (ed0.graph.edges().dom().contains(x) && !cascade_removed(ed0).contains(x)) by {
            assert(e_1.graph.edges().dom().contains(x) <==> e_c.graph.edges().dom().contains(x) && !incident_to_any(e_c.graph, e_c.removed_vertices@, x));
            assert(incident_to_any(e_c.graph, e_c.removed_vertices@, x) == incident_to_any(ed0.graph, ed0.removed_vertices@, x));
        }
        assert forall|x: u64| #[trigger] e_1.graph.edges().dom().contains(x) implies e_1.graph.edges()[x] == ed0.graph.edges()[x] by {}
        assert(e_1.graph.edges() =~= ed0.graph.edges().remove_keys(cascade_removed(ed0)));
        assert(e_1.graph.vertices() =~= synced_vertices(ed0)) by {
            assert(forall|x: u64| #[trigger] e_1.graph.vertices().contains(x) <==> (e_c.graph.vertices().contains(x) && !e_c.removed_vertices@.contains(x)) || e_c.added_vertices@.contains(x));
        }
        assert(e_2.graph.edges() == commit_result(e_1.graph.edges(), e_1.graph.vertices(), e_1.builders@));
        assert(e_2.graph.edges() == commit_result(ed0.graph.edges().remove_keys(cascade_removed(ed0)), synced_vertices(ed0), gb));
        // The final pass takes away exactly the queued edge removals.
        assert forall|x: u64| #[trigger] ed.graph.edges().dom().contains(x) <==> (e_2.graph.edges().dom().contains(x) && !queued_edge_removals(ed0).contains(x)) by {
            assert(ed.graph.edges().dom().contains(x) <==> e_3.graph.edges().dom().contains(x) && !e_3.removed_edges@.contains(x));
            assert(e_3.graph == e_2.graph);
            assert(e_3.removed_edges@ == e_1.removed_edges@);
            assert(e_1.removed_edges@.contains(x) == (ed0.removed_edges@.contains(x) || incident_to_any(ed0.graph, ed0.removed_vertices@, x))) by {
                assert(e_1.removed_edges@.contains(x) == (e_c.removed_edges@.contains(x) || incident_to_any(e_c.graph, e_c.removed_vertices@, x)));
                assert(incident_to_any(e_c.graph, e_c.removed_vertices@, x) == incident_to_any(ed0.graph, ed0.removed_vertices@, x));
            }
            if e_2.graph.edges().dom().contains(x) && incident_to_any(ed0.graph, ed0.removed_vertices@, x) {
                // an edge incident to a removed vertex is gone before the
                // commit and cannot be a committed handle
                assert(ed0.graph.edges().dom().contains(x)) by {
                    let k = choose|k: int| 0 <= k < ed0.removed_vertices@.len() && ed0.graph.incident_to(#[trigger] ed0.removed_vertices@[k]).contains(x);
                }
                assert(!e_1.graph.edges().dom().contains(x));
                let j = choose|j: int| 0 <= j < e_1.builders@.len() && (#[trigger] e_1.builders@[j]).0 == x;
                assert(gb[j].0 == x);
                if j < ed0.builders@.len() {
                    assert(ed0.builders@[j].0 == x);
                    assert(!ed0.graph.edges().dom().contains(ed0.builders@[j].0));
                } else {
                    assert(gb[j].0 == ed0.next_id);
                }
            }
        }
        assert forall|x: u64| #[trigger] ed.graph.edges().dom().contains(x) implies ed.graph.edges()[x] == e_2.graph.edges()[x] by {}
        assert(ed.graph.edges() =~= commit_result(ed0.graph.edges().remove_keys(cascade_removed(ed0)), synced_vertices(ed0), gb).remove_keys(queued_edge_removals(ed0)));
        // The moved-vertices queue the position pass drained.
        let ghost moved3 = moved_after_gesture(ed0, *input);
        assert(e_2.moved_vertices@ == moved3) by {
            assert(e_2.moved_vertices@ == e_c.moved_vertices@ && e_c.moved_vertices@ == e_d.moved_vertices@);
        }
        // The position pass's refresh condition, translated to the final
        // state: every live edge's endpoint positions are available there,
        // so refreshing comes down to incidence with a moved vertex.
        assert forall|x: u64| #[trigger] e_2.scene.has_e(x) implies (crate::sync::line_refresh_applies(e_2.graph, e_2.scene, e_2.moved_vertices@, x) == line_refreshed(ed0, *ed, *input, x)) && ed.graph.edges().dom().contains(x) by {
            assert(e_2.graph.edges().dom().contains(x));
            assert(e_2.graph.edge_wf(x));
            assert(e_2.added_vertices@.len() == 0 && e_2.removed_vertices@.len() == 0);
            assert(e_2.scene.has_v(e_2.graph.edges()[x].0) && e_2.scene.has_v(e_2.graph.edges()[x].1));
            assert(crate::sync::endpoints_available(e_2.graph, e_2.scene, x));
            assert(!e_2.removed_edges@.contains(x)) by {
                if e_2.removed_edges@.contains(x) {
                    let k = choose|k: int| 0 <= k < e_2.removed_edges@.len() && e_2.removed_edges@[k] == x;
                    assert(!e_2.scene.has_e(e_2.removed_edges@[k]));
                }
            }
            assert(ed.graph.edges().dom().contains(x));
            assert(ed.graph.edges()[x] == e_2.graph.edges()[x]);
            assert forall|k: int| 0 <= k < moved3.len() implies ((e_2.graph.vertices().contains(#[trigger] moved3[k]) && e_2.graph.adj(moved3[k]).contains(x)) == e_2.graph.incident_to(moved3[k]).contains(x)) by {
                crate::graph::lemma_adj_is_incident(e_2.graph, moved3[k]);
            }
            assert forall|k: int| 0 <= k < moved3.len() implies (e_2.graph.incident_to(#[trigger] moved3[k]).contains(x) == ed.graph.incident_to(moved3[k]).contains(x)) by {}
            if crate::sync::adj_of_any(e_2.graph, e_2.moved_vertices@, x) {
                let k = choose|k: int| 0 <= k < e_2.moved_vertices@.len() && e_2.graph.vertices().contains(#[trigger] e_2.moved_vertices@[k]) && e_2.graph.adj(e_2.moved_vertices@[k]).contains(x);
                assert(ed.graph.incident_to(moved3[k]).contains(x));
            }
            if line_refreshed(ed0, *ed, *input, x) {
                let k = choose|k: int| 0 <= k < moved3.len() && ed.graph.incident_to(#[trigger] moved3[k]).contains(x);
                assert(e_2.graph.vertices().contains(moved3[k]) && e_2.graph.adj(moved3[k]).contains(x));
            }
        }
        // Surviving edges keep or refresh their rendered lines.
        assert forall|x: u64| #[trigger] ed.scene.has_e(x) && ed0.scene.has_e(x) implies ed.scene.e_line(x) == (if line_refreshed(ed0, *ed, *input, x) {
            Edge { line_a: ed.scene.v_pos(ed.graph.edges()[x].0), line_b: ed.scene.v_pos(ed.graph.edges()[x].1) }
        } else {
            ed0.scene.e_line(x)
        }) by {
            assert(e_3.scene.has_e(x) && e_2.scene.has_e(x));
            assert(e_1.scene.has_e(x)) by {
                if !e_1.scene.has_e(x) {
                    assert(e_2.graph.edges().dom().contains(x) && !e_1.graph.edges().dom().contains(x));
                    let j = choose|j: int| 0 <= j < e_1.builders@.len() && (#[trigger] e_1.builders@[j]).0 == x;
                    assert(gb[j].0 == x);
                    if j < ed0.builders@.len() {
                        assert(ed0.builders@[j].0 == x);
                        assert(!ed0.scene.has_e(ed0.builders@[j].0));
                    } else {
                        assert(gb[j].0 == ed0.next_id);
                        let k = choose|k: int| 0 <= k < ed0.scene.edges@.len() && (#[trigger] ed0.scene.edges@[k]).0 == x;
                        assert(ed0.scene.edges@[k].0 < ed0.next_id);
                    }
                }
            }
            assert(e_d.scene.has_e(x) && e_d.scene.e_line(x) == ed0.scene.e_line(x)) by {
                crate::scene::lemma_same_edges(e_d.scene, ed0.scene);
            }
            assert(e_1.scene.e_line(x) == e_d.scene.e_line(x));
            assert(e_2.scene.e_line(x) == e_1.scene.e_line(x));
            assert(e_3.scene.e_line(x) == (if crate::sync::line_refresh_applies(e_2.graph, e_2.scene, e_2.moved_vertices@, x) {
                crate::sync::refreshed_line(e_2.graph, e_2.scene, x)
            } else {
                e_2.scene.e_line(x)
            }));
            assert(ed.scene.e_line(x) == e_3.scene.e_line(x));
            if line_refreshed(ed0, *ed, *input, x) {
                assert(e_2.scene.has_v(e_2.graph.edges()[x].0) && e_2.scene.has_v(e_2.graph.edges()[x].1)) by {
                    assert(e_2.graph.edge_wf(x));
                    assert(e_2.added_vertices@.len() == 0 && e_2.removed_vertices@.len() == 0);
                }
                assert(ed.scene.v_pos(e_2.graph.edges()[x].0) == e_2.scene.v_pos(e_2.graph.edges()[x].0) && ed.scene.v_pos(e_2.graph.edges()[x].1) == e_2.scene.v_pos(e_2.graph.edges()[x].1)) by {
                    crate::scene::lemma_same_vertices(ed.scene, e_2.scene);
                }
                assert(ed.graph.edges()[x] == e_2.graph.edges()[x]);
            }
        }
        // Committed edges got their line from the request's endpoints, in
        // canonical orientation when a moved endpoint also refreshed it.
        assert forall|x: u64| #[trigger] ed.scene.has_e(x) && !ed0.scene.has_e(x) implies exists|j: int| 0 <= j < gb.len() && (#[trigger] gb[j]).0 == x && ed.scene.e_line(x) == (if line_refreshed(ed0, *ed, *input, x) {
            Edge { line_a: ed.scene.v_pos(ed.graph.edges()[x].0), line_b: ed.scene.v_pos(ed.graph.edges()[x].1) }
        } else {
            Edge { line_a: ed.scene.v_pos(gb[j].1.u), line_b: ed.scene.v_pos(gb[j].1.v) }
        }) by {
            assert(e_3.scene.has_e(x) && e_2.scene.has_e(x));
            assert(!e_1.scene.has_e(x)) by {
                if e_1.scene.has_e(x) {
                    assert(e_c.scene.has_e(x));
                    assert(e_d.scene.has_e(x) == ed0.scene.has_e(x)) by {
                        crate::scene::lemma_same_edges(e_d.scene, ed0.scene);
                    }
                }
            }
            assert(e_2.graph.edges().dom().contains(x) && !e_1.graph.edges().dom().contains(x));
            let j = choose|j: int| 0 <= j < e_1.builders@.len() && (#[trigger] e_1.builders@[j]).0 == x && e_2.scene.e_line(x) == (Edge { line_a: e_1.scene.v_pos(e_1.builders@[j].1.u), line_b: e_1.scene.v_pos(e_1.builders@[j].1.v) }) && e_2.graph.edges()[x] == crate::graph::canonical_pair(e_1.builders@[j].1.u, e_1.builders@[j].1.v) && e_1.graph.vertices().contains(e_1.builders@[j].1.u) && e_1.graph.vertices().contains(e_1.builders@[j].1.v);
            assert(gb[j].0 == x);
            // the request's endpoints are live, so their positions carry to
            // the cycle's end unchanged
            assert(e_1.added_vertices@.len() == 0 && e_1.removed_vertices@.len() == 0);
            assert(e_1.scene.has_v(gb[j].1.u) && e_1.scene.has_v(gb[j].1.v));
            assert(ed.scene.v_pos(gb[j].1.u) == e_1.scene.v_pos(gb[j].1.u) && ed.scene.v_pos(gb[j].1.v) == e_1.scene.v_pos(gb[j].1.v)) by {
                crate::scene::lemma_same_vertices(ed.scene, e_1.scene);
            }
            assert(e_3.scene.e_line(x) == (if crate::sync::line_refresh_applies(e_2.graph, e_2.scene, e_2.moved_vertices@, x) {
                crate::sync::refreshed_line(e_2.graph, e_2.scene, x)
            } else {
                e_2.scene.e_line(x)
            }));
            assert(ed.scene.e_line(x) == e_3.scene.e_line(x));
            if line_refreshed(ed0, *ed, *input, x) {
                assert(e_2.scene.has_v(e_2.graph.edges()[x].0) && e_2.scene.has_v(e_2.graph.edges()[x].1)) by {
                    assert(e_2.graph.edge_wf(x));
                    assert(e_2.added_vertices@.len() == 0 && e_2.removed_vertices@.len() == 0);
                }
                assert(ed.scene.v_pos(e_2.graph.edges()[x].0) == e_2.scene.v_pos(e_2.graph.edges()[x].0) && ed.scene.v_pos(e_2.graph.edges()[x].1) == e_2.scene.v_pos(e_2.graph.edges()[x].1)) by {
                    crate::scene::lemma_same_vertices(ed.scene, e_2.scene);
                }
                assert(ed.graph.edges()[x] == e_2.graph.edges()[x]);
            }
        }
    }
}
} // verus!
