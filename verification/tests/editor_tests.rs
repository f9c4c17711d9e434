use graph_editor::editor::Editor;
use graph_editor::editor::FrameInput;
use graph_editor::editor::frame;
use graph_editor::geometry::Point;
use graph_editor::helper::LastPrimaryCursorPos;
use graph_editor::scene::GraphSelection;
use graph_editor::ui::EguiHover;
use graph_editor::ui::Mode;
use graph_editor::ui::delete_selected;
use graph_editor::AppPlugins;
use graph_editor::AppSet;

fn p(x: i64, y: i64) -> Point {
    Point { x, y }
}

fn idle() -> FrameInput {
    FrameInput {
        mouse_just_pressed: false,
        mouse_pressed: false,
        key_just_pressed: false,
        key_pressed: false,
        key_just_released: false,
        last_cursor_pos: LastPrimaryCursorPos(None),
        mode: Mode::Edit,
        egui_hover: EguiHover(false),
    }
}

fn click_at(x: i64, y: i64) -> FrameInput {
    FrameInput {
        mouse_just_pressed: true,
        mouse_pressed: true,
        last_cursor_pos: LastPrimaryCursorPos(Some(p(x, y))),
        ..idle()
    }
}

fn hold_at(x: i64, y: i64) -> FrameInput {
    FrameInput {
        mouse_pressed: true,
        last_cursor_pos: LastPrimaryCursorPos(Some(p(x, y))),
        ..idle()
    }
}

fn key_hold_at(x: i64, y: i64, just: bool) -> FrameInput {
    FrameInput {
        key_pressed: true,
        key_just_pressed: just,
        last_cursor_pos: LastPrimaryCursorPos(Some(p(x, y))),
        ..idle()
    }
}

fn key_release_at(x: i64, y: i64) -> FrameInput {
    FrameInput {
        key_just_released: true,
        last_cursor_pos: LastPrimaryCursorPos(Some(p(x, y))),
        ..idle()
    }
}

/// Two vertices at (0,0) and (100,0), synchronized into the graph.
fn two_vertex_editor() -> (Editor, u64, u64) {
    let mut ed = Editor::new();
    let a = ed.spawn_vertex(p(0, 0), "a".to_string(), 10);
    let b = ed.spawn_vertex(p(100, 0), "b".to_string(), 10);
    frame(&mut ed, &idle());
    (ed, a, b)
}

/// Runs the edge-creation gesture from the currently selected vertex,
/// releasing over `(x, y)`.
fn gesture_to(ed: &mut Editor, x: i64, y: i64) {
    frame(ed, &key_hold_at(x, y, true));
    frame(ed, &key_release_at(x, y));
}

#[test]
fn spawned_vertices_enter_the_graph_after_one_cycle() {
    let (ed, a, b) = two_vertex_editor();
    assert!(ed.graph.has_vertex(&a));
    assert!(ed.graph.has_vertex(&b));
    assert_eq!(ed.scene.vertices.len(), 2);
    assert_ne!(a, b);
}

#[test]
fn click_selects_vertex_and_empty_space_clears() {
    let (mut ed, a, _b) = two_vertex_editor();
    frame(&mut ed, &click_at(3, -2));
    assert_eq!(ed.selection, Some(GraphSelection::Vertex(a)));
    frame(&mut ed, &click_at(500, 500));
    assert_eq!(ed.selection, None);
}

#[test]
fn click_with_unavailable_cursor_is_a_no_op() {
    let (mut ed, a, _b) = two_vertex_editor();
    frame(&mut ed, &click_at(0, 0));
    assert_eq!(ed.selection, Some(GraphSelection::Vertex(a)));
    // a press whose world position cannot be resolved changes nothing
    let mut input = idle();
    input.mouse_just_pressed = true;
    input.mouse_pressed = true;
    frame(&mut ed, &input);
    assert_eq!(ed.selection, Some(GraphSelection::Vertex(a)));
}

#[test]
fn click_over_ui_panel_is_ignored() {
    let (mut ed, a, _b) = two_vertex_editor();
    frame(&mut ed, &click_at(0, 0));
    assert_eq!(ed.selection, Some(GraphSelection::Vertex(a)));
    let mut input = click_at(500, 500);
    input.egui_hover = EguiHover(true);
    frame(&mut ed, &input);
    // still selected: the gated systems did not run
    assert_eq!(ed.selection, Some(GraphSelection::Vertex(a)));
}

#[test]
fn zero_half_extent_vertex_is_never_hit() {
    let mut ed = Editor::new();
    let _a = ed.spawn_vertex(p(0, 0), "a".to_string(), 0);
    frame(&mut ed, &idle());
    frame(&mut ed, &click_at(0, 0));
    assert_eq!(ed.selection, None);
}

#[test]
fn first_vertex_in_storage_order_wins_overlapping_hit() {
    let mut ed = Editor::new();
    let a = ed.spawn_vertex(p(0, 0), "a".to_string(), 20);
    let _b = ed.spawn_vertex(p(5, 0), "b".to_string(), 20);
    frame(&mut ed, &idle());
    // both hit-boxes contain (4, 0); the earlier-spawned vertex is chosen
    frame(&mut ed, &click_at(4, 0));
    assert_eq!(ed.selection, Some(GraphSelection::Vertex(a)));
}

#[test]
fn edge_creation_gesture_connects_two_vertices_once() {
    let (mut ed, a, b) = two_vertex_editor();
    frame(&mut ed, &click_at(0, 0));
    assert_eq!(ed.selection, Some(GraphSelection::Vertex(a)));

    // releasing over the selected vertex itself creates nothing
    gesture_to(&mut ed, 0, 0);
    assert_eq!(ed.scene.edges.len(), 0);

    // releasing over the other vertex creates exactly one edge
    gesture_to(&mut ed, 100, 0);
    assert_eq!(ed.scene.edges.len(), 1);
    let e = ed.graph.get_edge_between(a, b).expect("edge should exist");
    // canonical ordering: smaller handle first
    assert_eq!(ed.graph.incident_vertices(&e), Some((a.min(b), a.max(b))));
    // the edge visual's line runs between the endpoint positions
    assert_eq!(ed.scene.edges.len(), 1);
    assert_eq!(ed.scene.edges[0].1.line_a, p(0, 0));
    assert_eq!(ed.scene.edges[0].1.line_b, p(100, 0));

    // repeating the gesture does not create a second edge
    frame(&mut ed, &click_at(0, 0));
    gesture_to(&mut ed, 100, 0);
    assert_eq!(ed.scene.edges.len(), 1);
    assert_eq!(ed.graph.get_edge_between(a, b), Some(e));
}

#[test]
fn edge_creation_gesture_needs_edit_mode() {
    let (mut ed, a, _b) = two_vertex_editor();
    frame(&mut ed, &click_at(0, 0));
    assert_eq!(ed.selection, Some(GraphSelection::Vertex(a)));
    let mut hold = key_hold_at(100, 0, true);
    hold.mode = Mode::Settings;
    let mut release = key_release_at(100, 0);
    release.mode = Mode::Settings;
    frame(&mut ed, &hold);
    frame(&mut ed, &release);
    assert_eq!(ed.scene.edges.len(), 0);
}

#[test]
fn clicking_a_segment_selects_the_edge() {
    let (mut ed, a, b) = two_vertex_editor();
    frame(&mut ed, &click_at(0, 0));
    gesture_to(&mut ed, 100, 0);
    let e = ed.graph.get_edge_between(a, b).unwrap();

    frame(&mut ed, &click_at(50, 3));
    assert_eq!(ed.selection, Some(GraphSelection::Edge(e)));
    frame(&mut ed, &click_at(50, 6));
    assert_eq!(ed.selection, None);
}

#[test]
fn deleting_a_selected_edge_clears_the_selection() {
    let (mut ed, a, b) = two_vertex_editor();
    frame(&mut ed, &click_at(0, 0));
    gesture_to(&mut ed, 100, 0);
    let e = ed.graph.get_edge_between(a, b).unwrap();

    frame(&mut ed, &click_at(50, 3));
    assert_eq!(ed.selection, Some(GraphSelection::Edge(e)));
    delete_selected(&mut ed);
    // the selection becomes "none", not a dangling reference
    assert_eq!(ed.selection, None);
    frame(&mut ed, &idle());
    assert!(!ed.graph.has_edge(&e));
    assert_eq!(ed.graph.get_edge_between(a, b), None);
    assert_eq!(ed.scene.edges.len(), 0);
    // the endpoints are untouched
    assert!(ed.graph.has_vertex(&a));
    assert!(ed.graph.has_vertex(&b));
}

#[test]
fn deleting_a_vertex_cascades_to_its_edges() {
    let mut ed = Editor::new();
    let a = ed.spawn_vertex(p(0, 0), "a".to_string(), 10);
    let b = ed.spawn_vertex(p(100, 0), "b".to_string(), 10);
    let c = ed.spawn_vertex(p(0, 100), "c".to_string(), 10);
    frame(&mut ed, &idle());
    frame(&mut ed, &click_at(0, 0));
    gesture_to(&mut ed, 100, 0);
    frame(&mut ed, &click_at(0, 0));
    gesture_to(&mut ed, 0, 100);
    assert_eq!(ed.scene.edges.len(), 2);

    frame(&mut ed, &click_at(0, 0));
    assert_eq!(ed.selection, Some(GraphSelection::Vertex(a)));
    delete_selected(&mut ed);
    assert_eq!(ed.selection, None);
    frame(&mut ed, &idle());
    assert!(!ed.graph.has_vertex(&a));
    assert_eq!(ed.scene.edges.len(), 0);
    assert_eq!(ed.scene.edges.len(), 0);
    assert!(ed.graph.has_vertex(&b));
    assert!(ed.graph.has_vertex(&c));
}

#[test]
fn vertex_deleted_before_its_first_cycle_never_reaches_the_graph() {
    let mut ed = Editor::new();
    let a = ed.spawn_vertex(p(0, 0), "a".to_string(), 10);
    frame(&mut ed, &click_at(0, 0));
    assert_eq!(ed.selection, Some(GraphSelection::Vertex(a)));
    // note: no synchronization cycle ran between spawn and delete
    let mut ed2 = Editor::new();
    let a2 = ed2.spawn_vertex(p(0, 0), "a".to_string(), 10);
    ed2.selection = Some(GraphSelection::Vertex(a2));
    delete_selected(&mut ed2);
    frame(&mut ed2, &idle());
    assert!(!ed2.graph.has_vertex(&a2));
    assert_eq!(ed2.scene.vertices.len(), 0);
}

#[test]
fn drag_snaps_the_selected_vertex_to_the_grid() {
    let (mut ed, a, _b) = two_vertex_editor();
    frame(&mut ed, &click_at(0, 0));
    assert_eq!(ed.selection, Some(GraphSelection::Vertex(a)));
    // the first held cycle captures the vertex-minus-cursor offset (-52,-1),
    // so the vertex does not jump
    frame(&mut ed, &hold_at(52, 1));
    assert_eq!(ed.scene.position_of(a), Some(p(0, 0)));
    // from then on the vertex follows the cursor, snapped to the grid
    frame(&mut ed, &hold_at(72, 9));
    assert_eq!(ed.scene.position_of(a), Some(p(20, 0)));
    frame(&mut ed, &hold_at(105, 52));
    assert_eq!(ed.scene.position_of(a), Some(p(60, 60)));
}

#[test]
fn drag_updates_incident_edge_lines() {
    let (mut ed, a, b) = two_vertex_editor();
    frame(&mut ed, &click_at(0, 0));
    gesture_to(&mut ed, 100, 0);
    let e = ed.graph.get_edge_between(a, b).unwrap();
    assert_eq!(ed.scene.edges[0].0, e);

    frame(&mut ed, &click_at(0, 0));
    frame(&mut ed, &hold_at(52, 1));
    frame(&mut ed, &hold_at(72, 1));
    assert_eq!(ed.scene.position_of(a), Some(p(20, 0)));
    assert_eq!(ed.scene.edges[0].1.line_a, p(20, 0));
    assert_eq!(ed.scene.edges[0].1.line_b, p(100, 0));
}

#[test]
fn drag_keeps_the_captured_offset_for_the_whole_gesture() {
    let (mut ed, a, _b) = two_vertex_editor();
    frame(&mut ed, &click_at(0, 0));
    // the first held cycle captures the offset (-52, -1)
    frame(&mut ed, &hold_at(52, 1));
    assert_eq!(ed.scene.position_of(a), Some(p(0, 0)));
    // the next held cycle reuses that offset; recapturing from the vertex's
    // current position would leave the vertex at (0, 0) instead
    frame(&mut ed, &hold_at(72, 1));
    assert_eq!(ed.scene.position_of(a), Some(p(20, 0)));
}

#[test]
fn edge_with_freshly_deleted_endpoint_is_skipped_by_hit_test() {
    let (mut ed, a, b) = two_vertex_editor();
    frame(&mut ed, &click_at(0, 0));
    gesture_to(&mut ed, 100, 0);
    let e = ed.graph.get_edge_between(a, b).unwrap();

    // delete the first vertex; its edge's visual still exists until the
    // next cycle's synchronization pass runs
    frame(&mut ed, &click_at(0, 0));
    delete_selected(&mut ed);
    // clicking the stale segment in that same window hits nothing, because
    // one endpoint position is no longer available
    frame(&mut ed, &click_at(50, 3));
    assert_eq!(ed.selection, None);
    // and by the end of that cycle the cascade has converged
    assert!(!ed.graph.has_edge(&e));
    assert_eq!(ed.scene.edges.len(), 0);
}

#[test]
fn drag_is_suppressed_in_interact_mode() {
    let (mut ed, a, _b) = two_vertex_editor();
    frame(&mut ed, &click_at(0, 0));
    let mut first = hold_at(52, 1);
    first.mode = Mode::Interact;
    let mut second = hold_at(72, 1);
    second.mode = Mode::Interact;
    frame(&mut ed, &first);
    frame(&mut ed, &second);
    assert_eq!(ed.scene.position_of(a), Some(p(0, 0)));
}

#[test]
fn creation_line_follows_the_gesture_and_hides_on_release() {
    let (mut ed, _a, _b) = two_vertex_editor();
    frame(&mut ed, &click_at(0, 0));
    frame(&mut ed, &key_hold_at(60, 40, true));
    assert!(ed.creation_line.visible);
    assert_eq!(ed.creation_line.line_a, p(0, 0));
    assert_eq!(ed.creation_line.line_b, p(60, 40));
    frame(&mut ed, &key_release_at(500, 500));
    assert!(!ed.creation_line.visible);
    assert_eq!(ed.scene.edges.len(), 0);
}

#[test]
fn app_plugins_build_an_empty_editor() {
    let ed = AppPlugins.build();
    assert_eq!(ed.scene.vertices.len(), 0);
    assert_eq!(ed.selection, None);
    assert!(AppSet::GraphInteraction.rank() < AppSet::GraphManagement.rank());
    assert!(AppSet::Ui.rank() < AppSet::GraphManagement.rank());
}
