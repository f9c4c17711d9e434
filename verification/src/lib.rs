//! An interactive node/edge graph editor modelled as a verified library.
//!
//! The crate keeps an incidence-tracking graph whose vertices and edges are
//! mirrored by visual objects in a scene, resolves pointer input to graph
//! elements with exact integer hit tests, and drives a multi-step gesture
//! state machine (select, drag, edge creation) that keeps the abstract
//! topology and its visual representation mutually consistent.

use vstd::prelude::*;

pub mod editor;
pub mod geometry;
pub mod graph;
pub mod helper;
pub mod interaction;
pub mod scene;
pub mod sync;
pub mod ui;

verus! {

/// Labels for the application's startup and per-cycle phases.  Within one
/// cycle the update phases run in a fixed relative order — UI, camera, then
/// graph interaction, then graph management — which is what `editor::frame`
/// implements for the two graph phases.
#[derive(Clone, Copy, PartialEq, Eq, Structural, Debug)]
pub enum AppSet {
    AudioStartup,
    UiStartup,
    CameraStartup,
    GraphStartup,
    Ui,
    Camera,
    GraphInteraction,
    GraphManagement,
}

impl AppSet {
    /// Where this phase stands in one cycle: startup phases first, then the
    /// UI and camera, then graph interaction, and graph management last.
    pub fn rank(&self) -> (r: u32)
        ensures
            r == (match *self {
                AppSet::AudioStartup => 0u32,
                AppSet::UiStartup => 0u32,
                AppSet::CameraStartup => 0u32,
                AppSet::GraphStartup => 0u32,
                AppSet::Ui => 1u32,
                AppSet::Camera => 1u32,
                AppSet::GraphInteraction => 2u32,
                AppSet::GraphManagement => 3u32,
            }),
    {
        match *self {
            AppSet::AudioStartup => 0,
            AppSet::UiStartup => 0,
            AppSet::CameraStartup => 0,
            AppSet::GraphStartup => 0,
            AppSet::Ui => 1,
            AppSet::Camera => 1,
            AppSet::GraphInteraction => 2,
            AppSet::GraphManagement => 3,
        }
    }
}

/// The group of subsystems the application installs.  Building the group
/// yields the initial editor state that the per-cycle systems then operate
/// on.
pub struct AppPlugins;

impl AppPlugins {
    /// Assemble the application's initial state: an empty, well-formed
    /// editor.
    pub fn build(self) -> (ed: editor::Editor)
        ensures
            ed.inv(),
            ed.graph.vertices() == Set::<u64>::empty(),
            ed.graph.edges() == Map::<u64, (u64, u64)>::empty(),
            ed.scene.vertices@.len() == 0,
            ed.scene.edges@.len() == 0,
            ed.selection is None,
    {
        editor::Editor::new()
    }
}

} // verus!
