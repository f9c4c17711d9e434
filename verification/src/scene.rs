//! The visual layer: the authoritative store of which vertex and edge
//! objects exist and where they are drawn.  Vertices carry a position, a
//! square hit-box and a display name; committed edges carry the endpoints of
//! their rendered line.  Iteration order over the stores is their storage
//! order, which is what the hit tests use.

use vstd::prelude::*;
use crate::geometry::POS_LIMIT;
use crate::geometry::Point;
use crate::geometry::VertexArea;
use crate::geometry::point_ok;

verus! {

/// The currently selected element: a vertex or an edge, by handle.
#[derive(Clone, Copy, PartialEq, Eq, Structural, Debug)]
pub enum GraphSelection {
    Vertex(u64),
    Edge(u64),
}

/// The display name of a vertex.
#[derive(Debug)]
pub struct VertexName(pub String);

/// Everything the scene stores about one vertex: hit-box, name and world
/// position.
pub struct VertexBundle {
    pub vertex_area: VertexArea,
    pub vertex_name: VertexName,
    pub pos: Point,
}

impl VertexBundle {
    /// The bundle's coordinates and hit-box half-extent are in range.  A
    /// half-extent of zero is legal: a degenerate hit-box that never hits.
    pub open spec fn wf(self) -> bool {
        &&& point_ok(self.pos)
        &&& 0 <= self.vertex_area.half_extend <= POS_LIMIT
    }

    /// Build a vertex visual at `pos` with the given name and hit-box
    /// half-extent.
    pub fn new(pos: Point, name: String, half_extend: i64) -> (b: VertexBundle)
        requires
            point_ok(pos),
            0 <= half_extend <= POS_LIMIT,
        ensures
            b.pos == pos,
            b.vertex_area.half_extend == half_extend,
            b.vertex_name.0 == name,
            b.wf(),
    {
        VertexBundle { vertex_area: VertexArea { half_extend }, vertex_name: VertexName(name), pos }
    }
}

/// The rendered line of a committed edge, recomputed from its endpoints'
/// positions.
#[derive(Clone, Copy, PartialEq, Eq, Structural, Debug)]
pub struct Edge {
    pub line_a: Point,
    pub line_b: Point,
}

impl Edge {
    pub open spec fn wf(self) -> bool {
        point_ok(self.line_a) && point_ok(self.line_b)
    }
}

/// An in-flight, not-yet-committed edge between two candidate endpoints.
#[derive(Clone, Copy, PartialEq, Eq, Structural, Debug)]
pub struct EdgeBuilder {
    pub u: u64,
    pub v: u64,
}

/// The store of visual vertex and edge objects, in storage (insertion)
/// order.
pub struct Scene {
    pub vertices: Vec<(u64, VertexBundle)>,
    pub edges: Vec<(u64, Edge)>,
}

impl Scene {
    /// A vertex object with handle `id` exists.
    pub open spec fn has_v(self, id: u64) -> bool {
        exists|i: int| 0 <= i < self.vertices@.len() && (#[trigger] self.vertices@[i]).0 == id
    }

    /// The bundle stored for vertex `id` (meaningful when `has_v(id)` and the
    /// ids are unique).
    pub open spec fn v_bundle(self, id: u64) -> VertexBundle {
        let i = choose|i: int|
            0 <= i < self.vertices@.len() && (#[trigger] self.vertices@[i]).0 == id;
        self.vertices@[i].1
    }

    /// The position stored for vertex `id`.
    pub open spec fn v_pos(self, id: u64) -> Point {
        self.v_bundle(id).pos
    }

    /// An edge object with handle `id` exists.
    pub open spec fn has_e(self, id: u64) -> bool {
        exists|i: int| 0 <= i < self.edges@.len() && (#[trigger] self.edges@[i]).0 == id
    }

    /// The line stored for edge `id` (meaningful when `has_e(id)` and the ids
    /// are unique).
    pub open spec fn e_line(self, id: u64) -> Edge {
        let i = choose|i: int| 0 <= i < self.edges@.len() && (#[trigger] self.edges@[i]).0 == id;
        self.edges@[i].1
    }

    /// Unique handles in both stores; every stored object is in range.
    pub open spec fn wf(self) -> bool {
        &&& forall|i: int, j: int|
            #![trigger self.vertices@[i], self.vertices@[j]]
            0 <= i < j < self.vertices@.len() ==> self.vertices@[i].0 != self.vertices@[j].0
        &&& forall|i: int|
            0 <= i < self.vertices@.len() ==> (#[trigger] self.vertices@[i]).1.wf()
        &&& forall|i: int, j: int|
            #![trigger self.edges@[i], self.edges@[j]]
            0 <= i < j < self.edges@.len() ==> self.edges@[i].0 != self.edges@[j].0
        &&& forall|i: int| 0 <= i < self.edges@.len() ==> (#[trigger] self.edges@[i]).1.wf()
    }

    /// An empty scene.
    pub fn new() -> (s: Scene)
        ensures
            s.wf(),
            s.vertices@ == Seq::<(u64, VertexBundle)>::empty(),
            s.edges@ == Seq::<(u64, Edge)>::empty(),
    {
        Scene { vertices: Vec::new(), edges: Vec::new() }
    }

    /// The index holding vertex `id`, if any.
    pub fn vertex_index(&self, id: u64) -> (r: Option<usize>)
        requires
            self.wf(),
        ensures
            match r {
                Some(i) => i < self.vertices@.len() && self.vertices@[i as int].0 == id
                    && self.has_v(id),
                None => !self.has_v(id),
            },
    {
        let mut i: usize = 0;
        while i < self.vertices.len()
            invariant
                0 <= i <= self.vertices@.len(),
                forall|j: int| 0 <= j < i ==> (#[trigger] self.vertices@[j]).0 != id,
            decreases self.vertices@.len() - i,
        {
            if self.vertices[i].0 == id {
                return Some(i);
            }
            i += 1;
        }
        None
    }

    /// The index holding edge `id`, if any.
    pub fn edge_index(&self, id: u64) -> (r: Option<usize>)
        requires
            self.wf(),
        ensures
            match r {
                Some(i) => i < self.edges@.len() && self.edges@[i as int].0 == id && self.has_e(id),
                None => !self.has_e(id),
            },
    {
        let mut i: usize = 0;
        while i < self.edges.len()
            invariant
                0 <= i <= self.edges@.len(),
                forall|j: int| 0 <= j < i ==> (#[trigger] self.edges@[j]).0 != id,
            decreases self.edges@.len() - i,
        {
            if self.edges[i].0 == id {
                return Some(i);
            }
            i += 1;
        }
        None
    }

    /// The current position of vertex `id`, if it exists.
    pub fn position_of(&self, id: u64) -> (r: Option<Point>)
        requires
            self.wf(),
        ensures
            r == if self.has_v(id) {
                Some(self.v_pos(id))
            } else {
                Option::<Point>::None
            },
    {
        match self.vertex_index(id) {
            None => None,
            Some(i) => {
                proof {
                    lemma_scene_v_lookup(*self, i as int);
                }
                Some(self.vertices[i].1.pos)
            },
        }
    }

    /// Append a new vertex object.
    pub fn add_vertex(&mut self, id: u64, b: VertexBundle)
        requires
            old(self).wf(),
            !old(self).has_v(id),
            b.wf(),
        ensures
            final(self).wf(),
            final(self).vertices@ == old(self).vertices@.push((id, b)),
            final(self).edges@ == old(self).edges@,
            final(self).has_v(id),
            final(self).v_bundle(id) == b,
    {
        self.vertices.push((id, b));
        proof {
            let n = old(self).vertices@.len() as int;
            assert(self.vertices@[n] == (id, b));
            assert forall|i: int, j: int|
                #![trigger self.vertices@[i], self.vertices@[j]]
                0 <= i < j < self.vertices@.len() implies self.vertices@[i].0
                != self.vertices@[j].0 by {
                if j == n {
                    assert(old(self).vertices@[i] == self.vertices@[i]);
                    assert(old(self).has_v(self.vertices@[i].0));
                }
            }
            lemma_scene_v_lookup(*self, n);
        }
    }

    /// Append a new edge object.
    pub fn add_edge(&mut self, id: u64, e: Edge)
        requires
            old(self).wf(),
            !old(self).has_e(id),
            e.wf(),
        ensures
            final(self).wf(),
            final(self).edges@ == old(self).edges@.push((id, e)),
            final(self).vertices@ == old(self).vertices@,
            final(self).has_e(id),
            final(self).e_line(id) == e,
    {
        self.edges.push((id, e));
        proof {
            let n = old(self).edges@.len() as int;
            assert(self.edges@[n] == (id, e));
            assert forall|i: int, j: int|
                #![trigger self.edges@[i], self.edges@[j]]
                0 <= i < j < self.edges@.len() implies self.edges@[i].0 != self.edges@[j].0 by {
                if j == n {
                    assert(old(self).edges@[i] == self.edges@[i]);
                    assert(old(self).has_e(self.edges@[i].0));
                }
            }
            lemma_scene_e_lookup(*self, n);
        }
    }

    /// Remove the vertex object with handle `id`, keeping the order of the
    /// others; a no-op if it does not exist.
    pub fn remove_vertex_visual(&mut self, id: u64)
        requires
            old(self).wf(),
        ensures
            final(self).wf(),
            final(self).edges@ == old(self).edges@,
            !final(self).has_v(id),
            old(self).has_v(id) ==> exists|i: int|
                0 <= i < old(self).vertices@.len() && old(self).vertices@[i].0 == id && final(self).vertices@ == old(self).vertices@.remove(i),
            !old(self).has_v(id) ==> final(self).vertices@ == old(self).vertices@,
            forall|x: u64|
                x != id ==> (final(self).has_v(x) <==> old(self).has_v(x)),
            forall|x: u64|
                x != id && old(self).has_v(x) ==> final(self).v_bundle(x) == old(self).v_bundle(x),
    {
        match self.vertex_index(id) {
            None => {
                proof {
                    assert(forall|x: u64|
                        x != id && old(self).has_v(x) ==> final(self).v_bundle(x) == old(self).v_bundle(x));
                }
            },
            Some(i) => {
                self.vertices.remove(i);
                proof {
                    let s0 = old(self).vertices@;
                    let k = i as int;
                    s0.remove_ensures(k);
                    assert forall|a: int, b: int|
                        #![trigger self.vertices@[a], self.vertices@[b]]
                        0 <= a < b < self.vertices@.len() implies self.vertices@[a].0
                        != self.vertices@[b].0 by {
                        let a2 = if a < k {
                            a
                        } else {
                            a + 1
                        };
                        let b2 = if b < k {
                            b
                        } else {
                            b + 1
                        };
                        assert(self.vertices@[a] == s0[a2]);
                        assert(self.vertices@[b] == s0[b2]);
                    }
                    assert forall|a: int|
                        0 <= a < self.vertices@.len() implies (#[trigger] self.vertices@[a]).1.wf()
                        && self.vertices@[a].0 != id by {
                        let a2 = if a < k {
                            a
                        } else {
                            a + 1
                        };
                        assert(self.vertices@[a] == s0[a2]);
                    }
                    assert forall|x: u64| x != id && old(self).has_v(x) implies self.has_v(x)
                        && self.v_bundle(x) == old(self).v_bundle(x) by {
                        let a2 = choose|a2: int|
                            0 <= a2 < s0.len() && (#[trigger] s0[a2]).0 == x;
                        let a = if a2 < k {
                            a2
                        } else {
                            a2 - 1
                        };
                        assert(self.vertices@[a] == s0[a2]);
                        lemma_scene_v_lookup(*self, a);
                        lemma_scene_v_lookup(*old(self), a2);
                    }
                    assert forall|x: u64| self.has_v(x) implies x == id || old(self).has_v(x) by {
                        let a = choose|a: int|
                            0 <= a < self.vertices@.len() && (#[trigger] self.vertices@[a]).0 == x;
                        let a2 = if a < k {
                            a
                        } else {
                            a + 1
                        };
                        assert(s0[a2] == self.vertices@[a]);
                    }
                }
            },
        }
    }

    /// Remove the edge object with handle `id`, keeping the order of the
    /// others; a no-op if it does not exist.
    pub fn remove_edge_visual(&mut self, id: u64)
        requires
            old(self).wf(),
        ensures
            final(self).wf(),
            final(self).vertices@ == old(self).vertices@,
            !final(self).has_e(id),
            old(self).has_e(id) ==> exists|i: int|
                0 <= i < old(self).edges@.len() && old(self).edges@[i].0 == id && final(self).edges@ == old(self).edges@.remove(i),
            !old(self).has_e(id) ==> final(self).edges@ == old(self).edges@,
            forall|x: u64| x != id ==> (final(self).has_e(x) <==> old(self).has_e(x)),
            forall|x: u64|
                x != id && old(self).has_e(x) ==> final(self).e_line(x) == old(self).e_line(x),
    {
        match self.edge_index(id) {
            None => {
                proof {
                    assert(forall|x: u64|
                        x != id && old(self).has_e(x) ==> final(self).e_line(x) == old(self).e_line(x));
                }
            },
            Some(i) => {
                self.edges.remove(i);
                proof {
                    let s0 = old(self).edges@;
                    let k = i as int;
                    s0.remove_ensures(k);
                    assert forall|a: int, b: int|
                        #![trigger self.edges@[a], self.edges@[b]]
                        0 <= a < b < self.edges@.len() implies self.edges@[a].0
                        != self.edges@[b].0 by {
                        let a2 = if a < k {
                            a
                        } else {
                            a + 1
                        };
                        let b2 = if b < k {
                            b
                        } else {
                            b + 1
                        };
                        assert(self.edges@[a] == s0[a2]);
                        assert(self.edges@[b] == s0[b2]);
                    }
                    assert forall|a: int|
                        0 <= a < self.edges@.len() implies (#[trigger] self.edges@[a]).1.wf()
                        && self.edges@[a].0 != id by {
                        let a2 = if a < k {
                            a
                        } else {
                            a + 1
                        };
                        assert(self.edges@[a] == s0[a2]);
                    }
                    assert forall|x: u64| x != id && old(self).has_e(x) implies self.has_e(x)
                        && self.e_line(x) == old(self).e_line(x) by {
                        let a2 = choose|a2: int| 0 <= a2 < s0.len() && (#[trigger] s0[a2]).0 == x;
                        let a = if a2 < k {
                            a2
                        } else {
                            a2 - 1
                        };
                        assert(self.edges@[a] == s0[a2]);
                        lemma_scene_e_lookup(*self, a);
                        lemma_scene_e_lookup(*old(self), a2);
                    }
                    assert forall|x: u64| self.has_e(x) implies x == id || old(self).has_e(x) by {
                        let a = choose|a: int|
                            0 <= a < self.edges@.len() && (#[trigger] self.edges@[a]).0 == x;
                        let a2 = if a < k {
                            a
                        } else {
                            a + 1
                        };
                        assert(s0[a2] == self.edges@[a]);
                    }
                }
            },
        }
    }

    /// Move vertex `id` to `p`, leaving its hit-box, its name and everything
    /// else in the scene unchanged; a no-op if the vertex does not exist.
    pub fn set_vertex_pos(&mut self, id: u64, p: Point)
        requires
            old(self).wf(),
            point_ok(p),
        ensures
            final(self).wf(),
            final(self).edges@ == old(self).edges@,
            final(self).vertices@.len() == old(self).vertices@.len(),
            forall|i: int|
                0 <= i < old(self).vertices@.len() ==> (#[trigger] final(self).vertices@[i]).0
                    == old(self).vertices@[i].0,
            forall|x: u64| final(self).has_v(x) <==> old(self).has_v(x),
            old(self).has_v(id) ==> final(self).v_bundle(id) == (VertexBundle {
                pos: p,
                ..old(self).v_bundle(id)
            }),
            forall|x: u64|
                x != id && old(self).has_v(x) ==> final(self).v_bundle(x) == old(self).v_bundle(x),
            !old(self).has_v(id) ==> final(self).vertices@ == old(self).vertices@,
    {
        match self.vertex_index(id) {
            None => {
                proof {
                    assert(forall|x: u64|
                        x != id && old(self).has_v(x) ==> final(self).v_bundle(x) == old(self).v_bundle(x));
                }
            },
            Some(i) => {
                let (vid, b) = self.vertices.remove(i);
                let b2 = VertexBundle {
                    vertex_area: b.vertex_area,
                    vertex_name: b.vertex_name,
                    pos: p,
                };
                self.vertices.insert(i, (vid, b2));
                proof {
                    let s0 = old(self).vertices@;
                    let k = i as int;
                    lemma_scene_v_lookup(*old(self), k);
                    assert(self.vertices@ =~= s0.update(k, (id, b2)));
                    assert forall|a: int, c: int|
                        #![trigger self.vertices@[a], self.vertices@[c]]
                        0 <= a < c < self.vertices@.len() implies self.vertices@[a].0
                        != self.vertices@[c].0 by {
                        assert(s0[a].0 != s0[c].0);
                    }
                    assert forall|x: u64| self.has_v(x) implies old(self).has_v(x) by {
                        let a = choose|a: int|
                            0 <= a < self.vertices@.len() && (#[trigger] self.vertices@[a]).0 == x;
                        assert(s0[a].0 == x);
                    }
                    assert forall|x: u64| old(self).has_v(x) implies self.has_v(x) by {
                        let a = choose|a: int| 0 <= a < s0.len() && (#[trigger] s0[a]).0 == x;
                        assert(self.vertices@[a].0 == x);
                    }
                    lemma_scene_v_lookup(*self, k);
                    assert forall|x: u64| x != id && old(self).has_v(x) implies self.v_bundle(x)
                        == old(self).v_bundle(x) by {
                        let a = choose|a: int| 0 <= a < s0.len() && (#[trigger] s0[a]).0 == x;
                        assert(self.vertices@[a] == s0[a]);
                        lemma_scene_v_lookup(*self, a);
                        lemma_scene_v_lookup(*old(self), a);
                    }
                }
            },
        }
    }

    /// Overwrite the rendered line of edge `id`; a no-op if the edge does not
    /// exist.
    pub fn set_edge_line(&mut self, id: u64, line: Edge)
        requires
            old(self).wf(),
            line.wf(),
        ensures
            final(self).wf(),
            final(self).vertices@ == old(self).vertices@,
            final(self).edges@.len() == old(self).edges@.len(),
            forall|i: int|
                0 <= i < old(self).edges@.len() ==> (#[trigger] final(self).edges@[i]).0 == old(self).edges@[i].0,
            forall|x: u64| final(self).has_e(x) <==> old(self).has_e(x),
            old(self).has_e(id) ==> final(self).e_line(id) == line,
            forall|x: u64|
                x != id && old(self).has_e(x) ==> final(self).e_line(x) == old(self).e_line(x),
            !old(self).has_e(id) ==> final(self).edges@ == old(self).edges@,
    {
        match self.edge_index(id) {
            None => {
                proof {
                    assert(forall|x: u64|
                        x != id && old(self).has_e(x) ==> final(self).e_line(x) == old(self).e_line(x));
                }
            },
            Some(i) => {
                self.edges.remove(i);
                self.edges.insert(i, (id, line));
                proof {
                    let s0 = old(self).edges@;
                    let k = i as int;
                    lemma_scene_e_lookup(*old(self), k);
                    assert(self.edges@ =~= s0.update(k, (id, line)));
                    assert forall|a: int, c: int|
                        #![trigger self.edges@[a], self.edges@[c]]
                        0 <= a < c < self.edges@.len() implies self.edges@[a].0
                        != self.edges@[c].0 by {
                        assert(s0[a].0 != s0[c].0);
                    }
                    assert forall|x: u64| self.has_e(x) implies old(self).has_e(x) by {
                        let a = choose|a: int|
                            0 <= a < self.edges@.len() && (#[trigger] self.edges@[a]).0 == x;
                        assert(s0[a].0 == x);
                    }
                    assert forall|x: u64| old(self).has_e(x) implies self.has_e(x) by {
                        let a = choose|a: int| 0 <= a < s0.len() && (#[trigger] s0[a]).0 == x;
                        assert(self.edges@[a].0 == x);
                    }
                    lemma_scene_e_lookup(*self, k);
                    assert forall|x: u64| x != id && old(self).has_e(x) implies self.e_line(x)
                        == old(self).e_line(x) by {
                        let a = choose|a: int| 0 <= a < s0.len() && (#[trigger] s0[a]).0 == x;
                        assert(self.edges@[a] == s0[a]);
                        lemma_scene_e_lookup(*self, a);
                        lemma_scene_e_lookup(*old(self), a);
                    }
                }
            },
        }
    }
}

/// Two scenes with the same vertex store agree on every vertex lookup.
pub proof fn lemma_same_vertices(s1: Scene, s2: Scene)
    requires
        s1.vertices@ == s2.vertices@,
    ensures
        forall|x: u64| s1.has_v(x) == s2.has_v(x),
        forall|x: u64| #[trigger] s1.has_v(x) ==> s1.v_bundle(x) == s2.v_bundle(x),
{
    assert forall|x: u64| s1.has_v(x) == s2.has_v(x) by {
        if s1.has_v(x) {
            let i = choose|i: int|
                0 <= i < s1.vertices@.len() && (#[trigger] s1.vertices@[i]).0 == x;
            assert(s2.vertices@[i].0 == x);
        }
        if s2.has_v(x) {
            let i = choose|i: int|
                0 <= i < s2.vertices@.len() && (#[trigger] s2.vertices@[i]).0 == x;
            assert(s1.vertices@[i].0 == x);
        }
    }
}

/// Two scenes with the same edge store agree on every edge lookup.
pub proof fn lemma_same_edges(s1: Scene, s2: Scene)
    requires
        s1.edges@ == s2.edges@,
    ensures
        forall|x: u64| s1.has_e(x) == s2.has_e(x),
        forall|x: u64| #[trigger] s1.has_e(x) ==> s1.e_line(x) == s2.e_line(x),
{
    assert forall|x: u64| s1.has_e(x) == s2.has_e(x) by {
        if s1.has_e(x) {
            let i = choose|i: int| 0 <= i < s1.edges@.len() && (#[trigger] s1.edges@[i]).0 == x;
            assert(s2.edges@[i].0 == x);
        }
        if s2.has_e(x) {
            let i = choose|i: int| 0 <= i < s2.edges@.len() && (#[trigger] s2.edges@[i]).0 == x;
            assert(s1.edges@[i].0 == x);
        }
    }
}

/// Appending one edge object with a fresh handle affects no other edge
/// lookup.
pub proof fn lemma_push_edge(s1: Scene, s2: Scene, id: u64, e: Edge)
    requires
        s1.wf(),
        s2.edges@ == s1.edges@.push((id, e)),
        !s1.has_e(id),
    ensures
        s2.has_e(id),
        s2.e_line(id) == e,
        forall|x: u64| x != id ==> (s2.has_e(x) <==> s1.has_e(x)),
        forall|x: u64| x != id && #[trigger] s1.has_e(x) ==> s2.e_line(x) == s1.e_line(x),
{
    let n = s1.edges@.len() as int;
    assert(s2.edges@[n] == (id, e));
    assert(s2.has_e(id));
    assert(s2.e_line(id) == e) by {
        let j = choose|j: int| 0 <= j < s2.edges@.len() && (#[trigger] s2.edges@[j]).0 == id;
        if j < n {
            assert(s1.edges@[j].0 == id);
        }
    }
    assert forall|x: u64| x != id implies (s2.has_e(x) <==> s1.has_e(x)) by {
        if s2.has_e(x) {
            let j = choose|j: int| 0 <= j < s2.edges@.len() && (#[trigger] s2.edges@[j]).0 == x;
            assert(j < n);
            assert(s1.edges@[j].0 == x);
        }
        if s1.has_e(x) {
            let j = choose|j: int| 0 <= j < s1.edges@.len() && (#[trigger] s1.edges@[j]).0 == x;
            assert(s2.edges@[j].0 == x);
        }
    }
    assert forall|x: u64| x != id && #[trigger] s1.has_e(x) implies s2.e_line(x) == s1.e_line(
        x,
    ) by {
        let j = choose|j: int| 0 <= j < s2.edges@.len() && (#[trigger] s2.edges@[j]).0 == x;
        assert(j < n);
        assert(s1.edges@[j].0 == x);
        let j2 = choose|j2: int| 0 <= j2 < s1.edges@.len() && (#[trigger] s1.edges@[j2]).0 == x;
        if j != j2 {
            assert(s1.edges@[j].0 != s1.edges@[j2].0 || s1.edges@[j2].0 != s1.edges@[j].0) by {
                if j < j2 {
                    assert(s1.edges@[j].0 != s1.edges@[j2].0);
                } else {
                    assert(s1.edges@[j2].0 != s1.edges@[j].0);
                }
            }
        }
        assert(s2.e_line(x) == s2.edges@[j].1);
        assert(s1.e_line(x) == s1.edges@[j2].1);
    }
}

/// In a well-formed scene, the stored vertex entry at index `i` is what the
/// handle-based lookup functions return for its id.
pub proof fn lemma_scene_v_lookup(s: Scene, i: int)
    requires
        s.wf(),
        0 <= i < s.vertices@.len(),
    ensures
        s.has_v(s.vertices@[i].0),
        s.v_bundle(s.vertices@[i].0) == s.vertices@[i].1,
        s.v_pos(s.vertices@[i].0) == s.vertices@[i].1.pos,
{
    let id = s.vertices@[i].0;
    assert(s.has_v(id)) by {
        assert(0 <= i < s.vertices@.len() && s.vertices@[i].0 == id);
    }
    let j = choose|j: int| 0 <= j < s.vertices@.len() && (#[trigger] s.vertices@[j]).0 == id;
    if i != j {
        assert(s.vertices@[i].0 != s.vertices@[j].0);
    }
}

/// In a well-formed scene, the stored edge entry at index `i` is what the
/// handle-based lookup functions return for its id.
pub proof fn lemma_scene_e_lookup(s: Scene, i: int)
    requires
        s.wf(),
        0 <= i < s.edges@.len(),
    ensures
        s.has_e(s.edges@[i].0),
        s.e_line(s.edges@[i].0) == s.edges@[i].1,
{
    let id = s.edges@[i].0;
    assert(s.has_e(id)) by {
        assert(0 <= i < s.edges@.len() && s.edges@[i].0 == id);
    }
    let j = choose|j: int| 0 <= j < s.edges@.len() && (#[trigger] s.edges@[j]).0 == id;
    if i != j {
        assert(s.edges@[i].0 != s.edges@[j].0);
    }
}

} // verus!
