//! The incidence-tracking graph model: the single source of truth for the
//! editor's topology.
//!
//! Vertices and edges are identified by opaque `u64` handles drawn from
//! distinct namespaces.  The model stores, for every vertex, the list of
//! edges incident to it, and, for every edge, its two endpoint vertices as a
//! canonical `(min, max)` pair.  Well-formedness ties the two stores
//! together: every edge's endpoints exist, each edge appears in both
//! endpoints' adjacency lists, adjacency lists mention only live incident
//! edges and contain no duplicates, no edge is a self-loop, and no two edges
//! connect the same pair of vertices.

use vstd::prelude::*;
use std::collections::HashMap;

verus! {

/// The unordered endpoint pair `{u, v}` in its stored form: smaller handle
/// first.
pub open spec fn canonical_pair(u: u64, v: u64) -> (u64, u64) {
    if u <= v {
        (u, v)
    } else {
        (v, u)
    }
}

/// Incidence-based topology store.
pub struct Graph {
    pub incident_edges: HashMap<u64, Vec<u64>>,
    pub incident_vertices: HashMap<u64, (u64, u64)>,
}

impl Graph {
    /// The set of live vertex handles.
    pub open spec fn vertices(self) -> Set<u64> {
        self.incident_edges@.dom()
    }

    /// The map from live edge handles to their canonical endpoint pairs.
    pub open spec fn edges(self) -> Map<u64, (u64, u64)> {
        self.incident_vertices@
    }

    /// The adjacency list of vertex `v` (meaningful when `v` is live).
    pub open spec fn adj(self, v: u64) -> Seq<u64> {
        self.incident_edges@[v]@
    }

    /// The set of live edges that have `v` as an endpoint.
    pub open spec fn incident_to(self, v: u64) -> Set<u64> {
        Set::new(
            |e: u64|
                self.edges().dom().contains(e) && (self.edges()[e].0 == v || self.edges()[e].1
                    == v),
        )
    }

    /// Edge `e` is canonical, both its endpoints are live, and it appears in
    /// both endpoints' adjacency lists.
    pub open spec fn edge_wf(self, e: u64) -> bool {
        &&& self.edges()[e].0 < self.edges()[e].1
        &&& self.vertices().contains(self.edges()[e].0)
        &&& self.vertices().contains(self.edges()[e].1)
        &&& self.adj(self.edges()[e].0).contains(e)
        &&& self.adj(self.edges()[e].1).contains(e)
    }

    /// The invariant every operation preserves.
    pub open spec fn wf(self) -> bool {
        &&& forall|e: u64| #[trigger] self.edges().dom().contains(e) ==> self.edge_wf(e)
        &&& forall|v: u64, i: int|
            self.vertices().contains(v) && 0 <= i < self.adj(v).len() ==> self.edges().dom().contains(
                #[trigger] self.adj(v)[i],
            ) && (self.edges()[self.adj(v)[i]].0 == v || self.edges()[self.adj(v)[i]].1 == v)
        &&& forall|v: u64, i: int, j: int|
            #![trigger self.adj(v)[i], self.adj(v)[j]]
            self.vertices().contains(v) && 0 <= i < j < self.adj(v).len() ==> self.adj(v)[i]
                != self.adj(v)[j]
        &&& forall|e1: u64, e2: u64|
            #![trigger self.edges()[e1], self.edges()[e2]]
            self.edges().dom().contains(e1) && self.edges().dom().contains(e2) && self.edges()[e1]
                == self.edges()[e2] ==> e1 == e2
    }

    /// An empty graph.
    pub fn new() -> (g: Graph)
        ensures
            g.wf(),
            g.vertices() == Set::<u64>::empty(),
            g.edges() == Map::<u64, (u64, u64)>::empty(),
    {
        Graph { incident_edges: HashMap::new(), incident_vertices: HashMap::new() }
    }

    /// Whether vertex `v` is live.
    pub fn has_vertex(&self, v: &u64) -> (r: bool)
        ensures
            r == self.vertices().contains(*v),
    {
        self.incident_edges.contains_key(v)
    }

    /// Whether edge `e` is live.
    pub fn has_edge(&self, e: &u64) -> (r: bool)
        ensures
            r == self.edges().dom().contains(*e),
    {
        self.incident_vertices.contains_key(e)
    }

    /// Register a new vertex with an empty adjacency list.  Inserting a
    /// handle that is already live is a caller bug, excluded up front.
    pub fn insert_vertex(&mut self, v: u64)
        requires
            old(self).wf(),
            !old(self).vertices().contains(v),
        ensures
            final(self).wf(),
            final(self).vertices() == old(self).vertices().insert(v),
            final(self).edges() == old(self).edges(),
            final(self).adj(v) == Seq::<u64>::empty(),
            forall|u: u64|
                u != v && old(self).vertices().contains(u) ==> final(self).adj(u) == old(
                    self,
                ).adj(u),
    {
        self.incident_edges.insert(v, Vec::new());
        proof {
            assert(final(self).vertices() =~= old(self).vertices().insert(v));
            assert(forall|u: u64|
                u != v && old(self).vertices().contains(u) ==> final(self).adj(u) == old(self).adj(
                    u,
                ));
            assert forall|e: u64| #[trigger]
                final(self).edges().dom().contains(e) implies final(self).edge_wf(e) by {
                assert(old(self).edge_wf(e));
            }
            assert forall|w: u64, i: int|
                #![trigger final(self).adj(w)[i]]
                final(self).vertices().contains(w) && 0 <= i < final(self).adj(w).len() implies {
                let g = *final(self);
                g.edges().dom().contains(g.adj(w)[i]) && (g.edges()[g.adj(w)[i]].0 == w
                    || g.edges()[g.adj(w)[i]].1 == w)
            } by {
                assert(w != v);
                assert(final(self).adj(w) == old(self).adj(w));
            }
        }
    }

    /// Connect the live vertices `v1` and `v2` by the fresh edge handle `e`.
    /// The endpoint pair is canonicalized to `(min, max)` before storing and
    /// `e` is appended to both adjacency lists.  Keeping at most one edge per
    /// vertex pair is the caller's duty and is demanded up front; so is
    /// ruling out self-loops.
    pub fn insert_edge(&mut self, e: u64, v1: u64, v2: u64)
        requires
            old(self).wf(),
            old(self).vertices().contains(v1),
            old(self).vertices().contains(v2),
            !old(self).edges().dom().contains(e),
            v1 != v2,
            forall|e2: u64|
                old(self).edges().dom().contains(e2) ==> old(self).edges()[e2] != canonical_pair(
                    v1,
                    v2,
                ),
        ensures
            final(self).wf(),
            final(self).vertices() == old(self).vertices(),
            final(self).edges() == old(self).edges().insert(e, canonical_pair(v1, v2)),
            final(self).adj(v1) == old(self).adj(v1).push(e),
            final(self).adj(v2) == old(self).adj(v2).push(e),
            forall|w: u64|
                w != v1 && w != v2 && old(self).vertices().contains(w) ==> final(self).adj(w)
                    == old(self).adj(w),
    {
        let ghost g0 = *old(self);
        proof {
            if g0.adj(v1).contains(e) {
                lemma_adj_member(g0, v1, e);
            }
            if g0.adj(v2).contains(e) {
                lemma_adj_member(g0, v2, e);
            }
        }
        let mut a1 = match self.incident_edges.remove(&v1) {
            Some(a) => a,
            None => {
                proof {
                    assert(false);
                }
                Vec::new()
            },
        };
        a1.push(e);
        self.incident_edges.insert(v1, a1);
        let mut a2 = match self.incident_edges.remove(&v2) {
            Some(a) => a,
            None => {
                proof {
                    assert(false);
                }
                Vec::new()
            },
        };
        a2.push(e);
        self.incident_edges.insert(v2, a2);
        let pair = if v1 <= v2 {
            (v1, v2)
        } else {
            (v2, v1)
        };
        self.incident_vertices.insert(e, pair);
        proof {
            let g2 = *self;
            assert(g2.vertices() =~= g0.vertices());
            assert(g2.adj(v1) == g0.adj(v1).push(e));
            assert(g2.adj(v2) == g0.adj(v2).push(e));
            assert(g2.adj(v1).contains(e)) by {
                assert(g2.adj(v1)[g0.adj(v1).len() as int] == e);
            }
            assert(g2.adj(v2).contains(e)) by {
                assert(g2.adj(v2)[g0.adj(v2).len() as int] == e);
            }
            assert forall|e2: u64| #[trigger]
                g2.edges().dom().contains(e2) implies g2.edge_wf(e2) by {
                if e2 == e {
                    assert(g2.edges()[e] == canonical_pair(v1, v2));
                } else {
                    assert(g0.edge_wf(e2));
                    assert(g2.adj(g0.edges()[e2].0).contains(e2)) by {
                        let w = g0.edges()[e2].0;
                        let i = choose|i: int| 0 <= i < g0.adj(w).len() && g0.adj(w)[i] == e2;
                        assert(g2.adj(w)[i] == e2);
                    }
                    assert(g2.adj(g0.edges()[e2].1).contains(e2)) by {
                        let w = g0.edges()[e2].1;
                        let i = choose|i: int| 0 <= i < g0.adj(w).len() && g0.adj(w)[i] == e2;
                        assert(g2.adj(w)[i] == e2);
                    }
                }
            }
            assert forall|w: u64, i: int|
                #![trigger g2.adj(w)[i]]
                g2.vertices().contains(w) && 0 <= i < g2.adj(w).len() implies g2.edges().dom().contains(
                g2.adj(w)[i],
            ) && (g2.edges()[g2.adj(w)[i]].0 == w || g2.edges()[g2.adj(w)[i]].1 == w) by {
                if w == v1 || w == v2 {
                    if i < g0.adj(w).len() {
                        assert(g2.adj(w)[i] == g0.adj(w)[i]);
                        assert(g0.edges().dom().contains(g0.adj(w)[i]));
                    } else {
                        assert(g2.adj(w)[i] == e);
                    }
                } else {
                    assert(g2.adj(w) == g0.adj(w));
                    assert(g0.edges().dom().contains(g0.adj(w)[i]));
                }
            }
            assert forall|w: u64, i: int, j: int|
                #![trigger g2.adj(w)[i], g2.adj(w)[j]]
                g2.vertices().contains(w) && 0 <= i < j < g2.adj(w).len() implies g2.adj(w)[i]
                != g2.adj(w)[j] by {
                if w == v1 || w == v2 {
                    if j < g0.adj(w).len() {
                        assert(g0.adj(w)[i] != g0.adj(w)[j]);
                    } else {
                        assert(g2.adj(w)[j] == e);
                        assert(g2.adj(w)[i] == g0.adj(w)[i]);
                        assert(g0.adj(w).contains(g0.adj(w)[i]));
                        if g0.adj(w)[i] == e {
                            lemma_adj_member(g0, w, e);
                        }
                    }
                } else {
                    assert(g2.adj(w) == g0.adj(w));
                }
            }
        }
    }

    /// Drop edge `e` from the store and from both incident adjacency lists;
    /// a no-op if `e` is not live.
    pub fn remove_edge(&mut self, e: &u64)
        requires
            old(self).wf(),
        ensures
            final(self).wf(),
            final(self).vertices() == old(self).vertices(),
            final(self).edges() == old(self).edges().remove(*e),
            forall|w: u64, x: u64|
                old(self).vertices().contains(w) ==> (final(self).adj(w).contains(x) <==> old(
                    self,
                ).adj(w).contains(x) && x != *e),
            forall|w: u64|
                old(self).vertices().contains(w) ==> final(self).adj(w).len() == old(self).adj(
                    w,
                ).len() - (if old(self).adj(w).contains(*e) {
                    1int
                } else {
                    0int
                }),
    {
        let ghost g0 = *old(self);
        let pair_opt = self.incident_vertices.remove(e);
        let (u, v) = match pair_opt {
            Some(p) => p,
            None => {
                proof {
                    assert forall|w: u64| g0.vertices().contains(w) implies !g0.adj(w).contains(
                        *e,
                    ) by {
                        if g0.adj(w).contains(*e) {
                            lemma_adj_member(g0, w, *e);
                        }
                    }
                    assert(self.edges() =~= g0.edges().remove(*e));
                    assert(self.edges() =~= g0.edges());
                    assert(self.incident_edges@ == g0.incident_edges@);
                    assert forall|w: u64, i: int|
                        #![trigger self.adj(w)[i]]
                        self.vertices().contains(w) && 0 <= i < self.adj(w).len() implies self.edges().dom().contains(
                        self.adj(w)[i],
                    ) && (self.edges()[self.adj(w)[i]].0 == w || self.edges()[self.adj(w)[i]].1
                        == w) by {
                        assert(self.adj(w) == g0.adj(w));
                        assert(g0.edges().dom().contains(g0.adj(w)[i]));
                    }
                }
                return ;
            },
        };
        proof {
            assert(g0.edges().dom().contains(*e));
            assert(g0.edge_wf(*e));
            assert(u < v);
            assert(no_dup(g0.adj(u)));
            assert(no_dup(g0.adj(v)));
            assert forall|w: u64| g0.vertices().contains(w) && w != u && w != v implies !g0.adj(
                w,
            ).contains(*e) by {
                if g0.adj(w).contains(*e) {
                    lemma_adj_member(g0, w, *e);
                }
            }
        }
        let mut au = match self.incident_edges.remove(&u) {
            Some(a) => a,
            None => {
                proof {
                    assert(false);
                }
                Vec::new()
            },
        };
        vec_remove_value(&mut au, *e);
        self.incident_edges.insert(u, au);
        let mut av = match self.incident_edges.remove(&v) {
            Some(a) => a,
            None => {
                proof {
                    assert(false);
                }
                Vec::new()
            },
        };
        vec_remove_value(&mut av, *e);
        self.incident_edges.insert(v, av);
        proof {
            let g2 = *self;
            assert(g2.vertices() =~= g0.vertices());
            assert(g2.edges() == g0.edges().remove(*e));
            assert(forall|w: u64|
                g0.vertices().contains(w) && w != u && w != v ==> g2.adj(w) == g0.adj(w));
            // The two endpoint lists lost exactly `e`; every other list is
            // untouched and never held `e`.
            assert forall|w: u64, x: u64| g0.vertices().contains(w) implies (g2.adj(w).contains(x)
                <==> g0.adj(w).contains(x) && x != *e) by {
                if w != u && w != v && g0.adj(w).contains(*e) {
                    lemma_adj_member(g0, w, *e);
                }
            }
            assert forall|w: u64| g0.vertices().contains(w) implies g2.adj(w).len() == g0.adj(
                w,
            ).len() - (if g0.adj(w).contains(*e) {
                1int
            } else {
                0int
            }) by {
                if w != u && w != v && g0.adj(w).contains(*e) {
                    lemma_adj_member(g0, w, *e);
                }
            }
            // Well-formedness of the result.
            assert forall|e2: u64| #[trigger]
                g2.edges().dom().contains(e2) implies g2.edge_wf(e2) by {
                assert(g0.edges().dom().contains(e2));
                assert(g0.edge_wf(e2));
                assert(e2 != *e);
            }
            assert forall|w: u64, i: int|
                #![trigger g2.adj(w)[i]]
                g2.vertices().contains(w) && 0 <= i < g2.adj(w).len() implies g2.edges().dom().contains(
                g2.adj(w)[i],
            ) && (g2.edges()[g2.adj(w)[i]].0 == w || g2.edges()[g2.adj(w)[i]].1 == w) by {
                let x = g2.adj(w)[i];
                assert(g2.adj(w).contains(x));
                assert(g0.adj(w).contains(x) && x != *e);
                lemma_adj_member(g0, w, x);
            }
            assert forall|w: u64, i: int, j: int|
                #![trigger g2.adj(w)[i], g2.adj(w)[j]]
                g2.vertices().contains(w) && 0 <= i < j < g2.adj(w).len() implies g2.adj(w)[i]
                != g2.adj(w)[j] by {
                if w != u && w != v {
                    assert(g2.adj(w) == g0.adj(w));
                }
            }
        }
    }

    /// Cascading vertex removal: every edge incident to `v` is removed via
    /// `remove_edge`, then `v`'s adjacency entry itself; a no-op beyond that
    /// if `v` is not live.
    pub fn remove_vertex(&mut self, v: &u64)
        requires
            old(self).wf(),
        ensures
            final(self).wf(),
            final(self).vertices() == old(self).vertices().remove(*v),
            final(self).edges() == old(self).edges().remove_keys(old(self).incident_to(*v)),
            forall|w: u64, x: u64|
                w != *v && old(self).vertices().contains(w) ==> (final(self).adj(w).contains(x)
                    <==> old(self).adj(w).contains(x) && !old(self).incident_to(*v).contains(x)),
    {
        let ghost g0 = *old(self);
        let ghost mut processed: Set<u64> = Set::empty();
        loop
            invariant
                self.wf(),
                g0.wf(),
                self.vertices() == g0.vertices(),
                forall|x: u64| processed.contains(x) ==> g0.vertices().contains(*v) && g0.adj(*v).contains(x),
                forall|x: u64|
                    #![trigger self.edges().dom().contains(x)]
                    self.edges().dom().contains(x) <==> g0.edges().dom().contains(x)
                        && !processed.contains(x),
                forall|x: u64|
                    self.edges().dom().contains(x) ==> self.edges()[x] == g0.edges()[x],
                forall|w: u64, x: u64|
                    w != *v && g0.vertices().contains(w) ==> (self.adj(w).contains(x) <==> g0.adj(
                        w,
                    ).contains(x) && !processed.contains(x)),
                g0.vertices().contains(*v) ==> forall|x: u64|
                    self.adj(*v).contains(x) <==> g0.adj(*v).contains(x) && !processed.contains(x),
            ensures
                !self.vertices().contains(*v) || self.adj(*v).len() == 0,
            decreases self.incident_edges@[*v]@.len(),
        {
            let e_opt: Option<u64> = match self.incident_edges.get(v) {
                None => None,
                Some(a) => if a.len() > 0 {
                    Some(a[0])
                } else {
                    None
                },
            };
            match e_opt {
                None => {
                    break ;
                },
                Some(e0) => {
                    proof {
                        assert(self.vertices().contains(*v));
                        assert(self.adj(*v).contains(e0)) by {
                            assert(self.adj(*v)[0] == e0);
                        }
                        lemma_adj_member(*self, *v, e0);
                        assert(g0.adj(*v).contains(e0));
                    }
                    self.remove_edge(&e0);
                    proof {
                        processed = processed.insert(e0);
                    }
                },
            }
        }
        let ghost gl = *self;
        proof {
            // On exit the adjacency list of `v` is exhausted, so `processed`
            // holds exactly the edges incident to `v`.
            if g0.vertices().contains(*v) {
                assert forall|x: u64| g0.adj(*v).contains(x) implies processed.contains(x) by {
                    assert(!gl.adj(*v).contains(x));
                }
            }
            assert forall|x: u64| #[trigger]
                g0.incident_to(*v).contains(x) implies processed.contains(x) by {
                assert(g0.edge_wf(x));
                assert(g0.adj(*v).contains(x));
            }
            assert forall|x: u64| processed.contains(x) implies g0.incident_to(*v).contains(x) by {
                lemma_adj_member(g0, *v, x);
            }
        }
        self.incident_edges.remove(v);
        proof {
            let g2 = *self;
            assert(g2.vertices() =~= g0.vertices().remove(*v));
            assert forall|x: u64|
                #![trigger g2.edges().dom().contains(x)]
                g2.edges().dom().contains(x) <==> (g0.edges().dom().contains(x)
                    && !g0.incident_to(*v).contains(x)) by {
                assert(gl.edges().dom().contains(x) <==> g0.edges().dom().contains(x)
                    && !processed.contains(x));
                if g0.incident_to(*v).contains(x) {
                    assert(processed.contains(x));
                }
                if processed.contains(x) {
                    assert(g0.incident_to(*v).contains(x));
                }
            }
            assert(g2.edges() =~= g0.edges().remove_keys(g0.incident_to(*v)));
            assert(forall|w: u64| w != *v && g0.vertices().contains(w) ==> g2.adj(w) == gl.adj(w));
            assert forall|e2: u64| #[trigger]
                g2.edges().dom().contains(e2) implies g2.edge_wf(e2) by {
                assert(gl.edges().dom().contains(e2));
                assert(gl.edge_wf(e2));
                assert(g0.edge_wf(e2));
                assert(gl.edges()[e2].0 != *v) by {
                    if gl.edges()[e2].0 == *v {
                        assert(g0.incident_to(*v).contains(e2));
                    }
                }
                assert(gl.edges()[e2].1 != *v) by {
                    if gl.edges()[e2].1 == *v {
                        assert(g0.incident_to(*v).contains(e2));
                    }
                }
            }
            assert forall|w: u64, i: int|
                #![trigger g2.adj(w)[i]]
                g2.vertices().contains(w) && 0 <= i < g2.adj(w).len() implies g2.edges().dom().contains(
                g2.adj(w)[i],
            ) && (g2.edges()[g2.adj(w)[i]].0 == w || g2.edges()[g2.adj(w)[i]].1 == w) by {
                assert(g2.adj(w) == gl.adj(w));
                assert(gl.edges().dom().contains(gl.adj(w)[i]));
            }
            assert forall|w: u64, i: int, j: int|
                #![trigger g2.adj(w)[i], g2.adj(w)[j]]
                g2.vertices().contains(w) && 0 <= i < j < g2.adj(w).len() implies g2.adj(w)[i]
                != g2.adj(w)[j] by {
                assert(g2.adj(w) == gl.adj(w));
                assert(gl.adj(w)[i] != gl.adj(w)[j]);
            }
        }
    }

    /// The unique edge whose canonical endpoint pair is `{v1, v2}`, if one
    /// exists: the adjacency list of the higher endpoint is scanned for
    /// membership in the lower endpoint's list.
    pub fn get_edge_between(&self, v1: u64, v2: u64) -> (r: Option<u64>)
        requires
            self.wf(),
            v1 != v2,
        ensures
            match r {
                Some(e) => self.edges().dom().contains(e) && self.edges()[e] == canonical_pair(
                    v1,
                    v2,
                ),
                None => forall|e: u64|
                    self.edges().dom().contains(e) ==> self.edges()[e] != canonical_pair(v1, v2),
            },
    {
        let (a, b) = if v1 <= v2 {
            (v1, v2)
        } else {
            (v2, v1)
        };
        match self.incident_edges.get(&a) {
            Some(in_edges) => {
                let b_edges = self.iter_edges(&b);
                let mut i: usize = 0;
                while i < b_edges.len()
                    invariant
                        self.wf(),
                        a < b,
                        canonical_pair(v1, v2) == (a, b),
                        self.vertices().contains(a),
                        in_edges@ == self.adj(a),
                        b_edges@ == if self.vertices().contains(b) {
                            self.adj(b)
                        } else {
                            Seq::<u64>::empty()
                        },
                        0 <= i <= b_edges@.len(),
                        forall|j: int| 0 <= j < i ==> !self.adj(a).contains(#[trigger] b_edges@[j]),
                    decreases b_edges@.len() - i,
                {
                    let e = b_edges[i];
                    if vec_contains(in_edges, e) {
                        proof {
                            assert(self.vertices().contains(b));
                            assert(self.adj(b).contains(e)) by {
                                assert(self.adj(b)[i as int] == e);
                            }
                            lemma_adj_member(*self, a, e);
                            lemma_adj_member(*self, b, e);
                        }
                        return Some(e);
                    }
                    i += 1;
                }
                proof {
                    assert forall|e: u64|
                        self.edges().dom().contains(e) implies self.edges()[e] != canonical_pair(
                        v1,
                        v2,
                    ) by {
                        if self.edges()[e] == (a, b) {
                            assert(self.edge_wf(e));
                            let j = choose|j: int|
                                0 <= j < self.adj(b).len() && self.adj(b)[j] == e;
                            assert(b_edges@[j] == e);
                            assert(!self.adj(a).contains(e));
                        }
                    }
                }
                None
            },
            None => {
                proof {
                    assert forall|e: u64|
                        self.edges().dom().contains(e) implies self.edges()[e] != canonical_pair(
                        v1,
                        v2,
                    ) by {
                        if self.edges()[e] == (a, b) {
                            assert(self.edge_wf(e));
                        }
                    }
                }
                None
            },
        }
    }

    /// The canonical endpoint pair of edge `e`, if `e` is live.
    pub fn incident_vertices(&self, e: &u64) -> (r: Option<(u64, u64)>)
        ensures
            r == if self.edges().dom().contains(*e) {
                Some(self.edges()[*e])
            } else {
                Option::<(u64, u64)>::None
            },
    {
        match self.incident_vertices.get(e) {
            Some(pair) => Some(*pair),
            None => None,
        }
    }

    /// The edges incident to `v`, in adjacency-list order; empty if `v` is
    /// absent or isolated.
    pub fn iter_edges(&self, v: &u64) -> (r: Vec<u64>)
        ensures
            r@ == if self.vertices().contains(*v) {
                self.adj(*v)
            } else {
                Seq::<u64>::empty()
            },
    {
        match self.incident_edges.get(v) {
            None => Vec::new(),
            Some(edges) => {
                let mut out: Vec<u64> = Vec::new();
                let mut i: usize = 0;
                while i < edges.len()
                    invariant
                        0 <= i <= edges@.len(),
                        out@ == edges@.take(i as int),
                    decreases edges@.len() - i,
                {
                    out.push(edges[i]);
                    proof {
                        assert(out@ =~= edges@.take(i + 1));
                    }
                    i += 1;
                }
                proof {
                    assert(out@ =~= edges@);
                }
                out
            },
        }
    }
}

/// Whether `x` occurs in `v`.
pub(crate) fn vec_contains(v: &Vec<u64>, x: u64) -> (r: bool)
    ensures
        r == v@.contains(x),
{
    let mut i: usize = 0;
    while i < v.len()
        invariant
            0 <= i <= v@.len(),
            forall|j: int| 0 <= j < i ==> v@[j] != x,
        decreases v@.len() - i,
    {
        if v[i] == x {
            return true;
        }
        i += 1;
    }
    false
}

/// A sequence with no repeated element.
pub open spec fn no_dup(s: Seq<u64>) -> bool {
    forall|i: int, j: int| #![trigger s[i], s[j]] 0 <= i < j < s.len() ==> s[i] != s[j]
}

/// Remove the occurrence of `x` from a duplicate-free `v`; leave `v`
/// unchanged if `x` does not occur.
pub(crate) fn vec_remove_value(v: &mut Vec<u64>, x: u64)
    requires
        no_dup(old(v)@),
    ensures
        no_dup(final(v)@),
        !final(v)@.contains(x),
        forall|y: u64| y != x ==> (final(v)@.contains(y) <==> old(v)@.contains(y)),
        forall|i: int| 0 <= i < final(v)@.len() ==> old(v)@.contains(#[trigger] final(v)@[i]),
        final(v)@.len() == old(v)@.len() - (if old(v)@.contains(x) {
            1int
        } else {
            0int
        }),
{
    let mut i: usize = 0;
    while i < v.len()
        invariant
            0 <= i <= v@.len(),
            v@ == old(v)@,
            no_dup(old(v)@),
            forall|j: int| 0 <= j < i ==> v@[j] != x,
        decreases v@.len() - i,
    {
        if v[i] == x {
            proof {
                let s = old(v)@;
                let k = i as int;
                s.remove_ensures(k);
                assert(s.contains(x));
                assert forall|y: u64| y != x implies (s.remove(k).contains(y) <==> s.contains(
                    y,
                )) by {
                    lemma_seq_remove_contains(s, k, y);
                }
                assert(!s.remove(k).contains(x)) by {
                    lemma_seq_remove_contains(s, k, x);
                }
                assert forall|a: int| 0 <= a < s.remove(k).len() implies s.contains(
                    #[trigger] s.remove(k)[a],
                ) by {
                    if a < k {
                        assert(s.remove(k)[a] == s[a]);
                    } else {
                        assert(s.remove(k)[a] == s[a + 1]);
                    }
                }
                assert forall|a: int, b: int|
                    #![trigger s.remove(k)[a], s.remove(k)[b]]
                    0 <= a < b < s.remove(k).len() implies s.remove(k)[a] != s.remove(k)[b] by {
                    let a2 = if a < k {
                        a
                    } else {
                        a + 1
                    };
                    let b2 = if b < k {
                        b
                    } else {
                        b + 1
                    };
                    assert(s.remove(k)[a] == s[a2]);
                    assert(s.remove(k)[b] == s[b2]);
                }
            }
            v.remove(i);
            return ;
        }
        i += 1;
    }
}

impl Default for Graph {
    /// An empty graph.
    fn default() -> (g: Graph)
        ensures
            g.wf(),
            g.vertices() == Set::<u64>::empty(),
            g.edges() == Map::<u64, (u64, u64)>::empty(),
    {
        Graph::new()
    }
}

/// Both endpoints of a live edge are live vertices, and the edge appears in
/// both endpoints' adjacency lists.
pub proof fn lemma_edge_endpoints_live(g: Graph, e: u64)
    requires
        g.wf(),
        g.edges().dom().contains(e),
    ensures
        g.vertices().contains(g.edges()[e].0),
        g.vertices().contains(g.edges()[e].1),
        g.adj(g.edges()[e].0).contains(e),
        g.adj(g.edges()[e].1).contains(e),
        g.edges()[e].0 < g.edges()[e].1,
{
    assert(g.edge_wf(e));
}

/// At most one edge connects any canonical vertex pair: two live edges with
/// the same endpoint pair are the same edge.
pub proof fn lemma_edge_between_unique(g: Graph, e1: u64, e2: u64)
    requires
        g.wf(),
        g.edges().dom().contains(e1),
        g.edges().dom().contains(e2),
        g.edges()[e1] == g.edges()[e2],
    ensures
        e1 == e2,
{
}

/// Removing a vertex with `k` incident edges leaves exactly `k` fewer edges:
/// the incident ones are gone and every other edge is untouched, with its
/// endpoint pair unchanged.
pub proof fn lemma_cascade_count(g: Graph, v: u64)
    requires
        g.wf(),
        g.edges().dom().finite(),
    ensures
        g.incident_to(v).finite(),
        g.edges().remove_keys(g.incident_to(v)).dom().len() == g.edges().dom().len()
            - g.incident_to(v).len(),
        forall|e: u64|
            g.incident_to(v).contains(e) ==> !g.edges().remove_keys(
                g.incident_to(v),
            ).dom().contains(e),
        forall|e: u64|
            g.edges().dom().contains(e) && !g.incident_to(v).contains(e) ==> g.edges().remove_keys(
                g.incident_to(v),
            ).dom().contains(e) && g.edges().remove_keys(g.incident_to(v))[e] == g.edges()[e],
{
    let keys = g.incident_to(v);
    assert(keys.subset_of(g.edges().dom()));
    vstd::set_lib::lemma_len_subset(keys, g.edges().dom());
    g.edges().lemma_remove_keys_len(keys);
}

/// A member of a well-formed adjacency list is a live edge incident to that
/// vertex.
pub proof fn lemma_adj_member(g: Graph, w: u64, x: u64)
    requires
        g.wf(),
        g.vertices().contains(w),
        g.adj(w).contains(x),
    ensures
        g.edges().dom().contains(x),
        g.edges()[x].0 == w || g.edges()[x].1 == w,
{
    let i = choose|i: int| 0 <= i < g.adj(w).len() && g.adj(w)[i] == x;
    assert(g.edges().dom().contains(g.adj(w)[i]));
}

/// For a well-formed graph, membership in a live vertex's adjacency list and
/// incidence via the edge store coincide.
pub proof fn lemma_adj_is_incident(g: Graph, v: u64)
    requires
        g.wf(),
    ensures
        forall|e: u64|
            #[trigger] g.incident_to(v).contains(e) <==> (g.vertices().contains(v)
                && g.adj(v).contains(e)),
{
    assert forall|e: u64|
        #[trigger] g.incident_to(v).contains(e) <==> (g.vertices().contains(v)
            && g.adj(v).contains(e)) by {
        if g.incident_to(v).contains(e) {
            assert(g.edge_wf(e));
        }
        if g.vertices().contains(v) && g.adj(v).contains(e) {
            lemma_adj_member(g, v, e);
        }
    }
}

/// Removing index `i` keeps exactly the occurrences of values at the other
/// indices.
pub proof fn lemma_seq_remove_contains(s: Seq<u64>, i: int, y: u64)
    requires
        0 <= i < s.len(),
    ensures
        s.remove(i).contains(y) <==> exists|j: int| 0 <= j < s.len() && j != i && s[j] == y,
{
    let r = s.remove(i);
    if r.contains(y) {
        let k = choose|k: int| 0 <= k < r.len() && r[k] == y;
        if k < i {
            assert(s[k] == y);
        } else {
            assert(s[k + 1] == y);
        }
    }
    if exists|j: int| 0 <= j < s.len() && j != i && s[j] == y {
        let j = choose|j: int| 0 <= j < s.len() && j != i && s[j] == y;
        if j < i {
            assert(r[j] == y);
        } else {
            assert(r[j - 1] == y);
        }
    }
}

} // verus!
