//! A second graph flavor that interns vertex values: adding a vertex value
//! assigns it a small integer identifier, and adding it again resets its
//! edge set instead of duplicating it. Vertices are compared by the payload
//! type's own equality, so every contract that depends on a comparison is
//! stated under `obeys_eq_spec`, the promise that the type's `==` agrees
//! with its specification.
use vstd::prelude::*;
use vstd::std_specs::cmp::PartialEqSpec;

verus! {

/// Identifier a vertex value was interned to.
#[derive(Clone, Copy, Debug, PartialEq, Eq, Structural)]
pub struct VertexIden(pub usize);

impl VertexIden {
    pub fn from(i: usize) -> (r: VertexIden)
        ensures
            r.0 == i,
    {
        VertexIden(i)
    }
}

/// Identifier an edge value would be interned to.
#[derive(Clone, Copy, Debug, PartialEq, Eq, Structural)]
pub struct EdgeIden(pub usize);

/// Index of the first element of `s` equal (by `eq_spec`) to `v`, if any.
pub open spec fn find_equal<V: PartialEq>(s: Seq<V>, v: V) -> Option<int>
    decreases s.len(),
{
    if s.len() == 0 {
        None
    } else if s[0].eq_spec(&v) {
        Some(0int)
    } else {
        match find_equal(s.drop_first(), v) {
            Some(i) => Some(i + 1),
            None => None,
        }
    }
}

/// The interning graph: interned vertex values (their position is their
/// identifier), interned edge values, and per-vertex edge sets in `core`.
#[derive(Debug)]
pub struct Graph<V: Eq + Clone, E: Eq + Clone> {
    vertices: Vec<V>,
    edges: Vec<E>,
    /// Edge sets, keyed by interned vertex identifier; an entry appears
    /// only once a vertex's edge set has been touched.
    pub core: Vec<(VertexIden, Vec<EdgeIden>)>,
}

impl<V: Eq + Clone, E: Eq + Clone> Graph<V, E> {
    /// The interned vertex values, in interning order.
    pub closed spec fn spec_vertices(self) -> Seq<V> {
        self.vertices@
    }

    /// The interned edge values, in interning order.
    pub closed spec fn spec_edges(self) -> Seq<E> {
        self.edges@
    }

    /// The edge sets, keyed by interned vertex identifier.
    pub closed spec fn spec_core(self) -> Seq<(VertexIden, Vec<EdgeIden>)> {
        self.core@
    }

    /// The vertex identifier an entry of `core` is keyed by.
    pub open spec fn core_key(self, j: int) -> VertexIden {
        self.spec_core()[j].0
    }

    /// Some interned vertex equals `v`.
    pub open spec fn spec_has_vertex(self, v: V) -> bool {
        find_equal(self.spec_vertices(), v) is Some
    }

    /// Every `core` key names an interned vertex, and no key repeats.
    pub open spec fn wf(self) -> bool {
        &&& forall|j: int|
            0 <= j < self.spec_core().len() ==> (#[trigger] self.core_key(j)).0
                < self.spec_vertices().len()
        &&& forall|j: int, k: int|
            0 <= j < k < self.spec_core().len() ==> self.core_key(j) != self.core_key(k)
    }

    /// A fresh graph: nothing interned, no edge sets.
    pub fn new() -> (g: Graph<V, E>)
        ensures
            g.spec_vertices() == Seq::<V>::empty(),
            g.spec_edges() == Seq::<E>::empty(),
            g.spec_core() == Seq::<(VertexIden, Vec<EdgeIden>)>::empty(),
            g.wf(),
    {
        Graph { vertices: Vec::new(), edges: Vec::new(), core: Vec::new() }
    }

    /// Whether `v` equals some interned vertex. On an empty graph this is
    /// false whatever the payload's equality does.
    pub fn has_vertex(&self, v: &V) -> (r: bool)
        ensures
            V::obeys_eq_spec() ==> r == self.spec_has_vertex(*v),
            self.spec_vertices().len() == 0 ==> r == false,
    {
        self.find_vertex(v).is_some()
    }

    /// Whether an identifier names an interned vertex.
    pub fn has_vertex_iden(&self, vid: usize) -> (r: bool)
        ensures
            r == (vid < self.spec_vertices().len()),
    {
        let vid = VertexIden::from(vid);
        vid.0 < self.vertices.len()
    }

    /// Intern a vertex value. A value seen for the first time is assigned
    /// the next identifier; a value already interned keeps its identifier
    /// and has its edge set reset to empty instead.
    pub fn add_vertex(&mut self, v: V)
        requires
            old(self).wf(),
        ensures
            final(self).wf(),
            final(self).spec_edges() == old(self).spec_edges(),
            !V::obeys_eq_spec() || (match find_equal(old(self).spec_vertices(), v) {
                None => {
                    &&& final(self).spec_vertices() == old(self).spec_vertices().push(v)
                    &&& final(self).spec_core() == old(self).spec_core()
                },
                Some(i) => {
                    &&& final(self).spec_vertices() == old(self).spec_vertices()
                    &&& old(self).spec_core().len() <= final(self).spec_core().len() <= old(self).spec_core().len()
                        + 1
                    &&& forall|j: int|
                        0 <= j < old(self).spec_core().len() && old(self).core_key(j) != VertexIden(
                            i as usize,
                        ) ==> final(self).spec_core()[j] == old(self).spec_core()[j]
                    &&& exists|j: int|
                        0 <= j < final(self).spec_core().len() && #[trigger] final(self).core_key(j)
                            == VertexIden(i as usize)
                    &&& forall|j: int|
                        0 <= j < final(self).spec_core().len() && #[trigger] final(self).core_key(j)
                            == VertexIden(i as usize) ==> final(self).spec_core()[j].1@ == Seq::<
                            EdgeIden,
                        >::empty()
                },
            }),
    {
        match self.find_vertex(&v) {
            None => {
                self.vertices.push(v);
                proof {
                    assert(self.spec_core() == old(self).spec_core());
                    assert forall|j: int| 0 <= j < self.spec_core().len() implies (
                    #[trigger] self.core_key(j)).0 < self.spec_vertices().len() by {
                        assert(self.core_key(j) == old(self).core_key(j));
                    }
                    assert forall|a: int, b: int|
                        0 <= a < b < self.spec_core().len() implies self.core_key(a) != self
                        .core_key(b) by {
                        assert(self.core_key(a) == old(self).core_key(a));
                        assert(self.core_key(b) == old(self).core_key(b));
                    }
                }
            },
            Some(vid) => {
                self.reset_edge_set(vid);
            },
        }
    }

    /// Position of the first interned vertex that compares equal to `v`.
    fn find_vertex(&self, v: &V) -> (r: Option<usize>)
        ensures
            V::obeys_eq_spec() ==> r == (match find_equal(self.spec_vertices(), *v) {
                Some(i) => Some(i as usize),
                None => None::<usize>,
            }),
            self.spec_vertices().len() == 0 ==> r is None,
            r matches Some(i) ==> i < self.spec_vertices().len(),
    {
        let n = self.vertices.len();
        let ghost s = self.vertices@;
        proof {
            assert(s.skip(0) =~= s);
        }
        let mut k: usize = 0;
        while k < n
            invariant
                k <= n,
                n == s.len(),
                s == self.vertices@,
                V::obeys_eq_spec() ==> (forall|i: int| 0 <= i < k ==> !(#[trigger] s[i]).eq_spec(
                    v,
                )),
                V::obeys_eq_spec() ==> find_equal(s, *v) == (match find_equal(
                    s.skip(k as int),
                    *v,
                ) {
                    Some(i) => Some(i + k),
                    None => None::<int>,
                }),
            decreases n - k,
        {
            proof {
                assert(s.skip(k as int)[0] == s[k as int]);
            }
            if self.vertices[k] == *v {
                proof {
                    if V::obeys_eq_spec() {
                        assert(find_equal(s.skip(k as int), *v) == Some(0int));
                    }
                }
                return Some(k);
            }
            proof {
                assert(s.skip(k as int).drop_first() =~= s.skip(k as int + 1));
            }
            k = k + 1;
        }
        proof {
            assert(s.skip(n as int) =~= Seq::<V>::empty());
        }
        None
    }

    /// Give the vertex identifier an empty edge set, adding its `core`
    /// entry if it has none yet.
    fn reset_edge_set(&mut self, vid: usize)
        requires
            old(self).wf(),
            vid < old(self).spec_vertices().len(),
        ensures
            final(self).wf(),
            final(self).spec_vertices() == old(self).spec_vertices(),
            final(self).spec_edges() == old(self).spec_edges(),
            old(self).spec_core().len() <= final(self).spec_core().len() <= old(self).spec_core().len() + 1,
            forall|j: int|
                0 <= j < old(self).spec_core().len() && old(self).core_key(j) != VertexIden(vid) ==>
                    final(self).spec_core()[j] == old(self).spec_core()[j],
            exists|j: int|
                0 <= j < final(self).spec_core().len() && #[trigger] final(self).core_key(j)
                    == VertexIden(vid),
            forall|j: int|
                0 <= j < final(self).spec_core().len() && #[trigger] final(self).core_key(j)
                    == VertexIden(vid) ==> final(self).spec_core()[j].1@ == Seq::<EdgeIden>::empty(),
    {
        let key = VertexIden::from(vid);
        let n = self.core.len();
        let mut k: usize = 0;
        while k < n
            invariant
                k <= n,
                n == self.core@.len(),
                *self == *old(self),
                key.0 == vid,
                vid < old(self).spec_vertices().len(),
                old(self).wf(),
                forall|j: int| 0 <= j < k ==> old(self).core_key(j) != key,
            decreases n - k,
        {
            let entry_key = self.core[k].0;
            if entry_key.0 == key.0 {
                let fresh = (key, Vec::<EdgeIden>::new());
                let ghost gf = fresh;
                let slot = &mut self.core[k];
                *slot = fresh;
                proof {
                    assert(self.core@ == old(self).spec_core().update(k as int, gf));
                    assert(self.core@.len() == old(self).spec_core().len());
                    assert(self.core@[k as int].0 == key);
                    assert(self.core@[k as int].1@ =~= Seq::<EdgeIden>::empty());
                    assert(forall|j: int|
                        0 <= j < self.core@.len() && j != k as int ==> self.core@[j] == old(
                            self,
                        ).spec_core()[j]);
                    assert(self.core_key(k as int) == VertexIden(vid));
                    assert forall|j: int|
                        0 <= j < self.core@.len() && #[trigger] self.core_key(j) == VertexIden(
                            vid,
                        ) implies self.core@[j].1@ == Seq::<EdgeIden>::empty() by {
                        if j != k as int {
                            assert(old(self).core_key(j) == old(self).core_key(k as int));
                        }
                    }
                    assert(entry_key == key);
                    assert forall|j: int| 0 <= j < self.core@.len() implies #[trigger] self
                        .core_key(j) == old(self).core_key(j) by {
                        if j == k as int {
                            assert(self.core_key(j) == key);
                        }
                    }
                    assert forall|j: int| 0 <= j < self.core@.len() implies (
                    #[trigger] self.core_key(j)).0 < self.spec_vertices().len() by {
                        assert(self.core_key(j) == old(self).core_key(j));
                    }
                    assert forall|a: int, b: int|
                        0 <= a < b < self.core@.len() implies self.core_key(a) != self.core_key(
                        b,
                    ) by {
                        assert(self.core_key(a) == old(self).core_key(a));
                        assert(self.core_key(b) == old(self).core_key(b));
                    }
                }
                return ;
            }
            k = k + 1;
        }
        let entry = (key, Vec::<EdgeIden>::new());
        let ghost ge = entry;
        self.core.push(entry);
        proof {
            let last = old(self).spec_core().len() as int;
            assert(self.core@ == old(self).spec_core().push(ge));
            assert(self.core_key(last) == VertexIden(vid));
            assert(self.core@[last].1@ =~= Seq::<EdgeIden>::empty());
            assert(forall|j: int|
                0 <= j < last ==> self.core@[j] == old(self).spec_core()[j]);
            assert forall|j: int|
                0 <= j < self.core@.len() && #[trigger] self.core_key(j) == VertexIden(
                    vid,
                ) implies self.core@[j].1@ == Seq::<EdgeIden>::empty() by {
                if j != last {
                    assert(old(self).core_key(j) != key);
                }
            }
            assert forall|j: int| 0 <= j < self.core@.len() implies (
            #[trigger] self.core_key(j)).0 < self.spec_vertices().len() by {
                if j != last {
                    assert(self.core_key(j) == old(self).core_key(j));
                }
            }
            assert forall|j: int, k2: int|
                0 <= j < k2 < self.core@.len() implies self.core_key(j) != self.core_key(
                k2,
            ) by {
                if k2 == last {
                    assert(old(self).core_key(j) != key);
                } else {
                    assert(old(self).core_key(j) != old(self).core_key(k2));
                }
            }
        }
    }
}

} // verus!
