//! A directed multigraph stored in two flat arenas — one for nodes, one for
//! edges — addressed by stable integer identifiers instead of references.
//!
//! Deletion tombstones a slot in place (sets it to `None`) rather than
//! removing it, so every identifier ever handed out keeps naming the same
//! slot for the life of the graph. An edge records only its destination; its
//! source is implicit in which node's adjacency list owns the edge
//! identifier. Adjacency entries left dangling by an edge deletion are
//! tolerated by every reader: a lookup skips entries whose arena slot is
//! out of range or tombstoned.
use vstd::prelude::*;

pub mod counting;
pub mod laws;
pub mod interning;

pub use counting::count_some;

verus! {

/// Identifier of a node arena slot. Distinct from [`EdgeIndex`] so the two
/// kinds of identifier cannot be confused.
#[derive(Clone, Copy, Debug, PartialEq, Eq, Structural)]
pub struct NodeIndex(pub usize);

impl NodeIndex {
    pub fn from(i: usize) -> (r: NodeIndex)
        ensures
            r.0 == i,
    {
        NodeIndex(i)
    }
}

/// Identifier of an edge arena slot.
#[derive(Clone, Copy, Debug, PartialEq, Eq, Structural)]
pub struct EdgeIndex(pub usize);

impl EdgeIndex {
    pub fn from(i: usize) -> (r: EdgeIndex)
        ensures
            r.0 == i,
    {
        EdgeIndex(i)
    }
}

/// A node record: the caller's payload and the ordered list of outgoing
/// edge identifiers this node owns.
#[derive(Debug)]
pub struct Node<N> {
    data: N,
    edges: Vec<EdgeIndex>,
}

impl<N> Node<N> {
    /// The payload.
    pub closed spec fn spec_data(self) -> N {
        self.data
    }

    /// The adjacency list: outgoing edge identifiers, in insertion order.
    pub closed spec fn spec_edges(self) -> Seq<EdgeIndex> {
        self.edges@
    }

    fn from(data: N) -> (r: Node<N>)
        ensures
            r.spec_data() == data,
            r.spec_edges() == Seq::<EdgeIndex>::empty(),
    {
        Node { data, edges: Vec::new() }
    }

    /// Read the payload.
    pub fn data(&self) -> (r: &N)
        ensures
            *r == self.spec_data(),
    {
        &self.data
    }

    /// Mutate the payload in place; the adjacency list is untouched.
    pub fn data_mut(&mut self) -> (r: &mut N)
        ensures
            *r == old(self).spec_data(),
            final(self).spec_data() == *final(r),
            final(self).spec_edges() == old(self).spec_edges(),
    {
        &mut self.data
    }

    /// Read the adjacency list.
    pub fn out_edges(&self) -> (r: &Vec<EdgeIndex>)
        ensures
            r@ == self.spec_edges(),
    {
        &self.edges
    }
}

/// An edge record: its destination and the caller's payload. The source is
/// not stored; it is the node whose adjacency list owns this edge's
/// identifier.
#[derive(Debug)]
pub struct Edge<E> {
    dest: NodeIndex,
    data: E,
}

impl<E> Edge<E> {
    /// The destination node identifier.
    pub closed spec fn spec_dest(self) -> NodeIndex {
        self.dest
    }

    /// The payload.
    pub closed spec fn spec_data(self) -> E {
        self.data
    }

    fn from(dest: NodeIndex, data: E) -> (r: Edge<E>)
        ensures
            r.spec_dest() == dest,
            r.spec_data() == data,
    {
        Edge { dest, data }
    }

    /// Read the destination.
    pub fn dest(&self) -> (r: NodeIndex)
        ensures
            r == self.spec_dest(),
    {
        self.dest
    }

    /// Read the payload.
    pub fn data(&self) -> (r: &E)
        ensures
            *r == self.spec_data(),
    {
        &self.data
    }

    /// Mutate the payload in place; the destination is untouched.
    pub fn data_mut(&mut self) -> (r: &mut E)
        ensures
            *r == old(self).spec_data(),
            final(self).spec_data() == *final(r),
            final(self).spec_dest() == old(self).spec_dest(),
    {
        &mut self.data
    }
}

/// The graph: a node arena and an edge arena, each a sequence of optional
/// records whose `None` slots are tombstones.
#[derive(Debug)]
pub struct Graph<N, E> {
    nodes: Vec<Option<Node<N>>>,
    edges: Vec<Option<Edge<E>>>,
}

impl<N, E> Graph<N, E> {
    /// The node arena as a sequence of optional records.
    pub closed spec fn spec_nodes(self) -> Seq<Option<Node<N>>> {
        self.nodes@
    }

    /// The edge arena as a sequence of optional records.
    pub closed spec fn spec_edges(self) -> Seq<Option<Edge<E>>> {
        self.edges@
    }

    /// The identifier is in range and its node slot is not a tombstone.
    pub open spec fn node_live(self, ind: NodeIndex) -> bool {
        &&& ind.0 < self.spec_nodes().len()
        &&& self.spec_nodes()[ind.0 as int] is Some
    }

    /// The identifier is in range and its edge slot is not a tombstone.
    pub open spec fn edge_live(self, ind: EdgeIndex) -> bool {
        &&& ind.0 < self.spec_edges().len()
        &&& self.spec_edges()[ind.0 as int] is Some
    }

    /// Number of live nodes.
    pub open spec fn live_node_count(self) -> nat {
        count_some(self.spec_nodes())
    }

    /// Number of live edges.
    pub open spec fn live_edge_count(self) -> nat {
        count_some(self.spec_edges())
    }

    /// The adjacency list of a node, or the empty sequence for a tombstone
    /// or an out-of-range identifier.
    pub open spec fn spec_adjacent(self, ind: NodeIndex) -> Seq<EdgeIndex> {
        if self.node_live(ind) {
            self.spec_nodes()[ind.0 as int]->0.spec_edges()
        } else {
            Seq::empty()
        }
    }

    /// The adjacency entry names a live edge whose destination is `dest`.
    pub open spec fn adj_entry_matches(self, ix: EdgeIndex, dest: NodeIndex) -> bool {
        &&& self.edge_live(ix)
        &&& self.spec_edges()[ix.0 as int]->0.spec_dest() == dest
    }

    /// First entry of `adj` that names a live edge to `dest`, if any.
    pub open spec fn first_live_edge_to(self, adj: Seq<EdgeIndex>, dest: NodeIndex) -> Option<
        EdgeIndex,
    >
        decreases adj.len(),
    {
        if adj.len() == 0 {
            None
        } else if self.adj_entry_matches(adj[0], dest) {
            Some(adj[0])
        } else {
            self.first_live_edge_to(adj.drop_first(), dest)
        }
    }

    /// The edge a lookup between two nodes resolves to: the first live edge
    /// to `dest` in `source`'s adjacency list, provided both endpoints are
    /// live.
    pub open spec fn spec_edge_between(self, source: NodeIndex, dest: NodeIndex) -> Option<
        EdgeIndex,
    > {
        if self.node_live(source) && self.node_live(dest) {
            self.first_live_edge_to(self.spec_adjacent(source), dest)
        } else {
            None
        }
    }

    /// A fresh graph: both arenas empty.
    pub fn new() -> (g: Graph<N, E>)
        ensures
            g.spec_nodes() == Seq::<Option<Node<N>>>::empty(),
            g.spec_edges() == Seq::<Option<Edge<E>>>::empty(),
            g.live_node_count() == 0,
            g.live_edge_count() == 0,
    {
        Graph { nodes: Vec::new(), edges: Vec::new() }
    }

    /// Append a live node with an empty adjacency list. The returned
    /// identifier equals the arena length before the append.
    pub fn add_node(&mut self, data: N) -> (r: NodeIndex)
        ensures
            r.0 == old(self).spec_nodes().len(),
            final(self).spec_nodes().len() == old(self).spec_nodes().len() + 1,
            forall|i: int|
                0 <= i < old(self).spec_nodes().len() ==> final(self).spec_nodes()[i] == old(self).spec_nodes()[i],
            final(self).node_live(r),
            final(self).spec_nodes()[r.0 as int]->0.spec_data() == data,
            final(self).spec_nodes()[r.0 as int]->0.spec_edges() == Seq::<EdgeIndex>::empty(),
            final(self).spec_edges() == old(self).spec_edges(),
            final(self).live_node_count() == old(self).live_node_count() + 1,
            final(self).live_edge_count() == old(self).live_edge_count(),
    {
        let ind = NodeIndex(self.nodes.len());
        let node = Node::from(data);
        proof {
            counting::lemma_count_some_push(self.nodes@, Some(node));
        }
        self.nodes.push(Some(node));
        ind
    }

    /// Whether the identifier names a live node.
    pub fn has_node(&self, ind: NodeIndex) -> (r: bool)
        ensures
            r == self.node_live(ind),
    {
        self.get_node_from_index(ind).is_some()
    }

    /// Whether the identifier names a live edge.
    pub fn has_edge(&self, ind: EdgeIndex) -> (r: bool)
        ensures
            r == self.edge_live(ind),
    {
        self.get_edge_from_index(ind).is_some()
    }

    /// The node record behind an identifier; `None` for an out-of-range
    /// identifier or a tombstone.
    pub fn get_node_from_index(&self, ind: NodeIndex) -> (r: Option<&Node<N>>)
        ensures
            match r {
                Some(n) => self.node_live(ind) && self.spec_nodes()[ind.0 as int] == Some(*n),
                None => !self.node_live(ind),
            },
    {
        if ind.0 < self.nodes.len() {
            match &self.nodes[ind.0] {
                Some(n) => Some(n),
                None => None,
            }
        } else {
            None
        }
    }

    /// The edge record behind an identifier; `None` for an out-of-range
    /// identifier or a tombstone.
    pub fn get_edge_from_index(&self, ind: EdgeIndex) -> (r: Option<&Edge<E>>)
        ensures
            match r {
                Some(e) => self.edge_live(ind) && self.spec_edges()[ind.0 as int] == Some(*e),
                None => !self.edge_live(ind),
            },
    {
        if ind.0 < self.edges.len() {
            match &self.edges[ind.0] {
                Some(e) => Some(e),
                None => None,
            }
        } else {
            None
        }
    }

    /// Append a live edge record to the edge arena and return its
    /// identifier: the arena length before the append.
    fn push_edge(&mut self, e: Edge<E>) -> (r: EdgeIndex)
        ensures
            r.0 == old(self).spec_edges().len(),
            final(self).spec_edges() == old(self).spec_edges().push(Some(e)),
            final(self).spec_nodes() == old(self).spec_nodes(),
            final(self).live_edge_count() == old(self).live_edge_count() + 1,
    {
        let ind = EdgeIndex(self.edges.len());
        proof {
            counting::lemma_count_some_push(self.edges@, Some(e));
        }
        self.edges.push(Some(e));
        ind
    }

    /// Append an edge identifier to a live node's adjacency list.
    fn push_adjacent(&mut self, source: NodeIndex, e: EdgeIndex)
        requires
            old(self).node_live(source),
        ensures
            final(self).spec_edges() == old(self).spec_edges(),
            final(self).spec_nodes().len() == old(self).spec_nodes().len(),
            forall|i: int|
                0 <= i < old(self).spec_nodes().len() && i != source.0 as int ==> final(self).spec_nodes()[i] == old(self).spec_nodes()[i],
            final(self).node_live(source),
            final(self).spec_nodes()[source.0 as int]->0.spec_data() == old(self).spec_nodes()[source.0 as int]->0.spec_data(),
            final(self).spec_nodes()[source.0 as int]->0.spec_edges() == old(self).spec_nodes()[source.0 as int]->0.spec_edges().push(e),
            final(self).live_node_count() == old(self).live_node_count(),
    {
        let slot = &mut self.nodes[source.0];
        match slot {
            Some(n) => {
                n.edges.push(e);
            },
            None => {},
        }
        proof {
            counting::lemma_count_some_update(
                old(self).spec_nodes(),
                source.0 as int,
                self.nodes@[source.0 as int],
            );
        }
    }

    /// Append an edge from `source` to `dest`. Succeeds exactly when both
    /// endpoints are live; on failure nothing changes. On success the new
    /// record goes to the edge arena and its identifier — the arena length
    /// before the append — is pushed onto `source`'s adjacency list.
    pub fn add_edge(&mut self, source: NodeIndex, dest: NodeIndex, data: E) -> (r: Option<
        EdgeIndex,
    >)
        ensures
            match r {
                None => {
                    &&& !(old(self).node_live(source) && old(self).node_live(dest))
                    &&& final(self).spec_nodes() == old(self).spec_nodes()
                    &&& final(self).spec_edges() == old(self).spec_edges()
                },
                Some(e) => {
                    &&& old(self).node_live(source)
                    &&& old(self).node_live(dest)
                    &&& e.0 == old(self).spec_edges().len()
                    &&& final(self).spec_edges().len() == old(self).spec_edges().len() + 1
                    &&& forall|k: int|
                        0 <= k < old(self).spec_edges().len() ==> final(self).spec_edges()[k]
                            == old(self).spec_edges()[k]
                    &&& final(self).edge_live(e)
                    &&& final(self).spec_edges()[e.0 as int]->0.spec_dest() == dest
                    &&& final(self).spec_edges()[e.0 as int]->0.spec_data() == data
                    &&& final(self).spec_nodes().len() == old(self).spec_nodes().len()
                    &&& forall|i: int|
                        0 <= i < old(self).spec_nodes().len() && i != source.0 as int ==> final(self).spec_nodes()[i] == old(self).spec_nodes()[i]
                    &&& final(self).node_live(source)
                    &&& final(self).spec_nodes()[source.0 as int]->0.spec_data() == old(self).spec_nodes()[source.0 as int]->0.spec_data()
                    &&& final(self).spec_nodes()[source.0 as int]->0.spec_edges() == old(self).spec_nodes()[source.0 as int]->0.spec_edges().push(e)
                    &&& final(self).live_edge_count() == old(self).live_edge_count() + 1
                    &&& final(self).live_node_count() == old(self).live_node_count()
                },
            },
    {
        let has_source_node = self.has_node(source);
        let has_dest_node = self.has_node(dest);
        if !has_source_node || !has_dest_node {
            return None;
        }
        let edge = Edge::from(dest, data);
        let ind = self.push_edge(edge);
        self.push_adjacent(source, ind);
        Some(ind)
    }

    /// The node record behind an identifier, mutably; `None` for an
    /// out-of-range identifier or a tombstone, leaving the graph unchanged.
    pub fn get_node_from_index_mut(&mut self, ind: NodeIndex) -> (r: Option<&mut Node<N>>)
        ensures
            match r {
                Some(n) => {
                    &&& old(self).node_live(ind)
                    &&& old(self).spec_nodes()[ind.0 as int] == Some(*n)
                    &&& final(self).spec_nodes() == old(self).spec_nodes().update(
                        ind.0 as int,
                        Some(*final(n)),
                    )
                    &&& final(self).spec_edges() == old(self).spec_edges()
                },
                None => {
                    &&& !old(self).node_live(ind)
                    &&& final(self).spec_nodes() == old(self).spec_nodes()
                    &&& final(self).spec_edges() == old(self).spec_edges()
                },
            },
    {
        if ind.0 >= self.nodes.len() {
            return None;
        }
        let slot = &mut self.nodes[ind.0];
        match slot {
            Some(n) => Some(n),
            None => {
                proof {
                    assert(old(self).spec_nodes().update(
                        ind.0 as int,
                        None::<Node<N>>,
                    ) =~= old(self).spec_nodes());
                }
                None
            },
        }
    }

    /// The edge record behind an identifier, mutably; `None` for an
    /// out-of-range identifier or a tombstone, leaving the graph unchanged.
    pub fn get_edge_from_index_mut(&mut self, ind: EdgeIndex) -> (r: Option<&mut Edge<E>>)
        ensures
            match r {
                Some(e) => {
                    &&& old(self).edge_live(ind)
                    &&& old(self).spec_edges()[ind.0 as int] == Some(*e)
                    &&& final(self).spec_edges() == old(self).spec_edges().update(
                        ind.0 as int,
                        Some(*final(e)),
                    )
                    &&& final(self).spec_nodes() == old(self).spec_nodes()
                },
                None => {
                    &&& !old(self).edge_live(ind)
                    &&& final(self).spec_nodes() == old(self).spec_nodes()
                    &&& final(self).spec_edges() == old(self).spec_edges()
                },
            },
    {
        if ind.0 >= self.edges.len() {
            return None;
        }
        let slot = &mut self.edges[ind.0];
        match slot {
            Some(e) => Some(e),
            None => {
                proof {
                    assert(old(self).spec_edges().update(
                        ind.0 as int,
                        None::<Edge<E>>,
                    ) =~= old(self).spec_edges());
                }
                None
            },
        }
    }

    /// The identifier of the first live edge from `source` to `dest`, in
    /// adjacency-list order; `None` if either endpoint is dead or no live
    /// edge between them exists. Adjacency entries naming tombstoned or
    /// out-of-range edge slots are skipped.
    pub fn get_edge_index_between_nodes(&self, source: NodeIndex, dest: NodeIndex) -> (r: Option<
        EdgeIndex,
    >)
        ensures
            r == self.spec_edge_between(source, dest),
    {
        if !self.has_node(source) || !self.has_node(dest) {
            return None;
        }
        let node = self.get_node_from_index(source).unwrap();
        let ghost adj = node.edges@;
        proof {
            assert(self.spec_adjacent(source) == adj);
            assert(adj.skip(0) =~= adj);
        }
        let n = node.edges.len();
        let mut j: usize = 0;
        while j < n
            invariant
                j <= n,
                n == adj.len(),
                adj == node.edges@,
                self.node_live(source) && self.node_live(dest),
                adj == self.spec_adjacent(source),
                self.first_live_edge_to(adj.skip(j as int), dest) == self.first_live_edge_to(
                    adj,
                    dest,
                ),
            decreases n - j,
        {
            let eix = node.edges[j];
            proof {
                assert(adj.skip(j as int)[0] == adj[j as int]);
            }
            if eix.0 < self.edges.len() {
                match &self.edges[eix.0] {
                    Some(e) => {
                        if e.dest == dest {
                            proof {
                                assert(self.adj_entry_matches(eix, dest));
                                assert(self.first_live_edge_to(adj.skip(j as int), dest) == Some(
                                    eix,
                                ));
                            }
                            return Some(eix);
                        } else {
                            proof {
                                assert(!self.adj_entry_matches(eix, dest));
                            }
                        }
                    },
                    None => {
                        proof {
                            assert(!self.adj_entry_matches(eix, dest));
                        }
                    },
                }
            } else {
                proof {
                    assert(!self.adj_entry_matches(eix, dest));
                }
            }
            proof {
                assert(adj.skip(j as int).drop_first() =~= adj.skip(j as int + 1));
                assert(self.first_live_edge_to(adj.skip(j as int + 1), dest)
                    == self.first_live_edge_to(adj, dest));
            }
            j = j + 1;
        }
        proof {
            assert(adj.skip(n as int) =~= Seq::<EdgeIndex>::empty());
        }
        None
    }

    /// The first live edge from `source` to `dest`, as [`Self::get_edge_index_between_nodes`]
    /// resolves it; `None` when that lookup finds nothing.
    pub fn get_edge_between_nodes(&self, source: NodeIndex, dest: NodeIndex) -> (r: Option<
        &Edge<E>,
    >)
        ensures
            match r {
                Some(e) => (self.spec_edge_between(source, dest) matches Some(ix)
                    && self.spec_edges()[ix.0 as int] == Some(*e)),
                None => self.spec_edge_between(source, dest) is None,
            },
    {
        match self.get_edge_index_between_nodes(source, dest) {
            Some(ind) => {
                proof {
                    laws::lemma_first_live_edge_to_found(*self, self.spec_adjacent(source), dest);
                }
                self.get_edge_from_index(ind)
            },
            None => None,
        }
    }

    /// The first live edge from `source` to `dest`, mutably; `None` when the
    /// lookup finds nothing, leaving the graph unchanged.
    pub fn get_edge_between_nodes_mut(&mut self, source: NodeIndex, dest: NodeIndex) -> (r: Option<
        &mut Edge<E>,
    >)
        ensures
            match r {
                Some(e) => (old(self).spec_edge_between(source, dest) matches Some(ix) && old(self).spec_edges()[ix.0 as int] == Some(*e) && final(self).spec_edges() == old(self).spec_edges().update(ix.0 as int, Some(*final(e))) && final(self).spec_nodes()
                    == old(self).spec_nodes()),
                None => {
                    &&& old(self).spec_edge_between(source, dest) is None
                    &&& final(self).spec_nodes() == old(self).spec_nodes()
                    &&& final(self).spec_edges() == old(self).spec_edges()
                },
            },
    {
        match self.get_edge_index_between_nodes(source, dest) {
            Some(ind) => {
                proof {
                    laws::lemma_first_live_edge_to_found(*self, self.spec_adjacent(source), dest);
                }
                self.get_edge_from_index_mut(ind)
            },
            None => None,
        }
    }

    /// Tombstone one edge slot. An out-of-range identifier, like an already
    /// tombstoned one, is a no-op. No adjacency list is touched: entries left
    /// dangling by this call are skipped by every reader.
    pub fn delete_edge(&mut self, ind: EdgeIndex)
        ensures
            final(self).spec_nodes() == old(self).spec_nodes(),
            final(self).spec_edges().len() == old(self).spec_edges().len(),
            ind.0 < old(self).spec_edges().len() ==> final(self).spec_edges() == old(self).spec_edges().update(ind.0 as int, None),
            ind.0 >= old(self).spec_edges().len() ==> final(self).spec_edges() == old(self).spec_edges(),
            !final(self).edge_live(ind),
            !old(self).edge_live(ind) ==> final(self).spec_edges() == old(self).spec_edges(),
            old(self).edge_live(ind) ==> final(self).live_edge_count() + 1 == old(self).live_edge_count(),
            !old(self).edge_live(ind) ==> final(self).live_edge_count() == old(self).live_edge_count(),
    {
        if ind.0 < self.edges.len() {
            proof {
                counting::lemma_count_some_update(self.edges@, ind.0 as int, None::<Edge<E>>);
                if self.edges@[ind.0 as int] is None {
                    assert(self.edges@.update(ind.0 as int, None::<Edge<E>>) =~= self.edges@);
                }
            }
            let slot = &mut self.edges[ind.0];
            *slot = None;
        }
    }

    /// Tombstone the first live edge from `source` to `dest`, if the lookup
    /// finds one; a no-op otherwise.
    pub fn delete_edge_between_nodes(&mut self, source: NodeIndex, dest: NodeIndex)
        ensures
            final(self).spec_nodes() == old(self).spec_nodes(),
            match old(self).spec_edge_between(source, dest) {
                None => final(self).spec_edges() == old(self).spec_edges(),
                Some(ix) => {
                    &&& final(self).spec_edges() == old(self).spec_edges().update(
                        ix.0 as int,
                        None,
                    )
                    &&& !final(self).edge_live(ix)
                    &&& final(self).live_edge_count() + 1 == old(self).live_edge_count()
                },
            },
    {
        match self.get_edge_index_between_nodes(source, dest) {
            Some(ind) => {
                proof {
                    laws::lemma_first_live_edge_to_found(*self, self.spec_adjacent(source), dest);
                }
                self.delete_edge(ind);
            },
            None => {},
        }
    }

    /// Tombstone a live node together with every edge that touches it: first
    /// every edge in the arena whose destination is `ind`, then every edge
    /// the node's own adjacency list owns, then the node slot itself. A dead
    /// identifier is a no-op.
    pub fn delete_node(&mut self, ind: NodeIndex)
        ensures
            !final(self).node_live(ind),
            !old(self).node_live(ind) ==> final(self).spec_nodes() == old(self).spec_nodes()
                && final(self).spec_edges() == old(self).spec_edges(),
            old(self).node_live(ind) ==> {
                &&& final(self).spec_nodes() == old(self).spec_nodes().update(ind.0 as int, None)
                &&& final(self).spec_edges().len() == old(self).spec_edges().len()
                &&& forall|k: int|
                    0 <= k < old(self).spec_edges().len() ==> final(self).spec_edges()[k] == (
                    if (old(self).spec_edges()[k] matches Some(e) && (e.spec_dest() == ind || old(self).spec_adjacent(ind).contains(EdgeIndex(k as usize)))) {
                        None
                    } else {
                        old(self).spec_edges()[k]
                    })
                &&& final(self).live_node_count() + 1 == old(self).live_node_count()
            },
    {
        if !self.has_node(ind) {
            return ;
        }
        let ghost g0 = *self;
        // Tombstone every edge anywhere in the arena whose destination is the
        // node being deleted.
        let m = self.edges.len();
        let mut k: usize = 0;
        while k < m
            invariant
                k <= m,
                m == g0.spec_edges().len(),
                self.nodes@ == g0.spec_nodes(),
                self.edges@.len() == m,
                forall|j: int|
                    0 <= j < k ==> self.edges@[j] == (
                    if (g0.spec_edges()[j] matches Some(e) && e.spec_dest() == ind) {
                        None::<Edge<E>>
                    } else {
                        g0.spec_edges()[j]
                    }),
                forall|j: int| k <= j < m ==> self.edges@[j] == g0.spec_edges()[j],
            decreases m - k,
        {
            let kill = match &self.edges[k] {
                Some(e) => e.dest == ind,
                None => false,
            };
            if kill {
                let slot = &mut self.edges[k];
                *slot = None;
            }
            k = k + 1;
        }
        // Take the node record out, which tombstones its slot, and tombstone
        // every edge its adjacency list owns.
        let slot = &mut self.nodes[ind.0];
        let mut taken: Option<Node<N>> = None;
        std::mem::swap(slot, &mut taken);
        let node = taken.unwrap();
        let adj = node.edges;
        proof {
            assert(adj@ == g0.spec_adjacent(ind));
            counting::lemma_count_some_update(g0.spec_nodes(), ind.0 as int, None::<Node<N>>);
        }
        let ghost mid = self.edges@;
        let alen = adj.len();
        let mut t: usize = 0;
        while t < alen
            invariant
                t <= alen,
                alen == adj@.len(),
                self.nodes@ == g0.spec_nodes().update(ind.0 as int, None::<Node<N>>),
                self.edges@.len() == mid.len(),
                mid.len() == g0.spec_edges().len(),
                mid.len() <= usize::MAX,
                forall|j: int|
                    0 <= j < mid.len() ==> self.edges@[j] == (
                    if adj@.take(t as int).contains(EdgeIndex(j as usize)) {
                        None::<Edge<E>>
                    } else {
                        mid[j]
                    }),
            decreases alen - t,
        {
            let ghost pre = self.edges@;
            let eix = adj[t];
            self.delete_edge(eix);
            proof {
                let s = adj@.take(t as int + 1);
                assert(s[t as int] == eix);
                assert forall|j: int| 0 <= j < mid.len() implies self.edges@[j] == (
                if s.contains(EdgeIndex(j as usize)) {
                    None::<Edge<E>>
                } else {
                    mid[j]
                }) by {
                    let jx = EdgeIndex(j as usize);
                    assert(forall|w: int|
                        0 <= w < t as int ==> adj@.take(t as int)[w] == #[trigger] s[w]);
                    if s.contains(jx) {
                        let w = choose|w: int| 0 <= w < s.len() && s[w] == jx;
                        if w < t as int {
                            assert(adj@.take(t as int)[w] == jx);
                            assert(adj@.take(t as int).contains(jx));
                            assert(pre[j] == None::<Edge<E>>);
                        } else {
                            assert(s[w] == eix);
                            assert(j == eix.0 as int);
                        }
                        assert(self.edges@[j] == None::<Edge<E>>);
                    } else {
                        assert(!adj@.take(t as int).contains(jx)) by {
                            if adj@.take(t as int).contains(jx) {
                                let w = choose|w: int|
                                    0 <= w < adj@.take(t as int).len() && adj@.take(t as int)[w]
                                        == jx;
                                assert(s[w] == jx);
                            }
                        }
                        assert(jx != eix) by {
                            if jx == eix {
                                assert(s[t as int] == jx);
                                assert(s.contains(jx));
                            }
                        }
                        assert(j != eix.0 as int);
                        assert(self.edges@[j] == pre[j]);
                        assert(pre[j] == mid[j]);
                    }
                }
            }
            t = t + 1;
        }
        proof {
            assert(adj@.take(alen as int) =~= adj@);
            assert forall|k2: int| 0 <= k2 < g0.spec_edges().len() implies self.edges@[k2] == (
            if (g0.spec_edges()[k2] matches Some(e) && (e.spec_dest() == ind
                || g0.spec_adjacent(ind).contains(EdgeIndex(k2 as usize)))) {
                None
            } else {
                g0.spec_edges()[k2]
            }) by {}
        }
    }

    /// Live node and edge counts, tombstones excluded.
    pub fn size(&self) -> (r: (usize, usize))
        ensures
            r.0 == self.live_node_count(),
            r.1 == self.live_edge_count(),
    {
        (count_live(&self.nodes), count_live(&self.edges))
    }
}

/// Count the live slots of one arena.
fn count_live<T>(v: &Vec<Option<T>>) -> (c: usize)
    ensures
        c == count_some(v@),
{
    let n = v.len();
    let mut c: usize = 0;
    let mut k: usize = 0;
    while k < n
        invariant
            k <= n,
            n == v@.len(),
            c == count_some(v@.take(k as int)),
            c <= k,
        decreases n - k,
    {
        proof {
            counting::lemma_count_some_take_succ(v@, k as int);
        }
        if v[k].is_some() {
            c = c + 1;
        }
        k = k + 1;
        proof {
            counting::lemma_count_some_le_len(v@.take(k as int));
        }
    }
    proof {
        assert(v@.take(n as int) =~= v@);
    }
    c
}

} // verus!
