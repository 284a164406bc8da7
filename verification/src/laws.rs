//! Laws that relate several graph operations, proved once and for all.
use vstd::prelude::*;

use crate::Edge;
use crate::EdgeIndex;
use crate::Graph;
use crate::Node;
use crate::NodeIndex;

verus! {

/// A fresh graph sees nothing: its live counts are zero, no identifier names
/// a live node or edge, and no lookup between nodes finds anything.
pub proof fn lemma_fresh_graph_sees_nothing<N, E>(
    g: Graph<N, E>,
    n: NodeIndex,
    e: EdgeIndex,
    d: NodeIndex,
)
    requires
        g.spec_nodes() == Seq::<Option<Node<N>>>::empty(),
        g.spec_edges() == Seq::<Option<Edge<E>>>::empty(),
    ensures
        g.live_node_count() == 0,
        g.live_edge_count() == 0,
        !g.node_live(n),
        !g.edge_live(e),
        g.spec_edge_between(n, d) is None,
{
}

/// A between-nodes lookup is sound and complete: a returned entry is in the
/// adjacency list and names a live edge to `dest`, and `None` means no entry
/// of the list does.
pub proof fn lemma_first_live_edge_to_found<N, E>(
    g: Graph<N, E>,
    adj: Seq<EdgeIndex>,
    dest: NodeIndex,
)
    ensures
        (g.first_live_edge_to(adj, dest) matches Some(ix) ==> g.adj_entry_matches(ix, dest)
            && adj.contains(ix)),
        g.first_live_edge_to(adj, dest) is None ==> (forall|k: int|
            0 <= k < adj.len() ==> !g.adj_entry_matches(#[trigger] adj[k], dest)),
    decreases adj.len(),
{
    if adj.len() > 0 && !g.adj_entry_matches(adj[0], dest) {
        lemma_first_live_edge_to_found(g, adj.drop_first(), dest);
        if g.first_live_edge_to(adj, dest) is Some {
            let ix = g.first_live_edge_to(adj, dest)->0;
            let i = choose|i: int|
                0 <= i < adj.drop_first().len() && adj.drop_first()[i] == ix;
            assert(adj[i + 1] == ix);
            assert(adj.contains(ix));
        } else {
            assert forall|k: int| 0 <= k < adj.len() implies !g.adj_entry_matches(
                #[trigger] adj[k],
                dest,
            ) by {
                if k > 0 {
                    assert(adj.drop_first()[k - 1] == adj[k]);
                }
            }
        }
    }
}

/// In a graph whose nodes were only ever added, never deleted, the live
/// node count equals the node arena length. So the identifier `add_node`
/// hands out — the arena length before the append — is exactly the number
/// of nodes added so far, and the count afterwards is one more.
pub proof fn lemma_untouched_nodes_count_all<N, E>(g: Graph<N, E>)
    requires
        forall|i: int| 0 <= i < g.spec_nodes().len() ==> g.spec_nodes()[i] is Some,
    ensures
        g.live_node_count() == g.spec_nodes().len(),
{
    crate::counting::lemma_count_some_all_live(g.spec_nodes());
}

/// Appending an entry to an adjacency list leaves an earlier match in
/// place: the appended entry is found only where the list held no match.
pub proof fn lemma_first_live_edge_to_push<N, E>(
    g: Graph<N, E>,
    adj: Seq<EdgeIndex>,
    x: EdgeIndex,
    dest: NodeIndex,
)
    ensures
        g.first_live_edge_to(adj.push(x), dest) == (if g.first_live_edge_to(adj, dest) is Some {
            g.first_live_edge_to(adj, dest)
        } else if g.adj_entry_matches(x, dest) {
            Some(x)
        } else {
            None::<EdgeIndex>
        }),
    decreases adj.len(),
{
    if adj.len() == 0 {
        assert(adj.push(x)[0] == x);
        assert(adj.push(x).drop_first() =~= Seq::<EdgeIndex>::empty());
    } else {
        assert(adj.push(x)[0] == adj[0]);
        assert(adj.push(x).drop_first() =~= adj.drop_first().push(x));
        lemma_first_live_edge_to_push(g, adj.drop_first(), x, dest);
    }
}

/// Growing the edge arena by one slot cannot hide a match from a lookup,
/// and can only add a match at the new slot's own index.
proof fn lemma_first_live_edge_to_grow<N, E>(
    g0: Graph<N, E>,
    g1: Graph<N, E>,
    adj: Seq<EdgeIndex>,
    dest: NodeIndex,
)
    requires
        g1.spec_edges().len() == g0.spec_edges().len() + 1,
        forall|k: int|
            0 <= k < g0.spec_edges().len() ==> g1.spec_edges()[k] == g0.spec_edges()[k],
    ensures
        g1.first_live_edge_to(adj, dest) is None ==> g0.first_live_edge_to(adj, dest) is None,
        g0.first_live_edge_to(adj, dest) is None ==> (g1.first_live_edge_to(adj, dest) is None || (
        g1.first_live_edge_to(adj, dest) matches Some(ix) && ix.0 == g0.spec_edges().len())),
    decreases adj.len(),
{
    if adj.len() > 0 {
        lemma_first_live_edge_to_grow(g0, g1, adj.drop_first(), dest);
        if g0.adj_entry_matches(adj[0], dest) {
            assert(g1.adj_entry_matches(adj[0], dest));
        }
        if g1.adj_entry_matches(adj[0], dest) && !g0.adj_entry_matches(adj[0], dest) {
            assert(adj[0].0 == g0.spec_edges().len());
        }
    }
}

/// After a successful edge append from `source` to `dest`, a lookup between
/// the two finds a live edge; and when no live edge between them existed
/// before the append, it finds exactly the appended edge, which carries the
/// appended payload. The hypotheses are what `add_edge` ensures on success.
pub proof fn lemma_add_edge_found<N, E>(
    g0: Graph<N, E>,
    g1: Graph<N, E>,
    source: NodeIndex,
    dest: NodeIndex,
    data: E,
    e: EdgeIndex,
)
    requires
        g0.node_live(source),
        g0.node_live(dest),
        e.0 == g0.spec_edges().len(),
        g1.spec_edges().len() == g0.spec_edges().len() + 1,
        forall|k: int|
            0 <= k < g0.spec_edges().len() ==> g1.spec_edges()[k] == g0.spec_edges()[k],
        g1.edge_live(e),
        g1.spec_edges()[e.0 as int]->0.spec_dest() == dest,
        g1.spec_edges()[e.0 as int]->0.spec_data() == data,
        g1.spec_nodes().len() == g0.spec_nodes().len(),
        forall|i: int|
            0 <= i < g0.spec_nodes().len() && i != source.0 as int ==> g1.spec_nodes()[i]
                == g0.spec_nodes()[i],
        g1.node_live(source),
        g1.spec_nodes()[source.0 as int]->0.spec_edges() == g0.spec_nodes()[
            source.0 as int
        ]->0.spec_edges().push(e),
    ensures
        g1.spec_edge_between(source, dest) is Some,
        g0.spec_edge_between(source, dest) is None ==> g1.spec_edge_between(source, dest) == Some(
            e,
        ),
        g0.spec_edge_between(source, dest) is None ==> (g1.spec_edge_between(source, dest) matches
            Some(ix) && g1.spec_edges()[ix.0 as int]->0.spec_data() == data),
{
    let adj = g0.spec_adjacent(source);
    assert(g1.node_live(dest));
    assert(g1.spec_adjacent(source) == adj.push(e));
    assert(g1.adj_entry_matches(e, dest));
    lemma_first_live_edge_to_push(g1, adj, e, dest);
    lemma_first_live_edge_to_grow(g0, g1, adj, dest);
    if g0.first_live_edge_to(adj, dest) is None {
        if g1.first_live_edge_to(adj, dest) is Some {
            let ix = g1.first_live_edge_to(adj, dest)->0;
            assert(ix.0 == e.0);
            assert(ix == e);
        }
    }
}

/// After a live node is deleted, no live edge anywhere has it as its
/// destination, and no edge its adjacency list owned is live. The hypotheses
/// are what `delete_node` ensures on a live identifier.
pub proof fn lemma_delete_node_cleans<N, E>(g0: Graph<N, E>, g1: Graph<N, E>, ind: NodeIndex)
    requires
        g0.node_live(ind),
        g1.spec_nodes() == g0.spec_nodes().update(ind.0 as int, None),
        g1.spec_edges().len() == g0.spec_edges().len(),
        forall|k: int|
            0 <= k < g0.spec_edges().len() ==> g1.spec_edges()[k] == (
            if (g0.spec_edges()[k] matches Some(e) && (e.spec_dest() == ind || g0.spec_adjacent(
                ind,
            ).contains(EdgeIndex(k as usize)))) {
                None
            } else {
                g0.spec_edges()[k]
            }),
    ensures
        !g1.node_live(ind),
        forall|k: EdgeIndex|
            #[trigger] g1.edge_live(k) ==> g1.spec_edges()[k.0 as int]->0.spec_dest() != ind,
        forall|k: EdgeIndex|
            g0.spec_adjacent(ind).contains(k) && k.0 < g0.spec_edges().len() ==> !(
            #[trigger] g1.edge_live(k)),
{
    assert forall|k: EdgeIndex| #[trigger] g1.edge_live(k) implies g1.spec_edges()[
        k.0 as int
    ]->0.spec_dest() != ind by {
        assert(EdgeIndex((k.0 as int) as usize) == k);
    }
    assert forall|k: EdgeIndex|
        g0.spec_adjacent(ind).contains(k) && k.0 < g0.spec_edges().len() implies !(
    #[trigger] g1.edge_live(k)) by {
        assert(EdgeIndex((k.0 as int) as usize) == k);
    }
}

/// After deleting the edge a between-nodes lookup resolved, a repeated
/// lookup finds either nothing or a different, parallel edge that was
/// already live, with the same destination, before the deletion. The
/// hypotheses are what `delete_edge_between_nodes` ensures when the lookup
/// found an edge.
pub proof fn lemma_delete_between_finds_other<N, E>(
    g0: Graph<N, E>,
    g1: Graph<N, E>,
    source: NodeIndex,
    dest: NodeIndex,
)
    requires
        g0.spec_edge_between(source, dest) is Some,
        g1.spec_nodes() == g0.spec_nodes(),
        g1.spec_edges() == g0.spec_edges().update(
            (g0.spec_edge_between(source, dest)->0).0 as int,
            None,
        ),
    ensures
        g1.spec_edge_between(source, dest) != g0.spec_edge_between(source, dest),
        g1.spec_edge_between(source, dest) matches Some(ix) ==> ix != g0.spec_edge_between(
            source,
            dest,
        )->0 && g0.adj_entry_matches(ix, dest),
{
    let deleted = g0.spec_edge_between(source, dest)->0;
    lemma_first_live_edge_to_found(g0, g0.spec_adjacent(source), dest);
    assert(g0.adj_entry_matches(deleted, dest));
    assert(g1.spec_adjacent(source) == g0.spec_adjacent(source));
    if g1.spec_edge_between(source, dest) is Some {
        let found = g1.spec_edge_between(source, dest)->0;
        lemma_first_live_edge_to_found(g1, g1.spec_adjacent(source), dest);
        assert(g1.adj_entry_matches(found, dest));
        assert(!g1.edge_live(deleted));
        assert(found.0 != deleted.0);
        assert(g1.spec_edges()[found.0 as int] == g0.spec_edges()[found.0 as int]);
        assert(g0.adj_entry_matches(found, dest));
    }
}

} // verus!
