//! A coarse comparison of the control flow of two functions.
//!
//! A function is cut into blocks after each return; the blocks form a chain.
//! Two functions compare equal where their chains are isomorphic.

use crate::arch::x86_64::{is_return, is_return_mnemonic};
use crate::arch::{FunctionIR, FunctionIRView};
use petgraph::graph::{Graph, NodeIndex};
use vstd::prelude::*;

verus! {

// ---------------------------------------------------------------------------
// The graph
// ---------------------------------------------------------------------------
/// The graph of the `petgraph` crate.
#[verifier::external_type_specification]
#[verifier::external_body]
#[verifier::reject_recursive_types(N)]
#[verifier::reject_recursive_types(E)]
#[verifier::reject_recursive_types(Ty)]
#[verifier::reject_recursive_types(Ix)]
pub struct ExGraph<N, E, Ty, Ix>(petgraph::graph::Graph<N, E, Ty, Ix>);

/// The marker of the `petgraph` crate for directed edges.
#[verifier::external_type_specification]
#[verifier::external_body]
pub struct ExDirected(petgraph::Directed);

/// The weights of the nodes of a graph, in the order of their indices.
pub uninterp spec fn graph_nodes(g: Graph<usize, ()>) -> Seq<usize>;

/// The edges of a graph, each as the indices of the node it leaves and of
/// the node it enters, in the order in which they were added.
pub uninterp spec fn graph_edges(g: Graph<usize, ()>) -> Seq<(int, int)>;

/// Whether `p` maps the nodes of graph A one to one onto the nodes of graph
/// B so that mapped nodes have equal weights and an edge joins two nodes of
/// A exactly where one joins their images in B.
pub open spec fn is_matching(
    p: Seq<int>,
    nodes_a: Seq<usize>,
    edges_a: Seq<(int, int)>,
    nodes_b: Seq<usize>,
    edges_b: Seq<(int, int)>,
) -> bool {
    &&& p.len() == nodes_a.len()
    &&& p.no_duplicates()
    &&& forall|i: int| 0 <= i < p.len() ==> 0 <= #[trigger] p[i] < nodes_b.len()
    &&& forall|i: int| 0 <= i < p.len() ==> #[trigger] nodes_a[i] == nodes_b[p[i]]
    &&& forall|i: int, j: int|
        0 <= i < p.len() && 0 <= j < p.len() ==> (edges_a.contains((i, j)) <==> edges_b.contains(
            (#[trigger] p[i], #[trigger] p[j]),
        ))
}

/// Whether two directed graphs are isomorphic, node weights included.
pub open spec fn isomorphic(
    nodes_a: Seq<usize>,
    edges_a: Seq<(int, int)>,
    nodes_b: Seq<usize>,
    edges_b: Seq<(int, int)>,
) -> bool {
    &&& nodes_a.len() == nodes_b.len()
    &&& edges_a.len() == edges_b.len()
    &&& exists|p: Seq<int>| is_matching(p, nodes_a, edges_a, nodes_b, edges_b)
}

/// Calls `Graph::new`: a directed graph without nodes and edges.
#[verifier::external_body]
fn graph_new() -> (g: Graph<usize, ()>)
    ensures
        graph_nodes(g) == Seq::<usize>::empty(),
        graph_edges(g) == Seq::<(int, int)>::empty(),
{
    Graph::new()
}

/// Calls `Graph::add_node`, which appends a node and returns its index. It
/// panics where the graph holds as many nodes as its 32-bit index can
/// count.
#[verifier::external_body]
fn graph_add_node(g: &mut Graph<usize, ()>, weight: usize) -> (index: usize)
    requires
        graph_nodes(*old(g)).len() < u32::MAX,
    ensures
        graph_nodes(*final(g)) == graph_nodes(*old(g)).push(weight),
        graph_edges(*final(g)) == graph_edges(*old(g)),
        index == graph_nodes(*old(g)).len(),
{
    g.add_node(weight).index()
}

/// Calls `Graph::add_edge`, which appends an edge from node `a` to node
/// `b`. It panics where one of the nodes does not exist or the graph holds
/// as many edges as its 32-bit index can count.
#[verifier::external_body]
fn graph_add_edge(g: &mut Graph<usize, ()>, a: usize, b: usize)
    requires
        a < graph_nodes(*old(g)).len(),
        b < graph_nodes(*old(g)).len(),
        graph_nodes(*old(g)).len() <= u32::MAX,
        graph_edges(*old(g)).len() < u32::MAX,
    ensures
        graph_nodes(*final(g)) == graph_nodes(*old(g)),
        graph_edges(*final(g)) == graph_edges(*old(g)).push((a as int, b as int)),
{
    g.add_edge(NodeIndex::new(a), NodeIndex::new(b), ());
}

fn same_weight(a: &usize, b: &usize) -> (r: bool)
    ensures
        r == (*a == *b),
{
    *a == *b
}

fn any_edge(a: &(), b: &()) -> (r: bool)
    ensures
        r,
{
    true
}

/// Calls `petgraph::algo::is_isomorphic_matching` with equality of the node
/// weights and no condition on the edges. Its documentation says that it
/// tells whether the two graphs are isomorphic, by structure and by weights,
/// and asks that no edge stand twice in a graph.
#[verifier::external_body]
fn graphs_isomorphic(a: &Graph<usize, ()>, b: &Graph<usize, ()>) -> (r: bool)
    requires
        graph_edges(*a).no_duplicates(),
        graph_edges(*b).no_duplicates(),
    ensures
        r == isomorphic(graph_nodes(*a), graph_edges(*a), graph_nodes(*b), graph_edges(*b)),
{
    petgraph::algo::is_isomorphic_matching(a, b, |x, y| same_weight(x, y), |x, y| any_edge(x, y))
}

// ---------------------------------------------------------------------------
// Blocks
// ---------------------------------------------------------------------------
/// How many of the first `n` instructions are returns.
pub open spec fn returns_upto(f: FunctionIRView, n: nat) -> nat
    decreases n,
{
    if n == 0 {
        0
    } else {
        returns_upto(f, (n - 1) as nat) + if is_return_mnemonic(f.insns[n - 1].mnemonic) {
            1nat
        } else {
            0nat
        }
    }
}

/// The number of blocks of a function: one, and one more after each
/// return.
pub open spec fn block_count_of(f: FunctionIRView) -> nat {
    1 + returns_upto(f, f.insns.len())
}

/// The weights of a chain of `n` nodes: each node weighs its position.
pub open spec fn chain_nodes(n: nat) -> Seq<usize> {
    Seq::new(n, |k: int| k as usize)
}

/// The edges of a chain of `n` nodes: one from each node to the next.
pub open spec fn chain_edges(n: nat) -> Seq<(int, int)> {
    Seq::new((n - 1) as nat, |k: int| (k, k + 1))
}

/// Two chains are isomorphic exactly where they are equally long.
pub proof fn lemma_chains_isomorphic(n: nat, m: nat)
    requires
        0 < n <= usize::MAX,
        0 < m <= usize::MAX,
    ensures
        isomorphic(chain_nodes(n), chain_edges(n), chain_nodes(m), chain_edges(m)) <==> n == m,
{
    if n == m {
        let p = Seq::new(n, |k: int| k);
        assert(is_matching(p, chain_nodes(n), chain_edges(n), chain_nodes(m), chain_edges(m)));
    }
}

/// A function has at most one block more than it has instructions.
pub proof fn lemma_block_count_bound(f: FunctionIRView)
    ensures
        block_count_of(f) <= f.insns.len() + 1,
{
    lemma_returns_at_most(f, f.insns.len());
}

proof fn lemma_returns_at_most(f: FunctionIRView, n: nat)
    ensures
        returns_upto(f, n) <= n,
    decreases n,
{
    if n > 0 {
        lemma_returns_at_most(f, (n - 1) as nat);
    }
}

/// The number of blocks of a function.
pub fn block_count(f: &FunctionIR) -> (n: usize)
    requires
        block_count_of(f@) <= usize::MAX,
    ensures
        n == block_count_of(f@),
{
    let mut n: usize = 1;
    let mut i: usize = 0;
    while i < f.insns.len()
        invariant
            i <= f.insns.len(),
            n == 1 + returns_upto(f@, i as nat),
            block_count_of(f@) <= usize::MAX,
        decreases f.insns.len() - i,
    {
        if is_return(f.insns[i].mnemonic.as_str()) {
            proof {
                lemma_returns_monotone(f@, (i + 1) as nat, f.insns.len() as nat);
            }
            n = n + 1;
        }
        i = i + 1;
    }
    n
}

proof fn lemma_returns_monotone(f: FunctionIRView, n: nat, m: nat)
    requires
        n <= m,
    ensures
        returns_upto(f, n) <= returns_upto(f, m),
    decreases m - n,
{
    if n < m {
        lemma_returns_monotone(f, n, (m - 1) as nat);
    }
}

fn chain(n: usize) -> (g: Graph<usize, ()>)
    requires
        0 < n <= u32::MAX,
    ensures
        graph_nodes(g) == chain_nodes(n as nat),
        graph_edges(g) == chain_edges(n as nat),
{
    let mut g = graph_new();
    let first = graph_add_node(&mut g, 0);
    let mut last: usize = first;
    let mut k: usize = 1;
    assert(graph_nodes(g) =~= chain_nodes(1));
    assert(graph_edges(g) =~= chain_edges(1));
    while k < n
        invariant
            1 <= k <= n <= u32::MAX,
            last == k - 1,
            graph_nodes(g) == chain_nodes(k as nat),
            graph_edges(g) == chain_edges(k as nat),
        decreases n - k,
    {
        let node = graph_add_node(&mut g, k);
        graph_add_edge(&mut g, last, node);
        last = node;
        k = k + 1;
        assert(graph_nodes(g) =~= chain_nodes(k as nat));
        assert(graph_edges(g) =~= chain_edges(k as nat));
    }
    g
}

/// Whether the block chains of two functions are isomorphic, which they
/// are exactly where the two functions have the same number of blocks.
///
/// The graph of a function holds one node for each block; it cannot hold
/// more than its 32-bit index counts.
pub fn cfg_isomorphic(a: &FunctionIR, b: &FunctionIR) -> (r: bool)
    requires
        block_count_of(a@) <= u32::MAX,
        block_count_of(b@) <= u32::MAX,
    ensures
        r == (block_count_of(a@) == block_count_of(b@)),
{
    let na = block_count(a);
    let nb = block_count(b);
    let ga = chain(na);
    let gb = chain(nb);
    proof {
        lemma_chains_isomorphic(na as nat, nb as nat);
    }
    graphs_isomorphic(&ga, &gb)
}

/// Whether the block chains of two functions are isomorphic, for any two
/// functions: `None` where one of them has so many instructions that its
/// chain might not fit the graph, else what [`cfg_isomorphic`] tells.
pub fn try_cfg_isomorphic(a: &FunctionIR, b: &FunctionIR) -> (r: Option<bool>)
    ensures
        r is Some <==> a.insns.len() < u32::MAX && b.insns.len() < u32::MAX,
        r matches Some(same) ==> same == (block_count_of(a@) == block_count_of(b@)),
{
    if a.insns.len() < u32::MAX as usize && b.insns.len() < u32::MAX as usize {
        proof {
            lemma_block_count_bound(a@);
            lemma_block_count_bound(b@);
        }
        Some(cfg_isomorphic(a, b))
    } else {
        None
    }
}

} // verus!
