//! An append-only data-flow graph: nodes addressed by their insertion index,
//! edges feeding numbered input slots.

use vstd::prelude::*;
use crate::errors::CompileError;
use crate::types::TypeDescriptor;
use crate::value::Immediate;
use vstd::set_lib::{lemma_int_range, lemma_len_subset, set_int_range};

verus! {

/// Binary operators a graph node may apply.
#[derive(Clone, Copy, Debug, PartialEq, Eq, Structural)]
pub enum BinaryOp {
    Multiply,
}

/// One node of the graph.
#[derive(Debug, PartialEq, Eq)]
pub enum Node {
    /// An input of the shader, read at `location`.
    Input { location: u32, ty: TypeDescriptor },
    /// An immediate value.
    Constant(Immediate),
    /// A binary operation, fed through input slots 0 and 1.
    Operation(BinaryOp),
}

impl Node {
    /// Number of inputs this kind of node takes.
    pub open spec fn spec_arity(self) -> nat {
        match self {
            Node::Operation(_) => 2,
            _ => 0,
        }
    }

    pub fn arity(&self) -> (r: usize)
        ensures
            r as nat == self.spec_arity(),
    {
        match self {
            Node::Operation(_) => 2,
            _ => 0,
        }
    }

    pub open spec fn spec_kind_name(self) -> &'static str {
        match self {
            Node::Input { .. } => "Input",
            Node::Constant(_) => "Constant",
            Node::Operation(BinaryOp::Multiply) => "Multiply",
        }
    }

    /// The name of the node's kind, as used in error reports.
    pub fn kind_name(&self) -> (r: &'static str)
        ensures
            r == self.spec_kind_name(),
    {
        match self {
            Node::Input { .. } => "Input",
            Node::Constant(_) => "Constant",
            Node::Operation(BinaryOp::Multiply) => "Multiply",
        }
    }
}

/// The output of node `source` feeds input `slot` of node `dest`.
#[derive(Clone, Copy, Debug, PartialEq, Eq, Structural)]
pub struct Edge {
    pub source: usize,
    pub dest: usize,
    pub slot: u32,
}

/// Every edge joins two of the `n` nodes.
pub open spec fn edges_in_range(n: nat, edges: Seq<Edge>) -> bool {
    forall|k: int| 0 <= k < edges.len() ==> edges[k].source < n && edges[k].dest < n
}

/// Every edge runs from an older node to a newer one.
pub open spec fn edges_forward(edges: Seq<Edge>) -> bool {
    forall|k: int| 0 <= k < edges.len() ==> edges[k].source < edges[k].dest
}

/// `rank` orders the `n` nodes so that every edge goes up in rank.
pub open spec fn is_ranking(n: nat, edges: Seq<Edge>, rank: Seq<nat>) -> bool {
    &&& rank.len() == n
    &&& forall|k: int|
        0 <= k < edges.len() ==> rank[edges[k].source as int] < rank[edges[k].dest as int]
}

/// Some edge into `v` comes from a node that is not yet removed.
pub open spec fn live_source(edges: Seq<Edge>, removed: Seq<bool>, v: int) -> bool {
    exists|k: int|
        0 <= k < edges.len() && edges[k].dest == v && !removed[edges[k].source as int]
}

/// When every remaining node still has an edge from a remaining node, no
/// ranking exists: the remaining node of least rank would have none below it.
proof fn lemma_stuck_has_no_ranking(
    n: nat,
    edges: Seq<Edge>,
    removed: Seq<bool>,
    rank: Seq<nat>,
    u: int,
    bound: nat,
)
    requires
        edges_in_range(n, edges),
        removed.len() == n,
        rank.len() == n,
        0 <= u < n,
        !removed[u],
        rank[u] <= bound,
        forall|w: int| 0 <= w < n && !removed[w] ==> live_source(edges, removed, w),
    ensures
        !is_ranking(n, edges, rank),
    decreases bound,
{
    if is_ranking(n, edges, rank) {
        assert(live_source(edges, removed, u));
        let k = choose|k: int|
            0 <= k < edges.len() && edges[k].dest == u && !removed[edges[k].source as int];
        let s = edges[k].source as int;
        assert(rank[s] < rank[u]);
        if bound > 0 {
            lemma_stuck_has_no_ranking(n, edges, removed, rank, s, (bound - 1) as nat);
        }
    }
}

/// A graph whose edges all run from older to newer nodes is acyclic: the
/// insertion index itself ranks the nodes.
pub proof fn lemma_forward_graph_is_acyclic(g: &Graph)
    requires
        g.wf(),
        g.forward(),
    ensures
        g.acyclic(),
{
    let n = g.node_seq().len();
    let rank = Seq::new(n, |i: int| i as nat);
    assert(is_ranking(n, g.edge_seq(), rank));
}

/// Whether some edge into `v` comes from a node not marked in `removed`.
fn has_live_source(edges: &Vec<Edge>, removed: &Vec<bool>, v: usize) -> (r: bool)
    requires
        edges_in_range(removed@.len(), edges@),
    ensures
        r == live_source(edges@, removed@, v as int),
{
    let mut k: usize = 0;
    while k < edges.len()
        invariant
            k <= edges@.len(),
            edges_in_range(removed@.len(), edges@),
            forall|j: int|
                0 <= j < k ==> !(edges@[j].dest == v && !removed@[edges@[j].source as int]),
        decreases edges@.len() - k,
    {
        let e = edges[k];
        if e.dest == v && !removed[e.source] {
            return true;
        }
        k = k + 1;
    }
    false
}

/// The graph has no cycle: some ranking of its nodes puts every edge upwards.
pub open spec fn spec_acyclic(n: nat, edges: Seq<Edge>) -> bool {
    exists|rank: Seq<nat>| is_ranking(n, edges, rank)
}

/// Number of edges among the first `k` that enter node `v`.
pub open spec fn in_degree(edges: Seq<Edge>, v: int, k: int) -> nat
    decreases k,
{
    if k <= 0 {
        0
    } else {
        in_degree(edges, v, k - 1) + if edges[k - 1].dest == v { 1nat } else { 0nat }
    }
}

/// The nodes and edges of one compilation unit.
pub struct Graph {
    nodes: Vec<Node>,
    edges: Vec<Edge>,
}

impl Graph {
    pub closed spec fn node_seq(&self) -> Seq<Node> {
        self.nodes@
    }

    pub closed spec fn edge_seq(&self) -> Seq<Edge> {
        self.edges@
    }

    /// Every edge joins two nodes of the graph.
    pub open spec fn wf(&self) -> bool {
        edges_in_range(self.node_seq().len(), self.edge_seq())
    }

    /// The graph was built by appending nodes and edges into new nodes only.
    pub open spec fn forward(&self) -> bool {
        edges_forward(self.edge_seq())
    }

    pub open spec fn acyclic(&self) -> bool {
        spec_acyclic(self.node_seq().len(), self.edge_seq())
    }

    pub fn new() -> (g: Graph)
        ensures
            g.node_seq() == Seq::<Node>::empty(),
            g.edge_seq() == Seq::<Edge>::empty(),
            g.wf(),
            g.forward(),
    {
        Graph { nodes: Vec::new(), edges: Vec::new() }
    }

    pub fn node_count(&self) -> (r: usize)
        ensures
            r == self.node_seq().len(),
    {
        self.nodes.len()
    }

    pub fn edge_count(&self) -> (r: usize)
        ensures
            r == self.edge_seq().len(),
    {
        self.edges.len()
    }

    pub fn node(&self, index: usize) -> (r: &Node)
        requires
            index < self.node_seq().len(),
        ensures
            *r == self.node_seq()[index as int],
    {
        &self.nodes[index]
    }

    pub fn edge(&self, index: usize) -> (r: Edge)
        requires
            index < self.edge_seq().len(),
        ensures
            r == self.edge_seq()[index as int],
    {
        self.edges[index]
    }

    /// Appends a node and returns its index.
    pub fn add_node(&mut self, node: Node) -> (index: usize)
        requires
            old(self).node_seq().len() < usize::MAX,
        ensures
            index == old(self).node_seq().len(),
            final(self).node_seq() == old(self).node_seq().push(node),
            final(self).edge_seq() == old(self).edge_seq(),
            old(self).wf() ==> final(self).wf(),
            old(self).forward() ==> final(self).forward(),
    {
        let index = self.nodes.len();
        self.nodes.push(node);
        index
    }

    /// Records that node `source` feeds input `slot` of node `dest`.
    pub fn add_edge(&mut self, source: usize, dest: usize, slot: u32)
        requires
            source < old(self).node_seq().len(),
            dest < old(self).node_seq().len(),
        ensures
            final(self).node_seq() == old(self).node_seq(),
            final(self).edge_seq() == old(self).edge_seq().push(Edge { source, dest, slot }),
            old(self).wf() ==> final(self).wf(),
            old(self).forward() && source < dest ==> final(self).forward(),
    {
        self.edges.push(Edge { source, dest, slot });
    }

    /// Number of edges that enter node `v`.
    pub fn incoming_count(&self, v: usize) -> (r: usize)
        ensures
            r as nat == in_degree(self.edge_seq(), v as int, self.edge_seq().len() as int),
    {
        let mut count: usize = 0;
        let mut k: usize = 0;
        while k < self.edges.len()
            invariant
                k <= self.edges@.len(),
                count as nat == in_degree(self.edges@, v as int, k as int),
                count <= k,
            decreases self.edges@.len() - k,
        {
            if self.edges[k].dest == v {
                count = count + 1;
            }
            k = k + 1;
        }
        count
    }

    /// Checks that node `index` receives as many inputs as its kind takes.
    pub fn check_arguments(&self, index: usize) -> (r: Result<(), CompileError>)
        requires
            index < self.node_seq().len(),
        ensures
            ({
                let actual = in_degree(self.edge_seq(), index as int, self.edge_seq().len() as int);
                let expected = self.node_seq()[index as int].spec_arity();
                &&& r is Ok <==> actual == expected
                &&& r is Err ==> r == Err::<(), CompileError>(
                    CompileError::WrongArgumentsCount { actual: actual as usize, expected: expected as usize },
                )
            }),
    {
        let actual = self.incoming_count(index);
        let expected = self.nodes[index].arity();
        if actual == expected {
            Ok(())
        } else {
            Err(CompileError::WrongArgumentsCount { actual, expected })
        }
    }
    /// Checks that the graph has no cycle, by removing, pass after pass, the
    /// nodes whose inputs all come from nodes already removed.
    pub fn validate_acyclic(&self) -> (r: Result<(), CompileError>)
        requires
            self.wf(),
        ensures
            r is Ok <==> self.acyclic(),
            r is Err ==> r == Err::<(), CompileError>(CompileError::CyclicGraph),
    {
        let n = self.nodes.len();
        let mut removed: Vec<bool> = Vec::new();
        let mut i: usize = 0;
        while i < n
            invariant
                i <= n,
                removed@.len() == i,
                forall|w: int| 0 <= w < i ==> !removed@[w],
            decreases n - i,
        {
            removed.push(false);
            i = i + 1;
        }
        let ghost mut rank: Seq<nat> = Seq::new(n as nat, |w: int| 0nat);
        let ghost mut gone: Set<int> = Set::empty();
        let mut count: usize = 0;
        let mut progress = true;
        while progress
            invariant
                n == self.nodes@.len(),
                edges_in_range(n as nat, self.edges@),
                removed@.len() == n,
                rank.len() == n,
                count <= n,
                gone.finite(),
                gone.len() == count,
                forall|w: int| gone.contains(w) <==> (0 <= w < n && removed@[w]),
                forall|w: int| 0 <= w < n && removed@[w] ==> rank[w] < count,
                forall|k: int|
                    0 <= k < self.edges@.len() && removed@[self.edges@[k].dest as int] ==> {
                        &&& removed@[self.edges@[k].source as int]
                        &&& rank[self.edges@[k].source as int] < rank[self.edges@[k].dest as int]
                    },
                !progress ==> forall|w: int|
                    0 <= w < n && !removed@[w] ==> live_source(self.edges@, removed@, w),
            decreases (n - count) * 2 + if progress { 1int } else { 0int },
        {
            progress = false;
            let ghost count0 = count;
            let mut v: usize = 0;
            while v < n
                invariant
                    n == self.nodes@.len(),
                    edges_in_range(n as nat, self.edges@),
                    v <= n,
                    removed@.len() == n,
                    rank.len() == n,
                    count <= n,
                    count0 <= count,
                    progress <==> count0 < count,
                    gone.finite(),
                    gone.len() == count,
                    forall|w: int| gone.contains(w) <==> (0 <= w < n && removed@[w]),
                    forall|w: int| 0 <= w < n && removed@[w] ==> rank[w] < count,
                    forall|k: int|
                        0 <= k < self.edges@.len() && removed@[self.edges@[k].dest as int] ==> {
                            &&& removed@[self.edges@[k].source as int]
                            &&& rank[self.edges@[k].source as int] < rank[
                                self.edges@[k].dest as int
                            ]
                        },
                    !progress ==> forall|w: int|
                        0 <= w < v && !removed@[w] ==> live_source(self.edges@, removed@, w),
                decreases n - v,
            {
                if !removed[v] && !has_live_source(&self.edges, &removed, v) {
                    proof {
                        lemma_int_range(0, n as int);
                        assert(gone.insert(v as int).subset_of(set_int_range(0, n as int)));
                        lemma_len_subset(gone.insert(v as int), set_int_range(0, n as int));
                        assert(!gone.contains(v as int));
                    }
                    let ghost old_removed = removed@;
                    let ghost old_rank = rank;
                    proof {
                        rank = rank.update(v as int, count as nat);
                        gone = gone.insert(v as int);
                    }
                    removed.set(v, true);
                    assert forall|k: int|
                        0 <= k < self.edges@.len() && removed@[self.edges@[k].dest as int] implies {
                            &&& removed@[self.edges@[k].source as int]
                            &&& rank[self.edges@[k].source as int] < rank[
                                self.edges@[k].dest as int
                            ]
                        } by {
                        let e = self.edges@[k];
                        if e.dest == v {
                            assert(!(e.dest == v && !old_removed[e.source as int]));
                        } else {
                            assert(old_removed[e.dest as int]);
                        }
                    }
                    count = count + 1;
                    progress = true;
                }
                v = v + 1;
            }
        }
        let mut u: usize = 0;
        while u < n
            invariant
                u <= n,
                n == self.nodes@.len(),
                edges_in_range(n as nat, self.edges@),
                removed@.len() == n,
                rank.len() == n,
                forall|w: int| 0 <= w < u ==> removed@[w],
                forall|w: int| 0 <= w < n && !removed@[w] ==> live_source(self.edges@, removed@, w),
                forall|k: int|
                    0 <= k < self.edges@.len() && removed@[self.edges@[k].dest as int] ==> {
                        &&& removed@[self.edges@[k].source as int]
                        &&& rank[self.edges@[k].source as int] < rank[self.edges@[k].dest as int]
                    },
            decreases n - u,
        {
            if !removed[u] {
                proof {
                    if spec_acyclic(n as nat, self.edges@) {
                        let rk = choose|rk: Seq<nat>| is_ranking(n as nat, self.edges@, rk);
                        lemma_stuck_has_no_ranking(
                            n as nat,
                            self.edges@,
                            removed@,
                            rk,
                            u as int,
                            rk[u as int],
                        );
                    }
                }
                return Err(CompileError::CyclicGraph);
            }
            u = u + 1;
        }
        proof {
            assert(is_ranking(n as nat, self.edges@, rank));
        }
        Ok(())
    }
}

} // verus!
