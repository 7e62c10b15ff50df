//! A constant graph over an adjacency matrix: nodes and edges are pushed
//! while the graph is built and never removed, so indices handed out stay
//! valid for the graph's whole life.

use vstd::prelude::*;

use node::{Edge, Node};

pub mod node;

verus! {

/// A graph that only grows: an adjacency matrix of edge indices, the
/// nodes, and the edges, each indexed by position.
pub struct ConstGraph<E, T> {
    graph: Vec<Vec<Option<usize>>>,
    nodes: Vec<Node<T>>,
    edges: Vec<Edge<E>>,
}

/// The edge indices of one matrix row, in column order.
pub open spec fn row_edges(row: Seq<Option<usize>>) -> Seq<usize>
    decreases row,
{
    if row.len() == 0 {
        Seq::empty()
    } else {
        row_edges(row.drop_last()) + (match row.last() {
            Some(e) => seq![e],
            None => Seq::empty(),
        })
    }
}

/// The column indices of one matrix row's occupied cells, in column order.
pub open spec fn row_targets(row: Seq<Option<usize>>) -> Seq<usize>
    decreases row,
{
    if row.len() == 0 {
        Seq::empty()
    } else {
        row_targets(row.drop_last()) + (match row.last() {
            Some(e) => seq![(row.len() - 1) as usize],
            None => Seq::empty(),
        })
    }
}

/// An edge index is among a row's edges exactly when some cell of the row
/// holds it.
proof fn lemma_row_edges_mem(row: Seq<Option<usize>>, e: usize)
    ensures
        row_edges(row).contains(e) <==> exists|j: int| 0 <= j < row.len() && row[j] == Some(e),
    decreases row,
{
    if row.len() == 0 {
    } else {
        let front = row.drop_last();
        lemma_row_edges_mem(front, e);
        assert(forall|j: int| 0 <= j < front.len() ==> front[j] == #[trigger] row[j]);
        match row.last() {
            Some(le) => {
                assert(row_edges(row) =~= row_edges(front).push(le));
                if le == e {
                    assert(row[row.len() - 1] == Some(e));
                    assert(row_edges(row)[row_edges(row).len() - 1] == e);
                    assert(row_edges(row).contains(e));
                } else {
                    if row_edges(row).contains(e) {
                        let m = choose|m: int|
                            0 <= m < row_edges(row).len() && row_edges(row)[m] == e;
                        assert(m < row_edges(front).len());
                        assert(row_edges(front)[m] == e);
                        assert(row_edges(front).contains(e));
                    }
                    if row_edges(front).contains(e) {
                        let m = choose|m: int|
                            0 <= m < row_edges(front).len() && row_edges(front)[m] == e;
                        assert(row_edges(row)[m] == e);
                        assert(row_edges(row).contains(e));
                    }
                    if exists|j: int| 0 <= j < row.len() && row[j] == Some(e) {
                        let j = choose|j: int| 0 <= j < row.len() && row[j] == Some(e);
                        assert(j < front.len());
                        assert(front[j] == Some(e));
                    }
                }
            },
            None => {
                assert(row_edges(row) =~= row_edges(front));
                if exists|j: int| 0 <= j < row.len() && row[j] == Some(e) {
                    let j = choose|j: int| 0 <= j < row.len() && row[j] == Some(e);
                    assert(j < front.len());
                    assert(front[j] == Some(e));
                }
            },
        }
    }
}

/// When no two occupied cells of a row hold the same edge, no two
/// positions of the row's edge list do either.
proof fn lemma_row_edges_distinct(row: Seq<Option<usize>>)
    requires
        forall|j1: int, j2: int|
            0 <= j1 < j2 < row.len() && (#[trigger] row[j1]) is Some && (#[trigger] row[j2]) is Some
                ==> row[j1] != row[j2],
    ensures
        forall|m1: int, m2: int|
            0 <= m1 < m2 < row_edges(row).len() ==> #[trigger] row_edges(row)[m1]
                != #[trigger] row_edges(row)[m2],
    decreases row,
{
    if row.len() > 0 {
        let front = row.drop_last();
        assert(forall|j: int| 0 <= j < front.len() ==> front[j] == #[trigger] row[j]);
        lemma_row_edges_distinct(front);
        match row.last() {
            Some(le) => {
                assert(row_edges(row) =~= row_edges(front).push(le));
                assert forall|m1: int, m2: int|
                    0 <= m1 < m2 < row_edges(row).len() implies #[trigger] row_edges(row)[m1]
                    != #[trigger] row_edges(row)[m2] by {
                    if m2 == row_edges(row).len() - 1 {
                        let fe = row_edges(front)[m1];
                        lemma_row_edges_mem(front, fe);
                        let j = choose|j: int| 0 <= j < front.len() && front[j] == Some(fe);
                        assert(row[j] == Some(fe));
                        assert(row[row.len() - 1] == Some(le));
                    }
                }
            },
            None => {
                assert(row_edges(row) =~= row_edges(front));
            },
        }
    }
}

/// A row's edge list and column list pair up position by position: the
/// m-th edge sits in the m-th occupied column, the columns strictly
/// ascend, and every occupied column is listed.
proof fn lemma_row_columns(row: Seq<Option<usize>>)
    requires
        row.len() <= usize::MAX,
    ensures
        row_edges(row).len() == row_targets(row).len(),
        forall|m: int|
            0 <= m < row_edges(row).len() ==> ((#[trigger] row_targets(row)[m]) as int) < row.len()
                && row[row_targets(row)[m] as int] == Some(row_edges(row)[m]),
        forall|m1: int, m2: int|
            0 <= m1 < m2 < row_targets(row).len() ==> #[trigger] row_targets(row)[m1]
                < #[trigger] row_targets(row)[m2],
        forall|j: int|
            0 <= j < row.len() && (#[trigger] row[j]) is Some ==> exists|m: int|
                0 <= m < row_targets(row).len() && (#[trigger] row_targets(row)[m]) as int == j,
    decreases row,
{
    if row.len() > 0 {
        let front = row.drop_last();
        lemma_row_columns(front);
        assert(forall|j: int| 0 <= j < front.len() ==> front[j] == #[trigger] row[j]);
        match row.last() {
            Some(le) => {
                assert(row_edges(row) =~= row_edges(front).push(le));
                assert(row_targets(row) =~= row_targets(front).push((row.len() - 1) as usize));
                assert(row_targets(row)[row_targets(row).len() - 1] as int == row.len() - 1);
                assert(row[row.len() - 1] == Some(le));
                assert forall|j: int|
                    0 <= j < row.len() && (#[trigger] row[j]) is Some implies exists|m: int|
                        0 <= m < row_targets(row).len() && (#[trigger] row_targets(row)[m]) as int
                            == j by {
                    if j < row.len() - 1 {
                        let m = choose|m: int|
                            0 <= m < row_targets(front).len() && (#[trigger] row_targets(
                                front,
                            )[m]) as int == j;
                        assert(row_targets(row)[m] as int == j);
                    } else {
                        assert(row_targets(row)[row_targets(row).len() - 1] as int == j);
                    }
                }
            },
            None => {
                assert(row_edges(row) =~= row_edges(front));
                assert(row_targets(row) =~= row_targets(front));
                assert forall|j: int|
                    0 <= j < row.len() && (#[trigger] row[j]) is Some implies exists|m: int|
                        0 <= m < row_targets(row).len() && (#[trigger] row_targets(row)[m]) as int
                            == j by {
                    assert(j < front.len());
                    let m = choose|m: int|
                        0 <= m < row_targets(front).len() && (#[trigger] row_targets(
                            front,
                        )[m]) as int == j;
                    assert(row_targets(row)[m] as int == j);
                }
            },
        }
    }
}

impl<E, T> ConstGraph<E, T> {
    /// How many nodes the graph holds.
    pub closed spec fn node_count(&self) -> nat {
        self.nodes@.len()
    }

    /// How many edges the graph holds.
    pub closed spec fn edge_count(&self) -> nat {
        self.edges@.len()
    }

    /// The payload of the node at `i`.
    pub closed spec fn spec_node_data(&self, i: int) -> T {
        self.nodes@[i].data
    }

    /// The node the edge at `e` leaves.
    pub closed spec fn spec_edge_source(&self, e: int) -> int {
        self.edges@[e].source as int
    }

    /// The node the edge at `e` enters.
    pub closed spec fn spec_edge_target(&self, e: int) -> int {
        self.edges@[e].target as int
    }

    /// The payload of the edge at `e`.
    pub closed spec fn spec_edge_data(&self, e: int) -> E {
        self.edges@[e].data
    }

    /// The matrix cell for the edge from `i` to `j`.
    pub closed spec fn adj(&self, i: int, j: int) -> Option<usize> {
        self.graph@[i]@[j]
    }

    /// The edge indices leaving `i`, in column order.
    pub closed spec fn out_edges_model(&self, i: int) -> Seq<usize> {
        row_edges(self.graph@[i]@)
    }

    /// The successor nodes of `i`, in column order.
    pub closed spec fn subnodes_model(&self, i: int) -> Seq<usize> {
        row_targets(self.graph@[i]@)
    }

    /// The matrix is square over the nodes, nodes and edges carry their
    /// own positions, and every occupied cell names the edge that joins
    /// its row to its column.
    pub closed spec fn wf(&self) -> bool {
        &&& self.graph@.len() == self.nodes@.len()
        &&& forall|i: int|
            0 <= i < self.graph@.len() ==> (#[trigger] self.graph@[i])@.len() == self.nodes@.len()
        &&& forall|i: int| 0 <= i < self.nodes@.len() ==> (#[trigger] self.nodes@[i]).id as int == i
        &&& forall|e: int|
            0 <= e < self.edges@.len() ==> (#[trigger] self.edges@[e]).id as int == e
                && self.edges@[e].source < self.nodes@.len() && self.edges@[e].target
                < self.nodes@.len()
        &&& forall|i: int, j: int|
            0 <= i < self.graph@.len() && 0 <= j < self.graph@[i]@.len() && (
            #[trigger] self.graph@[i]@[j]) is Some ==> {
                let e = self.graph@[i]@[j]->0 as int;
                &&& 0 <= e < self.edges@.len()
                &&& self.edges@[e].source as int == i
                &&& self.edges@[e].target as int == j
            }
    }

    /// An empty graph.
    pub fn new() -> (r: Self)
        ensures
            r.wf(),
            r.node_count() == 0,
            r.edge_count() == 0,
    {
        ConstGraph { graph: Vec::new(), nodes: Vec::new(), edges: Vec::new() }
    }

    /// Appends a node and returns its index. Everything already in the
    /// graph is untouched; the new node has no edges yet.
    #[verifier::loop_isolation(false)]
    pub fn push_node(&mut self, data: T) -> (idx: usize)
        requires
            old(self).wf(),
        ensures
            final(self).wf(),
            idx as int == old(self).node_count(),
            final(self).node_count() == old(self).node_count() + 1,
            final(self).edge_count() == old(self).edge_count(),
            final(self).spec_node_data(idx as int) == data,
            forall|i: int|
                0 <= i < old(self).node_count() ==> #[trigger] final(self).spec_node_data(i) == old(
                    self,
                ).spec_node_data(i),
            forall|e: int|
                0 <= e < old(self).edge_count() ==> #[trigger] final(self).spec_edge_data(e) == old(
                    self,
                ).spec_edge_data(e) && final(self).spec_edge_source(e) == old(
                    self,
                ).spec_edge_source(e) && final(self).spec_edge_target(e) == old(
                    self,
                ).spec_edge_target(e),
            forall|i: int, j: int|
                0 <= i < old(self).node_count() && 0 <= j < old(self).node_count()
                    ==> #[trigger] final(self).adj(i, j) == old(self).adj(i, j),
            forall|j: int| 0 <= j <= old(self).node_count() ==> final(self).adj(idx as int, j) is None,
            forall|i: int| 0 <= i < old(self).node_count() ==> final(self).adj(i, idx as int) is None,
    {
        let next_index = self.nodes.len();
        self.nodes.push(Node { id: next_index, data });
        let new_len = self.nodes.len();
        let ghost nodes_snap = self.nodes@;
        let ghost edges_snap = self.edges@;
        let ghost old_rows = self.graph@;
        let mut i: usize = 0;
        while i < self.graph.len()
            invariant
                self.nodes@ == nodes_snap,
                self.edges@ == edges_snap,
                self.graph@.len() == old_rows.len(),
                i <= self.graph@.len(),
                forall|r: int|
                    0 <= r < i ==> (#[trigger] self.graph@[r])@ == old_rows[r]@.push(
                        Option::<usize>::None,
                    ),
                forall|r: int| i <= r < old_rows.len() ==> #[trigger] self.graph@[r] == old_rows[r],
            decreases self.graph@.len() - i,
        {
            let ghost pre = self.graph@;
            let mut row = self.graph.remove(i);
            row.push(None);
            self.graph.insert(i, row);
            proof {
                assert(self.graph@ =~= pre.update(i as int, row));
            }
            i = i + 1;
        }
        let mut new_row: Vec<Option<usize>> = Vec::new();
        while new_row.len() < new_len
            invariant
                new_row@.len() <= new_len,
                forall|j: int| 0 <= j < new_row@.len() ==> (#[trigger] new_row@[j]) is None,
            decreases new_len - new_row@.len(),
        {
            new_row.push(None);
        }
        proof {
            assert(new_row@.len() == new_len);
        }
        self.graph.push(new_row);
        proof {
            assert forall|a: int, b: int|
                0 <= a < self.graph@.len() && 0 <= b < self.graph@[a]@.len() && (
                #[trigger] self.graph@[a]@[b]) is Some implies {
                let e = self.graph@[a]@[b]->0 as int;
                &&& 0 <= e < self.edges@.len()
                &&& self.edges@[e].source as int == a
                &&& self.edges@[e].target as int == b
            } by {
                if a < old_rows.len() {
                    assert(self.graph@[a]@ == old_rows[a]@.push(Option::<usize>::None));
                    assert(b < old_rows[a]@.len());
                    assert(old(self).graph@[a]@[b] == self.graph@[a]@[b]);
                } else {
                    assert(self.graph@[a] == new_row);
                    assert(false);
                }
            }
            assert forall|a: int, b: int|
                0 <= a < old(self).node_count() && 0 <= b < old(self).node_count() implies
                #[trigger] self.adj(a, b) == old(self).adj(a, b) by {
                assert(self.graph@[a]@ == old_rows[a]@.push(Option::<usize>::None));
            }
            assert forall|b: int| 0 <= b <= old(self).node_count() implies self.adj(
                next_index as int,
                b,
            ) is None by {
                assert(self.graph@[next_index as int] == new_row);
            }
            assert forall|a: int| 0 <= a < old(self).node_count() implies self.adj(
                a,
                next_index as int,
            ) is None by {
                assert(self.graph@[a]@ == old_rows[a]@.push(Option::<usize>::None));
                assert(self.graph@[a]@[next_index as int] is None);
            }
        }
        next_index
    }

    /// Adds the edge from `source` to `target` and records it in the
    /// matrix cell, which must still be empty. Everything already in the
    /// graph is untouched.
    #[verifier::loop_isolation(false)]
    pub fn insert_edge(&mut self, source: usize, target: usize, data: E)
        requires
            old(self).wf(),
            source < old(self).node_count(),
            target < old(self).node_count(),
            old(self).adj(source as int, target as int) is None,
        ensures
            final(self).wf(),
            final(self).node_count() == old(self).node_count(),
            final(self).edge_count() == old(self).edge_count() + 1,
            forall|i: int|
                0 <= i < old(self).node_count() ==> #[trigger] final(self).spec_node_data(i) == old(
                    self,
                ).spec_node_data(i),
            forall|e: int|
                0 <= e < old(self).edge_count() ==> #[trigger] final(self).spec_edge_data(e) == old(
                    self,
                ).spec_edge_data(e) && final(self).spec_edge_source(e) == old(
                    self,
                ).spec_edge_source(e) && final(self).spec_edge_target(e) == old(
                    self,
                ).spec_edge_target(e),
            final(self).spec_edge_data(old(self).edge_count() as int) == data,
            final(self).spec_edge_source(old(self).edge_count() as int) == source as int,
            final(self).spec_edge_target(old(self).edge_count() as int) == target as int,
            (final(self).adj(source as int, target as int) matches Some(e) && e as int == old(
                self,
            ).edge_count()),
            forall|i: int, j: int|
                0 <= i < old(self).node_count() && 0 <= j < old(self).node_count() && !(i
                    == source as int && j == target as int) ==> #[trigger] final(self).adj(i, j)
                    == old(self).adj(i, j),
    {
        let next_index = self.edges.len();
        self.edges.push(Edge { id: next_index, source, target, data });
        let ghost old_rows = self.graph@;
        let mut row = self.graph.remove(source);
        let ghost old_row = row@;
        let cell = row.remove(target);
        row.insert(target, Some(next_index));
        self.graph.insert(source, row);
        proof {
            assert(row@ =~= old_row.update(target as int, Some(next_index)));
            assert(self.graph@ =~= old_rows.update(source as int, row));
        }
    }

    /// An edge index is among the out-edges of `i` exactly when some cell
    /// of row `i` holds it; such an edge is valid and leaves `i`.
    pub proof fn lemma_out_edges_adj(&self, i: int, e: usize)
        requires
            self.wf(),
            0 <= i < self.node_count(),
        ensures
            self.out_edges_model(i).contains(e) <==> exists|j: int|
                0 <= j < self.node_count() && #[trigger] self.adj(i, j) == Some(e),
            self.out_edges_model(i).contains(e) ==> (e as int) < self.edge_count()
                && self.spec_edge_source(e as int) == i,
    {
        let row = self.graph@[i]@;
        lemma_row_edges_mem(row, e);
        if self.out_edges_model(i).contains(e) {
            let j = choose|j: int| 0 <= j < row.len() && row[j] == Some(e);
            assert(self.adj(i, j) == Some(e));
        }
        if exists|j: int| 0 <= j < self.node_count() && #[trigger] self.adj(i, j) == Some(e) {
            let j = choose|j: int|
                0 <= j < self.node_count() && #[trigger] self.adj(i, j) == Some(e);
            assert(row[j] == Some(e));
        }
    }

    /// The out-edge and successor lists of `i` pair up position by
    /// position: the m-th out-edge occupies the m-th listed column, its
    /// target is that column, the listed columns strictly ascend (so both
    /// lists are duplicate-free and in ascending target order), and every
    /// occupied column of the row is listed.
    pub proof fn lemma_out_edges_columns(&self, i: int)
        requires
            self.wf(),
            0 <= i < self.node_count(),
            self.node_count() <= usize::MAX,
        ensures
            self.out_edges_model(i).len() == self.subnodes_model(i).len(),
            forall|m: int|
                0 <= m < self.out_edges_model(i).len() ==> ((#[trigger] self.subnodes_model(
                    i,
                )[m]) as int) < self.node_count() && self.adj(i, self.subnodes_model(i)[m] as int)
                    == Some(self.out_edges_model(i)[m]),
            forall|m: int|
                0 <= m < self.out_edges_model(i).len() ==> (#[trigger] self.out_edges_model(
                    i,
                )[m]) < self.edge_count() && self.spec_edge_target(self.out_edges_model(i)[m] as int)
                    == self.subnodes_model(i)[m] as int && self.spec_edge_source(
                    self.out_edges_model(i)[m] as int,
                ) == i,
            forall|m1: int, m2: int|
                0 <= m1 < m2 < self.subnodes_model(i).len() ==> #[trigger] self.subnodes_model(
                    i,
                )[m1] < #[trigger] self.subnodes_model(i)[m2],
            forall|j: int|
                0 <= j < self.node_count() && (#[trigger] self.adj(i, j)) is Some ==> exists|
                    m: int,
                |
                    0 <= m < self.subnodes_model(i).len() && (#[trigger] self.subnodes_model(
                        i,
                    )[m]) as int == j,
    {
        let row = self.graph@[i]@;
        lemma_row_columns(row);
        assert forall|m: int|
            0 <= m < self.out_edges_model(i).len() implies (#[trigger] self.out_edges_model(
            i,
        )[m]) < self.edge_count() && self.spec_edge_target(self.out_edges_model(i)[m] as int)
            == self.subnodes_model(i)[m] as int && self.spec_edge_source(
            self.out_edges_model(i)[m] as int,
        ) == i by {
            let t = row_targets(row)[m] as int;
            assert(row[t] == Some(row_edges(row)[m]));
            assert(self.graph@[i]@[t] is Some);
        }
    }

    /// Distinct positions of the out-edge list of `i` hold distinct
    /// edges.
    pub proof fn lemma_out_edges_distinct(&self, i: int)
        requires
            self.wf(),
            0 <= i < self.node_count(),
        ensures
            forall|m1: int, m2: int|
                0 <= m1 < m2 < self.out_edges_model(i).len() ==> #[trigger] self.out_edges_model(
                    i,
                )[m1] != #[trigger] self.out_edges_model(i)[m2],
    {
        let row = self.graph@[i]@;
        assert forall|j1: int, j2: int|
            0 <= j1 < j2 < row.len() && (#[trigger] row[j1]) is Some && (#[trigger] row[j2])
                is Some implies row[j1] != row[j2] by {
            if row[j1] == row[j2] {
                let e = row[j1]->0 as int;
                assert(self.edges@[e].target as int == j1);
                assert(self.edges@[e].target as int == j2);
            }
        }
        lemma_row_edges_distinct(row);
    }

    /// The node at `index`.
    pub fn get_node(&self, index: usize) -> (r: &Node<T>)
        requires
            self.wf(),
            index < self.node_count(),
        ensures
            r.spec_id() == index,
            r.spec_data() == self.spec_node_data(index as int),
    {
        &self.nodes[index]
    }

    /// The edge at `index`.
    pub fn get_edge(&self, index: usize) -> (r: &Edge<E>)
        requires
            self.wf(),
            index < self.edge_count(),
        ensures
            r.spec_id() == index,
            r.spec_source() as int == self.spec_edge_source(index as int),
            r.spec_target() as int == self.spec_edge_target(index as int),
            r.spec_data() == self.spec_edge_data(index as int),
    {
        &self.edges[index]
    }

    /// The node at `index`; the graph itself never hands out mutable
    /// parts.
    pub fn get_node_mut(&mut self, index: usize) -> (r: &Node<T>)
        requires
            old(self).wf(),
            index < old(self).node_count(),
        ensures
            *final(self) == *old(self),
            r.spec_id() == index,
            r.spec_data() == old(self).spec_node_data(index as int),
    {
        &self.nodes[index]
    }

    /// The edge at `index`; the graph itself never hands out mutable
    /// parts.
    pub fn get_edge_mut(&mut self, index: usize) -> (r: &Edge<E>)
        requires
            old(self).wf(),
            index < old(self).edge_count(),
        ensures
            *final(self) == *old(self),
            r.spec_id() == index,
            r.spec_data() == old(self).spec_edge_data(index as int),
    {
        &self.edges[index]
    }

    /// The indices of the edges leaving `index`, in column order; each is
    /// a valid edge index whose source is `index`.
    #[verifier::loop_isolation(false)]
    pub fn get_out_edges(&self, index: usize) -> (r: Vec<usize>)
        requires
            self.wf(),
            index < self.node_count(),
        ensures
            r@ == self.out_edges_model(index as int),
            self.node_count() <= usize::MAX,
            forall|m: int|
                0 <= m < r@.len() ==> (#[trigger] r@[m]) < self.edge_count()
                    && self.spec_edge_source(r@[m] as int) == index as int,
    {
        let row = &self.graph[index];
        let cols = row.len();
        proof {
            assert(self.node_count() == cols as int);
        }
        let mut ret: Vec<usize> = Vec::new();
        let mut j: usize = 0;
        while j < row.len()
            invariant
                j <= row@.len(),
                ret@ == row_edges(row@.take(j as int)),
                forall|m: int|
                    0 <= m < ret@.len() ==> (#[trigger] ret@[m]) < self.edge_count()
                        && self.spec_edge_source(ret@[m] as int) == index as int,
            decreases row@.len() - j,
        {
            proof {
                assert(row@.take(j + 1).drop_last() =~= row@.take(j as int));
                assert(row@.take(j + 1).last() == row@[j as int]);
            }
            match row[j] {
                Some(edge) => {
                    ret.push(edge);
                },
                None => {},
            }
            j = j + 1;
        }
        proof {
            assert(row@.take(row@.len() as int) =~= row@);
        }
        ret
    }

    /// The successor nodes of `index`, in column order; each is a valid
    /// node index.
    #[verifier::loop_isolation(false)]
    pub fn get_subnodes(&self, index: usize) -> (r: Vec<usize>)
        requires
            self.wf(),
            index < self.node_count(),
        ensures
            r@ == self.subnodes_model(index as int),
            self.node_count() <= usize::MAX,
            forall|m: int| 0 <= m < r@.len() ==> (#[trigger] r@[m]) < self.node_count(),
    {
        let row = &self.graph[index];
        let cols = row.len();
        proof {
            assert(self.node_count() == cols as int);
        }
        let mut ret: Vec<usize> = Vec::new();
        let mut j: usize = 0;
        while j < row.len()
            invariant
                j <= row@.len(),
                ret@ == row_targets(row@.take(j as int)),
                forall|m: int| 0 <= m < ret@.len() ==> (#[trigger] ret@[m]) < self.node_count(),
            decreases row@.len() - j,
        {
            proof {
                assert(row@.take(j + 1).drop_last() =~= row@.take(j as int));
                assert(row@.take(j + 1).last() == row@[j as int]);
            }
            match row[j] {
                Some(_) => {
                    ret.push(j);
                },
                None => {},
            }
            j = j + 1;
        }
        proof {
            assert(row@.take(row@.len() as int) =~= row@);
        }
        ret
    }
}

} // verus!
