//! The web of trust: a directed graph whose nodes are people and whose edges
//! carry a trust level, with breadth-first search for the shortest chain of
//! trust between two people.
//!
//! The graph holds at most one edge for each ordered pair of people and keeps
//! its edges in the order in which they were first added; searches break ties
//! by that order.

use vstd::prelude::*;
use crate::types::{spec_weaker, PersonId, TrustLevel};

verus! {

/// One directed trust relationship: `from` trusts `to` at `level`.
#[derive(Clone, Copy, Debug, PartialEq, Eq, Structural)]
pub struct TrustEdge {
    pub from: PersonId,
    pub to: PersonId,
    pub level: TrustLevel,
}

/// Whether some edge leads from `a` to `b`.
pub open spec fn connected(edges: Seq<TrustEdge>, a: PersonId, b: PersonId) -> bool {
    exists|j: int| 0 <= j < edges.len() && (#[trigger] edges[j]).from == a && edges[j].to == b
}

/// Whether the edge from `a` to `b` at `level` is in the graph.
pub open spec fn has_edge(edges: Seq<TrustEdge>, a: PersonId, b: PersonId, level: TrustLevel) -> bool {
    exists|j: int| 0 <= j < edges.len() && #[trigger] edges[j] == (TrustEdge { from: a, to: b, level })
}

/// The level at which `a` trusts `b` directly, if at all.
pub open spec fn edge_level(edges: Seq<TrustEdge>, a: PersonId, b: PersonId) -> Option<TrustLevel> {
    if connected(edges, a, b) {
        let j = choose|j: int| 0 <= j < edges.len() && (#[trigger] edges[j]).from == a && edges[j].to == b;
        Some(edges[j].level)
    } else {
        None
    }
}

/// No ordered pair of people has two edges.
pub open spec fn single_edges(edges: Seq<TrustEdge>) -> bool {
    forall|i: int, j: int|
        0 <= i < edges.len() && 0 <= j < edges.len() && i != j ==> !((#[trigger] edges[i]).from
            == (#[trigger] edges[j]).from && edges[i].to == edges[j].to)
}

/// Whether `nodes` lists a walk through the graph from `from` to `to`: each
/// person is connected by an edge to the next.
pub open spec fn is_walk(edges: Seq<TrustEdge>, nodes: Seq<PersonId>, from: PersonId, to: PersonId) -> bool {
    &&& nodes.len() >= 1
    &&& nodes[0] == from
    &&& nodes.last() == to
    &&& forall|t: int| 0 <= t < nodes.len() - 1 ==> connected(edges, #[trigger] nodes[t], nodes[t + 1])
}

/// Whether `to` can be reached from `from` by following exactly `hops` edges.
pub open spec fn walk(edges: Seq<TrustEdge>, from: PersonId, to: PersonId, hops: nat) -> bool {
    exists|nodes: Seq<PersonId>| #[trigger] is_walk(edges, nodes, from, to) && nodes.len() == hops + 1
}

/// Whether `nodes` and `levels` describe a chain of edges of the graph: one
/// node more than levels, and an edge at the listed level between each node
/// and the next.
pub open spec fn is_chain(edges: Seq<TrustEdge>, nodes: Seq<PersonId>, levels: Seq<TrustLevel>) -> bool {
    &&& nodes.len() == levels.len() + 1
    &&& forall|t: int|
        0 <= t < levels.len() ==> has_edge(edges, nodes[t], nodes[t + 1], #[trigger] levels[t])
}

/// The weakest of the levels; `Unknown` where there is none.
pub open spec fn min_level(levels: Seq<TrustLevel>) -> TrustLevel
    decreases levels.len(),
{
    if levels.len() == 0 {
        TrustLevel::Unknown
    } else if levels.len() == 1 {
        levels[0]
    } else {
        spec_weaker(min_level(levels.drop_last()), levels.last())
    }
}

/// A chain of trust from one person to another.
#[derive(Debug)]
pub struct TrustPath {
    /// The people along the path, the first and the last included.
    pub nodes: Vec<PersonId>,
    /// The level of each edge along the path.
    pub trust_levels: Vec<TrustLevel>,
    /// The weakest level along the path.
    pub strength: TrustLevel,
    /// The number of edges.
    pub hops: usize,
}

impl TrustPath {
    /// The path is a chain of edges of the graph, its strength is the weakest
    /// level along it, and its hop count is the number of its edges.
    pub open spec fn valid_in(&self, edges: Seq<TrustEdge>) -> bool {
        &&& is_chain(edges, self.nodes@, self.trust_levels@)
        &&& self.strength == min_level(self.trust_levels@)
        &&& self.hops == self.trust_levels@.len()
        &&& self.hops == self.nodes@.len() - 1
    }

    /// The path leads from `from` to `to`.
    pub open spec fn joins(&self, from: PersonId, to: PersonId) -> bool {
        self.nodes@.len() >= 1 && self.nodes@[0] == from && self.nodes@.last() == to
    }

    /// Both paths list the same nodes and levels and agree on strength and hops.
    pub open spec fn same_as(&self, other: &TrustPath) -> bool {
        &&& self.nodes@ == other.nodes@
        &&& self.trust_levels@ == other.trust_levels@
        &&& self.strength == other.strength
        &&& self.hops == other.hops
    }

    /// A copy of the path.
    pub fn duplicate(&self) -> (copy: TrustPath)
        ensures
            copy.same_as(self),
    {
        let mut nodes: Vec<PersonId> = Vec::new();
        let mut i: usize = 0;
        while i < self.nodes.len()
            invariant
                i <= self.nodes@.len(),
                nodes@ == self.nodes@.take(i as int),
            decreases self.nodes@.len() - i,
        {
            nodes.push(self.nodes[i]);
            proof {
                assert(self.nodes@.take(i as int).push(self.nodes@[i as int]) =~= self.nodes@.take(
                    i + 1,
                ));
            }
            i += 1;
        }
        let mut trust_levels: Vec<TrustLevel> = Vec::new();
        let mut j: usize = 0;
        while j < self.trust_levels.len()
            invariant
                j <= self.trust_levels@.len(),
                trust_levels@ == self.trust_levels@.take(j as int),
            decreases self.trust_levels@.len() - j,
        {
            trust_levels.push(self.trust_levels[j]);
            proof {
                assert(self.trust_levels@.take(j as int).push(self.trust_levels@[j as int])
                    =~= self.trust_levels@.take(j + 1));
            }
            j += 1;
        }
        proof {
            assert(self.nodes@.take(self.nodes@.len() as int) =~= self.nodes@);
            assert(self.trust_levels@.take(self.trust_levels@.len() as int) =~= self.trust_levels@);
        }
        TrustPath { nodes, trust_levels, strength: self.strength, hops: self.hops }
    }

    /// Whether the path is at least as strong as `minimum`.
    pub fn is_strong_enough(&self, minimum: TrustLevel) -> (enough: bool)
        ensures
            enough == (self.strength.spec_rank() >= minimum.spec_rank()),
    {
        self.strength.rank() >= minimum.rank()
    }

    /// The first weakest edge of the path: its two ends and its level.
    pub fn weakest_link(&self) -> (link: (PersonId, PersonId, TrustLevel))
        requires
            self.trust_levels@.len() >= 1,
            self.nodes@.len() == self.trust_levels@.len() + 1,
        ensures
            exists|t: int|
                0 <= t < self.trust_levels@.len() && link == (
                    self.nodes@[t],
                    self.nodes@[t + 1],
                    #[trigger] self.trust_levels@[t],
                ) && (forall|u: int|
                    0 <= u < self.trust_levels@.len() ==> link.2.spec_rank() <= (
                    #[trigger] self.trust_levels@[u]).spec_rank()) && (forall|u: int|
                    0 <= u < t ==> link.2.spec_rank() < (#[trigger] self.trust_levels@[u]).spec_rank()),
            link.2 == min_level(self.trust_levels@),
    {
        let mut best: usize = 0;
        let mut t: usize = 1;
        proof {
            assert(self.trust_levels@.take(1) =~= seq![self.trust_levels@[0]]);
        }
        while t < self.trust_levels.len()
            invariant
                1 <= t <= self.trust_levels@.len(),
                best < t,
                forall|u: int|
                    0 <= u < t ==> self.trust_levels@[best as int].spec_rank() <= (
                    #[trigger] self.trust_levels@[u]).spec_rank(),
                forall|u: int|
                    0 <= u < best ==> self.trust_levels@[best as int].spec_rank() < (
                    #[trigger] self.trust_levels@[u]).spec_rank(),
                self.trust_levels@[best as int] == min_level(self.trust_levels@.take(t as int)),
            decreases self.trust_levels@.len() - t,
        {
            proof {
                let grown = self.trust_levels@.take(t + 1);
                assert(grown.drop_last() =~= self.trust_levels@.take(t as int));
                assert(grown.last() == self.trust_levels@[t as int]);
            }
            if self.trust_levels[t].rank() < self.trust_levels[best].rank() {
                best = t;
            }
            t += 1;
        }
        proof {
            assert(self.trust_levels@.take(self.trust_levels@.len() as int) =~= self.trust_levels@);
        }
        (self.nodes[best], self.nodes[best + 1], self.trust_levels[best])
    }
}


/// One person reached by a breadth-first search: who, from which earlier
/// entry of the search order, over an edge of which level, and after how many
/// hops.
#[derive(Clone, Copy)]
pub struct Visit {
    pub id: PersonId,
    pub parent: usize,
    /// The position of the edge in the list of edges.
    pub via: usize,
    pub level: TrustLevel,
    pub depth: usize,
}

/// Whether the search order holds `id` at a depth of at most `bound`.
pub open spec fn visited_within(order: Seq<Visit>, id: PersonId, bound: int) -> bool {
    exists|k: int| 0 <= k < order.len() && (#[trigger] order[k]).id == id && order[k].depth <= bound
}

/// Whether every edge that leaves the `i`-th entry of the search order leads
/// to an entry at most one hop deeper.
pub open spec fn expanded(edges: Seq<TrustEdge>, order: Seq<Visit>, i: int) -> bool {
    forall|j: int|
        0 <= j < edges.len() && (#[trigger] edges[j]).from == order[i].id ==> visited_within(
            order,
            edges[j].to,
            order[i].depth + 1,
        )
}

/// Whether the `i`-th entry of the search order hangs below an earlier entry,
/// one hop deeper, by an edge of the graph at the recorded level.
pub open spec fn hangs(edges: Seq<TrustEdge>, order: Seq<Visit>, i: int) -> bool {
    &&& order[i].parent < i
    &&& order[i].depth == order[order[i].parent as int].depth + 1
    &&& has_edge(edges, order[order[i].parent as int].id, order[i].id, order[i].level)
}

/// The shape of a search order rooted at `from`: the root comes first at
/// depth 0; every other entry hangs by an edge of the graph below an earlier
/// entry, one hop deeper; nobody is listed twice; and each entry's depth is
/// the length of a walk from the root.
#[verifier::opaque]
pub open spec fn search_order(edges: Seq<TrustEdge>, from: PersonId, order: Seq<Visit>) -> bool {
    &&& order.len() >= 1
    &&& order[0].id == from
    &&& order[0].depth == 0
    &&& forall|i: int| 1 <= i < order.len() ==> #[trigger] hangs(edges, order, i)
    &&& forall|i: int, j: int|
        0 <= i < order.len() && 0 <= j < order.len() && i != j ==> (#[trigger] order[i]).id != (
        #[trigger] order[j]).id
    &&& forall|i: int| 0 <= i < order.len() ==> walk(edges, from, (#[trigger] order[i]).id, order[i].depth as nat)
}

proof fn lemma_visited_grows(order: Seq<Visit>, v: Visit, id: PersonId, bound: int)
    requires
        visited_within(order, id, bound),
    ensures
        visited_within(order.push(v), id, bound),
{
    let k = choose|k: int| 0 <= k < order.len() && (#[trigger] order[k]).id == id && order[k].depth <= bound;
    assert(order.push(v)[k] == order[k]);
}

proof fn lemma_expanded_grows(edges: Seq<TrustEdge>, order: Seq<Visit>, v: Visit, i: int)
    requires
        0 <= i < order.len(),
        expanded(edges, order, i),
    ensures
        expanded(edges, order.push(v), i),
{
    let grown = order.push(v);
    assert(grown[i] == order[i]);
    assert forall|j: int| 0 <= j < edges.len() && (#[trigger] edges[j]).from == grown[i].id implies visited_within(
        grown,
        edges[j].to,
        grown[i].depth + 1,
    ) by {
        lemma_visited_grows(order, v, edges[j].to, order[i].depth + 1);
    }
}

/// Following an edge extends a walk by one hop.
pub proof fn lemma_walk_step(edges: Seq<TrustEdge>, from: PersonId, mid: PersonId, to: PersonId, hops: nat)
    requires
        walk(edges, from, mid, hops),
        connected(edges, mid, to),
    ensures
        walk(edges, from, to, hops + 1),
{
    let nodes = choose|nodes: Seq<PersonId>| #[trigger] is_walk(edges, nodes, from, mid) && nodes.len() == hops + 1;
    let longer = nodes.push(to);
    assert forall|t: int| 0 <= t < longer.len() - 1 implies connected(edges, #[trigger] longer[t], longer[t + 1]) by {
        if t < nodes.len() - 1 {
            assert(longer[t] == nodes[t]);
            assert(longer[t + 1] == nodes[t + 1]);
        }
    }
    assert(is_walk(edges, longer, from, to));
}

/// A walk of no hops ends where it starts.
pub proof fn lemma_walk_none(edges: Seq<TrustEdge>, from: PersonId, to: PersonId)
    ensures
        walk(edges, from, to, 0) <==> from == to,
{
    if from == to {
        assert(is_walk(edges, seq![from], from, to));
    }
}

/// A walk of at least one hop passes, one hop before its end, through a
/// person from whom an edge leads to the end.
pub proof fn lemma_walk_last(edges: Seq<TrustEdge>, from: PersonId, to: PersonId, hops: nat) -> (mid: PersonId)
    requires
        hops > 0,
        walk(edges, from, to, hops),
    ensures
        walk(edges, from, mid, (hops - 1) as nat),
        connected(edges, mid, to),
{
    let nodes = choose|nodes: Seq<PersonId>| #[trigger] is_walk(edges, nodes, from, to) && nodes.len() == hops + 1;
    let shorter = nodes.drop_last();
    let mid = nodes[hops - 1];
    assert(nodes[hops - 1 + 1] == to);
    assert forall|t: int| 0 <= t < shorter.len() - 1 implies connected(edges, #[trigger] shorter[t], shorter[t + 1]) by {
        assert(shorter[t] == nodes[t]);
        assert(shorter[t + 1] == nodes[t + 1]);
    }
    assert(is_walk(edges, shorter, from, mid));
    mid
}

/// A search order that has expanded every entry above depth `bound` holds
/// every person reachable in `k <= bound` hops, at a depth of at most `k`.
proof fn lemma_reached(
    edges: Seq<TrustEdge>,
    from: PersonId,
    order: Seq<Visit>,
    bound: nat,
    x: PersonId,
    k: nat,
)
    requires
        search_order(edges, from, order),
        forall|i: int| 0 <= i < order.len() && (#[trigger] order[i]).depth < bound ==> expanded(edges, order, i),
        k <= bound,
        walk(edges, from, x, k),
    ensures
        visited_within(order, x, k as int),
    decreases k,
{
    reveal(search_order);
    if k == 0 {
        lemma_walk_none(edges, from, x);
        assert(order[0].id == x);
    } else {
        let mid = lemma_walk_last(edges, from, x, k);
        lemma_reached(edges, from, order, bound, mid, (k - 1) as nat);
        let im = choose|im: int| 0 <= im < order.len() && (#[trigger] order[im]).id == mid && order[im].depth <= k - 1;
        assert(expanded(edges, order, im));
        let j = choose|j: int| 0 <= j < edges.len() && (#[trigger] edges[j]).from == mid && edges[j].to == x;
        assert(visited_within(order, edges[j].to, order[im].depth + 1));
        let ix = choose|ix: int| 0 <= ix < order.len() && (#[trigger] order[ix]).id == x && order[ix].depth <= order[im].depth + 1;
        assert(order[ix].depth <= k);
    }
}

/// The position of `id` in the search order.
fn find_visit(order: &Vec<Visit>, id: PersonId) -> (at: Option<usize>)
    ensures
        at matches Some(k) ==> k < order@.len() && order@[k as int].id == id,
        at.is_none() ==> forall|k: int| 0 <= k < order@.len() ==> (#[trigger] order@[k]).id != id,
{
    let mut k: usize = 0;
    while k < order.len()
        invariant
            k <= order@.len(),
            forall|t: int| 0 <= t < k ==> (#[trigger] order@[t]).id != id,
        decreases order@.len() - k,
    {
        if order[k].id == id {
            return Some(k);
        }
        k += 1;
    }
    None
}

/// Whether the entry was found before the search came to the edge at
/// position `edge` while it followed the edges of the entry at `parent`.
pub open spec fn found_before(v: Visit, parent: int, edge: int) -> bool {
    v.parent < parent || (v.parent == parent && v.via < edge)
}

/// Whether the `k`-th entry records the edge over which it was found: an
/// edge from its parent to itself.
pub open spec fn found_over(edges: Seq<TrustEdge>, order: Seq<Visit>, k: int) -> bool {
    &&& order[k].parent < k
    &&& order[k].via < edges.len()
    &&& edges[order[k].via as int].from == order[order[k].parent as int].id
    &&& edges[order[k].via as int].to == order[k].id
}

/// Whether the edge at position `j`, taken from the `i`-th entry, does not
/// lead to the `k`-th entry although the search came to it before it found
/// that entry.
pub open spec fn passed_by(edges: Seq<TrustEdge>, order: Seq<Visit>, k: int, i: int, j: int) -> bool {
    (i < order[k].parent || (i == order[k].parent && j < order[k].via)) && edges[j].from == order[i].id
        ==> edges[j].to != order[k].id
}

/// Whether the search took everybody as it first came to them: entries are
/// listed in the order of their parents and, below one parent, of the edges
/// over which they were found; and no edge to which the search came earlier
/// leads to an entry.
#[verifier::opaque]
pub open spec fn first_come(edges: Seq<TrustEdge>, order: Seq<Visit>) -> bool {
    &&& forall|k: int| 1 <= k < order.len() ==> #[trigger] found_over(edges, order, k)
    &&& forall|k: int, l: int|
        1 <= k < l < order.len() ==> #[trigger] found_before(order[k], order[l].parent as int, order[l].via as int)
    &&& forall|k: int, i: int, j: int|
        1 <= k < order.len() && 0 <= i < order.len() && 0 <= j < edges.len() ==> #[trigger] passed_by(
            edges,
            order,
            k,
            i,
            j,
        )
}

/// Listing a newly found person keeps the order of a search that takes
/// everybody as it first comes to them.
proof fn lemma_push_keeps_first_come(edges: Seq<TrustEdge>, order: Seq<Visit>, next: Visit)
    requires
        first_come(edges, order),
        order.len() >= 1,
        next.parent < order.len(),
        next.via < edges.len(),
        edges[next.via as int].from == order[next.parent as int].id,
        edges[next.via as int].to == next.id,
        forall|k: int| 1 <= k < order.len() ==> found_before(#[trigger] order[k], next.parent as int, next.via as int),
        forall|k: int| 0 <= k < order.len() ==> (#[trigger] order[k]).id != next.id,
        forall|i: int| 0 <= i < next.parent ==> expanded(edges, order, i),
        forall|e: int|
            0 <= e < next.via && (#[trigger] edges[e]).from == order[next.parent as int].id ==> visited_within(
                order,
                edges[e].to,
                order[next.parent as int].depth + 1,
            ),
    ensures
        first_come(edges, order.push(next)),
{
    reveal(first_come);
    let grown = order.push(next);
    let last = order.len() as int;
    assert(grown[last] == next);
    assert forall|k: int| 1 <= k < grown.len() implies #[trigger] found_over(edges, grown, k) by {
        if k < last {
            assert(found_over(edges, order, k));
            assert(grown[k] == order[k]);
            assert(grown[order[k].parent as int] == order[order[k].parent as int]);
        } else {
            assert(grown[next.parent as int] == order[next.parent as int]);
        }
    }
    assert forall|k: int, l: int| 1 <= k < l < grown.len() implies #[trigger] found_before(
        grown[k],
        grown[l].parent as int,
        grown[l].via as int,
    ) by {
        assert(grown[k] == order[k]);
        if l < last {
            assert(grown[l] == order[l]);
            assert(found_before(order[k], order[l].parent as int, order[l].via as int));
        }
    }
    assert forall|k: int, i: int, j: int|
        1 <= k < grown.len() && 0 <= i < grown.len() && 0 <= j < edges.len() implies #[trigger] passed_by(
        edges,
        grown,
        k,
        i,
        j,
    ) by {
        if k < last {
            assert(grown[k] == order[k]);
            assert(found_over(edges, order, k));
            if i < last {
                assert(grown[i] == order[i]);
                assert(passed_by(edges, order, k, i, j));
            }
        } else if i < last {
            assert(grown[i] == order[i]);
            if edges[j].from == order[i].id && (i < next.parent || (i == next.parent && j < next.via)) {
                if i < next.parent {
                    assert(expanded(edges, order, i));
                }
                let bound = order[i].depth + 1;
                assert(visited_within(order, edges[j].to, bound));
                let t = choose|t: int| 0 <= t < order.len() && (#[trigger] order[t]).id == edges[j].to && order[t].depth <= bound;
                assert(order[t].id != next.id);
            }
        }
    }
}

/// Whether nobody is listed before somebody who is nearer.
#[verifier::opaque]
pub open spec fn nearest_first(order: Seq<Visit>) -> bool {
    forall|i: int, j: int|
        0 <= i <= j < order.len() ==> (#[trigger] order[i]).depth <= (#[trigger] order[j]).depth
}

/// Listing somebody last who is no nearer than anybody listed keeps the
/// nearest first.
proof fn lemma_push_keeps_nearest_first(order: Seq<Visit>, next: Visit)
    requires
        nearest_first(order),
        forall|k: int| 0 <= k < order.len() ==> (#[trigger] order[k]).depth <= next.depth,
    ensures
        nearest_first(order.push(next)),
{
    reveal(nearest_first);
    let grown = order.push(next);
    assert forall|i: int, j: int| 0 <= i <= j < grown.len() implies (#[trigger] grown[i]).depth <= (
    #[trigger] grown[j]).depth by {
        if j < order.len() {
            assert(grown[i] == order[i]);
            assert(grown[j] == order[j]);
        } else if i < order.len() {
            assert(grown[i] == order[i]);
        }
    }
}

/// Breadth-first search from `from`, expanding every person fewer than
/// `max_hops` hops away. Edges are followed in the order in which the graph
/// lists them, and the nearest are listed first.
pub fn explore(edges: &Vec<TrustEdge>, from: PersonId, max_hops: usize) -> (order: Vec<Visit>)
    ensures
        search_order(edges@, from, order@),
        nearest_first(order@),
        first_come(edges@, order@),
        forall|i: int| 0 <= i < order@.len() ==> (#[trigger] order@[i]).depth <= max_hops,
        forall|i: int|
            0 <= i < order@.len() && (#[trigger] order@[i]).depth < max_hops ==> expanded(edges@, order@, i),
{
    let mut order: Vec<Visit> = Vec::new();
    order.push(Visit { id: from, parent: 0, via: 0, level: TrustLevel::Unknown, depth: 0 });
    proof {
        reveal(search_order);
        lemma_walk_none(edges@, from, from);
        assert(nearest_first(order@)) by {
            reveal(nearest_first);
        }
        assert(first_come(edges@, order@)) by {
            reveal(first_come);
        }
    }
    let mut start: usize = 0;
    let mut depth: usize = 0;
    while depth < max_hops
        invariant
            search_order(edges@, from, order@),
            nearest_first(order@),
            first_come(edges@, order@),
            forall|k: int| 1 <= k < order@.len() ==> (#[trigger] order@[k]).parent < start,
            start <= order@.len(),
            depth <= max_hops,
            forall|i: int| 0 <= i < start ==> (#[trigger] order@[i]).depth < depth && expanded(edges@, order@, i),
            forall|i: int| start <= i < order@.len() ==> (#[trigger] order@[i]).depth == depth,
        ensures
            search_order(edges@, from, order@),
            nearest_first(order@),
            first_come(edges@, order@),
            forall|i: int| 0 <= i < order@.len() ==> (#[trigger] order@[i]).depth <= max_hops,
            forall|i: int|
                0 <= i < order@.len() && (#[trigger] order@[i]).depth < max_hops ==> expanded(edges@, order@, i),
        decreases max_hops - depth,
    {
        let end: usize = order.len();
        if start == end {
            break;
        }
        let mut i: usize = start;
        while i < end
            invariant
                search_order(edges@, from, order@),
                nearest_first(order@),
                first_come(edges@, order@),
                forall|k: int| 1 <= k < order@.len() ==> found_before(#[trigger] order@[k], i as int, 0),
                start <= i <= end <= order@.len(),
                depth < max_hops,
                forall|t: int| 0 <= t < start ==> (#[trigger] order@[t]).depth < depth && expanded(edges@, order@, t),
                forall|t: int| start <= t < end ==> (#[trigger] order@[t]).depth == depth,
                forall|t: int| start <= t < i ==> expanded(edges@, order@, t),
                forall|t: int| end <= t < order@.len() ==> (#[trigger] order@[t]).depth == depth + 1,
            decreases end - i,
        {
            let current: Visit = order[i];
            let mut j: usize = 0;
            while j < edges.len()
                invariant
                    search_order(edges@, from, order@),
                    nearest_first(order@),
                    first_come(edges@, order@),
                    forall|k: int| 1 <= k < order@.len() ==> found_before(#[trigger] order@[k], i as int, j as int),
                    start <= i < end <= order@.len(),
                    depth < max_hops,
                    current == order@[i as int],
                    j <= edges@.len(),
                    forall|t: int|
                        0 <= t < start ==> (#[trigger] order@[t]).depth < depth && expanded(edges@, order@, t),
                    forall|t: int| start <= t < end ==> (#[trigger] order@[t]).depth == depth,
                    forall|t: int| start <= t < i ==> expanded(edges@, order@, t),
                    forall|t: int| end <= t < order@.len() ==> (#[trigger] order@[t]).depth == depth + 1,
                    forall|e: int|
                        0 <= e < j && (#[trigger] edges@[e]).from == current.id ==> visited_within(
                            order@,
                            edges@[e].to,
                            depth + 1,
                        ),
                decreases edges@.len() - j,
            {
                let edge: TrustEdge = edges[j];
                if edge.from == current.id {
                    match find_visit(&order, edge.to) {
                        Some(k) => {
                            assert(order@[k as int].depth <= depth + 1);
                        },
                        None => {
                            let ghost before = order@;
                            let next = Visit { id: edge.to, parent: i, via: j, level: edge.level, depth: depth + 1 };
                            order.push(next);
                            proof {
                                lemma_push_keeps_order(edges@, from, before, next, j as int);
                                lemma_push_keeps_nearest_first(before, next);
                                lemma_push_keeps_first_come(edges@, before, next);
                                assert forall|t: int| 0 <= t < start implies (#[trigger] order@[t]).depth < depth
                                    && expanded(edges@, order@, t) by {
                                    assert(order@[t] == before[t]);
                                    lemma_expanded_grows(edges@, before, next, t);
                                }
                                assert forall|t: int| start <= t < i implies expanded(edges@, order@, t) by {
                                    lemma_expanded_grows(edges@, before, next, t);
                                }
                                assert forall|e: int|
                                    0 <= e < j && (#[trigger] edges@[e]).from == current.id implies visited_within(
                                    order@,
                                    edges@[e].to,
                                    depth + 1,
                                ) by {
                                    lemma_visited_grows(before, next, edges@[e].to, depth + 1);
                                }
                                assert(order@[before.len() as int] == next);
                            }
                        },
                    }
                }
                j += 1;
            }
            proof {
                assert(expanded(edges@, order@, i as int));
            }
            i += 1;
        }
        start = end;
        depth += 1;
    }
    order
}

/// Appending a newly found person keeps the shape of the search order.
proof fn lemma_push_keeps_order(edges: Seq<TrustEdge>, from: PersonId, order: Seq<Visit>, next: Visit, via: int)
    requires
        search_order(edges, from, order),
        next.parent < order.len(),
        next.depth == order[next.parent as int].depth + 1,
        0 <= via < edges.len(),
        edges[via].from == order[next.parent as int].id,
        edges[via].to == next.id,
        edges[via].level == next.level,
        forall|k: int| 0 <= k < order.len() ==> (#[trigger] order[k]).id != next.id,
    ensures
        search_order(edges, from, order.push(next)),
{
    reveal(search_order);
    let grown = order.push(next);
    let parent = order[next.parent as int];
    assert(edges[via] == (TrustEdge { from: parent.id, to: next.id, level: next.level }));
    assert(has_edge(edges, parent.id, next.id, next.level));
    assert(connected(edges, parent.id, next.id));
    lemma_walk_step(edges, from, parent.id, next.id, parent.depth as nat);
    assert forall|i: int| 1 <= i < grown.len() implies #[trigger] hangs(edges, grown, i) by {
        if i < order.len() {
            assert(hangs(edges, order, i));
            assert(grown[i] == order[i]);
            assert(grown[order[i].parent as int] == order[order[i].parent as int]);
        }
    }
    assert forall|i: int| 0 <= i < grown.len() implies walk(edges, from, (#[trigger] grown[i]).id, grown[i].depth as nat) by {
        if i < order.len() {
            assert(grown[i] == order[i]);
        }
    }
}


/// In a finished search, the depth of an entry is the least number of hops
/// in which its person can be reached.
proof fn lemma_depth_is_least(
    edges: Seq<TrustEdge>,
    from: PersonId,
    order: Seq<Visit>,
    bound: nat,
    i: int,
    k: nat,
)
    requires
        search_order(edges, from, order),
        forall|t: int| 0 <= t < order.len() && (#[trigger] order[t]).depth < bound ==> expanded(edges, order, t),
        0 <= i < order.len(),
        order[i].depth <= bound,
        k < order[i].depth,
    ensures
        !walk(edges, from, order[i].id, k),
{
    if walk(edges, from, order[i].id, k) {
        lemma_reached(edges, from, order, bound, order[i].id, k);
        let other = choose|other: int|
            0 <= other < order.len() && (#[trigger] order[other]).id == order[i].id && order[other].depth <= k;
        reveal(search_order);
        assert(other == i);
    }
}

/// Whether the graph lists no edge from `a` to `c` up to position `upto`.
pub open spec fn no_edge_upto(edges: Seq<TrustEdge>, a: PersonId, c: PersonId, upto: int) -> bool {
    forall|i: int| 0 <= i <= upto && i < edges.len() ==> !((#[trigger] edges[i]).from == a && edges[i].to == c)
}

/// Whether the graph lists an edge from `a` to `b` before any edge from `a`
/// to `c`.
pub open spec fn listed_before(edges: Seq<TrustEdge>, a: PersonId, b: PersonId, c: PersonId) -> bool {
    exists|j: int|
        0 <= j < edges.len() && (#[trigger] edges[j]).from == a && edges[j].to == b && no_edge_upto(edges, a, c, j)
}

/// Whether `p` and `q` go the same way as far as their `t`-th person, and
/// from there `p` follows an edge that the graph lists before the one that
/// `q` follows.
pub open spec fn parts_at(edges: Seq<TrustEdge>, p: Seq<PersonId>, q: Seq<PersonId>, t: int) -> bool {
    &&& 0 <= t < p.len() - 1
    &&& t < q.len() - 1
    &&& p.take(t + 1) == q.take(t + 1)
    &&& listed_before(edges, p[t], p[t + 1], q[t + 1])
}

/// Whether `p` comes before `q` in the order of the edges: where the two
/// part, `p` follows the edge that the graph lists first.
pub open spec fn parts_earlier(edges: Seq<TrustEdge>, p: Seq<PersonId>, q: Seq<PersonId>) -> bool {
    exists|t: int| #[trigger] parts_at(edges, p, q, t)
}

proof fn lemma_listed_before_chains(edges: Seq<TrustEdge>, a: PersonId, b: PersonId, c: PersonId, d: PersonId)
    requires
        listed_before(edges, a, b, c),
        listed_before(edges, a, c, d),
    ensures
        listed_before(edges, a, b, d),
{
    let jb = choose|j: int|
        0 <= j < edges.len() && (#[trigger] edges[j]).from == a && edges[j].to == b && no_edge_upto(edges, a, c, j);
    let jc = choose|j: int|
        0 <= j < edges.len() && (#[trigger] edges[j]).from == a && edges[j].to == c && no_edge_upto(edges, a, d, j);
    if jc <= jb {
        assert(edges[jc].from == a && edges[jc].to == c);
        assert(false);
    }
    assert(no_edge_upto(edges, a, d, jb));
}

proof fn lemma_parts_earlier_grows(edges: Seq<TrustEdge>, p: Seq<PersonId>, q: Seq<PersonId>, x: PersonId, y: PersonId)
    requires
        parts_earlier(edges, p, q),
    ensures
        parts_earlier(edges, p.push(x), q.push(y)),
{
    let t = choose|t: int| #[trigger] parts_at(edges, p, q, t);
    assert(p.push(x).take(t + 1) =~= p.take(t + 1));
    assert(q.push(y).take(t + 1) =~= q.take(t + 1));
    assert(p.push(x)[t] == p[t]);
    assert(p.push(x)[t + 1] == p[t + 1]);
    assert(q.push(y)[t + 1] == q[t + 1]);
    assert(parts_at(edges, p.push(x), q.push(y), t));
}

proof fn lemma_parts_earlier_chains(edges: Seq<TrustEdge>, p: Seq<PersonId>, q: Seq<PersonId>, r: Seq<PersonId>)
    requires
        parts_earlier(edges, p, q),
        parts_earlier(edges, q, r),
    ensures
        parts_earlier(edges, p, r),
{
    let t1 = choose|t: int| #[trigger] parts_at(edges, p, q, t);
    let t2 = choose|t: int| #[trigger] parts_at(edges, q, r, t);
    if t1 < t2 {
        assert(q.take(t2 + 1).take(t1 + 1) =~= q.take(t1 + 1));
        assert(r.take(t2 + 1).take(t1 + 1) =~= r.take(t1 + 1));
        assert(q.take(t2 + 1)[t1 + 1] == q[t1 + 1]);
        assert(r.take(t2 + 1)[t1 + 1] == r[t1 + 1]);
        assert(parts_at(edges, p, r, t1));
    } else if t2 < t1 {
        assert(p.take(t1 + 1).take(t2 + 1) =~= p.take(t2 + 1));
        assert(q.take(t1 + 1).take(t2 + 1) =~= q.take(t2 + 1));
        assert(p.take(t1 + 1)[t2] == p[t2]);
        assert(q.take(t1 + 1)[t2] == q[t2]);
        assert(p.take(t1 + 1)[t2 + 1] == p[t2 + 1]);
        assert(q.take(t1 + 1)[t2 + 1] == q[t2 + 1]);
        assert(parts_at(edges, p, r, t2));
    } else {
        assert(p.take(t1 + 1)[t1] == p[t1]);
        assert(q.take(t1 + 1)[t1] == q[t1]);
        lemma_listed_before_chains(edges, p[t1], p[t1 + 1], q[t1 + 1], r[t1 + 1]);
        assert(parts_at(edges, p, r, t1));
    }
}

/// The way to an entry has one person more than the entry is deep, and ends
/// with the entry.
proof fn lemma_way(edges: Seq<TrustEdge>, from: PersonId, order: Seq<Visit>, k: int)
    requires
        search_order(edges, from, order),
        0 <= k < order.len(),
    ensures
        way_to(order, k).len() == order[k].depth + 1,
        way_to(order, k).last() == order[k].id,
        way_to(order, k)[0] == from,
        k >= 1 ==> order[k].depth >= 1 && order[k].parent < k && way_to(order, k) == way_to(
            order,
            order[k].parent as int,
        ).push(order[k].id),
    decreases k,
{
    reveal(search_order);
    if k >= 1 {
        assert(hangs(edges, order, k));
        lemma_way(edges, from, order, order[k].parent as int);
    }
}

/// The way to an entry passes only entries listed no later, and passes
/// nobody twice.
proof fn lemma_way_is_simple(edges: Seq<TrustEdge>, from: PersonId, order: Seq<Visit>, k: int)
    requires
        search_order(edges, from, order),
        0 <= k < order.len(),
    ensures
        forall|t: int|
            0 <= t < way_to(order, k).len() ==> exists|i: int|
                0 <= i <= k && (#[trigger] order[i]).id == #[trigger] way_to(order, k)[t],
        way_to(order, k).no_duplicates(),
    decreases k,
{
    lemma_way(edges, from, order, k);
    let way = way_to(order, k);
    if k >= 1 {
        let p = order[k].parent as int;
        lemma_way_is_simple(edges, from, order, p);
        let shorter = way_to(order, p);
        assert forall|t: int| 0 <= t < way.len() implies exists|i: int|
            0 <= i <= k && (#[trigger] order[i]).id == #[trigger] way[t] by {
            if t < shorter.len() {
                assert(way[t] == shorter[t]);
                let i = choose|i: int| 0 <= i <= p && (#[trigger] order[i]).id == shorter[t];
                assert(order[i].id == way[t]);
            } else {
                assert(order[k].id == way[t]);
            }
        }
        assert forall|a: int, b: int| 0 <= a < way.len() && 0 <= b < way.len() && a != b implies way[a] != way[b] by {
            reveal(search_order);
            if a < shorter.len() && b < shorter.len() {
                assert(shorter[a] != shorter[b]);
            } else if a < shorter.len() {
                let i = choose|i: int| 0 <= i <= p && (#[trigger] order[i]).id == shorter[a];
                assert(order[i].id != order[k].id);
            } else {
                let i = choose|i: int| 0 <= i <= p && (#[trigger] order[i]).id == shorter[b];
                assert(order[i].id != order[k].id);
            }
        }
    } else {
        assert(order[0].id == way[0]);
    }
}

/// Of two entries equally deep, the one listed first was reached by the way
/// that comes first in the order of the edges.
proof fn lemma_listed_first_parts_earlier(edges: Seq<TrustEdge>, from: PersonId, order: Seq<Visit>, a: int, b: int)
    requires
        search_order(edges, from, order),
        first_come(edges, order),
        1 <= a < b < order.len(),
        order[a].depth == order[b].depth,
    ensures
        parts_earlier(edges, way_to(order, a), way_to(order, b)),
    decreases b,
{
    lemma_way(edges, from, order, a);
    lemma_way(edges, from, order, b);
    let pa = order[a].parent as int;
    let pb = order[b].parent as int;
    lemma_way(edges, from, order, pa);
    lemma_way(edges, from, order, pb);
    assert(found_over(edges, order, a) && found_over(edges, order, b) && found_before(
        order[a],
        order[b].parent as int,
        order[b].via as int,
    )) by {
        reveal(first_come);
    }
    assert(order[pa].depth == order[pb].depth) by {
        reveal(search_order);
        assert(hangs(edges, order, a));
        assert(hangs(edges, order, b));
    }
    let wa = way_to(order, a);
    let wb = way_to(order, b);
    if pa == pb {
        let shared = way_to(order, pa);
        let t = shared.len() - 1;
        let via = order[a].via as int;
        assert(wa.take(t + 1) =~= shared);
        assert(wb.take(t + 1) =~= shared);
        assert(wa[t] == order[pa].id);
        assert forall|i: int| 0 <= i <= via && i < edges.len() implies !((#[trigger] edges[i]).from == order[pa].id
            && edges[i].to == order[b].id) by {
            assert(passed_by(edges, order, b, pb, i)) by {
                reveal(first_come);
            }
        }
        assert(no_edge_upto(edges, order[pa].id, order[b].id, via));
        assert(edges[via].from == order[pa].id && edges[via].to == order[a].id);
        assert(listed_before(edges, wa[t], wa[t + 1], wb[t + 1]));
        assert(parts_at(edges, wa, wb, t));
    } else {
        if pa == 0 {
            assert(order[0].depth == 0) by {
                reveal(search_order);
            }
            assert(false);
        }
        lemma_listed_first_parts_earlier(edges, from, order, pa, pb);
        lemma_parts_earlier_grows(edges, way_to(order, pa), way_to(order, pb), order[a].id, order[b].id);
    }
}

/// The way that the search took to an entry comes first, in the order of
/// the edges, among the walks to it that are as short.
proof fn lemma_way_comes_first(
    edges: Seq<TrustEdge>,
    from: PersonId,
    order: Seq<Visit>,
    bound: nat,
    k: int,
    q: Seq<PersonId>,
)
    requires
        search_order(edges, from, order),
        first_come(edges, order),
        forall|t: int| 0 <= t < order.len() && (#[trigger] order[t]).depth < bound ==> expanded(edges, order, t),
        0 <= k < order.len(),
        order[k].depth <= bound,
        is_walk(edges, q, from, order[k].id),
        q.len() == order[k].depth + 1,
        q != way_to(order, k),
    ensures
        parts_earlier(edges, way_to(order, k), q),
    decreases order[k].depth,
{
    lemma_way(edges, from, order, k);
    let d = order[k].depth as int;
    if k == 0 {
        assert(order[0].depth == 0) by {
            reveal(search_order);
        }
        assert(q =~= way_to(order, 0));
    } else {
        let p = order[k].parent as int;
        lemma_way(edges, from, order, p);
        assert(found_over(edges, order, k)) by {
            reveal(first_come);
        }
        assert(order[p].depth == d - 1) by {
            reveal(search_order);
            assert(hangs(edges, order, k));
        }
        let u = q[d - 1];
        let shorter = q.drop_last();
        assert(is_walk(edges, shorter, from, u)) by {
            assert forall|t: int| 0 <= t < shorter.len() - 1 implies connected(
                edges,
                #[trigger] shorter[t],
                shorter[t + 1],
            ) by {
                assert(shorter[t] == q[t]);
                assert(shorter[t + 1] == q[t + 1]);
            }
        }
        assert(walk(edges, from, u, (d - 1) as nat));
        assert(connected(edges, u, order[k].id)) by {
            assert(connected(edges, q[d - 1], q[d - 1 + 1]));
        }
        lemma_reached(edges, from, order, bound, u, (d - 1) as nat);
        let m = choose|m: int| 0 <= m < order.len() && (#[trigger] order[m]).id == u && order[m].depth <= d - 1;
        lemma_way(edges, from, order, m);
        if order[m].depth < d - 1 {
            assert(walk(edges, from, u, order[m].depth as nat)) by {
                reveal(search_order);
            }
            lemma_walk_step(edges, from, u, order[k].id, order[m].depth as nat);
            lemma_depth_is_least(edges, from, order, bound, k, (order[m].depth + 1) as nat);
            assert(false);
        }
        if m < p {
            let j = choose|j: int| 0 <= j < edges.len() && (#[trigger] edges[j]).from == u && edges[j].to == order[k].id;
            assert(passed_by(edges, order, k, m, j)) by {
                reveal(first_come);
            }
            assert(false);
        }
        assert(q =~= shorter.push(order[k].id));
        if m > p {
            if p == 0 {
                assert(order[0].depth == 0) by {
                    reveal(search_order);
                }
                assert(false);
            }
            lemma_listed_first_parts_earlier(edges, from, order, p, m);
        }
        if shorter != way_to(order, m) {
            lemma_way_comes_first(edges, from, order, bound, m, shorter);
            if m > p {
                lemma_parts_earlier_chains(edges, way_to(order, p), way_to(order, m), shorter);
            }
        }
        assert(parts_earlier(edges, way_to(order, p), shorter));
        lemma_parts_earlier_grows(edges, way_to(order, p), shorter, order[k].id, order[k].id);
    }
}

/// The items of `items` in reverse order.
fn reversed<T: Copy>(items: &Vec<T>) -> (back: Vec<T>)
    ensures
        back@.len() == items@.len(),
        forall|t: int| 0 <= t < items@.len() ==> #[trigger] back@[t] == items@[items@.len() - 1 - t],
{
    let mut back: Vec<T> = Vec::new();
    let mut left: usize = items.len();
    while left > 0
        invariant
            left <= items@.len(),
            back@.len() == items@.len() - left,
            forall|t: int| 0 <= t < back@.len() ==> #[trigger] back@[t] == items@[items@.len() - 1 - t],
        decreases left,
    {
        left -= 1;
        back.push(items[left]);
    }
    back
}

/// The weakest of the levels; `Unknown` where there is none.
pub fn weakest(levels: &Vec<TrustLevel>) -> (least: TrustLevel)
    ensures
        least == min_level(levels@),
{
    if levels.len() == 0 {
        return TrustLevel::Unknown;
    }
    let mut least: TrustLevel = levels[0];
    let mut t: usize = 1;
    proof {
        assert(levels@.take(1) =~= seq![levels@[0]]);
    }
    while t < levels.len()
        invariant
            1 <= t <= levels@.len(),
            least == min_level(levels@.take(t as int)),
        decreases levels@.len() - t,
    {
        proof {
            let grown = levels@.take(t + 1);
            assert(grown.drop_last() =~= levels@.take(t as int));
            assert(grown.last() == levels@[t as int]);
        }
        least = least.weaker(levels[t]);
        t += 1;
    }
    proof {
        assert(levels@.take(levels@.len() as int) =~= levels@);
    }
    least
}

/// The people along the way that the search took from its root to the
/// `k`-th entry: the way to the entry's parent, and then the entry itself.
pub open spec fn way_to(order: Seq<Visit>, k: int) -> Seq<PersonId>
    decreases k,
{
    if 0 < k && order[k].parent < k {
        way_to(order, order[k].parent as int).push(order[k].id)
    } else {
        seq![order[k].id]
    }
}

/// The path that the search took from its root to the entry at `at`.
fn trace_path(edges: &Vec<TrustEdge>, from: PersonId, order: &Vec<Visit>, at: usize) -> (path: TrustPath)
    requires
        search_order(edges@, from, order@),
        at < order@.len(),
    ensures
        path.valid_in(edges@),
        path.joins(from, order@[at as int].id),
        path.hops == order@[at as int].depth,
        path.nodes@ == way_to(order@, at as int),
{
    let mut back_nodes: Vec<PersonId> = Vec::new();
    let mut back_levels: Vec<TrustLevel> = Vec::new();
    back_nodes.push(order[at].id);
    let mut cur: usize = at;
    let ghost mut tail: Seq<PersonId> = Seq::empty();
    proof {
        assert(way_to(order@, at as int) + tail =~= way_to(order@, at as int));
    }
    while cur != 0
        invariant
            search_order(edges@, from, order@),
            cur < order@.len(),
            at < order@.len(),
            back_nodes@.len() == back_levels@.len() + 1,
            tail.len() == back_levels@.len(),
            forall|t: int| 0 <= t < tail.len() ==> #[trigger] tail[t] == back_nodes@[back_levels@.len() - 1 - t],
            way_to(order@, at as int) == way_to(order@, cur as int) + tail,
            back_nodes@[0] == order@[at as int].id,
            back_nodes@.last() == order@[cur as int].id,
            back_levels@.len() + order@[cur as int].depth == order@[at as int].depth,
            forall|t: int|
                0 <= t < back_levels@.len() ==> has_edge(
                    edges@,
                    back_nodes@[t + 1],
                    back_nodes@[t],
                    #[trigger] back_levels@[t],
                ),
        decreases cur,
    {
        proof {
            reveal(search_order);
            assert(hangs(edges@, order@, cur as int));
        }
        let step: Visit = order[cur];
        let ghost old_tail = tail;
        let ghost old_nodes = back_nodes@;
        proof {
            tail = seq![step.id] + old_tail;
            assert(way_to(order@, cur as int) == way_to(order@, step.parent as int).push(step.id));
            assert(way_to(order@, step.parent as int).push(step.id) + old_tail =~= way_to(order@, step.parent as int)
                + tail);
        }
        back_levels.push(step.level);
        cur = step.parent;
        back_nodes.push(order[cur].id);
        proof {
            assert forall|t: int| 0 <= t < tail.len() implies #[trigger] tail[t] == back_nodes@[back_levels@.len() - 1
                - t] by {
                if t > 0 {
                    assert(tail[t] == old_tail[t - 1]);
                    assert(back_nodes@[back_levels@.len() - 1 - t] == old_nodes[back_levels@.len() - 1 - t]);
                } else {
                    assert(back_nodes@[back_levels@.len() - 1] == old_nodes.last());
                }
            }
        }
    }
    proof {
        reveal(search_order);
    }
    let nodes = reversed(&back_nodes);
    let trust_levels = reversed(&back_levels);
    let strength = weakest(&trust_levels);
    let hops = trust_levels.len();
    proof {
        let n = back_levels@.len() as int;
        assert forall|t: int| 0 <= t < trust_levels@.len() implies has_edge(
            edges@,
            nodes@[t],
            nodes@[t + 1],
            #[trigger] trust_levels@[t],
        ) by {
            let u = n - 1 - t;
            assert(trust_levels@[t] == back_levels@[u]);
            assert(nodes@[t] == back_nodes@[u + 1]);
            assert(nodes@[t + 1] == back_nodes@[u]);
        }
        assert(nodes@[0] == back_nodes@[n]);
        assert(nodes@[n] == back_nodes@[0]);
        assert(way_to(order@, 0) =~= seq![from]);
        assert(nodes@ =~= way_to(order@, 0) + tail);
    }
    TrustPath { nodes, trust_levels, strength, hops }
}

/// The shortest chain of trust from `from` to `to` that has at most
/// `max_hops` edges, found breadth-first; among equally short chains, the one
/// that follows the edges listed first: where another walk of the same
/// length parts from it, the chain takes the edge that the graph lists
/// earlier.
pub fn shortest_path(edges: &Vec<TrustEdge>, from: PersonId, to: PersonId, max_hops: usize) -> (found: Option<
    TrustPath,
>)
    ensures
        match found {
            Some(path) => {
                &&& path.valid_in(edges@)
                &&& path.joins(from, to)
                &&& path.hops <= max_hops
                &&& path.nodes@.no_duplicates()
                &&& forall|k: nat| k < path.hops ==> !walk(edges@, from, to, k)
                &&& forall|other: Seq<PersonId>|
                    is_walk(edges@, other, from, to) && other.len() == path.nodes@.len() && other != path.nodes@
                        ==> #[trigger] parts_earlier(edges@, path.nodes@, other)
            },
            None => forall|k: nat| k <= max_hops ==> !walk(edges@, from, to, k),
        },
{
    let order = explore(edges, from, max_hops);
    match find_visit(&order, to) {
        Some(at) => {
            let path = trace_path(edges, from, &order, at);
            proof {
                assert forall|k: nat| k < path.hops implies !walk(edges@, from, to, k) by {
                    lemma_depth_is_least(edges@, from, order@, max_hops as nat, at as int, k);
                }
                assert forall|other: Seq<PersonId>|
                    is_walk(edges@, other, from, to) && other.len() == path.nodes@.len() && other
                        != path.nodes@ implies #[trigger] parts_earlier(edges@, path.nodes@, other) by {
                    lemma_way_comes_first(edges@, from, order@, max_hops as nat, at as int, other);
                }
                lemma_way_is_simple(edges@, from, order@, at as int);
            }
            Some(path)
        },
        None => {
            proof {
                assert forall|k: nat| k <= max_hops implies !walk(edges@, from, to, k) by {
                    if walk(edges@, from, to, k) {
                        lemma_reached(edges@, from, order@, max_hops as nat, to, k);
                    }
                }
            }
            None
        },
    }
}

/// A chain of edges is a walk over its nodes.
pub proof fn lemma_chain_is_walk(edges: Seq<TrustEdge>, nodes: Seq<PersonId>, levels: Seq<TrustLevel>)
    requires
        is_chain(edges, nodes, levels),
    ensures
        walk(edges, nodes[0], nodes.last(), levels.len()),
{
    assert forall|t: int| 0 <= t < nodes.len() - 1 implies connected(edges, #[trigger] nodes[t], nodes[t + 1]) by {
        assert(has_edge(edges, nodes[t], nodes[t + 1], levels[t]));
        let j = choose|j: int|
            0 <= j < edges.len() && #[trigger] edges[j] == (TrustEdge {
                from: nodes[t],
                to: nodes[t + 1],
                level: levels[t],
            });
        assert(edges[j].from == nodes[t] && edges[j].to == nodes[t + 1]);
    }
    assert(is_walk(edges, nodes, nodes[0], nodes.last()));
}

/// The strength of a path is the level of one of its edges and no edge of
/// the path is weaker.
pub proof fn lemma_min_level_is_least(levels: Seq<TrustLevel>)
    requires
        levels.len() >= 1,
    ensures
        exists|t: int| 0 <= t < levels.len() && #[trigger] levels[t] == min_level(levels),
        forall|t: int| 0 <= t < levels.len() ==> min_level(levels).spec_rank() <= (#[trigger] levels[t]).spec_rank(),
    decreases levels.len(),
{
    if levels.len() == 1 {
        assert(levels[0] == min_level(levels));
    } else {
        let front = levels.drop_last();
        lemma_min_level_is_least(front);
        let t = choose|t: int| 0 <= t < front.len() && #[trigger] front[t] == min_level(front);
        assert(levels[t] == front[t]);
        if min_level(levels) == levels.last() {
            assert(levels[levels.len() - 1] == min_level(levels));
        } else {
            assert(levels[t] == min_level(levels));
        }
        assert forall|u: int| 0 <= u < levels.len() implies min_level(levels).spec_rank() <= (
        #[trigger] levels[u]).spec_rank() by {
            if u < front.len() {
                assert(levels[u] == front[u]);
            }
        }
    }
}


/// The people whom `person` trusts directly, with the level of each edge, in
/// the order in which the edges were added.
pub open spec fn trusted_by(edges: Seq<TrustEdge>, person: PersonId) -> Seq<(PersonId, TrustLevel)>
    decreases edges.len(),
{
    if edges.len() == 0 {
        seq![]
    } else if edges.last().from == person {
        trusted_by(edges.drop_last(), person).push((edges.last().to, edges.last().level))
    } else {
        trusted_by(edges.drop_last(), person)
    }
}

/// The people who trust `person` directly, with the level of each edge, in
/// the order in which the edges were added.
pub open spec fn trusters_of(edges: Seq<TrustEdge>, person: PersonId) -> Seq<(PersonId, TrustLevel)>
    decreases edges.len(),
{
    if edges.len() == 0 {
        seq![]
    } else if edges.last().to == person {
        trusters_of(edges.drop_last(), person).push((edges.last().from, edges.last().level))
    } else {
        trusters_of(edges.drop_last(), person)
    }
}

/// Everybody who stands at either end of an edge.
pub open spec fn endpoints(edges: Seq<TrustEdge>) -> Set<PersonId> {
    Set::new(
        |p: PersonId| exists|j: int| 0 <= j < edges.len() && ((#[trigger] edges[j]).from == p || edges[j].to == p),
    )
}

/// The number of edges at the given level.
pub open spec fn count_level(edges: Seq<TrustEdge>, level: TrustLevel) -> nat
    decreases edges.len(),
{
    if edges.len() == 0 {
        0
    } else if edges.last().level == level {
        count_level(edges.drop_last(), level) + 1
    } else {
        count_level(edges.drop_last(), level)
    }
}

/// A remembered answer of [`TrustGraph::find_path`].
pub struct CachedPath {
    pub from: PersonId,
    pub to: PersonId,
    pub path: Option<TrustPath>,
}

/// Whether a returned answer and a remembered one are the same.
pub open spec fn same_answer(a: Option<TrustPath>, b: Option<TrustPath>) -> bool {
    match (a, b) {
        (Some(p), Some(q)) => p.same_as(&q),
        (None, None) => true,
        _ => false,
    }
}

/// The most answers that the path cache remembers.
pub const MAX_CACHED_PATHS: usize = 10_000;

/// Counts of the graph.
#[derive(Debug)]
pub struct TrustGraphStats {
    /// How many people stand at either end of an edge.
    pub total_people: usize,
    /// How many edges there are.
    pub total_relationships: usize,
    /// The average number of edges per person, in thousandths, rounded down;
    /// 0 for an empty graph.
    pub avg_connections_milli: u128,
    /// How many edges there are at each level, indexed by the level's rank.
    pub by_trust_level: [usize; 5],
}

/// The web of trust.
pub struct TrustGraph {
    edges: Vec<TrustEdge>,
    path_cache: Vec<CachedPath>,
}

impl TrustGraph {
    #[verifier::type_invariant]
    spec fn well_formed(self) -> bool {
        &&& single_edges(self.edges@)
        &&& self.path_cache@.len() <= MAX_CACHED_PATHS
        &&& forall|i: int, j: int|
            0 <= i < self.path_cache@.len() && 0 <= j < self.path_cache@.len() && i != j ==> !((
            #[trigger] self.path_cache@[i]).from == (#[trigger] self.path_cache@[j]).from
                && self.path_cache@[i].to == self.path_cache@[j].to)
        &&& forall|i: int|
            0 <= i < self.path_cache@.len() ==> ((#[trigger] self.path_cache@[i]).path matches Some(p)
                ==> p.valid_in(self.edges@) && p.joins(self.path_cache@[i].from, self.path_cache@[i].to) && (
                self.path_cache@[i].from != self.path_cache@[i].to ==> p.nodes@.no_duplicates()))
    }

    /// The edges of the graph, in the order in which they were first added.
    pub closed spec fn edges(&self) -> Seq<TrustEdge> {
        self.edges@
    }

    /// The remembered answers, the least recently used first.
    pub closed spec fn cache(&self) -> Seq<CachedPath> {
        self.path_cache@
    }

    /// The level at which `from` trusts `to` directly, if at all.
    pub open spec fn spec_get_trust(&self, from: PersonId, to: PersonId) -> Option<TrustLevel> {
        edge_level(self.edges(), from, to)
    }

    /// Whether an answer for the pair is remembered.
    pub open spec fn is_cached(&self, from: PersonId, to: PersonId) -> bool {
        exists|i: int| 0 <= i < self.cache().len() && (#[trigger] self.cache()[i]).from == from && self.cache()[i].to == to
    }

    /// The remembered answer for the pair.
    pub open spec fn cached(&self, from: PersonId, to: PersonId) -> Option<TrustPath> {
        let i = choose|i: int| 0 <= i < self.cache().len() && (#[trigger] self.cache()[i]).from == from && self.cache()[i].to == to;
        self.cache()[i].path
    }

    /// An empty graph.
    pub fn new() -> (graph: Self)
        ensures
            graph.edges().len() == 0,
            graph.cache().len() == 0,
            single_edges(graph.edges()),
    {
        TrustGraph { edges: Vec::new(), path_cache: Vec::new() }
    }

    /// The position of the edge from `from` to `to`.
    fn edge_position(&self, from: PersonId, to: PersonId) -> (at: Option<usize>)
        ensures
            at matches Some(i) ==> i < self.edges().len() && self.edges()[i as int].from == from
                && self.edges()[i as int].to == to,
            at.is_none() ==> !connected(self.edges(), from, to),
            single_edges(self.edges()),
            at matches Some(i) ==> edge_level(self.edges(), from, to) == Some(self.edges()[i as int].level),
            at.is_none() ==> edge_level(self.edges(), from, to).is_none(),
    {
        proof {
            use_type_invariant(self);
        }
        let mut i: usize = 0;
        while i < self.edges.len()
            invariant
                i <= self.edges@.len(),
                single_edges(self.edges@),
                forall|t: int| 0 <= t < i ==> !((#[trigger] self.edges@[t]).from == from && self.edges@[t].to == to),
            decreases self.edges@.len() - i,
        {
            if self.edges[i].from == from && self.edges[i].to == to {
                proof {
                    let j = choose|j: int|
                        0 <= j < self.edges@.len() && (#[trigger] self.edges@[j]).from == from && self.edges@[j].to
                            == to;
                    assert(j == i);
                }
                return Some(i);
            }
            i += 1;
        }
        None
    }

    /// Records that `from` trusts `to` at `level`. An existing edge between
    /// the two keeps its place and takes the new level; a new edge is added
    /// last. Every remembered path is forgotten.
    pub fn add_trust(&mut self, from: PersonId, to: PersonId, level: TrustLevel)
        ensures
            final(self).spec_get_trust(from, to) == Some(level),
            forall|a: PersonId, b: PersonId|
                !(a == from && b == to) ==> #[trigger] final(self).spec_get_trust(a, b) == old(self).spec_get_trust(
                    a,
                    b,
                ),
            final(self).cache().len() == 0,
            forall|a: PersonId, b: PersonId| !#[trigger] final(self).is_cached(a, b),
            single_edges(old(self).edges()),
            single_edges(final(self).edges()),
            old(self).spec_get_trust(from, to).is_none() ==> final(self).edges() == old(self).edges().push(
                TrustEdge { from, to, level },
            ),
            old(self).spec_get_trust(from, to).is_some() ==> exists|i: int|
                0 <= i < old(self).edges().len() && (#[trigger] old(self).edges()[i]).from == from && old(
                    self,
                ).edges()[i].to == to && final(self).edges() == old(self).edges().update(
                    i,
                    TrustEdge { from, to, level },
                ),
    {
        let edge = TrustEdge { from, to, level };
        proof {
            use_type_invariant(&*self);
        }
        self.path_cache = Vec::new();
        let mut edges: Vec<TrustEdge> = Vec::new();
        std::mem::swap(&mut edges, &mut self.edges);
        match position_in(&edges, from, to) {
            Some(i) => {
                proof {
                    lemma_update_levels(edges@, i as int, edge);
                    lemma_edge_level(edges@, i as int);
                }
                edges.set(i, edge);
            },
            None => {
                proof {
                    lemma_push_levels(edges@, edge);
                }
                edges.push(edge);
            },
        }
        self.edges = edges;
    }

    /// Forgets that `from` trusts `to`. The other edges keep their order.
    /// Every remembered path is forgotten.
    pub fn remove_trust(&mut self, from: PersonId, to: PersonId)
        ensures
            final(self).spec_get_trust(from, to).is_none(),
            forall|a: PersonId, b: PersonId|
                !(a == from && b == to) ==> #[trigger] final(self).spec_get_trust(a, b) == old(self).spec_get_trust(
                    a,
                    b,
                ),
            final(self).cache().len() == 0,
            forall|a: PersonId, b: PersonId| !#[trigger] final(self).is_cached(a, b),
            single_edges(old(self).edges()),
            single_edges(final(self).edges()),
            old(self).spec_get_trust(from, to).is_none() ==> final(self).edges() == old(self).edges(),
            old(self).spec_get_trust(from, to).is_some() ==> exists|i: int|
                0 <= i < old(self).edges().len() && (#[trigger] old(self).edges()[i]).from == from && old(
                    self,
                ).edges()[i].to == to && final(self).edges() == old(self).edges().remove(i),
    {
        proof {
            use_type_invariant(&*self);
        }
        self.path_cache = Vec::new();
        let mut edges: Vec<TrustEdge> = Vec::new();
        std::mem::swap(&mut edges, &mut self.edges);
        match position_in(&edges, from, to) {
            Some(i) => {
                proof {
                    lemma_remove_levels(edges@, i as int);
                    lemma_edge_level(edges@, i as int);
                }
                edges.remove(i);
            },
            None => {},
        }
        self.edges = edges;
    }

    /// The level at which `from` trusts `to` directly, if at all.
    pub fn get_trust(&self, from: PersonId, to: PersonId) -> (level: Option<TrustLevel>)
        ensures
            level == self.spec_get_trust(from, to),
    {
        match self.edge_position(from, to) {
            Some(i) => Some(self.edges[i].level),
            None => None,
        }
    }

    /// Forgets every remembered path.
    pub fn clear_cache(&mut self)
        ensures
            final(self).cache().len() == 0,
            forall|a: PersonId, b: PersonId| !#[trigger] final(self).is_cached(a, b),
            final(self).edges() == old(self).edges(),
    {
        proof {
            use_type_invariant(&*self);
        }
        self.path_cache = Vec::new();
    }

    /// The shortest chain of trust from `from` to `to`.
    ///
    /// An answer remembered for the pair is returned as it is, whatever
    /// `max_hops` says, and becomes the most recently used. Otherwise, where
    /// `max_hops` allows a hop at all, a direct edge gives a path of one hop
    /// at once; failing that, the graph is searched breadth-first for the
    /// shortest chain of at most `max_hops` edges, and among equally short
    /// chains the one is taken that follows
    /// the edges added first. The answer is remembered; when the cache is
    /// full, the least recently used answer makes room.
    pub fn find_path(&mut self, from: PersonId, to: PersonId, max_hops: usize) -> (found: Option<TrustPath>)
        ensures
            final(self).edges() == old(self).edges(),
            single_edges(final(self).edges()),
            found matches Some(path) ==> path.valid_in(old(self).edges()) && path.joins(from, to),
            found matches Some(path) ==> path.strength == min_level(path.trust_levels@) && path.hops
                == path.nodes@.len() - 1,
            found matches Some(path) ==> (from != to ==> path.nodes@.no_duplicates()),
            final(self).is_cached(from, to),
            same_answer(final(self).cached(from, to), found),
            old(self).is_cached(from, to) ==> same_answer(found, old(self).cached(from, to)),
            old(self).is_cached(from, to) ==> exists|i: int|
                0 <= i < old(self).cache().len() && (#[trigger] old(self).cache()[i]).from == from && old(
                    self,
                ).cache()[i].to == to && final(self).cache() == old(self).cache().remove(i).push(
                    old(self).cache()[i],
                ),
            !old(self).is_cached(from, to) ==> final(self).cache().len() >= 1 && final(self).cache().drop_last() == (
            if old(self).cache().len() >= MAX_CACHED_PATHS {
                old(self).cache().drop_first()
            } else {
                old(self).cache()
            }),
            !old(self).is_cached(from, to) ==> (found matches Some(path) ==> forall|other: Seq<PersonId>|
                is_walk(old(self).edges(), other, from, to) && other.len() == path.nodes@.len() && other
                    != path.nodes@ ==> #[trigger] parts_earlier(old(self).edges(), path.nodes@, other)),
            !old(self).is_cached(from, to) ==> (found matches Some(path) ==> path.hops <= max_hops),
            !old(self).is_cached(from, to) ==> match old(self).spec_get_trust(from, to) {
                Some(level) if max_hops >= 1 => found matches Some(path) && path.nodes@ == seq![from, to]
                    && path.trust_levels@ == seq![level] && path.strength == level && path.hops == 1,
                _ => match found {
                    Some(path) => forall|k: nat| k < path.hops ==> !walk(old(self).edges(), from, to, k),
                    None => forall|k: nat| k <= max_hops ==> !walk(old(self).edges(), from, to, k),
                },
            },
    {
        proof {
            use_type_invariant(&*self);
        }
        let ghost before = self.path_cache@;
        let mut cache: Vec<CachedPath> = Vec::new();
        std::mem::swap(&mut cache, &mut self.path_cache);
        match cache_position(&cache, from, to) {
            Some(i) => {
                let entry = cache.remove(i);
                let found = match &entry.path {
                    Some(path) => Some(path.duplicate()),
                    None => None,
                };
                cache.push(entry);
                proof {
                    let moved = before.remove(i as int).push(before[i as int]);
                    assert(cache@ == moved);
                    lemma_moved_to_back(before, i as int);
                    let last = moved.len() - 1;
                    assert(moved[last] == before[i as int]);
                    let c = choose|c: int| 0 <= c < moved.len() && (#[trigger] moved[c]).from == from && moved[c].to == to;
                    assert(c == last);
                    let o = choose|o: int| 0 <= o < before.len() && (#[trigger] before[o]).from == from && before[o].to == to;
                    assert(o == i);
                }
                self.path_cache = cache;
                found
            },
            None => {
                let direct = if max_hops >= 1 {
                    self.edge_position(from, to)
                } else {
                    None
                };
                let found = match direct {
                    Some(at) => {
                        let level = self.edges[at].level;
                        let mut nodes: Vec<PersonId> = Vec::new();
                        nodes.push(from);
                        nodes.push(to);
                        let mut trust_levels: Vec<TrustLevel> = Vec::new();
                        trust_levels.push(level);
                        proof {
                            assert(self.edges@[at as int] == (TrustEdge { from, to, level }));
                            assert(nodes@ =~= seq![from, to]);
                            assert(trust_levels@ =~= seq![level]);
                            assert forall|other: Seq<PersonId>|
                                is_walk(self.edges@, other, from, to) && other.len() == nodes@.len() && other
                                    != nodes@ implies #[trigger] parts_earlier(self.edges@, nodes@, other) by {
                                assert(other =~= nodes@);
                            }
                        }
                        Some(TrustPath { nodes, trust_levels, strength: level, hops: 1 })
                    },
                    None => shortest_path(&self.edges, from, to, max_hops),
                };
                let kept = match &found {
                    Some(path) => Some(path.duplicate()),
                    None => None,
                };
                if cache.len() >= MAX_CACHED_PATHS {
                    cache.remove(0);
                }
                let ghost base = cache@;
                cache.push(CachedPath { from, to, path: kept });
                proof {
                    assert(base =~= if before.len() >= MAX_CACHED_PATHS {
                        before.drop_first()
                    } else {
                        before
                    });
                    assert(cache@.drop_last() =~= base);
                    assert forall|x: int| 0 <= x < base.len() implies exists|o: int|
                        0 <= o < before.len() && #[trigger] base[x] == before[o] && (o == x || o == x + 1) by {
                        if before.len() >= MAX_CACHED_PATHS {
                            assert(base[x] == before[x + 1]);
                        } else {
                            assert(base[x] == before[x]);
                        }
                    }
                    let grown = cache@;
                    let last = grown.len() - 1;
                    assert forall|x: int, y: int|
                        0 <= x < grown.len() && 0 <= y < grown.len() && x != y implies !((#[trigger] grown[x]).from
                        == (#[trigger] grown[y]).from && grown[x].to == grown[y].to) by {
                        let shift: int = if before.len() >= MAX_CACHED_PATHS { 1 } else { 0 };
                        if x < last {
                            assert(grown[x] == before[x + shift]);
                        }
                        if y < last {
                            assert(grown[y] == before[y + shift]);
                        }
                    }
                    assert forall|x: int| 0 <= x < grown.len() implies ((#[trigger] grown[x]).path matches Some(p)
                        ==> p.valid_in(self.edges@) && p.joins(grown[x].from, grown[x].to) && (grown[x].from
                        != grown[x].to ==> p.nodes@.no_duplicates())) by {
                        let shift: int = if before.len() >= MAX_CACHED_PATHS { 1 } else { 0 };
                        if x < last {
                            assert(grown[x] == before[x + shift]);
                        }
                    }
                    assert(grown[last].from == from && grown[last].to == to);
                    let c = choose|c: int| 0 <= c < grown.len() && (#[trigger] grown[c]).from == from && grown[c].to == to;
                    assert(c == last);
                }
                self.path_cache = cache;
                found
            },
        }
    }

    /// The people whom `person` trusts directly, with the level of each edge,
    /// in the order in which the edges were added.
    pub fn get_trusted(&self, person: PersonId) -> (trusted: Vec<(PersonId, TrustLevel)>)
        ensures
            trusted@ == trusted_by(self.edges(), person),
    {
        let mut trusted: Vec<(PersonId, TrustLevel)> = Vec::new();
        let mut j: usize = 0;
        while j < self.edges.len()
            invariant
                j <= self.edges@.len(),
                trusted@ == trusted_by(self.edges@.take(j as int), person),
            decreases self.edges@.len() - j,
        {
            proof {
                assert(self.edges@.take(j + 1).drop_last() =~= self.edges@.take(j as int));
            }
            if self.edges[j].from == person {
                trusted.push((self.edges[j].to, self.edges[j].level));
            }
            j += 1;
        }
        proof {
            assert(self.edges@.take(self.edges@.len() as int) =~= self.edges@);
        }
        trusted
    }

    /// The people who trust `person` directly, with the level of each edge,
    /// in the order in which the edges were added.
    pub fn get_trusters(&self, person: PersonId) -> (trusters: Vec<(PersonId, TrustLevel)>)
        ensures
            trusters@ == trusters_of(self.edges(), person),
    {
        let mut trusters: Vec<(PersonId, TrustLevel)> = Vec::new();
        let mut j: usize = 0;
        while j < self.edges.len()
            invariant
                j <= self.edges@.len(),
                trusters@ == trusters_of(self.edges@.take(j as int), person),
            decreases self.edges@.len() - j,
        {
            proof {
                assert(self.edges@.take(j + 1).drop_last() =~= self.edges@.take(j as int));
            }
            if self.edges[j].to == person {
                trusters.push((self.edges[j].from, self.edges[j].level));
            }
            j += 1;
        }
        proof {
            assert(self.edges@.take(self.edges@.len() as int) =~= self.edges@);
        }
        trusters
    }

    /// Everybody other than `person` who can be reached from `person` in at
    /// most `max_hops` hops, each with the least number of hops that it takes,
    /// nearest first as the search finds them.
    pub fn get_network(&self, person: PersonId, max_hops: usize) -> (network: Vec<(PersonId, usize)>)
        ensures
            forall|i: int|
                0 <= i < network@.len() ==> {
                    let peer = (#[trigger] network@[i]).0;
                    let hops = network@[i].1;
                    &&& peer != person
                    &&& 1 <= hops <= max_hops
                    &&& walk(self.edges(), person, peer, hops as nat)
                    &&& forall|k: nat| k < hops ==> !walk(self.edges(), person, peer, k)
                },
            forall|i: int, j: int|
                0 <= i < network@.len() && 0 <= j < network@.len() && i != j ==> (#[trigger] network@[i]).0 != (
                #[trigger] network@[j]).0,
            forall|peer: PersonId, k: nat|
                k <= max_hops && peer != person && #[trigger] walk(self.edges(), person, peer, k) ==> exists|i: int|
                    0 <= i < network@.len() && (#[trigger] network@[i]).0 == peer,
            forall|i: int, j: int|
                0 <= i <= j < network@.len() ==> (#[trigger] network@[i]).1 <= (#[trigger] network@[j]).1,
    {
        let order = explore(&self.edges, person, max_hops);
        let mut network: Vec<(PersonId, usize)> = Vec::new();
        let mut i: usize = 1;
        proof {
            reveal(search_order);
        }
        while i < order.len()
            invariant
                search_order(self.edges@, person, order@),
                1 <= i <= order@.len(),
                network@.len() == i - 1,
                forall|t: int| 0 <= t < network@.len() ==> #[trigger] network@[t] == (order@[t + 1].id, order@[t + 1].depth),
            decreases order@.len() - i,
        {
            network.push((order[i].id, order[i].depth));
            i += 1;
        }
        proof {
            assert forall|t: int| 0 <= t < network@.len() implies {
                let peer = (#[trigger] network@[t]).0;
                let hops = network@[t].1;
                &&& peer != person
                &&& 1 <= hops <= max_hops
                &&& walk(self.edges@, person, peer, hops as nat)
                &&& forall|k: nat| k < hops ==> !walk(self.edges@, person, peer, k)
            } by {
                let v = order@[t + 1];
                assert(hangs(self.edges@, order@, t + 1));
                assert(order@[0].id != v.id);
                assert forall|k: nat| k < v.depth implies !walk(self.edges@, person, v.id, k) by {
                    lemma_depth_is_least(self.edges@, person, order@, max_hops as nat, t + 1, k);
                }
            }
            assert forall|a: int, b: int| 0 <= a < network@.len() && 0 <= b < network@.len() && a != b implies (
            #[trigger] network@[a]).0 != (#[trigger] network@[b]).0 by {
                assert(order@[a + 1].id != order@[b + 1].id);
            }
            assert forall|peer: PersonId, k: nat|
                k <= max_hops && peer != person && #[trigger] walk(self.edges@, person, peer, k) implies exists|i: int|
                0 <= i < network@.len() && (#[trigger] network@[i]).0 == peer by {
                lemma_reached(self.edges@, person, order@, max_hops as nat, peer, k);
                let at = choose|at: int| 0 <= at < order@.len() && (#[trigger] order@[at]).id == peer && order@[at].depth <= k;
                assert(at != 0);
                assert(network@[at - 1].0 == peer);
            }
            assert forall|a: int, b: int| 0 <= a <= b < network@.len() implies (#[trigger] network@[a]).1 <= (
            #[trigger] network@[b]).1 by {
                reveal(nearest_first);
                assert(order@[a + 1].depth <= order@[b + 1].depth);
            }
        }
        network
    }

    /// The number of people who stand at either end of an edge.
    pub fn total_people(&self) -> (n: usize)
        ensures
            n == endpoints(self.edges()).len(),
    {
        let mut people: Vec<PersonId> = Vec::new();
        let mut j: usize = 0;
        proof {
            assert(people@.to_set() =~= endpoints(self.edges@.take(0)));
        }
        while j < self.edges.len()
            invariant
                j <= self.edges@.len(),
                people@.no_duplicates(),
                people@.to_set() == endpoints(self.edges@.take(j as int)),
            decreases self.edges@.len() - j,
        {
            let edge: TrustEdge = self.edges[j];
            add_person(&mut people, edge.from);
            add_person(&mut people, edge.to);
            proof {
                lemma_endpoints_step(self.edges@, j as int);
            }
            j += 1;
        }
        proof {
            assert(self.edges@.take(self.edges@.len() as int) =~= self.edges@);
            people@.unique_seq_to_set();
        }
        people.len()
    }

    /// Counts of the graph: people, edges, the average number of edges per
    /// person and the number of edges at each level.
    pub fn stats(&self) -> (stats: TrustGraphStats)
        ensures
            stats.total_people == endpoints(self.edges()).len(),
            stats.total_relationships == self.edges().len(),
            stats.avg_connections_milli == if stats.total_people > 0 {
                stats.total_relationships * 1000 / (stats.total_people as int)
            } else {
                0
            },
            stats.by_trust_level@[0] == count_level(self.edges(), TrustLevel::Blocked),
            stats.by_trust_level@[1] == count_level(self.edges(), TrustLevel::Unknown),
            stats.by_trust_level@[2] == count_level(self.edges(), TrustLevel::Introduced),
            stats.by_trust_level@[3] == count_level(self.edges(), TrustLevel::VerifiedRemote),
            stats.by_trust_level@[4] == count_level(self.edges(), TrustLevel::VerifiedInPerson),
    {
        let total_people = self.total_people();
        let total_relationships = self.total_relationships();
        let avg_connections_milli: u128 = if total_people > 0 {
            (total_relationships as u128) * 1000 / (total_people as u128)
        } else {
            0
        };
        let mut blocked: usize = 0;
        let mut unknown: usize = 0;
        let mut introduced: usize = 0;
        let mut remote: usize = 0;
        let mut in_person: usize = 0;
        let mut j: usize = 0;
        while j < self.edges.len()
            invariant
                j <= self.edges@.len(),
                blocked == count_level(self.edges@.take(j as int), TrustLevel::Blocked),
                unknown == count_level(self.edges@.take(j as int), TrustLevel::Unknown),
                introduced == count_level(self.edges@.take(j as int), TrustLevel::Introduced),
                remote == count_level(self.edges@.take(j as int), TrustLevel::VerifiedRemote),
                in_person == count_level(self.edges@.take(j as int), TrustLevel::VerifiedInPerson),
                blocked + unknown + introduced + remote + in_person == j,
            decreases self.edges@.len() - j,
        {
            proof {
                assert(self.edges@.take(j + 1).drop_last() =~= self.edges@.take(j as int));
            }
            match self.edges[j].level {
                TrustLevel::Blocked => {
                    blocked += 1;
                },
                TrustLevel::Unknown => {
                    unknown += 1;
                },
                TrustLevel::Introduced => {
                    introduced += 1;
                },
                TrustLevel::VerifiedRemote => {
                    remote += 1;
                },
                TrustLevel::VerifiedInPerson => {
                    in_person += 1;
                },
            }
            j += 1;
        }
        proof {
            assert(self.edges@.take(self.edges@.len() as int) =~= self.edges@);
        }
        TrustGraphStats {
            total_people,
            total_relationships,
            avg_connections_milli,
            by_trust_level: [blocked, unknown, introduced, remote, in_person],
        }
    }

    /// The number of edges.
    pub fn total_relationships(&self) -> (n: usize)
        ensures
            n == self.edges().len(),
    {
        self.edges.len()
    }
}

/// The position of the edge from `from` to `to`.
fn position_in(edges: &Vec<TrustEdge>, from: PersonId, to: PersonId) -> (at: Option<usize>)
    ensures
        at matches Some(i) ==> i < edges@.len() && edges@[i as int].from == from && edges@[i as int].to == to,
        at.is_none() ==> !connected(edges@, from, to),
{
    let mut i: usize = 0;
    while i < edges.len()
        invariant
            i <= edges@.len(),
            forall|t: int| 0 <= t < i ==> !((#[trigger] edges@[t]).from == from && edges@[t].to == to),
        decreases edges@.len() - i,
    {
        if edges[i].from == from && edges[i].to == to {
            return Some(i);
        }
        i += 1;
    }
    None
}

/// In a graph with one edge per pair, the level of a pair is the level of
/// the edge found for it.
pub proof fn lemma_edge_level(edges: Seq<TrustEdge>, i: int)
    requires
        single_edges(edges),
        0 <= i < edges.len(),
    ensures
        edge_level(edges, edges[i].from, edges[i].to) == Some(edges[i].level),
{
    let a = edges[i].from;
    let b = edges[i].to;
    let j = choose|j: int| 0 <= j < edges.len() && (#[trigger] edges[j]).from == a && edges[j].to == b;
    assert(j == i);
}

proof fn lemma_update_levels(edges: Seq<TrustEdge>, i: int, edge: TrustEdge)
    requires
        single_edges(edges),
        0 <= i < edges.len(),
        edges[i].from == edge.from,
        edges[i].to == edge.to,
    ensures
        single_edges(edges.update(i, edge)),
        edge_level(edges.update(i, edge), edge.from, edge.to) == Some(edge.level),
        forall|a: PersonId, b: PersonId|
            !(a == edge.from && b == edge.to) ==> #[trigger] edge_level(edges.update(i, edge), a, b) == edge_level(
                edges,
                a,
                b,
            ),
{
    let after = edges.update(i, edge);
    assert forall|x: int, y: int| 0 <= x < after.len() && 0 <= y < after.len() && x != y implies !((
    #[trigger] after[x]).from == (#[trigger] after[y]).from && after[x].to == after[y].to) by {
        assert(edges[x].from == after[x].from && edges[x].to == after[x].to);
        assert(edges[y].from == after[y].from && edges[y].to == after[y].to);
    }
    lemma_edge_level(after, i);
    assert forall|a: PersonId, b: PersonId| !(a == edge.from && b == edge.to) implies #[trigger] edge_level(
        after,
        a,
        b,
    ) == edge_level(edges, a, b) by {
        if connected(edges, a, b) {
            let j = choose|j: int| 0 <= j < edges.len() && (#[trigger] edges[j]).from == a && edges[j].to == b;
            assert(after[j] == edges[j]);
            lemma_edge_level(edges, j);
            lemma_edge_level(after, j);
        } else if connected(after, a, b) {
            let j = choose|j: int| 0 <= j < after.len() && (#[trigger] after[j]).from == a && after[j].to == b;
            assert(after[j] == edges[j]);
            assert(false);
        }
    }
}

proof fn lemma_push_levels(edges: Seq<TrustEdge>, edge: TrustEdge)
    requires
        single_edges(edges),
        !connected(edges, edge.from, edge.to),
    ensures
        single_edges(edges.push(edge)),
        edge_level(edges.push(edge), edge.from, edge.to) == Some(edge.level),
        forall|a: PersonId, b: PersonId|
            !(a == edge.from && b == edge.to) ==> #[trigger] edge_level(edges.push(edge), a, b) == edge_level(
                edges,
                a,
                b,
            ),
{
    let after = edges.push(edge);
    assert forall|x: int, y: int| 0 <= x < after.len() && 0 <= y < after.len() && x != y implies !((
    #[trigger] after[x]).from == (#[trigger] after[y]).from && after[x].to == after[y].to) by {
        if x < edges.len() {
            assert(after[x] == edges[x]);
        }
        if y < edges.len() {
            assert(after[y] == edges[y]);
        }
    }
    lemma_edge_level(after, edges.len() as int);
    assert forall|a: PersonId, b: PersonId| !(a == edge.from && b == edge.to) implies #[trigger] edge_level(
        after,
        a,
        b,
    ) == edge_level(edges, a, b) by {
        if connected(edges, a, b) {
            let j = choose|j: int| 0 <= j < edges.len() && (#[trigger] edges[j]).from == a && edges[j].to == b;
            assert(after[j] == edges[j]);
            lemma_edge_level(edges, j);
            lemma_edge_level(after, j);
        } else if connected(after, a, b) {
            let j = choose|j: int| 0 <= j < after.len() && (#[trigger] after[j]).from == a && after[j].to == b;
            assert(after[j] == edges[j]);
            assert(false);
        }
    }
}

proof fn lemma_remove_levels(edges: Seq<TrustEdge>, i: int)
    requires
        single_edges(edges),
        0 <= i < edges.len(),
    ensures
        single_edges(edges.remove(i)),
        edge_level(edges.remove(i), edges[i].from, edges[i].to).is_none(),
        forall|a: PersonId, b: PersonId|
            !(a == edges[i].from && b == edges[i].to) ==> #[trigger] edge_level(edges.remove(i), a, b)
                == edge_level(edges, a, b),
{
    let after = edges.remove(i);
    assert forall|x: int| 0 <= x < after.len() implies #[trigger] after[x] == edges[if x < i { x } else { x + 1 }] by {}
    assert forall|x: int, y: int| 0 <= x < after.len() && 0 <= y < after.len() && x != y implies !((
    #[trigger] after[x]).from == (#[trigger] after[y]).from && after[x].to == after[y].to) by {
        let ox = if x < i { x } else { x + 1 };
        let oy = if y < i { y } else { y + 1 };
        assert(after[x] == edges[ox]);
        assert(after[y] == edges[oy]);
    }
    if connected(after, edges[i].from, edges[i].to) {
        let j = choose|j: int|
            0 <= j < after.len() && (#[trigger] after[j]).from == edges[i].from && after[j].to == edges[i].to;
        let oj = if j < i { j } else { j + 1 };
        assert(after[j] == edges[oj]);
        assert(false);
    }
    assert forall|a: PersonId, b: PersonId| !(a == edges[i].from && b == edges[i].to) implies #[trigger] edge_level(
        after,
        a,
        b,
    ) == edge_level(edges, a, b) by {
        if connected(edges, a, b) {
            let j = choose|j: int| 0 <= j < edges.len() && (#[trigger] edges[j]).from == a && edges[j].to == b;
            let nj = if j < i { j } else { j - 1 };
            assert(after[nj] == edges[j]);
            lemma_edge_level(edges, j);
            lemma_edge_level(after, nj);
        } else if connected(after, a, b) {
            let j = choose|j: int| 0 <= j < after.len() && (#[trigger] after[j]).from == a && after[j].to == b;
            let oj = if j < i { j } else { j + 1 };
            assert(after[j] == edges[oj]);
            assert(false);
        }
    }
}


/// The position of the answer remembered for the pair.
fn cache_position(cache: &Vec<CachedPath>, from: PersonId, to: PersonId) -> (at: Option<usize>)
    ensures
        at matches Some(i) ==> i < cache@.len() && cache@[i as int].from == from && cache@[i as int].to == to,
        at.is_none() ==> forall|t: int| 0 <= t < cache@.len() ==> !((#[trigger] cache@[t]).from == from && cache@[t].to == to),
{
    let mut i: usize = 0;
    while i < cache.len()
        invariant
            i <= cache@.len(),
            forall|t: int| 0 <= t < i ==> !((#[trigger] cache@[t]).from == from && cache@[t].to == to),
        decreases cache@.len() - i,
    {
        if cache[i].from == from && cache[i].to == to {
            return Some(i);
        }
        i += 1;
    }
    None
}

/// Moving one entry of the cache to the back keeps every entry, so what
/// holds of each entry and of each two entries still holds.
proof fn lemma_moved_to_back(cache: Seq<CachedPath>, i: int)
    requires
        0 <= i < cache.len(),
    ensures
        forall|x: int|
            0 <= x < cache.len() ==> #[trigger] cache.remove(i).push(cache[i])[x] == cache[if x == cache.len() - 1 {
                i
            } else if x < i {
                x
            } else {
                x + 1
            }],
{
}


/// Adds `id` to the list unless it is there already.
fn add_person(people: &mut Vec<PersonId>, id: PersonId)
    requires
        old(people)@.no_duplicates(),
    ensures
        final(people)@.no_duplicates(),
        final(people)@.to_set() == old(people)@.to_set().insert(id),
{
    let mut k: usize = 0;
    while k < people.len()
        invariant
            k <= people@.len(),
            people@ == old(people)@,
            people@.no_duplicates(),
            forall|t: int| 0 <= t < k ==> people@[t] != id,
        decreases people@.len() - k,
    {
        if people[k] == id {
            proof {
                assert(people@.contains(id));
                assert(people@.to_set() =~= people@.to_set().insert(id));
            }
            return ;
        }
        k += 1;
    }
    let ghost before = people@;
    people.push(id);
    proof {
        assert forall|p: PersonId| people@.to_set().contains(p) <==> before.to_set().insert(id).contains(p) by {
            if people@.contains(p) {
                let t = choose|t: int| 0 <= t < people@.len() && people@[t] == p;
                if t < before.len() {
                    assert(before[t] == p);
                    assert(before.contains(p));
                }
            }
            if before.contains(p) {
                let t = choose|t: int| 0 <= t < before.len() && before[t] == p;
                assert(people@[t] == p);
            }
            if p == id {
                assert(people@[before.len() as int] == id);
            }
        }
        assert(people@.to_set() =~= before.to_set().insert(id));
    }
}

proof fn lemma_endpoints_step(edges: Seq<TrustEdge>, j: int)
    requires
        0 <= j < edges.len(),
    ensures
        endpoints(edges.take(j + 1)) == endpoints(edges.take(j)).insert(edges[j].from).insert(edges[j].to),
{
    let small = edges.take(j);
    let big = edges.take(j + 1);
    assert forall|p: PersonId| endpoints(big).contains(p) <==> endpoints(small).insert(edges[j].from).insert(
        edges[j].to,
    ).contains(p) by {
        if endpoints(big).contains(p) {
            let t = choose|t: int| 0 <= t < big.len() && ((#[trigger] big[t]).from == p || big[t].to == p);
            if t < j {
                assert(small[t] == big[t]);
            }
        }
        if endpoints(small).contains(p) {
            let t = choose|t: int| 0 <= t < small.len() && ((#[trigger] small[t]).from == p || small[t].to == p);
            assert(big[t] == small[t]);
        }
        if p == edges[j].from || p == edges[j].to {
            assert(big[j] == edges[j]);
        }
    }
    assert(endpoints(big) =~= endpoints(small).insert(edges[j].from).insert(edges[j].to));
}

} // verus!
