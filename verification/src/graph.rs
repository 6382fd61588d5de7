//! Load ordering on a dependency graph: a deterministic topological order
//! that prefers nodes with lower numbers, and the nodes that lie on a cycle
//! where the graph has one.

use vstd::prelude::*;

verus! {

/// Whether node `i` can be placed next: it is not placed yet, and every node
/// that it must come after is.
pub open spec fn ready(n: int, edges: Set<(int, int)>, placed: Seq<usize>, i: int) -> bool {
    &&& 0 <= i < n
    &&& !placed.contains(i as usize)
    &&& forall|b: int|
        0 <= b < n && #[trigger] edges.contains((i, b)) ==> placed.contains(b as usize)
}

/// The lowest node at or above `from` that is ready, if there is one.
pub open spec fn first_ready_from(
    n: int,
    edges: Set<(int, int)>,
    placed: Seq<usize>,
    from: int,
) -> Option<int>
    decreases n - from,
{
    if from >= n {
        None
    } else if ready(n, edges, placed, from) {
        Some(from)
    } else {
        first_ready_from(n, edges, placed, from + 1)
    }
}

/// `placed`, extended by up to `rounds` further nodes: each round appends the
/// lowest ready node, and the first round without one ends the run.
pub open spec fn extend_order(
    n: int,
    edges: Set<(int, int)>,
    placed: Seq<usize>,
    rounds: nat,
) -> Seq<usize>
    decreases rounds,
{
    if rounds == 0 {
        placed
    } else {
        match first_ready_from(n, edges, placed, 0) {
            None => placed,
            Some(i) => extend_order(n, edges, placed.push(i as usize), (rounds - 1) as nat),
        }
    }
}

/// The order in which the nodes `0 .. n` are placed, where an edge `(a, b)`
/// says that `a` comes after `b`. It holds all `n` nodes unless a cycle keeps
/// some of them back.
pub open spec fn load_order(n: int, edges: Set<(int, int)>) -> Seq<usize> {
    extend_order(n, edges, Seq::empty(), n as nat)
}

/// Whether an edge leads from node `i` of the path to the next.
pub open spec fn edge_at(edges: Set<(int, int)>, path: Seq<int>, i: int) -> bool {
    edges.contains((path[i], path[i + 1]))
}

/// Whether `path` is a walk: two nodes or more, each with an edge to the
/// next.
pub open spec fn is_walk(n: int, edges: Set<(int, int)>, path: Seq<int>) -> bool {
    &&& path.len() >= 2
    &&& forall|i: int| 0 <= i < path.len() ==> 0 <= #[trigger] path[i] < n
    &&& forall|i: int| 0 <= i < path.len() - 1 ==> #[trigger] edge_at(edges, path, i)
}

/// Whether some walk leads from `a` to `b`.
pub open spec fn reaches(n: int, edges: Set<(int, int)>, a: int, b: int) -> bool {
    exists|path: Seq<int>| #[trigger] is_walk(n, edges, path) && path[0] == a && path.last() == b
}

/// Whether node `v` lies on a cycle: a walk leads from it back to it.
pub open spec fn on_cycle(n: int, edges: Set<(int, int)>, v: int) -> bool {
    reaches(n, edges, v, v)
}

/// The nodes below `k` that lie on a cycle, ascending.
pub open spec fn cycle_nodes_below(n: int, edges: Set<(int, int)>, k: int) -> Seq<usize>
    decreases k,
{
    if k <= 0 {
        Seq::empty()
    } else if on_cycle(n, edges, k - 1) {
        cycle_nodes_below(n, edges, k - 1).push((k - 1) as usize)
    } else {
        cycle_nodes_below(n, edges, k - 1)
    }
}

/// The number of flags that are not set.
spec fn count_false(flags: Seq<bool>) -> nat
    decreases flags.len(),
{
    if flags.len() == 0 {
        0
    } else {
        count_false(flags.drop_last()) + if flags.last() {
            0nat
        } else {
            1nat
        }
    }
}

/// Whether `placed` is a valid partial order: its nodes are below `n`, none
/// occurs twice, and each stands behind everything it must come after.
pub open spec fn well_ordered(n: int, edges: Set<(int, int)>, placed: Seq<usize>) -> bool {
    &&& forall|p: int| 0 <= p < placed.len() ==> (#[trigger] placed[p]) < n
    &&& forall|p: int, q: int| 0 <= p < q < placed.len() ==> placed[p] != placed[q]
    &&& forall|p: int, b: int|
        0 <= p < placed.len() && 0 <= b < n && #[trigger] edges.contains((placed[p] as int, b))
            ==> placed.subrange(0, p).contains(b as usize)
}

/// What `first_ready_from` finds is ready and is the lowest such node from
/// `from` on; where it finds nothing, no node from `from` on is ready.
pub proof fn first_ready_is_lowest(n: int, edges: Set<(int, int)>, placed: Seq<usize>, from: int)
    requires
        0 <= from,
    ensures
        match first_ready_from(n, edges, placed, from) {
            Some(i) => from <= i < n && ready(n, edges, placed, i) && forall|j: int|
                from <= j < i ==> !ready(n, edges, placed, j),
            None => forall|j: int| from <= j ==> !ready(n, edges, placed, j),
        },
    decreases n - from,
{
    if from < n && !ready(n, edges, placed, from) {
        first_ready_is_lowest(n, edges, placed, from + 1);
    }
}

proof fn push_ready_keeps_well_ordered(n: int, edges: Set<(int, int)>, placed: Seq<usize>, i: int)
    requires
        n <= usize::MAX,
        well_ordered(n, edges, placed),
        ready(n, edges, placed, i),
    ensures
        well_ordered(n, edges, placed.push(i as usize)),
{
    let next = placed.push(i as usize);
    assert forall|p: int, q: int| 0 <= p < q < next.len() implies next[p] != next[q] by {
        if q == placed.len() {
            assert(placed[p] == next[p]);
        }
    }
    assert forall|p: int, b: int|
        0 <= p < next.len() && 0 <= b < n && #[trigger] edges.contains(
            (next[p] as int, b),
        ) implies next.subrange(0, p).contains(b as usize) by {
        if p < placed.len() {
            assert(next.subrange(0, p) =~= placed.subrange(0, p));
            assert(next[p] == placed[p]);
        } else {
            assert(next.subrange(0, p) =~= placed);
        }
    }
}

/// Extending a valid partial order keeps it valid and keeps what was placed
/// in front; a run that ends before its rounds are used up ends with no node
/// ready.
pub proof fn extend_order_properties(
    n: int,
    edges: Set<(int, int)>,
    placed: Seq<usize>,
    rounds: nat,
)
    requires
        n <= usize::MAX,
        well_ordered(n, edges, placed),
    ensures
        well_ordered(n, edges, extend_order(n, edges, placed, rounds)),
        placed.len() <= extend_order(n, edges, placed, rounds).len() <= placed.len() + rounds,
        extend_order(n, edges, placed, rounds).subrange(0, placed.len() as int) == placed,
        extend_order(n, edges, placed, rounds).len() < placed.len() + rounds ==> first_ready_from(
            n,
            edges,
            extend_order(n, edges, placed, rounds),
            0,
        ) is None,
    decreases rounds,
{
    let result = extend_order(n, edges, placed, rounds);
    if rounds == 0 {
        assert(result.subrange(0, placed.len() as int) =~= placed);
    } else {
        first_ready_is_lowest(n, edges, placed, 0);
        match first_ready_from(n, edges, placed, 0) {
            None => {
                assert(result.subrange(0, placed.len() as int) =~= placed);
            },
            Some(i) => {
                let next = placed.push(i as usize);
                push_ready_keeps_well_ordered(n, edges, placed, i);
                extend_order_properties(n, edges, next, (rounds - 1) as nat);
                assert(result.subrange(0, placed.len() as int) =~= result.subrange(
                    0,
                    next.len() as int,
                ).subrange(0, placed.len() as int));
                assert(next.subrange(0, placed.len() as int) =~= placed);
            },
        }
    }
}

/// The load order never holds a node twice, holds only nodes of the graph,
/// and places every node behind all the nodes that it must come after.
pub proof fn load_order_is_well_ordered(n: int, edges: Set<(int, int)>)
    requires
        0 <= n <= usize::MAX,
    ensures
        well_ordered(n, edges, load_order(n, edges)),
        load_order(n, edges).len() <= n,
{
    extend_order_properties(n, edges, Seq::empty(), n as nat);
}

/// In the load order a node stands behind each node that it must come after:
/// where `a` is placed and must come after `b`, `b` is placed earlier.
pub proof fn requirement_comes_first(n: int, edges: Set<(int, int)>, a: int, b: int, at: int)
    requires
        0 <= n <= usize::MAX,
        0 <= b < n,
        edges.contains((a, b)),
        0 <= at < load_order(n, edges).len(),
        load_order(n, edges)[at] == a,
    ensures
        exists|before: int| 0 <= before < at && load_order(n, edges)[before] == b,
{
    load_order_is_well_ordered(n, edges);
    let order = load_order(n, edges);
    assert(edges.contains((order[at] as int, b)));
    let front = order.subrange(0, at);
    assert(front.contains(b as usize));
    let before = choose|before: int| 0 <= before < front.len() && front[before] == b as usize;
    assert(order[before] == b);
}

/// Two nodes that each must come after the other are both kept back: neither
/// appears in the load order, which therefore is incomplete.
pub proof fn mutual_requirement_blocks_both(n: int, edges: Set<(int, int)>, a: int, b: int)
    requires
        0 <= n <= usize::MAX,
        0 <= a < n,
        0 <= b < n,
        edges.contains((a, b)),
        edges.contains((b, a)),
    ensures
        !load_order(n, edges).contains(a as usize),
        !load_order(n, edges).contains(b as usize),
        on_cycle(n, edges, a),
        on_cycle(n, edges, b),
{
    load_order_is_well_ordered(n, edges);
    let order = load_order(n, edges);
    if order.contains(a as usize) {
        let p = choose|p: int| 0 <= p < order.len() && order[p] == a as usize;
        requirement_comes_first(n, edges, a, b, p);
        let q = choose|q: int| 0 <= q < p && order[q] == b;
        requirement_comes_first(n, edges, b, a, q);
        let r = choose|r: int| 0 <= r < q && order[r] == a;
        assert(order[r] == order[p]);
    }
    if order.contains(b as usize) {
        let p = choose|p: int| 0 <= p < order.len() && order[p] == b as usize;
        requirement_comes_first(n, edges, b, a, p);
        let q = choose|q: int| 0 <= q < p && order[q] == a;
        assert(order.contains(a as usize));
    }
    let around_a = seq![a, b, a];
    assert(edge_at(edges, around_a, 0) && edge_at(edges, around_a, 1));
    assert(is_walk(n, edges, around_a));
    let around_b = seq![b, a, b];
    assert(edge_at(edges, around_b, 0) && edge_at(edges, around_b, 1));
    assert(is_walk(n, edges, around_b));
}

/// `cycle_nodes_below(n, edges, k)` holds exactly the nodes below `k` that
/// lie on a cycle.
pub proof fn cycle_nodes_are_the_nodes_on_cycles(n: int, edges: Set<(int, int)>, k: int, i: int)
    requires
        0 <= i <= usize::MAX,
        k <= usize::MAX,
    ensures
        cycle_nodes_below(n, edges, k).contains(i as usize) <==> (i < k && on_cycle(n, edges, i)),
    decreases k,
{
    if k > 0 {
        cycle_nodes_are_the_nodes_on_cycles(n, edges, k - 1, i);
        let rest = cycle_nodes_below(n, edges, k - 1);
        if on_cycle(n, edges, k - 1) {
            let all = rest.push((k - 1) as usize);
            if rest.contains(i as usize) {
                let p = choose|p: int| 0 <= p < rest.len() && rest[p] == i as usize;
                assert(all[p] == i as usize);
            }
            if i == k - 1 {
                assert(all[rest.len() as int] == i as usize);
            }
            if all.contains(i as usize) {
                let p = choose|p: int| 0 <= p < all.len() && all[p] == i as usize;
                if p < rest.len() {
                    assert(rest[p] == i as usize);
                }
            }
        }
    }
}

/// A walk leads backwards through the load order: where the start of a walk
/// is placed, its end is placed earlier.
pub proof fn walk_leads_to_earlier_node(n: int, edges: Set<(int, int)>, path: Seq<int>, at: int)
    requires
        0 <= n <= usize::MAX,
        is_walk(n, edges, path),
        0 <= at < load_order(n, edges).len(),
        load_order(n, edges)[at] == path[0],
    ensures
        exists|before: int| 0 <= before < at && load_order(n, edges)[before] == path.last(),
    decreases path.len(),
{
    let last = path.len() - 1;
    assert(edge_at(edges, path, last - 1));
    assert(0 <= path[last] < n);
    if path.len() == 2 {
        requirement_comes_first(n, edges, path[0], path[1], at);
    } else {
        let front = path.drop_last();
        assert forall|i: int| 0 <= i < front.len() - 1 implies #[trigger] edge_at(
            edges,
            front,
            i,
        ) by {
            assert(edge_at(edges, path, i));
        }
        assert(is_walk(n, edges, front));
        walk_leads_to_earlier_node(n, edges, front, at);
        let middle = choose|middle: int|
            0 <= middle < at && load_order(n, edges)[middle] == front.last();
        requirement_comes_first(n, edges, path[last - 1], path[last], middle);
    }
}

/// No node of the load order lies on a cycle.
pub proof fn placed_node_is_on_no_cycle(n: int, edges: Set<(int, int)>, v: int)
    requires
        0 <= n <= usize::MAX,
        0 <= v < n,
        load_order(n, edges).contains(v as usize),
    ensures
        !on_cycle(n, edges, v),
{
    load_order_is_well_ordered(n, edges);
    let order = load_order(n, edges);
    if on_cycle(n, edges, v) {
        let path = choose|path: Seq<int>| #[trigger]
            is_walk(n, edges, path) && path[0] == v && path.last() == v;
        let at = choose|at: int| 0 <= at < order.len() && order[at] == v as usize;
        walk_leads_to_earlier_node(n, edges, path, at);
        let before = choose|before: int| 0 <= before < at && order[before] == v;
        assert(order[before] == order[at]);
    }
}

/// The node reached from `start` after `k` steps, each to a node that was
/// kept back.
spec fn kept_back_walk(n: int, edges: Set<(int, int)>, start: int, k: nat) -> int
    decreases k,
{
    if k == 0 {
        start
    } else {
        let from = kept_back_walk(n, edges, start, (k - 1) as nat);
        choose|b: int|
            0 <= b < n && #[trigger] edges.contains((from, b)) && !load_order(n, edges).contains(
                b as usize,
            )
    }
}

proof fn kept_back_walk_stays_kept_back(n: int, edges: Set<(int, int)>, start: int, k: nat)
    requires
        0 <= n <= usize::MAX,
        0 <= start < n,
        load_order(n, edges).len() < n,
        !load_order(n, edges).contains(start as usize),
    ensures
        0 <= kept_back_walk(n, edges, start, k) < n,
        !load_order(n, edges).contains(kept_back_walk(n, edges, start, k) as usize),
        k > 0 ==> edges.contains(
            (kept_back_walk(n, edges, start, (k - 1) as nat), kept_back_walk(n, edges, start, k)),
        ),
    decreases k,
{
    if k > 0 {
        kept_back_walk_stays_kept_back(n, edges, start, (k - 1) as nat);
        kept_back_waits_for_kept_back(n, edges, kept_back_walk(n, edges, start, (k - 1) as nat));
    }
}

proof fn kept_back_walk_is_a_walk(n: int, edges: Set<(int, int)>, start: int, p: nat, q: nat)
    requires
        0 <= n <= usize::MAX,
        0 <= start < n,
        load_order(n, edges).len() < n,
        !load_order(n, edges).contains(start as usize),
        p < q,
    ensures
        reaches(n, edges, kept_back_walk(n, edges, start, p), kept_back_walk(n, edges, start, q)),
{
    let path = Seq::new((q - p + 1) as nat, |i: int| kept_back_walk(n, edges, start, (p + i) as nat));
    assert forall|i: int| 0 <= i < path.len() implies 0 <= #[trigger] path[i] < n by {
        kept_back_walk_stays_kept_back(n, edges, start, (p + i) as nat);
    }
    assert forall|i: int| 0 <= i < path.len() - 1 implies #[trigger] edge_at(edges, path, i) by {
        kept_back_walk_stays_kept_back(n, edges, start, (p + i + 1) as nat);
    }
    assert(is_walk(n, edges, path));
    assert(path[0] == kept_back_walk(n, edges, start, p));
    assert(path.last() == kept_back_walk(n, edges, start, q));
}

/// Whether the order holds node `i`.
spec fn holds_node(order: Seq<usize>, i: int) -> bool {
    order.contains(i as usize)
}

/// Where the load order is incomplete, some node lies on a cycle.
pub proof fn incomplete_order_has_cycle(n: int, edges: Set<(int, int)>)
    requires
        0 <= n <= usize::MAX,
        load_order(n, edges).len() < n,
    ensures
        exists|v: int| 0 <= v < n && on_cycle(n, edges, v),
{
    load_order_is_well_ordered(n, edges);
    let order = load_order(n, edges);
    // some node is kept back: else the places of all nodes were too many
    if forall|i: int| 0 <= i < n ==> #[trigger] holds_node(order, i) {
        let places = Seq::new(
            n as nat,
            |i: int| choose|p: int| 0 <= p < order.len() && order[p] == i as usize,
        );
        assert forall|i: int| 0 <= i < places.len() implies 0 <= #[trigger] places[i]
            < order.len() by {
            assert(holds_node(order, i));
        }
        assert forall|i: int, j: int| 0 <= i < j < places.len() implies places[i]
            != places[j] by {
            assert(holds_node(order, i));
            assert(holds_node(order, j));
        }
        distinct_nodes_are_few(places, order.len() as int);
    }
    let start = choose|i: int| 0 <= i < n && !#[trigger] holds_node(order, i);
    let visited = Seq::new((n + 1) as nat, |k: int| kept_back_walk(n, edges, start, k as nat));
    assert forall|k: int| 0 <= k < visited.len() implies 0 <= #[trigger] visited[k] < n by {
        kept_back_walk_stays_kept_back(n, edges, start, k as nat);
    }
    if forall|p: int, q: int| 0 <= p < q < visited.len() ==> visited[p] != visited[q] {
        distinct_nodes_are_few(visited, n);
    }
    let (p, q) = choose|p: int, q: int| 0 <= p < q < visited.len() && visited[p] == visited[q];
    kept_back_walk_is_a_walk(n, edges, start, p as nat, q as nat);
    kept_back_walk_stays_kept_back(n, edges, start, p as nat);
    assert(reaches(n, edges, visited[p], visited[q]));
    assert(on_cycle(n, edges, visited[p]));
}

/// The load order holds every node if and only if no node lies on a cycle.
pub proof fn order_is_complete_unless_cyclic(n: int, edges: Set<(int, int)>)
    requires
        0 <= n <= usize::MAX,
    ensures
        load_order(n, edges).len() == n <==> forall|v: int|
            0 <= v < n ==> !#[trigger] on_cycle(n, edges, v),
{
    load_order_is_well_ordered(n, edges);
    if load_order(n, edges).len() == n {
        assert forall|v: int| 0 <= v < n implies !#[trigger] on_cycle(n, edges, v) by {
            complete_order_holds_every_node(n, edges, load_order(n, edges), v);
            placed_node_is_on_no_cycle(n, edges, v);
        }
    } else {
        incomplete_order_has_cycle(n, edges);
    }
}

proof fn count_false_after_set(flags: Seq<bool>, i: int)
    requires
        0 <= i < flags.len(),
        !flags[i],
    ensures
        count_false(flags.update(i, true)) + 1 == count_false(flags),
    decreases flags.len(),
{
    if i == flags.len() - 1 {
        assert(flags.update(i, true).drop_last() =~= flags.drop_last());
    } else {
        assert(flags.update(i, true).drop_last() =~= flags.drop_last().update(i, true));
        count_false_after_set(flags.drop_last(), i);
    }
}

/// Where the load order is incomplete, every node that was kept back must
/// come after some node that was kept back too, so the nodes kept back hold
/// a cycle.
pub proof fn kept_back_waits_for_kept_back(n: int, edges: Set<(int, int)>, i: int)
    requires
        0 <= n <= usize::MAX,
        0 <= i < n,
        load_order(n, edges).len() < n,
        !load_order(n, edges).contains(i as usize),
    ensures
        exists|b: int|
            0 <= b < n && #[trigger] edges.contains((i, b)) && !load_order(n, edges).contains(
                b as usize,
            ),
{
    extend_order_properties(n, edges, Seq::empty(), n as nat);
    first_ready_is_lowest(n, edges, load_order(n, edges), 0);
    assert(!ready(n, edges, load_order(n, edges), i));
}


/// Distinct nodes below `bound` are at most `bound` many.
proof fn distinct_nodes_are_few(nodes: Seq<int>, bound: int)
    requires
        0 <= bound,
        forall|p: int| 0 <= p < nodes.len() ==> 0 <= #[trigger] nodes[p] < bound,
        forall|p: int, q: int| 0 <= p < q < nodes.len() ==> nodes[p] != nodes[q],
    ensures
        nodes.len() <= bound,
    decreases bound,
{
    if bound == 0 {
        if nodes.len() > 0 {
            assert(0 <= nodes[0] < bound);
        }
    } else if exists|p: int| 0 <= p < nodes.len() && nodes[p] == bound - 1 {
        let p = choose|p: int| 0 <= p < nodes.len() && nodes[p] == bound - 1;
        let rest = nodes.remove(p);
        assert forall|k: int| 0 <= k < rest.len() implies 0 <= #[trigger] rest[k] < bound - 1 by {
            if k < p {
                assert(rest[k] == nodes[k]);
            } else {
                assert(rest[k] == nodes[k + 1]);
            }
        }
        assert forall|k: int, m: int| 0 <= k < m < rest.len() implies rest[k] != rest[m] by {
            let k2 = if k < p { k } else { k + 1 };
            let m2 = if m < p { m } else { m + 1 };
            assert(rest[k] == nodes[k2]);
            assert(rest[m] == nodes[m2]);
        }
        distinct_nodes_are_few(rest, bound - 1);
    } else {
        assert forall|k: int| 0 <= k < nodes.len() implies 0 <= #[trigger] nodes[k] < bound - 1 by {
            assert(0 <= nodes[k] < bound);
        }
        distinct_nodes_are_few(nodes, bound - 1);
    }
}

/// A valid order that holds as many nodes as the graph has holds every node.
pub proof fn complete_order_holds_every_node(
    n: int,
    edges: Set<(int, int)>,
    order: Seq<usize>,
    i: int,
)
    requires
        0 <= n <= usize::MAX,
        well_ordered(n, edges, order),
        order.len() == n,
        0 <= i < n,
    ensures
        order.contains(i as usize),
{
    if !order.contains(i as usize) {
        let squeezed = Seq::new(
            order.len(),
            |p: int| if order[p] > i { order[p] as int - 1 } else { order[p] as int },
        );
        assert forall|p: int| 0 <= p < squeezed.len() implies 0 <= #[trigger] squeezed[p] < n
            - 1 by {
            assert(order[p] < n);
            assert(order.contains(order[p]));
        }
        assert forall|p: int, q: int| 0 <= p < q < squeezed.len() implies squeezed[p]
            != squeezed[q] by {
            assert(order[p] != order[q]);
            assert(order.contains(order[p]));
            assert(order.contains(order[q]));
        }
        distinct_nodes_are_few(squeezed, n - 1);
    }
}


proof fn free_nodes_go_in_order(n: int, edges: Set<(int, int)>, k: int)
    requires
        0 <= k <= n <= usize::MAX,
        forall|a: int, b: int| 0 <= a < n && 0 <= b < n ==> !edges.contains((a, b)),
    ensures
        extend_order(n, edges, Seq::new(k as nat, |i: int| i as usize), (n - k) as nat) == Seq::new(
            n as nat,
            |i: int| i as usize,
        ),
    decreases n - k,
{
    let placed = Seq::new(k as nat, |i: int| i as usize);
    if k == n {
    } else {
        first_ready_is_lowest(n, edges, placed, 0);
        assert(ready(n, edges, placed, k)) by {
            if placed.contains(k as usize) {
                let p = choose|p: int| 0 <= p < placed.len() && placed[p] == k as usize;
                assert(placed[p] == p as usize);
            }
        }
        let i = first_ready_from(n, edges, placed, 0)->0;
        assert(i == k) by {
            if i < k {
                assert(placed[i] == i as usize);
                assert(placed.contains(i as usize));
            }
        }
        assert(placed.push(k as usize) =~= Seq::new((k + 1) as nat, |i: int| i as usize));
        free_nodes_go_in_order(n, edges, k + 1);
    }
}

/// Where no node must come after another, the load order is the order in
/// which the nodes are numbered.
pub proof fn independent_nodes_keep_their_order(n: int, edges: Set<(int, int)>)
    requires
        0 <= n <= usize::MAX,
        forall|a: int, b: int| 0 <= a < n && 0 <= b < n ==> !edges.contains((a, b)),
    ensures
        load_order(n, edges) == Seq::new(n as nat, |i: int| i as usize),
{
    assert(Seq::new(0nat, |i: int| i as usize) =~= Seq::<usize>::empty());
    free_nodes_go_in_order(n, edges, 0);
}


/// A dependency graph in adjacency form.
pub struct DependencyGraph {
    /// For each node, the nodes that it must come after.
    pub after: Vec<Vec<usize>>,
}

impl DependencyGraph {
    /// Every listed node exists.
    pub open spec fn wf(&self) -> bool {
        forall|a: int, k: int|
            0 <= a < self.after@.len() && 0 <= k < self.after@[a]@.len() ==> (
            #[trigger] self.after@[a]@[k]) < self.after@.len()
    }

    /// The number of nodes.
    pub open spec fn size(&self) -> int {
        self.after@.len() as int
    }

    /// The edges as pairs `(a, b)`: `a` must come after `b`.
    pub open spec fn edges(&self) -> Set<(int, int)> {
        Set::new(
            |p: (int, int)|
                0 <= p.0 < self.after@.len() && 0 <= p.1 < self.after@.len()
                    && self.after@[p.0]@.contains(p.1 as usize),
        )
    }
}

fn all_placed(graph: &DependencyGraph, flags: &Vec<bool>, i: usize, Ghost(placed): Ghost<
    Seq<usize>,
>) -> (yes: bool)
    requires
        graph.wf(),
        i < graph.size(),
        flags@.len() == graph.size(),
        forall|j: int| 0 <= j < graph.size() ==> (flags@[j] <==> placed.contains(j as usize)),
    ensures
        yes == (forall|b: int|
            0 <= b < graph.size() && #[trigger] graph.edges().contains((i as int, b))
                ==> placed.contains(b as usize)),
{
    let list = &graph.after[i];
    let mut k: usize = 0;
    while k < list.len()
        invariant
            graph.wf(),
            i < graph.size(),
            list == &graph.after@[i as int],
            k <= list@.len(),
            flags@.len() == graph.size(),
            forall|j: int| 0 <= j < graph.size() ==> (flags@[j] <==> placed.contains(j as usize)),
            forall|m: int| 0 <= m < k ==> placed.contains(#[trigger] list@[m]),
        decreases list@.len() - k,
    {
        let b = list[k];
        assert(b < graph.size());
        if !flags[b] {
            proof {
                assert(list@.contains(b));
                assert(graph.edges().contains((i as int, b as int)));
            }
            return false;
        }
        k += 1;
    }
    proof {
        assert forall|b: int|
            0 <= b < graph.size() && #[trigger] graph.edges().contains(
                (i as int, b),
            ) implies placed.contains(b as usize) by {
            let m = choose|m: int| 0 <= m < list@.len() && list@[m] == b as usize;
            assert(placed.contains(list@[m]));
        }
    }
    true
}

fn next_ready(graph: &DependencyGraph, flags: &Vec<bool>, Ghost(placed): Ghost<Seq<usize>>) -> (next:
    Option<usize>)
    requires
        graph.wf(),
        flags@.len() == graph.size(),
        forall|j: int| 0 <= j < graph.size() ==> (flags@[j] <==> placed.contains(j as usize)),
    ensures
        match next {
            Some(i) => first_ready_from(graph.size(), graph.edges(), placed, 0) == Some(i as int)
                && i < graph.size() && ready(graph.size(), graph.edges(), placed, i as int),
            None => first_ready_from(graph.size(), graph.edges(), placed, 0) is None,
        },
{
    let n = graph.after.len();
    let mut i: usize = 0;
    while i < n
        invariant
            graph.wf(),
            n == graph.size(),
            i <= n,
            flags@.len() == graph.size(),
            forall|j: int| 0 <= j < graph.size() ==> (flags@[j] <==> placed.contains(j as usize)),
            first_ready_from(graph.size(), graph.edges(), placed, 0) == first_ready_from(
                graph.size(),
                graph.edges(),
                placed,
                i as int,
            ),
        decreases n - i,
    {
        if !flags[i] && all_placed(graph, flags, i, Ghost(placed)) {
            return Some(i);
        }
        i += 1;
    }
    None
}

/// Orders the nodes of `graph` so that each comes after the nodes it lists,
/// taking the lowest possible node at every step. Where a cycle keeps nodes
/// back, the error holds the nodes that lie on a cycle, ascending.
pub fn topological_order(graph: &DependencyGraph) -> (outcome: Result<Vec<usize>, Vec<usize>>)
    requires
        graph.wf(),
    ensures
        match outcome {
            Ok(order) => order@ == load_order(graph.size(), graph.edges()) && order@.len()
                == graph.size(),
            Err(cycle) => load_order(graph.size(), graph.edges()).len() < graph.size()
                && cycle@ == cycle_nodes_below(graph.size(), graph.edges(), graph.size()),
        },
{
    let n = graph.after.len();
    let mut flags: Vec<bool> = Vec::new();
    while flags.len() < n
        invariant
            flags@.len() <= n,
            forall|j: int| 0 <= j < flags@.len() ==> !flags@[j],
        decreases n - flags@.len(),
    {
        flags.push(false);
    }
    let mut order: Vec<usize> = Vec::new();
    while order.len() < n
        invariant
            graph.wf(),
            n == graph.size(),
            order@.len() <= n,
            flags@.len() == n,
            forall|j: int| 0 <= j < n ==> (flags@[j] <==> order@.contains(j as usize)),
            load_order(graph.size(), graph.edges()) == extend_order(
                graph.size(),
                graph.edges(),
                order@,
                (n - order@.len()) as nat,
            ),
        decreases n - order@.len(),
    {
        match next_ready(graph, &flags, Ghost(order@)) {
            None => {
                return Err(cycle_nodes(graph));
            },
            Some(i) => {
                let ghost before = order@;
                order.push(i);
                flags.set(i, true);
                proof {
                    assert forall|j: int| 0 <= j < n implies (flags@[j] <==> order@.contains(
                        j as usize,
                    )) by {
                        if j == i {
                            assert(order@[before.len() as int] == i);
                        } else if before.contains(j as usize) {
                            let p = choose|p: int| 0 <= p < before.len() && before[p] == j as usize;
                            assert(order@[p] == j as usize);
                        } else if order@.contains(j as usize) {
                            let p = choose|p: int| 0 <= p < order@.len() && order@[p] == j as usize;
                            assert(before[p] == j as usize);
                        }
                    }
                }
            },
        }
    }
    Ok(order)
}

/// Whether every flagged node among the first `count` has all the nodes
/// flagged that it must come after.
spec fn closed_below(graph: &DependencyGraph, flags: Seq<bool>, count: int) -> bool {
    forall|a: int, k: int|
        0 <= a < count && 0 <= k < graph.after@[a]@.len() && flags[a] ==> flags[(
        #[trigger] graph.after@[a]@[k]) as int]
}

/// Whether every flagged node can be reached from `v`.
spec fn flags_sound(graph: &DependencyGraph, flags: Seq<bool>, v: int) -> bool {
    forall|b: int|
        0 <= b < graph.size() && #[trigger] flags[b] ==> reaches(
            graph.size(),
            graph.edges(),
            v,
            b,
        )
}

/// Whether every node that `v` must come after is flagged.
spec fn seeds_flagged(graph: &DependencyGraph, flags: Seq<bool>, v: int, count: int) -> bool {
    forall|k: int| 0 <= k < count ==> flags[(#[trigger] graph.after@[v]@[k]) as int]
}

proof fn edge_extends_reach(graph: &DependencyGraph, v: int, a: int, k: int)
    requires
        graph.wf(),
        0 <= v < graph.size(),
        0 <= a < graph.size(),
        0 <= k < graph.after@[a]@.len(),
        a == v || reaches(graph.size(), graph.edges(), v, a),
    ensures
        reaches(graph.size(), graph.edges(), v, graph.after@[a]@[k] as int),
{
    let n = graph.size();
    let edges = graph.edges();
    let b = graph.after@[a]@[k];
    assert(b < n);
    assert(graph.after@[a]@.contains(b));
    assert(edges.contains((a, b as int)));
    if reaches(n, edges, v, a) {
        let path = choose|path: Seq<int>| #[trigger]
            is_walk(n, edges, path) && path[0] == v && path.last() == a;
        let longer = path.push(b as int);
        assert forall|i: int| 0 <= i < longer.len() - 1 implies #[trigger] edge_at(
            edges,
            longer,
            i,
        ) by {
            if i < path.len() - 1 {
                assert(edge_at(edges, path, i));
            }
        }
        assert(is_walk(n, edges, longer));
        assert(longer[0] == v && longer.last() == b as int);
    } else {
        let path = seq![v, b as int];
        assert(edge_at(edges, path, 0));
        assert(is_walk(n, edges, path));
        assert(path[0] == v && path.last() == b as int);
    }
}

proof fn closed_flags_hold_all_reached(graph: &DependencyGraph, flags: Seq<bool>, v: int, path: Seq<int>)
    requires
        graph.wf(),
        graph.size() <= usize::MAX,
        flags.len() == graph.size(),
        0 <= v < graph.size(),
        seeds_flagged(graph, flags, v, graph.after@[v]@.len() as int),
        closed_below(graph, flags, graph.size()),
        is_walk(graph.size(), graph.edges(), path),
        path[0] == v,
    ensures
        0 <= path.last() < graph.size(),
        flags[path.last()],
    decreases path.len(),
{
    let n = graph.size();
    let edges = graph.edges();
    let last = path.len() - 1;
    let b = path[last];
    let m = path[last - 1];
    assert(edge_at(edges, path, last - 1));
    assert(0 <= b < n && 0 <= m < n);
    assert(graph.after@[m]@.contains(b as usize));
    let k = choose|k: int| 0 <= k < graph.after@[m]@.len() && graph.after@[m]@[k] == b as usize;
    if path.len() == 2 {
        assert(flags[graph.after@[v]@[k] as int]);
    } else {
        let front = path.drop_last();
        assert forall|i: int| 0 <= i < front.len() - 1 implies #[trigger] edge_at(
            edges,
            front,
            i,
        ) by {
            assert(edge_at(edges, path, i));
        }
        assert(is_walk(n, edges, front));
        closed_flags_hold_all_reached(graph, flags, v, front);
        assert(flags[graph.after@[m]@[k] as int]);
    }
}

/// Flags every node that `from` must come after, and says whether a flag
/// was newly set. `from` is `v` itself or a node reached from `v`.
fn flag_successors(graph: &DependencyGraph, flags: &mut Vec<bool>, from: usize, Ghost(v): Ghost<
    int,
>) -> (changed: bool)
    requires
        graph.wf(),
        old(flags)@.len() == graph.size(),
        0 <= v < graph.size(),
        from < graph.size(),
        from == v || reaches(graph.size(), graph.edges(), v, from as int),
        flags_sound(graph, old(flags)@, v),
    ensures
        final(flags)@.len() == graph.size(),
        flags_sound(graph, final(flags)@, v),
        forall|b: int| 0 <= b < graph.size() && old(flags)@[b] ==> final(flags)@[b],
        seeds_flagged(graph, final(flags)@, from as int, graph.after@[from as int]@.len() as int),
        changed ==> count_false(final(flags)@) < count_false(old(flags)@),
        !changed ==> final(flags)@ == old(flags)@,
{
    let list = &graph.after[from];
    let mut changed = false;
    let mut k: usize = 0;
    while k < list.len()
        invariant
            graph.wf(),
            flags@.len() == graph.size(),
            0 <= v < graph.size(),
            from < graph.size(),
            from == v || reaches(graph.size(), graph.edges(), v, from as int),
            list == &graph.after@[from as int],
            k <= list@.len(),
            flags_sound(graph, flags@, v),
            forall|b: int| 0 <= b < graph.size() && old(flags)@[b] ==> flags@[b],
            seeds_flagged(graph, flags@, from as int, k as int),
            changed ==> count_false(flags@) < count_false(old(flags)@),
            !changed ==> flags@ == old(flags)@,
        decreases list@.len() - k,
    {
        let b = list[k];
        assert(b < graph.size());
        if !flags[b] {
            proof {
                edge_extends_reach(graph, v, from as int, k as int);
                count_false_after_set(flags@, b as int);
            }
            flags.set(b, true);
            changed = true;
        }
        k += 1;
    }
    changed
}

/// One pass over all nodes: every flagged node passes its flag on to the
/// nodes it must come after.
fn sweep(graph: &DependencyGraph, flags: &mut Vec<bool>, Ghost(v): Ghost<int>) -> (changed: bool)
    requires
        graph.wf(),
        old(flags)@.len() == graph.size(),
        0 <= v < graph.size(),
        flags_sound(graph, old(flags)@, v),
    ensures
        final(flags)@.len() == graph.size(),
        flags_sound(graph, final(flags)@, v),
        forall|b: int| 0 <= b < graph.size() && old(flags)@[b] ==> final(flags)@[b],
        changed ==> count_false(final(flags)@) < count_false(old(flags)@),
        !changed ==> final(flags)@ == old(flags)@ && closed_below(
            graph,
            final(flags)@,
            graph.size(),
        ),
{
    let n = graph.after.len();
    let mut changed = false;
    let mut a: usize = 0;
    while a < n
        invariant
            graph.wf(),
            n == graph.size(),
            a <= n,
            flags@.len() == graph.size(),
            0 <= v < graph.size(),
            flags_sound(graph, flags@, v),
            forall|b: int| 0 <= b < graph.size() && old(flags)@[b] ==> flags@[b],
            changed ==> count_false(flags@) < count_false(old(flags)@),
            !changed ==> flags@ == old(flags)@ && closed_below(graph, flags@, a as int),
        decreases n - a,
    {
        if flags[a] {
            let ghost before = flags@;
            let newly = flag_successors(graph, flags, a, Ghost(v));
            if newly {
                changed = true;
            } else {
                assert(!changed ==> closed_below(graph, flags@, a + 1));
            }
        } else {
            assert(!changed ==> closed_below(graph, flags@, a + 1));
        }
        a += 1;
    }
    changed
}

/// The nodes that can be reached from `v` by one edge or more.
fn reachable_from(graph: &DependencyGraph, v: usize) -> (flags: Vec<bool>)
    requires
        graph.wf(),
        v < graph.size(),
    ensures
        flags@.len() == graph.size(),
        forall|b: int|
            0 <= b < graph.size() ==> (flags@[b] <==> reaches(
                graph.size(),
                graph.edges(),
                v as int,
                b,
            )),
{
    let n = graph.after.len();
    let mut flags: Vec<bool> = Vec::new();
    while flags.len() < n
        invariant
            flags@.len() <= n,
            forall|j: int| 0 <= j < flags@.len() ==> !flags@[j],
        decreases n - flags@.len(),
    {
        flags.push(false);
    }
    let seeded = flag_successors(graph, &mut flags, v, Ghost(v as int));
    let mut go = true;
    while go
        invariant
            graph.wf(),
            n == graph.size(),
            v < n,
            flags@.len() == n,
            flags_sound(graph, flags@, v as int),
            seeds_flagged(graph, flags@, v as int, graph.after@[v as int]@.len() as int),
            !go ==> closed_below(graph, flags@, n as int),
        decreases count_false(flags@) + if go { 1nat } else { 0nat },
    {
        let ghost before = flags@;
        let changed = sweep(graph, &mut flags, Ghost(v as int));
        proof {
            assert forall|k: int| 0 <= k < graph.after@[v as int]@.len() implies flags@[(
            #[trigger] graph.after@[v as int]@[k]) as int] by {
                assert(before[graph.after@[v as int]@[k] as int]);
            }
        }
        go = changed;
    }
    proof {
        assert forall|b: int| 0 <= b < graph.size() && reaches(
            graph.size(),
            graph.edges(),
            v as int,
            b,
        ) implies flags@[b] by {
            let path = choose|path: Seq<int>| #[trigger]
                is_walk(graph.size(), graph.edges(), path) && path[0] == v as int && path.last()
                    == b;
            closed_flags_hold_all_reached(graph, flags@, v as int, path);
        }
    }
    flags
}

/// The nodes of `graph` that lie on a cycle, ascending.
pub fn cycle_nodes(graph: &DependencyGraph) -> (nodes: Vec<usize>)
    requires
        graph.wf(),
    ensures
        nodes@ == cycle_nodes_below(graph.size(), graph.edges(), graph.size()),
{
    let n = graph.after.len();
    let mut nodes: Vec<usize> = Vec::new();
    let mut v: usize = 0;
    while v < n
        invariant
            graph.wf(),
            n == graph.size(),
            v <= n,
            nodes@ == cycle_nodes_below(graph.size(), graph.edges(), v as int),
        decreases n - v,
    {
        let flags = reachable_from(graph, v);
        if flags[v] {
            nodes.push(v);
        }
        v += 1;
    }
    nodes
}

} // verus!
