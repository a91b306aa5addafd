//! Building the routing tree: a breadth-first search from the ground
//! station over the inter-satellite links.
use vstd::prelude::*;
use std::collections::VecDeque;
use crate::geometry::{Point, in_scene, dist2, line_of_sight, has_line_of_sight, distance_squared, COORD_LIMIT};
use crate::text::{has_text, text_contains};

verus! {

broadcast use vstd::std_specs::vecdeque::group_vec_dequeue_axioms;

/// Where a satellite forwards its traffic towards the ground.
#[derive(Debug, Clone, Copy, PartialEq, Eq, Structural)]
pub enum Parent {
    /// No route.
    Unlinked,
    /// Straight to the ground station.
    Station,
    /// Through the satellite with this index.
    Satellite(usize),
}

/// The spec-level description of a network snapshot.
pub struct Network {
    /// Current positions, thousandths of a scene unit.
    pub pos: Seq<Point>,
    /// Which satellites may join the tree through another satellite.
    pub eligible: Seq<bool>,
    /// Planet radius, thousandths of a scene unit.
    pub radius: i64,
    /// Longest inter-satellite link, thousandths of a scene unit.
    pub max_range: i64,
    /// With the hardware link lock the whole range is usable; without it a
    /// fifth of it is lost to link detection.
    pub fast_lock: bool,
}

/// Position of the ground station: on the planet's surface, straight up.
pub open spec fn station_point(radius: i64) -> Point {
    Point { x: 0, y: radius, z: 0 }
}

/// A link of squared length `dd` is within the usable range.
pub open spec fn in_range(dd: int, max_range: int, fast_lock: bool) -> bool {
    if max_range < 0 {
        false
    } else if fast_lock {
        dd <= max_range * max_range
    } else {
        25 * dd <= 16 * (max_range * max_range)
    }
}

/// A link of squared length `dd` is strictly shorter than the usable range.
pub open spec fn strictly_in_range(dd: int, max_range: int, fast_lock: bool) -> bool {
    if max_range < 0 {
        false
    } else if fast_lock {
        dd < max_range * max_range
    } else {
        25 * dd < 16 * (max_range * max_range)
    }
}

/// A link of squared length `dd` is longer than four fifths of the usable range.
pub open spec fn near_range_edge(dd: int, max_range: int, fast_lock: bool) -> bool {
    if max_range < 0 {
        true
    } else if fast_lock {
        25 * dd > 16 * (max_range * max_range)
    } else {
        625 * dd > 256 * (max_range * max_range)
    }
}

/// A satellite at `a` can open a link to one at `b`.
pub open spec fn link_ok(a: Point, b: Point, radius: i64, max_range: i64, fast_lock: bool) -> bool {
    in_range(dist2(a, b), max_range as int, fast_lock) && line_of_sight(a, b, radius as int)
}

pub open spec fn edge(net: Network, j: int, i: int) -> bool {
    link_ok(net.pos[j], net.pos[i], net.radius, net.max_range, net.fast_lock)
}

/// The satellite sees the ground station directly.
pub open spec fn visible(net: Network, i: int) -> bool {
    line_of_sight(net.pos[i], station_point(net.radius), net.radius as int)
}

/// `path` is a chain of links that starts at a satellite seeing the
/// ground station and continues only through eligible satellites.
pub open spec fn relay_path(net: Network, path: Seq<int>) -> bool {
    &&& path.len() >= 1
    &&& forall|m: int| 0 <= m < path.len() ==> 0 <= #[trigger] path[m] < net.pos.len()
    &&& visible(net, path[0])
    &&& forall|m: int| 1 <= m < path.len() ==> net.eligible[#[trigger] path[m]] && edge(net, path[m - 1], path[m])
}

/// The satellite is connected to the ground through some chain of links.
pub open spec fn connected(net: Network, i: int) -> bool {
    exists|path: Seq<int>| #[trigger] relay_path(net, path) && path.last() == i
}

/// The state of the breadth-first search.
pub struct Search {
    pub marked: Seq<bool>,
    pub parent: Seq<Parent>,
    pub order: Seq<usize>,
    pub head: int,
    /// Hops from the ground station along the tree (zero while unreached).
    pub level: Seq<nat>,
}

/// The first `k` satellites, each marked when it sees the station.
pub open spec fn seed(net: Network, k: nat) -> Search
    decreases k,
{
    if k == 0 {
        Search { marked: Seq::empty(), parent: Seq::empty(), order: Seq::empty(), head: 0, level: Seq::empty() }
    } else {
        let s = seed(net, (k - 1) as nat);
        let i = k - 1;
        if visible(net, i) {
            Search {
                marked: s.marked.push(true),
                parent: s.parent.push(Parent::Station),
                order: s.order.push(i as usize),
                head: 0,
                level: s.level.push(1),
            }
        } else {
            Search {
                marked: s.marked.push(false),
                parent: s.parent.push(Parent::Unlinked),
                order: s.order,
                head: 0,
                level: s.level.push(0),
            }
        }
    }
}

/// Satellites `0..k` looked at from `cur`: each unmarked, eligible one
/// that `cur` links to is marked, gets `cur` as parent and is queued.
pub open spec fn expand(net: Network, s: Search, cur: usize, k: nat) -> Search
    decreases k,
{
    if k == 0 {
        s
    } else {
        let e = expand(net, s, cur, (k - 1) as nat);
        let i = k - 1;
        if !e.marked[i] && net.eligible[i] && edge(net, cur as int, i) {
            Search {
                marked: e.marked.update(i, true),
                parent: e.parent.update(i, Parent::Satellite(cur)),
                order: e.order.push(i as usize),
                head: e.head,
                level: e.level.update(i, e.level[cur as int] + 1),
            }
        } else {
            e
        }
    }
}

/// Processing the next queued satellite.
pub open spec fn search_step(net: Network, s: Search) -> Search {
    let e = expand(net, s, s.order[s.head], net.pos.len());
    Search { head: s.head + 1, ..e }
}

pub open spec fn search_run(net: Network, s: Search, fuel: nat) -> Search
    decreases fuel,
{
    if fuel == 0 || s.head >= s.order.len() {
        s
    } else {
        search_run(net, search_step(net, s), (fuel - 1) as nat)
    }
}

/// The finished breadth-first search from the ground station.
pub open spec fn search(net: Network) -> Search {
    search_run(net, seed(net, net.pos.len()), net.pos.len())
}

/// Number of `true` entries.
pub open spec fn count_true(s: Seq<bool>) -> nat
    decreases s.len(),
{
    if s.len() == 0 {
        0
    } else {
        count_true(s.drop_last()) + if s.last() { 1nat } else { 0nat }
    }
}

proof fn lemma_count_push(s: Seq<bool>, b: bool)
    ensures
        count_true(s.push(b)) == count_true(s) + if b { 1nat } else { 0nat },
{
    assert(s.push(b).drop_last() =~= s);
}

/// The count never exceeds the length.
proof fn lemma_count_le_len(s: Seq<bool>)
    ensures
        count_true(s) <= s.len(),
    decreases s.len(),
{
    if s.len() > 0 {
        lemma_count_le_len(s.drop_last());
    }
}

/// Setting an unset entry raises the count by one.
proof fn lemma_count_update(s: Seq<bool>, i: int)
    requires
        0 <= i < s.len(),
        !s[i],
    ensures
        count_true(s.update(i, true)) == count_true(s) + 1,
    decreases s.len(),
{
    if i == s.len() - 1 {
        assert(s.update(i, true).drop_last() =~= s.drop_last());
    } else {
        lemma_count_update(s.drop_last(), i);
        assert(s.update(i, true).drop_last() =~= s.drop_last().update(i, true));
    }
}

/// The parent reached from `p` in one hop. A parent that is no satellite of
/// the list is taken for the ground: the walk ends there as if it had
/// reached the station.
pub open spec fn hop(parent: Seq<Parent>, p: Parent) -> Parent {
    match p {
        Parent::Satellite(j) => if j < parent.len() { parent[j as int] } else { Parent::Station },
        _ => p,
    }
}

/// The parent reached from `p` in `k` hops.
pub open spec fn walk(parent: Seq<Parent>, p: Parent, k: nat) -> Parent
    decreases k,
{
    if k == 0 {
        p
    } else {
        walk(parent, hop(parent, p), (k - 1) as nat)
    }
}

/// Following the parents from satellite `i` ends at the ground station.
pub open spec fn leads_to_station(parent: Seq<Parent>, i: usize) -> bool {
    exists|k: nat| #[trigger] walk(parent, Parent::Satellite(i), k) == Parent::Station
}

/// The invariant of the breadth-first search.
pub open spec fn search_wf(net: Network, s: Search) -> bool {
    let n = net.pos.len();
    &&& net.eligible.len() == n
    &&& s.marked.len() == n
    &&& s.parent.len() == n
    &&& 0 <= s.head <= s.order.len()
    &&& s.order.len() == count_true(s.marked)
    &&& forall|a: int| 0 <= a < s.order.len() ==> (#[trigger] s.order[a]) < n && s.marked[s.order[a] as int]
    &&& forall|i: int| 0 <= i < n && #[trigger] s.marked[i] ==> exists|a: int| 0 <= a < s.order.len() && s.order[a] == i
    &&& forall|i: int| 0 <= i < n ==> ((#[trigger] s.parent[i] == Parent::Station) <==> visible(net, i))
    &&& forall|i: int| 0 <= i < n ==> (s.marked[i] <==> #[trigger] s.parent[i] != Parent::Unlinked)
    &&& forall|i: int| 0 <= i < n && (#[trigger] s.parent[i] is Satellite) ==> {
        let j = s.parent[i]->0;
        j < n && s.marked[j as int] && edge(net, j as int, i) && net.eligible[i]
    }
    &&& forall|i: int| 0 <= i < n && #[trigger] s.marked[i] ==> connected(net, i)
    &&& forall|b: int| 0 <= b < s.order.len() && (#[trigger] s.parent[s.order[b] as int] is Satellite) ==>
        exists|a: int| 0 <= a < b && s.order[a] == s.parent[s.order[b] as int]->0
    &&& forall|a: int, i: int| #![trigger s.order[a], s.marked[i]]
        0 <= a < s.head && 0 <= i < n && net.eligible[i] && edge(net, s.order[a] as int, i) ==> s.marked[i]
}

/// A relay path extended by an eligible satellite that its last satellite
/// links to is a relay path to that satellite.
pub proof fn lemma_path_extend(net: Network, path: Seq<int>, i: int)
    requires
        relay_path(net, path),
        0 <= i < net.pos.len(),
        edge(net, path.last(), i),
        net.eligible[i],
    ensures
        relay_path(net, path.push(i)),
        connected(net, i),
{
    let p2 = path.push(i);
    assert forall|m: int| 1 <= m < p2.len() implies net.eligible[#[trigger] p2[m]] && edge(net, p2[m - 1], p2[m]) by {
        if m < path.len() {
            assert(p2[m] == path[m] && p2[m - 1] == path[m - 1]);
        }
    }
    assert(p2.last() == i);
}

proof fn lemma_complete(net: Network, s: Search, path: Seq<int>)
    requires
        search_wf(net, s),
        s.head == s.order.len(),
        relay_path(net, path),
    ensures
        s.marked[path.last()],
    decreases path.len(),
{
    let n = net.pos.len();
    if path.len() == 1 {
        assert(s.parent[path[0]] == Parent::Station);
    } else {
        let prefix = path.drop_last();
        assert forall|m: int| 1 <= m < prefix.len() implies net.eligible[#[trigger] prefix[m]] && edge(net, prefix[m - 1], prefix[m]) by {
            assert(prefix[m] == path[m] && prefix[m - 1] == path[m - 1]);
        }
        assert forall|m: int| 0 <= m < prefix.len() implies 0 <= #[trigger] prefix[m] < n by {
            assert(prefix[m] == path[m]);
        }
        assert(prefix[0] == path[0]);
        lemma_complete(net, s, prefix);
        let j = prefix.last();
        let i = path.last();
        assert(j == path[path.len() - 2]);
        assert(0 <= i < n);
        assert(net.eligible[path[path.len() - 1]] && edge(net, path[path.len() - 2], path[path.len() - 1]));
        assert(s.marked[j]);
        let a = choose|a: int| 0 <= a < s.order.len() && s.order[a] == j;
        assert(s.order[a] == j);
        assert(s.marked[i]);
    }
}

proof fn lemma_tree(net: Network, s: Search, b: int)
    requires
        search_wf(net, s),
        0 <= b < s.order.len(),
    ensures
        leads_to_station(s.parent, s.order[b]),
    decreases b,
{
    let i = s.order[b];
    assert(s.order[b] < net.pos.len() && s.marked[i as int]);
    assert(s.parent[i as int] != Parent::Unlinked);
    if s.parent[i as int] == Parent::Station {
        assert(walk(s.parent, Parent::Station, 0) == Parent::Station);
        assert(walk(s.parent, Parent::Satellite(i), 1) == Parent::Station);
    } else {
        assert(s.parent[i as int] is Satellite);
        let a = choose|a: int| 0 <= a < b && s.order[a] == s.parent[s.order[b] as int]->0;
        lemma_tree(net, s, a);
        let j = s.order[a];
        let k = choose|k: nat| #[trigger] walk(s.parent, Parent::Satellite(j), k) == Parent::Station;
        assert(hop(s.parent, Parent::Satellite(i)) == Parent::Satellite(j));
        assert(walk(s.parent, Parent::Satellite(i), k + 1) == Parent::Station);
    }
}

pub open spec fn mark(s: Search, i: usize, cur: usize) -> Search {
    Search {
        marked: s.marked.update(i as int, true),
        parent: s.parent.update(i as int, Parent::Satellite(cur)),
        order: s.order.push(i),
        head: s.head,
        level: s.level.update(i as int, s.level[cur as int] + 1),
    }
}

proof fn lemma_mark(net: Network, s: Search, cur: usize, iu: usize)
    requires
        search_wf(net, s),
        s.head < s.order.len(),
        cur == s.order[s.head],
        0 <= iu < net.pos.len(),
        !s.marked[iu as int],
        net.eligible[iu as int],
        edge(net, cur as int, iu as int),
    ensures
        search_wf(net, mark(s, iu, cur)),
{
    let i = iu as int;
    let n = net.pos.len();
    let t = mark(s, iu, cur);
    lemma_count_update(s.marked, i);
    assert(cur < n && s.marked[cur as int]);
    assert(connected(net, cur as int));
    let path = choose|path: Seq<int>| #[trigger] relay_path(net, path) && path.last() == cur as int;
    lemma_path_extend(net, path, i);
    assert(s.parent[i] == Parent::Unlinked);
    assert(!visible(net, i));
    assert forall|a: int| 0 <= a < t.order.len() implies (#[trigger] t.order[a]) < n && t.marked[t.order[a] as int] by {
        if a < s.order.len() {
            assert(t.order[a] == s.order[a]);
            assert(s.order[a] < n && s.marked[s.order[a] as int]);
            assert(s.order[a] != i);
        } else {
            assert(t.order[a] == i);
        }
    }
    assert forall|x: int| 0 <= x < n && #[trigger] t.marked[x] implies exists|a: int| 0 <= a < t.order.len() && t.order[a] == x by {
        if x == i {
            assert(t.order[s.order.len() as int] == x);
        } else {
            assert(s.marked[x]);
            let a = choose|a: int| 0 <= a < s.order.len() && s.order[a] == x;
            assert(t.order[a] == x);
        }
    }
    assert forall|x: int| 0 <= x < n && #[trigger] t.marked[x] implies connected(net, x) by {
        if x != i {
            assert(s.marked[x]);
        }
    }
    assert forall|x: int| 0 <= x < n && (#[trigger] t.parent[x] is Satellite) implies ({
        let j = t.parent[x]->0;
        j < n && t.marked[j as int] && edge(net, j as int, x) && net.eligible[x]
    }) by {
        if x != i {
            assert(s.parent[x] is Satellite);
        }
    }
    assert forall|b: int| 0 <= b < t.order.len() && (#[trigger] t.parent[t.order[b] as int] is Satellite) implies
        exists|a: int| 0 <= a < b && t.order[a] == t.parent[t.order[b] as int]->0 by {
        if b == s.order.len() {
            assert(t.order[b] == i);
            assert(t.order[s.head] == cur);
        } else {
            assert(t.order[b] == s.order[b]);
            assert(s.order[b] != i);
            assert(s.parent[s.order[b] as int] is Satellite);
            let a = choose|a: int| 0 <= a < b && s.order[a] == s.parent[s.order[b] as int]->0;
            assert(t.order[a] == s.order[a]);
        }
    }
    assert forall|a: int, x: int| #![trigger t.order[a], t.marked[x]]
        0 <= a < t.head && 0 <= x < n && net.eligible[x] && edge(net, t.order[a] as int, x) implies t.marked[x] by {
        assert(t.order[a] == s.order[a]);
        if x != i {
            assert(s.marked[x]);
        }
    }
    assert forall|x: int| 0 <= x < n implies ((#[trigger] t.parent[x] == Parent::Station) <==> visible(net, x)) by {
        if x != i {
            assert(s.parent[x] == t.parent[x]);
        }
    }
    assert forall|x: int| 0 <= x < n implies (t.marked[x] <==> #[trigger] t.parent[x] != Parent::Unlinked) by {
        if x != i {
            assert(s.parent[x] == t.parent[x]);
        }
    }
}

proof fn lemma_advance(net: Network, s: Search)
    requires
        search_wf(net, s),
        s.head < s.order.len(),
        forall|k: int| 0 <= k < net.pos.len() && net.eligible[k] && edge(net, s.order[s.head] as int, k) ==> #[trigger] s.marked[k],
    ensures
        search_wf(net, Search { head: s.head + 1, ..s }),
{
    let t = Search { head: s.head + 1, ..s };
    assert forall|a: int, x: int| #![trigger t.order[a], t.marked[x]]
        0 <= a < t.head && 0 <= x < net.pos.len() && net.eligible[x] && edge(net, t.order[a] as int, x) implies t.marked[x] by {
        if a < s.head {
            assert(s.order[a] == t.order[a]);
        }
    }
}

/// What seeding the first `k` satellites gives.
proof fn lemma_seed(net: Network, k: nat)
    requires
        k <= net.pos.len(),
        net.pos.len() <= usize::MAX,
    ensures
        ({
            let s = seed(net, k);
            &&& s.marked.len() == k
            &&& s.parent.len() == k
            &&& s.head == 0
            &&& s.order.len() == count_true(s.marked)
            &&& forall|a: int| 0 <= a < s.order.len() ==> (#[trigger] s.order[a]) < k && s.marked[s.order[a] as int]
            &&& forall|x: int| 0 <= x < k && #[trigger] s.marked[x] ==> exists|a: int| 0 <= a < s.order.len() && s.order[a] == x
            &&& forall|x: int| 0 <= x < k ==> (s.marked[x] <==> visible(net, x))
            &&& forall|x: int| 0 <= x < k ==> (#[trigger] s.parent[x] == (if visible(net, x) { Parent::Station } else { Parent::Unlinked }))
            &&& s.level.len() == k
            &&& forall|x: int| 0 <= x < k ==> #[trigger] s.level[x] == (if visible(net, x) { 1nat } else { 0nat })
        }),
    decreases k,
{
    if k > 0 {
        lemma_seed(net, (k - 1) as nat);
        let p = seed(net, (k - 1) as nat);
        let s = seed(net, k);
        let i = k - 1;
        lemma_count_push(p.marked, visible(net, i));
        assert forall|x: int| 0 <= x < k && #[trigger] s.marked[x] implies exists|a: int| 0 <= a < s.order.len() && s.order[a] == x by {
            if x == i {
                assert(s.order[s.order.len() - 1] == x);
            } else {
                assert(p.marked[x]);
                let a = choose|a: int| 0 <= a < p.order.len() && p.order[a] == x;
                assert(s.order[a] == x);
            }
        }
        assert forall|a: int| 0 <= a < s.order.len() implies (#[trigger] s.order[a]) < k && s.marked[s.order[a] as int] by {
            if a < p.order.len() {
                assert(s.order[a] == p.order[a]);
            }
        }
    }
}

/// The seeded search is well formed.
proof fn lemma_seed_wf(net: Network)
    requires
        net.eligible.len() == net.pos.len(),
        net.pos.len() <= usize::MAX,
    ensures
        search_wf(net, seed(net, net.pos.len())),
{
    let n = net.pos.len();
    lemma_seed(net, n);
    lemma_count_le_len(seed(net, n).marked);
    let s = seed(net, n);
    assert forall|x: int| 0 <= x < n && #[trigger] s.marked[x] implies connected(net, x) by {
        let path = seq![x];
        assert(path[0] == x);
        assert(relay_path(net, path));
    }
}

/// Expanding from the satellite at the head of the queue keeps the search
/// well formed and links every eligible satellite in reach.
proof fn lemma_expand(net: Network, s: Search, cur: usize, k: nat)
    requires
        search_wf(net, s),
        s.head < s.order.len(),
        cur == s.order[s.head],
        k <= net.pos.len(),
        net.pos.len() <= usize::MAX,
    ensures
        ({
            let e = expand(net, s, cur, k);
            &&& search_wf(net, e)
            &&& e.head == s.head
            &&& e.order.len() >= s.order.len()
            &&& forall|a: int| 0 <= a < s.order.len() ==> #[trigger] e.order[a] == s.order[a]
            &&& forall|x: int| 0 <= x < k && net.eligible[x] && edge(net, cur as int, x) ==> #[trigger] e.marked[x]
        }),
    decreases k,
{
    if k > 0 {
        lemma_expand(net, s, cur, (k - 1) as nat);
        let e = expand(net, s, cur, (k - 1) as nat);
        let i = k - 1;
        if !e.marked[i] && net.eligible[i] && edge(net, cur as int, i) {
            assert(e.order[e.head] == cur);
            lemma_mark(net, e, cur, i as usize);
            assert(expand(net, s, cur, k) == mark(e, i as usize, cur));
            let t = expand(net, s, cur, k);
            assert forall|a: int| 0 <= a < s.order.len() implies #[trigger] t.order[a] == s.order[a] by {
                assert(t.order[a] == e.order[a]);
            }
            assert forall|x: int| 0 <= x < k && net.eligible[x] && edge(net, cur as int, x) implies #[trigger] t.marked[x] by {
                if x != i {
                    assert(e.marked[x]);
                }
            }
        }
    }
}

/// Every run of the search stays well formed.
proof fn lemma_run(net: Network, s: Search, fuel: nat)
    requires
        search_wf(net, s),
        net.pos.len() <= usize::MAX,
    ensures
        search_wf(net, search_run(net, s, fuel)),
    decreases fuel,
{
    if fuel > 0 && s.head < s.order.len() {
        let cur = s.order[s.head];
        lemma_expand(net, s, cur, net.pos.len());
        let e = expand(net, s, cur, net.pos.len());
        assert(e.order[e.head] == cur);
        lemma_advance(net, e);
        assert(search_step(net, s) == (Search { head: e.head + 1, ..e }));
        lemma_run(net, search_step(net, s), (fuel - 1) as nat);
    }
}

/// The finished search is well formed, whatever the scene.
pub proof fn lemma_search_wf(net: Network)
    requires
        net.eligible.len() == net.pos.len(),
        net.pos.len() <= usize::MAX,
    ensures
        search_wf(net, search(net)),
{
    lemma_seed_wf(net);
    lemma_run(net, seed(net, net.pos.len()), net.pos.len());
}

/// The hop levels of a search: a satellite hanging from the station is one
/// hop away and one hanging from a satellite one hop further than it; the
/// queue holds levels in non-decreasing order, spanning at most one level
/// from its head; and a processed satellite's eligible neighbours are at
/// most one hop further.
pub open spec fn levels_ok(net: Network, s: Search) -> bool {
    let n = net.pos.len();
    &&& s.level.len() == n
    &&& forall|i: int| 0 <= i < n && #[trigger] s.parent[i] == Parent::Station ==> s.level[i] == 1
    &&& forall|i: int| 0 <= i < n && (#[trigger] s.parent[i]) is Satellite ==> s.level[i] == s.level[s.parent[i]->0 as int] + 1
    &&& forall|a: int, b: int| #![trigger s.order[a], s.order[b]]
        0 <= a < b < s.order.len() ==> s.level[s.order[a] as int] <= s.level[s.order[b] as int]
    &&& s.head < s.order.len() ==> forall|a: int| 0 <= a < s.order.len() ==> s.level[#[trigger] s.order[a] as int] <= s.level[s.order[s.head] as int] + 1
    &&& forall|a: int, x: int| #![trigger s.order[a], s.level[x]]
        0 <= a < s.head && 0 <= x < n && net.eligible[x] && edge(net, s.order[a] as int, x) ==> s.level[x] <= s.level[s.order[a] as int] + 1
}

proof fn lemma_levels_seed(net: Network)
    requires
        net.eligible.len() == net.pos.len(),
        net.pos.len() <= usize::MAX,
    ensures
        levels_ok(net, seed(net, net.pos.len())),
{
    let n = net.pos.len();
    lemma_seed(net, n);
    let s = seed(net, n);
    assert forall|a: int| 0 <= a < s.order.len() implies s.level[#[trigger] s.order[a] as int] == 1 by {
        assert(s.marked[s.order[a] as int]);
    }
}

proof fn lemma_levels_mark(net: Network, s: Search, cur: usize, iu: usize)
    requires
        search_wf(net, s),
        levels_ok(net, s),
        s.head < s.order.len(),
        cur == s.order[s.head],
        0 <= iu < net.pos.len(),
        !s.marked[iu as int],
        net.eligible[iu as int],
        edge(net, cur as int, iu as int),
    ensures
        levels_ok(net, mark(s, iu, cur)),
{
    let i = iu as int;
    let n = net.pos.len();
    let t = mark(s, iu, cur);
    assert(cur < n && s.marked[cur as int]);
    assert(cur as int != i);
    assert forall|x: int| 0 <= x < n && (#[trigger] t.parent[x]) is Satellite implies t.level[x] == t.level[t.parent[x]->0 as int] + 1 by {
        if x != i {
            let j = s.parent[x]->0;
            assert(s.marked[j as int]);
        }
    }
    assert forall|x: int| 0 <= x < n && #[trigger] t.parent[x] == Parent::Station implies t.level[x] == 1 by {
        if x == i {
            assert(false);
        }
    }
    assert forall|a: int, b: int| #![trigger t.order[a], t.order[b]]
        0 <= a < b < t.order.len() implies t.level[t.order[a] as int] <= t.level[t.order[b] as int] by {
        assert(t.order[a] == s.order[a]);
        assert(s.marked[s.order[a] as int]);
        if b < s.order.len() {
            assert(t.order[b] == s.order[b]);
            assert(s.marked[s.order[b] as int]);
        } else {
            assert(t.order[b] == iu);
            assert(s.level[s.order[a] as int] <= s.level[s.order[s.head] as int] + 1);
        }
    }
    assert forall|a: int| 0 <= a < t.order.len() implies t.level[#[trigger] t.order[a] as int] <= t.level[t.order[t.head] as int] + 1 by {
        assert(t.order[t.head] == cur);
        if a < s.order.len() {
            assert(t.order[a] == s.order[a]);
            assert(s.marked[s.order[a] as int]);
            assert(s.level[s.order[a] as int] <= s.level[s.order[s.head] as int] + 1);
        }
    }
    assert forall|a: int, x: int| #![trigger t.order[a], t.level[x]]
        0 <= a < t.head && 0 <= x < n && net.eligible[x] && edge(net, t.order[a] as int, x) implies t.level[x] <= t.level[t.order[a] as int] + 1 by {
        assert(t.order[a] == s.order[a]);
        assert(s.marked[s.order[a] as int]);
        assert(s.marked[x]);
        assert(s.level[x] <= s.level[s.order[a] as int] + 1);
        assert(t.level[x] == s.level[x]);
        assert(t.level[t.order[a] as int] == s.level[s.order[a] as int]);
    }
    assert(t.level.len() == n);
}

proof fn lemma_levels_expand(net: Network, s: Search, cur: usize, k: nat)
    requires
        search_wf(net, s),
        levels_ok(net, s),
        s.head < s.order.len(),
        cur == s.order[s.head],
        k <= net.pos.len(),
        net.pos.len() <= usize::MAX,
    ensures
        ({
            let e = expand(net, s, cur, k);
            &&& levels_ok(net, e)
            &&& e.level[cur as int] == s.level[cur as int]
            &&& forall|x: int| 0 <= x < k && net.eligible[x] && edge(net, cur as int, x) ==> #[trigger] e.level[x] <= e.level[cur as int] + 1
        }),
    decreases k,
{
    lemma_expand(net, s, cur, k);
    if k > 0 {
        lemma_levels_expand(net, s, cur, (k - 1) as nat);
        lemma_expand(net, s, cur, (k - 1) as nat);
        let e = expand(net, s, cur, (k - 1) as nat);
        let i = k - 1;
        assert(e.order[e.head] == cur);
        assert(e.marked[cur as int]);
        if !e.marked[i] && net.eligible[i] && edge(net, cur as int, i) {
            lemma_levels_mark(net, e, cur, i as usize);
            assert(expand(net, s, cur, k) == mark(e, i as usize, cur));
            let t = expand(net, s, cur, k);
            assert forall|x: int| 0 <= x < k && net.eligible[x] && edge(net, cur as int, x) implies #[trigger] t.level[x] <= t.level[cur as int] + 1 by {
                if x != i {
                    assert(e.marked[x]);
                }
            }
        } else if net.eligible[i] && edge(net, cur as int, i) {
            assert(e.marked[i]);
            let a = choose|a: int| 0 <= a < e.order.len() && e.order[a] == i;
            assert(e.level[e.order[a] as int] <= e.level[e.order[e.head] as int] + 1);
        }
    }
}

proof fn lemma_levels_run(net: Network, s: Search, fuel: nat)
    requires
        search_wf(net, s),
        levels_ok(net, s),
        net.pos.len() <= usize::MAX,
    ensures
        search_wf(net, search_run(net, s, fuel)),
        levels_ok(net, search_run(net, s, fuel)),
        s.head + fuel >= net.pos.len() ==> search_run(net, s, fuel).head == search_run(net, s, fuel).order.len(),
    decreases fuel,
{
    lemma_count_le_len(s.marked);
    if fuel > 0 && s.head < s.order.len() {
        let cur = s.order[s.head];
        lemma_expand(net, s, cur, net.pos.len());
        lemma_levels_expand(net, s, cur, net.pos.len());
        let e = expand(net, s, cur, net.pos.len());
        assert(e.order[e.head] == cur);
        lemma_advance(net, e);
        let t = Search { head: e.head + 1, ..e };
        assert(search_step(net, s) == t);
        assert forall|a: int, x: int| #![trigger t.order[a], t.level[x]]
            0 <= a < t.head && 0 <= x < net.pos.len() && net.eligible[x] && edge(net, t.order[a] as int, x) implies t.level[x] <= t.level[t.order[a] as int] + 1 by {
            if a < e.head {
                assert(e.order[a] == t.order[a]);
                assert(e.marked[x] == t.marked[x]);
            } else {
                assert(t.order[a] == cur);
                assert(e.level[x] <= e.level[cur as int] + 1);
            }
        }
        if t.head < t.order.len() {
            assert forall|a: int| 0 <= a < t.order.len() implies t.level[#[trigger] t.order[a] as int] <= t.level[t.order[t.head] as int] + 1 by {
                assert(e.level[e.order[a] as int] <= e.level[e.order[e.head] as int] + 1);
                assert(e.level[e.order[e.head] as int] <= e.level[e.order[e.head + 1] as int]);
            }
        }
        assert(levels_ok(net, t));
        lemma_levels_run(net, t, (fuel - 1) as nat);
    }
}

proof fn lemma_levels_walk(net: Network, s: Search, i: int)
    requires
        search_wf(net, s),
        levels_ok(net, s),
        0 <= i < net.pos.len(),
        s.marked[i],
    ensures
        walk(s.parent, Parent::Satellite(i as usize), s.level[i]) == Parent::Station,
    decreases s.level[i],
{
    assert(s.parent[i] != Parent::Unlinked);
    if s.parent[i] == Parent::Station {
        assert(walk(s.parent, Parent::Station, 0) == Parent::Station);
    } else {
        let j = s.parent[i]->0;
        assert(s.marked[j as int]);
        lemma_levels_walk(net, s, j as int);
        assert(hop(s.parent, Parent::Satellite(i as usize)) == Parent::Satellite(j));
    }
}

proof fn lemma_levels_bound(net: Network, s: Search, path: Seq<int>)
    requires
        search_wf(net, s),
        levels_ok(net, s),
        s.head == s.order.len(),
        relay_path(net, path),
    ensures
        s.marked[path.last()],
        s.level[path.last()] <= path.len(),
    decreases path.len(),
{
    if path.len() == 1 {
        assert(s.parent[path[0]] == Parent::Station);
    } else {
        let prefix = path.drop_last();
        assert forall|m: int| 1 <= m < prefix.len() implies net.eligible[#[trigger] prefix[m]] && edge(net, prefix[m - 1], prefix[m]) by {
            assert(prefix[m] == path[m] && prefix[m - 1] == path[m - 1]);
        }
        assert forall|m: int| 0 <= m < prefix.len() implies 0 <= #[trigger] prefix[m] < net.pos.len() by {
            assert(prefix[m] == path[m]);
        }
        assert(prefix[0] == path[0]);
        lemma_levels_bound(net, s, prefix);
        let j = prefix.last();
        let i = path.last();
        assert(j == path[path.len() - 2]);
        assert(net.eligible[path[path.len() - 1]] && edge(net, path[path.len() - 2], path[path.len() - 1]));
        let a = choose|a: int| 0 <= a < s.order.len() && s.order[a] == j;
        assert(s.order[a] == j);
        assert(s.marked[i]);
        assert(s.level[i] <= s.level[s.order[a] as int] + 1);
    }
}

/// The search builds a shortest-hop tree: a satellite hanging from the
/// station is one hop from the ground and one hanging from a satellite one
/// hop further than its parent; following the parents from a reached
/// satellite gets to the station in exactly its number of hops; and no
/// chain of links from the station reaches a satellite in fewer hops.
pub proof fn search_is_shortest_hop(net: Network)
    requires
        net.eligible.len() == net.pos.len(),
        net.pos.len() <= usize::MAX,
    ensures
        ({
            let s = search(net);
            &&& forall|i: int| 0 <= i < net.pos.len() && #[trigger] s.parent[i] == Parent::Station ==> s.level[i] == 1
            &&& forall|i: int| 0 <= i < net.pos.len() && (#[trigger] s.parent[i]) is Satellite
                ==> s.level[i] == s.level[s.parent[i]->0 as int] + 1
            &&& forall|i: int| 0 <= i < net.pos.len() && #[trigger] s.marked[i]
                ==> walk(s.parent, Parent::Satellite(i as usize), s.level[i]) == Parent::Station
            &&& forall|path: Seq<int>| #[trigger] relay_path(net, path) ==> s.marked[path.last()] && s.level[path.last()] <= path.len()
        }),
{
    let n = net.pos.len();
    lemma_seed_wf(net);
    lemma_levels_seed(net);
    lemma_levels_run(net, seed(net, n), n);
    let s = search(net);
    assert forall|i: int| 0 <= i < n && #[trigger] s.marked[i] implies walk(s.parent, Parent::Satellite(i as usize), s.level[i]) == Parent::Station by {
        lemma_levels_walk(net, s, i);
    }
    assert forall|path: Seq<int>| #[trigger] relay_path(net, path) implies s.marked[path.last()] && s.level[path.last()] <= path.len() by {
        lemma_levels_bound(net, s, path);
    }
}

/// The satellite can open a link to the other one.
pub fn can_link(a: Point, b: Point, earth_radius: i64, max_range: i64, fast_lock: bool) -> (ok: bool)
    requires
        in_scene(a),
        in_scene(b),
        -COORD_LIMIT <= earth_radius <= COORD_LIMIT,
        -COORD_LIMIT <= max_range <= COORD_LIMIT,
    ensures
        ok == link_ok(a, b, earth_radius, max_range, fast_lock),
{
    let dd = distance_squared(a, b);
    range_within(dd, max_range, fast_lock) && has_line_of_sight(a, b, earth_radius)
}

proof fn lemma_square_bound(m: int)
    by (nonlinear_arith)
    requires
        -1_000_000 <= m <= 1_000_000,
    ensures
        0 <= m * m <= 1_000_000_000_000,
{
}

/// `in_range` on a squared distance.
pub fn range_within(dd: i128, max_range: i64, fast_lock: bool) -> (ok: bool)
    requires
        0 <= dd <= 12_000_000_000_000,
        -COORD_LIMIT <= max_range <= COORD_LIMIT,
    ensures
        ok == in_range(dd as int, max_range as int, fast_lock),
{
    if max_range < 0 {
        return false;
    }
    proof { lemma_square_bound(max_range as int); }
    let mm: i128 = max_range as i128 * max_range as i128;
    if fast_lock { dd <= mm } else { 25 * dd <= 16 * mm }
}

/// `strictly_in_range` on a squared distance.
pub fn range_strictly_within(dd: i128, max_range: i64, fast_lock: bool) -> (ok: bool)
    requires
        0 <= dd <= 12_000_000_000_000,
        -COORD_LIMIT <= max_range <= COORD_LIMIT,
    ensures
        ok == strictly_in_range(dd as int, max_range as int, fast_lock),
{
    if max_range < 0 {
        return false;
    }
    proof { lemma_square_bound(max_range as int); }
    let mm: i128 = max_range as i128 * max_range as i128;
    if fast_lock { dd < mm } else { 25 * dd < 16 * mm }
}

/// `near_range_edge` on a squared distance.
pub fn range_near_edge(dd: i128, max_range: i64, fast_lock: bool) -> (near: bool)
    requires
        0 <= dd <= 12_000_000_000_000,
        -COORD_LIMIT <= max_range <= COORD_LIMIT,
    ensures
        near == near_range_edge(dd as int, max_range as int, fast_lock),
{
    if max_range < 0 {
        return true;
    }
    proof { lemma_square_bound(max_range as int); }
    let mm: i128 = max_range as i128 * max_range as i128;
    if fast_lock { 25 * dd > 16 * mm } else { 625 * dd > 256 * mm }
}

pub open spec fn scene_ok(pos: Seq<Point>, earth_radius: i64, max_range: i64) -> bool {
    &&& forall|i: int| 0 <= i < pos.len() ==> in_scene(#[trigger] pos[i])
    &&& -COORD_LIMIT <= earth_radius <= COORD_LIMIT
    &&& -COORD_LIMIT <= max_range <= COORD_LIMIT
}

/// Breadth-first search from the ground station: satellites that see the
/// station hang from it; then, in queue order, each tree satellite adopts
/// every eligible satellite it can link to that is not in the tree yet.
pub fn relay_search(
    pos: &Vec<Point>,
    eligible: &Vec<bool>,
    earth_radius: i64,
    max_range: i64,
    fast_lock: bool,
) -> (res: (Vec<bool>, Vec<Parent>))
    requires
        pos.len() == eligible.len(),
        scene_ok(pos@, earth_radius, max_range),
    ensures
        ({
            let net = Network { pos: pos@, eligible: eligible@, radius: earth_radius, max_range, fast_lock };
            &&& res.0@ == search(net).marked
            &&& res.1@ == search(net).parent
            &&& res.0@.len() == pos.len()
            &&& res.1@.len() == pos.len()
            &&& forall|i: int| 0 <= i < pos.len() ==> (res.0@[i] <==> connected(net, i))
            &&& forall|i: int| 0 <= i < pos.len() ==> (#[trigger] res.1@[i] == Parent::Station <==> visible(net, i))
            &&& forall|i: int| 0 <= i < pos.len() ==> (res.0@[i] <==> #[trigger] res.1@[i] != Parent::Unlinked)
            &&& forall|i: int| 0 <= i < pos.len() && (#[trigger] res.1@[i] is Satellite) ==> {
                let j = res.1@[i]->0;
                j < pos.len() && res.0@[j as int] && edge(net, j as int, i) && eligible@[i]
            }
            &&& forall|i: int| 0 <= i < pos.len() && res.0@[i] ==> leads_to_station(res.1@, i as usize)
        }),
{
    let ghost net = Network { pos: pos@, eligible: eligible@, radius: earth_radius, max_range, fast_lock };
    let n = pos.len();
    let station = Point { x: 0, y: earth_radius, z: 0 };
    let mut marked: Vec<bool> = Vec::new();
    let mut parent: Vec<Parent> = Vec::new();
    let mut queue: VecDeque<usize> = VecDeque::new();
    let ghost mut order: Seq<usize> = Seq::empty();
    let ghost mut level: Seq<nat> = Seq::empty();
    for i in 0..n
        invariant
            n == pos.len(),
            n == eligible.len(),
            scene_ok(pos@, earth_radius, max_range),
            station == station_point(earth_radius),
            net == (Network { pos: pos@, eligible: eligible@, radius: earth_radius, max_range, fast_lock }),
            (Search { marked: marked@, parent: parent@, order: order, head: 0, level }) == seed(net, i as nat),
            queue@ == order,
            marked@.len() == i,
            parent@.len() == i,
            order.len() == count_true(marked@),
            forall|a: int| 0 <= a < order.len() ==> (#[trigger] order[a]) < i && marked@[order[a] as int],
            forall|k: int| 0 <= k < i && #[trigger] marked@[k] ==> exists|a: int| 0 <= a < order.len() && order[a] == k,
            forall|k: int| 0 <= k < i ==> (marked@[k] <==> visible(net, k)),
            forall|k: int| 0 <= k < i ==> (#[trigger] parent@[k] == (if visible(net, k) { Parent::Station } else { Parent::Unlinked })),
    {
        let v = has_line_of_sight(pos[i], station, earth_radius);
        let ghost old_order = order;
        let ghost old_marked = marked@;
        proof { lemma_count_push(marked@, v); }
        marked.push(v);
        if v {
            parent.push(Parent::Station);
            queue.push_back(i);
            proof {
                order = order.push(i);
                level = level.push(1);
            }
        } else {
            parent.push(Parent::Unlinked);
            proof { level = level.push(0); }
        }
        proof {
            assert forall|k: int| 0 <= k < i + 1 && #[trigger] marked@[k] implies exists|a: int| 0 <= a < order.len() && order[a] == k by {
                if k == i {
                    assert(order[order.len() - 1] == k);
                } else {
                    assert(old_marked[k]);
                    let a = choose|a: int| 0 <= a < old_order.len() && old_order[a] == k;
                    assert(order[a] == k);
                }
            }
        }
    }
    proof {
        assert forall|k: int| 0 <= k < n && #[trigger] marked@[k] implies connected(net, k) by {
            let path = seq![k];
            assert(path[0] == k);
            assert(relay_path(net, path));
        }
        lemma_count_le_len(marked@);
    }
    let ghost mut head: int = 0;
    while queue.len() > 0
        invariant
            n == pos.len(),
            n == eligible.len(),
            scene_ok(pos@, earth_radius, max_range),
            net == (Network { pos: pos@, eligible: eligible@, radius: earth_radius, max_range, fast_lock }),
            search_wf(net, Search { marked: marked@, parent: parent@, order: order, head: head, level }),
            order.len() <= n,
            queue@ == order.subrange(head, order.len() as int),
            search_run(net, Search { marked: marked@, parent: parent@, order: order, head: head, level }, (n - head) as nat)
                == search(net),
        decreases n - head,
    {
        let ghost before = Search { marked: marked@, parent: parent@, order: order, head: head, level };
        let cur = queue.pop_front().unwrap();
        assert(cur == order[head]);
        assert(cur < n && marked@[cur as int]);
        for i in 0..n
            invariant
                n == pos.len(),
                n == eligible.len(),
                scene_ok(pos@, earth_radius, max_range),
                net == (Network { pos: pos@, eligible: eligible@, radius: earth_radius, max_range, fast_lock }),
                search_wf(net, before),
                0 <= head < before.order.len(),
                head == before.head,
                cur == before.order[head],
                (Search { marked: marked@, parent: parent@, order: order, head: head, level })
                    == expand(net, before, cur, i as nat),
                search_wf(net, Search { marked: marked@, parent: parent@, order: order, head: head, level }),
                queue@ == order.subrange(head + 1, order.len() as int),
                forall|k: int| 0 <= k < i && net.eligible[k] && edge(net, cur as int, k) ==> #[trigger] marked@[k],
                forall|k: int| 0 <= k < order.len() ==> #[trigger] order[k] == (if k < before.order.len() { before.order[k] } else { order[k] }),
                order.len() >= before.order.len(),
        {
            if !marked[i] && eligible[i] && can_link(pos[cur], pos[i], earth_radius, max_range, fast_lock) {
                let ghost s0 = Search { marked: marked@, parent: parent@, order: order, head: head, level };
                proof {
                    lemma_count_update(marked@, i as int);
                }
                marked.set(i, true);
                parent.set(i, Parent::Satellite(cur));
                queue.push_back(i);
                proof {
                    order = order.push(i);
                    level = level.update(i as int, level[cur as int] + 1);
                    lemma_mark(net, s0, cur, i);
                    assert(queue@ =~= order.subrange(head + 1, order.len() as int));
                    assert(marked@ =~= s0.marked.update(i as int, true));
                    assert(parent@ =~= s0.parent.update(i as int, Parent::Satellite(cur)));
                }
            }
        }
        proof {
            lemma_advance(net, Search { marked: marked@, parent: parent@, order: order, head: head, level });
            head = head + 1;
            lemma_count_le_len(marked@);
        }
    }
    let ghost fin = Search { marked: marked@, parent: parent@, order: order, head: head, level };
    proof {
        assert forall|i: int| 0 <= i < n implies (marked@[i] <==> connected(net, i)) by {
            if connected(net, i) {
                let path = choose|path: Seq<int>| #[trigger] relay_path(net, path) && path.last() == i;
                lemma_complete(net, fin, path);
            }
        }
        assert forall|i: int| 0 <= i < n && marked@[i] implies leads_to_station(parent@, i as usize) by {
            let a = choose|a: int| 0 <= a < order.len() && order[a] == i;
            lemma_tree(net, fin, a);
        }
    }
    (marked, parent)
}

} // verus!
