//! Link-loss prediction and predictive rerouting (RFP) over the routing tree.
use vstd::prelude::*;
use std::collections::HashSet;
use crate::geometry::{Point, in_scene, dist2, line_of_sight, has_line_of_sight, distance_squared};
use crate::routing::{
    Parent, Network, hop, walk, leads_to_station, station_point, in_range, strictly_in_range,
    near_range_edge, range_within, range_strictly_within, range_near_edge, scene_ok,
};

verus! {

broadcast use vstd::std_specs::hash::group_hash_axioms;

/// What the routing layer knows about one satellite: where it is, whether
/// it has a route, which satellite (or the station) it forwards to, and
/// whether that link is about to break.
#[derive(Debug, Clone, Copy, PartialEq, Eq, Structural)]
pub struct SatData {
    pub pos: Point,
    pub has_path: bool,
    pub parent: Parent,
    pub will_lose_link: bool,
}

/// The parents of a list of satellites.
pub open spec fn parents_of(list: Seq<SatData>) -> Seq<Parent> {
    list.map_values(|d: SatData| d.parent)
}

/// `x` is the first satellite of the list standing at `q`.
pub open spec fn first_at(list: Seq<SatData>, q: Point, x: int) -> bool {
    &&& 0 <= x < list.len()
    &&& list[x].pos == q
    &&& forall|t: int| 0 <= t < x ==> (#[trigger] list[t]).pos != q
}

/// A parent as the walk to the ground reads it, by position: a parent
/// standing where the station is, or a parent that is no satellite of the
/// list, counts as the ground; any other parent satellite is the first
/// satellite of the list at the parent's position.
pub open spec fn resolve(list: Seq<SatData>, station: Point, p: Parent) -> Parent {
    match p {
        Parent::Satellite(j) => if j >= list.len() || list[j as int].pos == station {
            Parent::Station
        } else {
            Parent::Satellite((choose|x: int| first_at(list, list[j as int].pos, x)) as usize)
        },
        _ => p,
    }
}

/// Every satellite's parent as the walk to the ground reads it.
pub open spec fn resolved_parents(list: Seq<SatData>, station: Point) -> Seq<Parent> {
    Seq::new(list.len(), |i: int| resolve(list, station, list[i].parent))
}

proof fn lemma_first_unique(list: Seq<SatData>, q: Point, x: int, y: int)
    requires
        first_at(list, q, x),
        first_at(list, q, y),
    ensures
        x == y,
{
    if x < y {
        assert(list[x].pos != q);
    } else if y < x {
        assert(list[y].pos != q);
    }
}

proof fn lemma_walk_compose(parent: Seq<Parent>, p: Parent, a: nat, d: nat)
    ensures
        walk(parent, p, a + d) == walk(parent, walk(parent, p, a), d),
    decreases a,
{
    if a > 0 {
        lemma_walk_compose(parent, hop(parent, p), (a - 1) as nat, d);
        assert((a + d - 1) as nat == ((a - 1) as nat + d) as nat);
    }
}

proof fn lemma_walk_next(parent: Seq<Parent>, p: Parent, k: nat)
    ensures
        walk(parent, p, k + 1) == hop(parent, walk(parent, p, k)),
{
    lemma_walk_compose(parent, p, k, 1);
    let q = walk(parent, p, k);
    assert(walk(parent, hop(parent, q), 0) == hop(parent, q));
}

proof fn lemma_unlinked_stays(parent: Seq<Parent>, d: nat)
    ensures
        walk(parent, Parent::Unlinked, d) == Parent::Unlinked,
    decreases d,
{
    if d > 0 {
        lemma_unlinked_stays(parent, (d - 1) as nat);
    }
}

proof fn lemma_cycle_misses_station(parent: Seq<Parent>, p: Parent, m: nat, k: nat, i: nat)
    requires
        m < k,
        walk(parent, p, m) == walk(parent, p, k),
        forall|t: nat| t <= k ==> #[trigger] walk(parent, p, t) != Parent::Station,
    ensures
        walk(parent, p, i) != Parent::Station,
    decreases i,
{
    if i > k {
        let d = (i - k) as nat;
        lemma_walk_compose(parent, p, k, d);
        lemma_walk_compose(parent, p, m, d);
        assert(i == k + d);
        lemma_cycle_misses_station(parent, p, m, k, (m + d) as nat);
    } else {
        assert(walk(parent, p, i) != Parent::Station);
    }
}

proof fn lemma_dead_end_misses_station(parent: Seq<Parent>, p: Parent, k: nat, i: nat)
    requires
        walk(parent, p, k) == Parent::Unlinked,
        forall|t: nat| t < k ==> #[trigger] walk(parent, p, t) != Parent::Station,
    ensures
        walk(parent, p, i) != Parent::Station,
{
    if i >= k {
        lemma_walk_compose(parent, p, k, (i - k) as nat);
        lemma_unlinked_stays(parent, (i - k) as nat);
        assert(i == k + (i - k) as nat);
    }
}

/// Whether following the parents from satellite `start_idx` reaches the
/// ground, reading each parent by position as `resolve` says: the walk
/// succeeds at the station's position or at a position where no satellite
/// of the list stands, and fails at a satellite without a parent or when it
/// comes back to a satellite it already passed.
pub fn has_path_to_ground(sat_list: &Vec<SatData>, start_idx: usize, station_pos: Point) -> (found: bool)
    requires
        start_idx < sat_list.len(),
    ensures
        found == leads_to_station(resolved_parents(sat_list@, station_pos), start_idx),
{
    let ghost parents = resolved_parents(sat_list@, station_pos);
    let ghost p0 = Parent::Satellite(start_idx);
    let n = sat_list.len();
    let mut visited: HashSet<usize> = HashSet::new();
    let mut current = start_idx;
    let ghost mut k: nat = 0;
    loop
        invariant
            n == sat_list.len(),
            parents == resolved_parents(sat_list@, station_pos),
            p0 == Parent::Satellite(start_idx),
            current < n,
            visited@.finite(),
            visited@.len() == k,
            visited@.subset_of(Set::range(0usize, n)),
            walk(parents, p0, k) == Parent::Satellite(current),
            forall|t: nat| t <= k ==> #[trigger] walk(parents, p0, t) != Parent::Station,
            forall|x: usize| #[trigger] visited@.contains(x) ==> exists|m: nat|
                m < k && walk(parents, p0, m) == Parent::Satellite(x),
        decreases n - k,
    {
        if visited.contains(&current) {
            proof {
                let m = choose|m: nat| m < k && walk(parents, p0, m) == Parent::Satellite(current);
                assert forall|i: nat| #[trigger] walk(parents, p0, i) != Parent::Station by {
                    lemma_cycle_misses_station(parents, p0, m, k, i);
                }
            }
            return false;
        }
        let ghost before = visited@;
        visited.insert(current);
        proof {
            assert(visited@ == before.insert(current));
            assert(visited@.subset_of(Set::range(0usize, n)));
            vstd::set_lib::range_set_properties(0usize, n);
            vstd::set_lib::lemma_len_subset(visited@, Set::range(0usize, n));
            lemma_walk_next(parents, p0, k);
            assert(parents[current as int] == resolve(sat_list@, station_pos, sat_list@[current as int].parent));
        }
        let next: usize = match sat_list[current].parent {
            Parent::Station => {
                proof {
                    assert(walk(parents, p0, k + 1) == Parent::Station);
                }
                return true;
            },
            Parent::Unlinked => {
                proof {
                    assert forall|i: nat| #[trigger] walk(parents, p0, i) != Parent::Station by {
                        lemma_dead_end_misses_station(parents, p0, k + 1, i);
                    }
                }
                return false;
            },
            Parent::Satellite(j) => {
                if j >= n || sat_list[j].pos == station_pos {
                    proof {
                        assert(walk(parents, p0, k + 1) == Parent::Station);
                    }
                    return true;
                }
                let q = sat_list[j].pos;
                let mut idx: usize = 0;
                while !(sat_list[idx].pos == q)
                    invariant
                        n == sat_list.len(),
                        j < n,
                        q == sat_list@[j as int].pos,
                        idx <= j,
                        forall|t: int| 0 <= t < idx ==> (#[trigger] sat_list@[t]).pos != q,
                    decreases j - idx,
                {
                    idx = idx + 1;
                }
                proof {
                    let x = choose|x: int| first_at(sat_list@, q, x);
                    assert(first_at(sat_list@, q, idx as int));
                    lemma_first_unique(sat_list@, q, x, idx as int);
                    assert(walk(parents, p0, k + 1) == Parent::Satellite(idx));
                }
                idx
            },
        };
        proof {
            let ghost old_k = k;
            assert forall|x: usize| #[trigger] visited@.contains(x) implies exists|m: nat|
                m < old_k + 1 && walk(parents, p0, m) == Parent::Satellite(x) by {
                if x == current {
                    assert(walk(parents, p0, old_k) == Parent::Satellite(x));
                } else {
                    assert(before.contains(x));
                    let m = choose|m: nat| m < old_k && walk(parents, p0, m) == Parent::Satellite(x);
                    assert(m < old_k + 1);
                }
            }
            k = k + 1;
        }
        current = next;
    }
}

/// Where a parent is: the ground station, the parent satellite's current
/// position, or nowhere.
pub open spec fn parent_point(pos: Seq<Point>, radius: i64, p: Parent) -> Option<Point> {
    match p {
        Parent::Station => Some(station_point(radius)),
        Parent::Satellite(j) => if j < pos.len() { Some(pos[j as int]) } else { None },
        Parent::Unlinked => None,
    }
}

/// A link to `pp` is about to break: it is already longer than four fifths
/// of the usable range, and from the predicted position `later` it will be
/// out of range or blocked by the planet.
pub open spec fn predicts_loss(here: Point, later: Point, pp: Point, net: Network) -> bool {
    &&& near_range_edge(dist2(here, pp), net.max_range as int, net.fast_lock)
    &&& (!line_of_sight(later, pp, net.radius as int) || !in_range(dist2(later, pp), net.max_range as int, net.fast_lock))
}

/// Whether satellite `i`'s link to its parent is predicted to break.
pub open spec fn loss_predicted(net: Network, future: Seq<Point>, parent: Seq<Parent>, i: int) -> bool {
    match parent_point(net.pos, net.radius, parent[i]) {
        Some(pp) => predicts_loss(net.pos[i], future[i], pp, net),
        None => false,
    }
}

/// A link no longer than four fifths of the usable range (with the
/// hardware lock the whole range `max_range`; without it four fifths of it)
/// is never predicted to break, wherever the satellite is headed.
pub proof fn short_links_are_not_predicted_to_break(here: Point, later: Point, pp: Point, net: Network)
    requires
        net.max_range >= 0,
        if net.fast_lock {
            25 * dist2(here, pp) <= 16 * (net.max_range * net.max_range)
        } else {
            625 * dist2(here, pp) <= 256 * (net.max_range * net.max_range)
        },
    ensures
        !predicts_loss(here, later, pp, net),
{
}

/// A link already longer than four fifths of the usable range is predicted
/// to break exactly when, from the satellite's predicted position, its
/// parent will be hidden by the planet or out of the usable range.
pub proof fn long_links_break_when_lost_later(here: Point, later: Point, pp: Point, net: Network)
    requires
        net.max_range >= 0,
        if net.fast_lock {
            25 * dist2(here, pp) > 16 * (net.max_range * net.max_range)
        } else {
            625 * dist2(here, pp) > 256 * (net.max_range * net.max_range)
        },
    ensures
        predicts_loss(here, later, pp, net) == (!line_of_sight(later, pp, net.radius as int) || !(if net.fast_lock {
            dist2(later, pp) <= net.max_range * net.max_range
        } else {
            25 * dist2(later, pp) <= 16 * (net.max_range * net.max_range)
        })),
{
}

/// Exact positions are in the scene and the lengths agree.
pub open spec fn snapshot_ok(net: Network, future: Seq<Point>) -> bool {
    &&& scene_ok(net.pos, net.radius, net.max_range)
    &&& future.len() == net.pos.len()
    &&& forall|i: int| 0 <= i < future.len() ==> in_scene(#[trigger] future[i])
}

/// Computes `loss_predicted` for satellite `i`.
pub fn predict_link_loss(
    pos: &Vec<Point>,
    future: &Vec<Point>,
    parent: Parent,
    i: usize,
    earth_radius: i64,
    max_range: i64,
    fast_lock: bool,
) -> (lose: bool)
    requires
        snapshot_ok(
            Network { pos: pos@, eligible: Seq::empty(), radius: earth_radius, max_range, fast_lock },
            future@,
        ),
        i < pos.len(),
    ensures
        ({
            let net = Network { pos: pos@, eligible: Seq::empty(), radius: earth_radius, max_range, fast_lock };
            lose == match parent_point(pos@, earth_radius, parent) {
                Some(pp) => predicts_loss(pos@[i as int], future@[i as int], pp, net),
                None => false,
            }
        }),
{
    let pp = match parent {
        Parent::Station => Point { x: 0, y: earth_radius, z: 0 },
        Parent::Satellite(j) => {
            if j < pos.len() {
                pos[j]
            } else {
                return false;
            }
        },
        Parent::Unlinked => {
            return false;
        },
    };
    let current_dist = distance_squared(pos[i], pp);
    let future_dist = distance_squared(future[i], pp);
    let loses_los = !has_line_of_sight(future[i], pp, earth_radius);
    let loses_dist = !range_within(future_dist, max_range, fast_lock);
    let near_edge = range_near_edge(current_dist, max_range, fast_lock);
    near_edge && (loses_los || loses_dist)
}

/// The station as a handover target for a satellite that will be at `fp`:
/// accepted when in range and in sight, with its squared distance.
pub open spec fn station_offer(fp: Point, net: Network) -> (Parent, Option<int>) {
    let st = station_point(net.radius);
    let d = dist2(fp, st);
    if in_range(d, net.max_range as int, net.fast_lock) && line_of_sight(fp, st, net.radius as int) {
        (Parent::Station, Some(d))
    } else {
        (Parent::Unlinked, None)
    }
}

/// `d` beats the best squared distance found so far (none means unbounded).
pub open spec fn closer(d: int, best: Option<int>) -> bool {
    match best {
        Some(b) => d < b,
        None => true,
    }
}

/// Satellite `j` can take over satellite `i`'s traffic: it is routed, its
/// own link is not about to break, its parents lead to the station, and
/// from the predicted positions it is strictly within range and in sight.
pub open spec fn handover_candidate(net: Network, future: Seq<Point>, list: Seq<SatData>, i: int, j: int) -> bool {
    &&& j != i
    &&& list[j].has_path
    &&& !list[j].will_lose_link
    &&& leads_to_station(resolved_parents(list, station_point(net.radius)), j as usize)
    &&& strictly_in_range(dist2(future[i], future[j]), net.max_range as int, net.fast_lock)
    &&& line_of_sight(future[i], future[j], net.radius as int)
}

/// The best handover target for satellite `i` among the station and
/// satellites `0..k`: the nearest at the predicted positions, earlier ones
/// winning ties.
pub open spec fn best_offer(net: Network, future: Seq<Point>, list: Seq<SatData>, i: int, k: nat) -> (Parent, Option<int>)
    decreases k,
{
    if k == 0 {
        station_offer(future[i], net)
    } else {
        let prev = best_offer(net, future, list, i, (k - 1) as nat);
        let j = k - 1;
        let d = dist2(future[i], future[j]);
        if handover_candidate(net, future, list, i, j) && closer(d, prev.1) {
            (Parent::Satellite(j as usize), Some(d))
        } else {
            prev
        }
    }
}

/// The parent stands at the station's position: it is the station, or a
/// parent satellite that stands where the station is.
pub open spec fn parent_at_station(list: Seq<SatData>, station: Point, p: Parent) -> bool {
    match p {
        Parent::Station => true,
        Parent::Satellite(j) => j < list.len() && list[j as int].pos == station,
        Parent::Unlinked => false,
    }
}

proof fn lemma_best_offer(net: Network, future: Seq<Point>, list: Seq<SatData>, i: int, k: nat)
    requires
        k <= list.len(),
        list.len() <= usize::MAX,
        0 <= i < list.len(),
    ensures
        ({
            let b = best_offer(net, future, list, i, k);
            let p = b.0;
            let r2 = net.max_range * net.max_range;
            let st = station_point(net.radius);
            let ds = dist2(future[i], st);
            let st_ok = net.max_range >= 0 && (if net.fast_lock { ds <= r2 } else { 25 * ds <= 16 * r2 })
                && line_of_sight(future[i], st, net.radius as int);
            &&& p == Parent::Unlinked ==> !st_ok && forall|j: int| #![trigger list[j]] !(0 <= j < k && j != i && list[j].has_path && !list[j].will_lose_link && leads_to_station(resolved_parents(list, station_point(net.radius)), j as usize) && net.max_range >= 0 && (if net.fast_lock { dist2(future[i], future[j]) < r2 } else { 25 * dist2(future[i], future[j]) < 16 * r2 }) && line_of_sight(future[i], future[j], net.radius as int))
            &&& p == Parent::Station ==> st_ok && forall|j: int| #![trigger list[j]] (0 <= j < k && j != i && list[j].has_path && !list[j].will_lose_link && leads_to_station(resolved_parents(list, station_point(net.radius)), j as usize) && net.max_range >= 0 && (if net.fast_lock { dist2(future[i], future[j]) < r2 } else { 25 * dist2(future[i], future[j]) < 16 * r2 }) && line_of_sight(future[i], future[j], net.radius as int)) ==> ds <= dist2(future[i], future[j])
            &&& p is Satellite ==> {
                let c = p->0 as int;
                &&& (0 <= c < k && c != i && list[c].has_path && !list[c].will_lose_link && leads_to_station(resolved_parents(list, station_point(net.radius)), c as usize) && net.max_range >= 0 && (if net.fast_lock { dist2(future[i], future[c]) < r2 } else { 25 * dist2(future[i], future[c]) < 16 * r2 }) && line_of_sight(future[i], future[c], net.radius as int))
                &&& st_ok ==> dist2(future[i], future[c]) < ds
                &&& forall|j: int| #![trigger list[j]] (0 <= j < k && j != i && list[j].has_path && !list[j].will_lose_link && leads_to_station(resolved_parents(list, station_point(net.radius)), j as usize) && net.max_range >= 0 && (if net.fast_lock { dist2(future[i], future[j]) < r2 } else { 25 * dist2(future[i], future[j]) < 16 * r2 }) && line_of_sight(future[i], future[j], net.radius as int)) ==> dist2(future[i], future[c]) <= dist2(future[i], future[j])
                &&& forall|j: int| #![trigger list[j]] (0 <= j < k && j != i && list[j].has_path && !list[j].will_lose_link && leads_to_station(resolved_parents(list, station_point(net.radius)), j as usize) && net.max_range >= 0 && (if net.fast_lock { dist2(future[i], future[j]) < r2 } else { 25 * dist2(future[i], future[j]) < 16 * r2 }) && line_of_sight(future[i], future[j], net.radius as int)) && j < c ==> dist2(future[i], future[c]) < dist2(future[i], future[j])
            }
            &&& b.1 == (match p {
                Parent::Unlinked => None,
                Parent::Station => Some(ds),
                Parent::Satellite(c) => Some(dist2(future[i], future[c as int])),
            })
        }),
    decreases k,
{
    if k > 0 {
        lemma_best_offer(net, future, list, i, (k - 1) as nat);
    }
}

/// The handover target chosen for satellite `i` is the nearest one at the
/// predicted positions. A satellite qualifies when it is another routed
/// satellite whose own link is not about to break, whose parents lead to
/// the ground, and which will be strictly within the usable range and in
/// sight; the station qualifies when it will be within range and in sight.
/// A satellite is chosen only when it is nearer than a qualifying station
/// and no farther than every qualifying satellite, the earliest winning a
/// tie; the station is chosen when it qualifies and no satellite is nearer;
/// nothing is chosen only when nothing qualifies.
pub proof fn handover_picks_nearest(net: Network, future: Seq<Point>, list: Seq<SatData>, i: int)
    requires
        list.len() <= usize::MAX,
        0 <= i < list.len(),
    ensures
        ({
            let b = best_offer(net, future, list, i, list.len());
            let p = b.0;
            let r2 = net.max_range * net.max_range;
            let st = station_point(net.radius);
            let ds = dist2(future[i], st);
            let st_ok = net.max_range >= 0 && (if net.fast_lock { ds <= r2 } else { 25 * ds <= 16 * r2 })
                && line_of_sight(future[i], st, net.radius as int);
            &&& p == Parent::Unlinked ==> !st_ok && forall|j: int| #![trigger list[j]] !(0 <= j < list.len() && j != i && list[j].has_path && !list[j].will_lose_link && leads_to_station(resolved_parents(list, station_point(net.radius)), j as usize) && net.max_range >= 0 && (if net.fast_lock { dist2(future[i], future[j]) < r2 } else { 25 * dist2(future[i], future[j]) < 16 * r2 }) && line_of_sight(future[i], future[j], net.radius as int))
            &&& p == Parent::Station ==> st_ok && forall|j: int| #![trigger list[j]] (0 <= j < list.len() && j != i && list[j].has_path && !list[j].will_lose_link && leads_to_station(resolved_parents(list, station_point(net.radius)), j as usize) && net.max_range >= 0 && (if net.fast_lock { dist2(future[i], future[j]) < r2 } else { 25 * dist2(future[i], future[j]) < 16 * r2 }) && line_of_sight(future[i], future[j], net.radius as int)) ==> ds <= dist2(future[i], future[j])
            &&& p is Satellite ==> {
                let c = p->0 as int;
                &&& (0 <= c < list.len() && c != i && list[c].has_path && !list[c].will_lose_link && leads_to_station(resolved_parents(list, station_point(net.radius)), c as usize) && net.max_range >= 0 && (if net.fast_lock { dist2(future[i], future[c]) < r2 } else { 25 * dist2(future[i], future[c]) < 16 * r2 }) && line_of_sight(future[i], future[c], net.radius as int))
                &&& st_ok ==> dist2(future[i], future[c]) < ds
                &&& forall|j: int| #![trigger list[j]] (0 <= j < list.len() && j != i && list[j].has_path && !list[j].will_lose_link && leads_to_station(resolved_parents(list, station_point(net.radius)), j as usize) && net.max_range >= 0 && (if net.fast_lock { dist2(future[i], future[j]) < r2 } else { 25 * dist2(future[i], future[j]) < 16 * r2 }) && line_of_sight(future[i], future[j], net.radius as int)) ==> dist2(future[i], future[c]) <= dist2(future[i], future[j])
                &&& forall|j: int| #![trigger list[j]] (0 <= j < list.len() && j != i && list[j].has_path && !list[j].will_lose_link && leads_to_station(resolved_parents(list, station_point(net.radius)), j as usize) && net.max_range >= 0 && (if net.fast_lock { dist2(future[i], future[j]) < r2 } else { 25 * dist2(future[i], future[j]) < 16 * r2 }) && line_of_sight(future[i], future[j], net.radius as int)) && j < c ==> dist2(future[i], future[c]) < dist2(future[i], future[j])
            }
            &&& b.1 == (match p {
                Parent::Unlinked => None,
                Parent::Station => Some(ds),
                Parent::Satellite(c) => Some(dist2(future[i], future[c as int])),
            })
        }),
{
    lemma_best_offer(net, future, list, i, list.len());
}

/// Predictive rerouting of satellite `i`: if its link is about to break and
/// its parent does not stand at the station's position, it switches to the
/// best target, if any.
pub open spec fn reroute_one(net: Network, future: Seq<Point>, list: Seq<SatData>, i: int) -> Seq<SatData> {
    if !list[i].will_lose_link || parent_at_station(list, station_point(net.radius), list[i].parent) {
        list
    } else {
        let best = best_offer(net, future, list, i, list.len()).0;
        if best == Parent::Unlinked {
            list
        } else {
            list.update(i, SatData { parent: best, ..list[i] })
        }
    }
}

/// Predictive rerouting applied to satellites `0..k` in turn.
pub open spec fn reroute_upto(net: Network, future: Seq<Point>, list: Seq<SatData>, k: nat) -> Seq<SatData>
    decreases k,
{
    if k == 0 {
        list
    } else {
        reroute_one(net, future, reroute_upto(net, future, list, (k - 1) as nat), k - 1)
    }
}

/// The tree shape that rerouting keeps: unrouted satellites have no
/// parent, routed ones have one, a parent satellite is another routed
/// satellite, and only routed satellites are predicted to lose a link.
pub open spec fn tree_shape(list: Seq<SatData>) -> bool {
    forall|i: int| 0 <= i < list.len() ==> {
        &&& (#[trigger] list[i].parent == Parent::Unlinked <==> !list[i].has_path)
        &&& list[i].will_lose_link ==> list[i].has_path
        &&& list[i].parent is Satellite ==> {
            let j = list[i].parent->0;
            j < list.len() && j != i && list[j as int].has_path
        }
    }
}

fn best_target(
    sat_list: &Vec<SatData>,
    future: &Vec<Point>,
    i: usize,
    earth_radius: i64,
    max_range: i64,
    fast_lock: bool,
    Ghost(net): Ghost<Network>,
) -> (best: Parent)
    requires
        net.radius == earth_radius,
        net.max_range == max_range,
        net.fast_lock == fast_lock,
        snapshot_ok(net, future@),
        sat_list.len() == net.pos.len(),
        i < sat_list.len(),
    ensures
        best == best_offer(net, future@, sat_list@, i as int, sat_list.len() as nat).0,
{
    let n = sat_list.len();
    let fp = future[i];
    let station = Point { x: 0, y: earth_radius, z: 0 };
    let to_station = distance_squared(fp, station);
    let mut best = Parent::Unlinked;
    let mut best_dist: Option<i128> = None;
    if range_within(to_station, max_range, fast_lock) && has_line_of_sight(fp, station, earth_radius) {
        best = Parent::Station;
        best_dist = Some(to_station);
    }
    for j in 0..n
        invariant
            n == sat_list.len(),
            n == future.len(),
            snapshot_ok(net, future@),
            net.radius == earth_radius,
            net.max_range == max_range,
            net.fast_lock == fast_lock,
            i < n,
            fp == future@[i as int],
            station == station_point(earth_radius),
            (best, match best_dist { Some(d) => Some(d as int), None => None::<int> })
                == best_offer(net, future@, sat_list@, i as int, j as nat),
    {
        if i != j && sat_list[j].has_path && !sat_list[j].will_lose_link && has_path_to_ground(sat_list, j, station) {
            let d = distance_squared(fp, future[j]);
            if range_strictly_within(d, max_range, fast_lock) && has_line_of_sight(fp, future[j], earth_radius) {
                let nearer = match best_dist {
                    Some(b) => d < b,
                    None => true,
                };
                if nearer {
                    best = Parent::Satellite(j);
                    best_dist = Some(d);
                }
            }
        }
    }
    best
}

/// Predictive rerouting (the RFP optimisation) over the whole list, in index order.
pub(crate) fn predictive_reroute(
    sat_list: &mut Vec<SatData>,
    future: &Vec<Point>,
    earth_radius: i64,
    max_range: i64,
    fast_lock: bool,
    Ghost(net): Ghost<Network>,
)
    requires
        net.radius == earth_radius,
        net.max_range == max_range,
        net.fast_lock == fast_lock,
        snapshot_ok(net, future@),
        old(sat_list).len() == net.pos.len(),
    ensures
        final(sat_list)@ == reroute_upto(net, future@, old(sat_list)@, old(sat_list).len() as nat),
        final(sat_list).len() == old(sat_list).len(),
        forall|i: int| 0 <= i < old(sat_list).len() ==> (#[trigger] final(sat_list)@[i]).has_path == old(sat_list)@[i].has_path,
        tree_shape(old(sat_list)@) ==> tree_shape(final(sat_list)@),
{
    let n = sat_list.len();
    let ghost start = sat_list@;
    for i in 0..n
        invariant
            n == sat_list.len(),
            n == start.len(),
            net.radius == earth_radius,
            net.max_range == max_range,
            net.fast_lock == fast_lock,
            snapshot_ok(net, future@),
            n == net.pos.len(),
            sat_list@ == reroute_upto(net, future@, start, i as nat),
            forall|k: int| 0 <= k < n ==> (#[trigger] sat_list@[k]).has_path == start[k].has_path,
            tree_shape(start) ==> tree_shape(sat_list@),
    {
        let ghost before = sat_list@;
        let d = sat_list[i];
        let station = Point { x: 0, y: earth_radius, z: 0 };
        let at_station = match d.parent {
            Parent::Station => true,
            Parent::Satellite(j) => j < n && sat_list[j].pos == station,
            Parent::Unlinked => false,
        };
        if d.will_lose_link && !at_station {
            let best = best_target(sat_list, future, i, earth_radius, max_range, fast_lock, Ghost(net));
            if best != Parent::Unlinked {
                sat_list.set(i, SatData { pos: d.pos, has_path: d.has_path, parent: best, will_lose_link: d.will_lose_link });
                proof {
                    if tree_shape(start) {
                        lemma_offer_shape(net, future@, before, i as int, n as nat);
                        assert forall|x: int| 0 <= x < sat_list@.len() implies {
                            &&& (#[trigger] sat_list@[x].parent == Parent::Unlinked <==> !sat_list@[x].has_path)
                            &&& sat_list@[x].will_lose_link ==> sat_list@[x].has_path
                            &&& sat_list@[x].parent is Satellite ==> {
                                let j = sat_list@[x].parent->0;
                                j < sat_list@.len() && j != x && sat_list@[j as int].has_path
                            }
                        } by {
                            if x != i {
                                assert(sat_list@[x] == before[x]);
                            }
                        }
                    }
                }
            }
        }
    }
}

proof fn lemma_offer_shape(net: Network, future: Seq<Point>, list: Seq<SatData>, i: int, k: nat)
    requires
        k <= list.len(),
        list.len() <= usize::MAX,
    ensures
        ({
            let b = best_offer(net, future, list, i, k).0;
            &&& b != Parent::Unlinked ==> (b == Parent::Station || b is Satellite)
            &&& b is Satellite ==> (b->0 < k && b->0 != i && list[b->0 as int].has_path)
        }),
    decreases k,
{
    if k > 0 {
        lemma_offer_shape(net, future, list, i, (k - 1) as nat);
    }
}


/// Rerouting satellites `0..k` keeps the list's length, every satellite's
/// `has_path` and the tree shape.
pub proof fn lemma_reroute_shape(net: Network, future: Seq<Point>, list: Seq<SatData>, k: nat)
    requires
        k <= list.len(),
        list.len() <= usize::MAX,
        tree_shape(list),
    ensures
        reroute_upto(net, future, list, k).len() == list.len(),
        forall|x: int| 0 <= x < list.len() ==> (#[trigger] reroute_upto(net, future, list, k)[x]).has_path == list[x].has_path,
        tree_shape(reroute_upto(net, future, list, k)),
    decreases k,
{
    if k > 0 {
        lemma_reroute_shape(net, future, list, (k - 1) as nat);
        let before = reroute_upto(net, future, list, (k - 1) as nat);
        let i = k - 1;
        let after = reroute_upto(net, future, list, k);
        assert(after == reroute_one(net, future, before, i));
        if before[i].will_lose_link && before[i].parent != Parent::Station {
            lemma_offer_shape(net, future, before, i, before.len());
            assert forall|x: int| 0 <= x < after.len() implies {
                &&& (#[trigger] after[x].parent == Parent::Unlinked <==> !after[x].has_path)
                &&& after[x].will_lose_link ==> after[x].has_path
                &&& after[x].parent is Satellite ==> {
                    let j = after[x].parent->0;
                    j < after.len() && j != x && after[j as int].has_path
                }
            } by {
                if x != i {
                    assert(after[x] == before[x]);
                }
            }
            assert forall|x: int| 0 <= x < list.len() implies (#[trigger] after[x]).has_path == list[x].has_path by {
                assert(before[x].has_path == list[x].has_path);
            }
        }
    }
}


proof fn lemma_shortcut_from(p: Seq<Parent>, r: Seq<Parent>, q: Parent, k: nat)
    requires
        p.len() == r.len(),
        forall|x: int| 0 <= x < p.len() ==> #[trigger] r[x] == p[x] || r[x] == Parent::Station,
        walk(p, q, k) == Parent::Station,
    ensures
        exists|m: nat| #[trigger] walk(r, q, m) == Parent::Station,
    decreases k,
{
    if k == 0 {
        assert(walk(r, q, 0) == Parent::Station);
    } else if hop(r, q) == Parent::Station {
        assert(walk(r, hop(r, q), 0) == Parent::Station);
        assert(walk(r, q, 1) == Parent::Station);
    } else {
        match q {
            Parent::Satellite(x) => {
                if (x as int) < p.len() {
                    assert(r[x as int] == p[x as int] || r[x as int] == Parent::Station);
                }
            },
            _ => {},
        }
        assert(hop(r, q) == hop(p, q));
        lemma_shortcut_from(p, r, hop(p, q), (k - 1) as nat);
        let m = choose|m: nat| #[trigger] walk(r, hop(p, q), m) == Parent::Station;
        assert(walk(r, q, m + 1) == Parent::Station);
    }
}

/// Replacing some parents by the station keeps every walk that reached the
/// station reaching it.
pub proof fn lemma_shortcut_walk(p: Seq<Parent>, r: Seq<Parent>, i: usize)
    requires
        p.len() == r.len(),
        forall|x: int| 0 <= x < p.len() ==> #[trigger] r[x] == p[x] || r[x] == Parent::Station,
        leads_to_station(p, i),
    ensures
        leads_to_station(r, i),
{
    let k = choose|k: nat| #[trigger] walk(p, Parent::Satellite(i), k) == Parent::Station;
    lemma_shortcut_from(p, r, Parent::Satellite(i), k);
}

/// No two satellites stand at the same point.
pub open spec fn distinct_positions(list: Seq<SatData>) -> bool {
    forall|a: int, b: int| 0 <= a < b < list.len() ==> (#[trigger] list[a]).pos != (#[trigger] list[b]).pos
}

/// With distinct positions, reading a parent by position gives the parent
/// itself, or the ground when the parent stands at the station's position.
pub proof fn lemma_resolve_distinct(list: Seq<SatData>, station: Point, x: int)
    requires
        distinct_positions(list),
        0 <= x < list.len(),
        list[x].parent is Satellite ==> list[x].parent->0 < list.len(),
    ensures
        resolve(list, station, list[x].parent) == list[x].parent
            || resolve(list, station, list[x].parent) == Parent::Station,
{
    if list[x].parent is Satellite {
        let j = list[x].parent->0 as int;
        if list[j].pos != station {
            let q = list[j].pos;
            assert forall|t: int| 0 <= t < j implies (#[trigger] list[t]).pos != q by {
                assert(list[t].pos != list[j].pos);
            }
            assert(first_at(list, q, j));
            let y = choose|y: int| first_at(list, q, y);
            lemma_first_unique(list, q, y, j);
        }
    }
}


/// Rerouting only moves satellites that already hang from another
/// satellite: a satellite that hangs from a satellite afterwards hung from
/// one before.
pub proof fn lemma_reroute_keeps_satellite_parents(net: Network, future: Seq<Point>, list: Seq<SatData>, k: nat)
    requires
        k <= list.len(),
        list.len() <= usize::MAX,
        tree_shape(list),
    ensures
        forall|x: int| 0 <= x < list.len() && (#[trigger] reroute_upto(net, future, list, k)[x]).parent is Satellite
            ==> list[x].parent is Satellite,
    decreases k,
{
    if k > 0 {
        lemma_reroute_keeps_satellite_parents(net, future, list, (k - 1) as nat);
        lemma_reroute_shape(net, future, list, (k - 1) as nat);
        let before = reroute_upto(net, future, list, (k - 1) as nat);
        let i = k - 1;
        let after = reroute_upto(net, future, list, k);
        assert(after == reroute_one(net, future, before, i));
        assert forall|x: int| 0 <= x < list.len() && (#[trigger] after[x]).parent is Satellite implies list[x].parent is Satellite by {
            if after[x] != before[x] {
                assert(x == i);
                assert(before[i].will_lose_link);
                assert(before[i].has_path);
                assert(before[i].parent != Parent::Station);
                assert(before[i].parent is Satellite);
            }
            assert(before[x].parent is Satellite);
        }
    }
}

} // verus!
