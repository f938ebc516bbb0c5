//! Differences between the two worlds: for one trip, and over every trip
//! that both worlds can locate.
use crate::geo::{segment_between, Position, Segment};
use crate::world::{lemma_lookup_last, lookup, route_opt_view, routes_view, Route, SimState, TripID};
use vstd::prelude::*;

verus! {

/// The segment joining a trip's two canonical points: present only where both
/// points are present and differ.
pub open spec fn diff_line(pt1: Option<Position>, pt2: Option<Position>) -> Option<Segment> {
    match (pt1, pt2) {
        (Some(a), Some(b)) => segment_between(a, b),
        _ => None,
    }
}

/// The route of the agent that realises `trip` in `sim`, if both can be found.
pub open spec fn trip_route(sim: SimState, trip: TripID) -> Option<Seq<Position>> {
    match lookup(sim.agents@, trip) {
        Some(agent) => lookup(routes_view(sim.routes@), agent),
        None => None,
    }
}

/// The difference over all trips, walking the active world's positions `p1`
/// in order: how many trips sit at the same point in `p2`, and a segment for
/// each trip whose point differs. Trips missing from `p2` count for nothing,
/// and an entry of a trip that `p1` has already listed is passed over: each
/// trip counts once, at its first entry.
pub open spec fn all_trips_diff(p1: Seq<(TripID, Position)>, p2: Seq<(TripID, Position)>) -> (
    nat,
    Seq<Segment>,
)
    decreases p1.len(),
{
    if p1.len() == 0 {
        (0, seq![])
    } else {
        let prev = all_trips_diff(p1.drop_last(), p2);
        let (trip, pt) = p1.last();
        if lookup(p1.drop_last(), trip) is Some {
            prev
        } else {
            match lookup(p2, trip) {
                None => prev,
            Some(q) => if pt == q {
                (prev.0 + 1, prev.1)
            } else {
                    (prev.0, prev.1.push(Segment { pt1: pt, pt2: q }))
                },
            }
        }
    }
}

/// How one trip differs between the active and the secondary world.
#[derive(Debug)]
pub struct DiffOneTrip {
    pub trip: TripID,
    /// From the trip's point in the active world to its point in the other.
    pub line: Option<Segment>,
    /// Whether the trip can be located in both worlds; where it cannot, the
    /// driver reports that the trip is not present in both.
    pub in_both: bool,
    pub primary_route: Option<Route>,
    pub secondary_route: Option<Route>,
}

impl DiffOneTrip {
    /// The difference for `trip`, rebuilt from both worlds' present state.
    pub fn new(trip: TripID, primary: &SimState, secondary: &SimState) -> (r: DiffOneTrip)
        ensures
            r.trip == trip,
            r.line == diff_line(lookup(primary.positions@, trip), lookup(secondary.positions@, trip)),
            r.in_both == (lookup(primary.positions@, trip) is Some && lookup(
                secondary.positions@,
                trip,
            ) is Some),
            route_opt_view(r.primary_route) == trip_route(*primary, trip),
            route_opt_view(r.secondary_route) == trip_route(*secondary, trip),
    {
        let pt1 = primary.canonical_pt(trip);
        let pt2 = secondary.canonical_pt(trip);
        let in_both = pt1.is_some() && pt2.is_some();
        let line = match (pt1, pt2) {
            (Some(a), Some(b)) => Segment::maybe_new(a, b),
            _ => None,
        };
        let primary_route = match primary.trip_to_agent(trip) {
            Some(agent) => primary.trace_route(agent),
            None => None,
        };
        let secondary_route = match secondary.trip_to_agent(trip) {
            Some(agent) => secondary.trace_route(agent),
            None => None,
        };
        DiffOneTrip { trip, line, in_both, primary_route, secondary_route }
    }

}

/// How all trips differ between the active and the secondary world.
#[derive(Debug)]
pub struct DiffAllTrips {
    /// Trips at the same point in both worlds.
    pub same_trips: usize,
    /// One segment for each trip whose point differs.
    pub lines: Vec<Segment>,
}

proof fn lemma_same_bounded(p1: Seq<(TripID, Position)>, p2: Seq<(TripID, Position)>)
    ensures
        all_trips_diff(p1, p2).0 <= p1.len(),
    decreases p1.len(),
{
    if p1.len() > 0 {
        lemma_same_bounded(p1.drop_last(), p2);
    }
}

proof fn lemma_lookup_prefix<K, V>(q: Seq<(K, V)>, k: K, m: int)
    requires
        0 <= m <= q.len(),
        lookup(q.subrange(0, m), k) is Some,
    ensures
        lookup(q, k) == lookup(q.subrange(0, m), k),
    decreases q.len() - m,
{
    if m == q.len() {
        assert(q.subrange(0, m) =~= q);
    } else {
        lemma_lookup_last(q.subrange(0, m + 1), k);
        assert(q.subrange(0, m + 1).drop_last() =~= q.subrange(0, m));
        lemma_lookup_prefix(q, k, m + 1);
    }
}

/// Whether `trip` has an entry among the first `i` entries of `p`.
fn listed_before(p: &Vec<(TripID, Position)>, i: usize, trip: TripID) -> (r: bool)
    requires
        i <= p@.len(),
    ensures
        r == lookup(p@.subrange(0, i as int), trip) is Some,
{
    let mut j: usize = 0;
    while j < i
        invariant
            i <= p@.len(),
            j <= i,
            lookup(p@.subrange(0, j as int), trip) is None,
        decreases i - j,
    {
        proof {
            lemma_lookup_last(p@.subrange(0, j + 1), trip);
            assert(p@.subrange(0, j + 1).drop_last() =~= p@.subrange(0, j as int));
        }
        if p[j].0 == trip {
            proof {
                let q = p@.subrange(0, i as int);
                assert(q.subrange(0, j + 1) =~= p@.subrange(0, j + 1));
                lemma_lookup_prefix(q, trip, j + 1);
            }
            return true;
        }
        j = j + 1;
    }
    false
}

impl DiffAllTrips {
    /// The difference over every trip located in the active world, rebuilt
    /// from both worlds' present state.
    pub fn new(primary: &SimState, secondary: &SimState) -> (r: DiffAllTrips)
        ensures
            (r.same_trips as nat, r.lines@) == all_trips_diff(
                primary.positions@,
                secondary.positions@,
            ),
    {
        let ghost p1 = primary.positions@;
        let ghost p2 = secondary.positions@;
        let n = primary.positions.len();
        let mut same_trips: usize = 0;
        let mut lines: Vec<Segment> = Vec::new();
        let mut i: usize = 0;
        while i < n
            invariant
                n == p1.len(),
                p1 == primary.positions@,
                p2 == secondary.positions@,
                i <= n,
                (same_trips as nat, lines@) == all_trips_diff(p1.subrange(0, i as int), p2),
            decreases n - i,
        {
            let (trip, pt1) = primary.positions[i];
            proof {
                lemma_same_bounded(p1.subrange(0, i as int), p2);
                assert(p1.subrange(0, i + 1).drop_last() =~= p1.subrange(0, i as int));
            }
            if !listed_before(&primary.positions, i, trip) {
                match secondary.canonical_pt(trip) {
                    Some(pt2) => {
                        if pt1 == pt2 {
                            same_trips = same_trips + 1;
                        } else {
                            lines.push(Segment { pt1, pt2 });
                        }
                    },
                    None => {},
                }
            }
            i = i + 1;
        }
        assert(p1.subrange(0, n as int) =~= p1);
        DiffAllTrips { same_trips, lines }
    }
}

/// Where a trip can be located in both worlds at distinct points, the
/// segment of its single-trip difference runs exactly from its point in the
/// active world to its point in the secondary world.
pub proof fn lemma_line_joins_points(
    p1: Seq<(TripID, Position)>,
    p2: Seq<(TripID, Position)>,
    trip: TripID,
)
    requires
        lookup(p1, trip) is Some,
        lookup(p2, trip) is Some,
        lookup(p1, trip) != lookup(p2, trip),
    ensures
        diff_line(lookup(p1, trip), lookup(p2, trip)) == Some(
            (Segment { pt1: lookup(p1, trip)->0, pt2: lookup(p2, trip)->0 }),
        ),
{
}

/// `p` without its entries under `trip`.
pub open spec fn remove_key(p: Seq<(TripID, Position)>, trip: TripID) -> Seq<(TripID, Position)>
    decreases p.len(),
{
    if p.len() == 0 {
        p
    } else if p.last().0 == trip {
        remove_key(p.drop_last(), trip)
    } else {
        remove_key(p.drop_last(), trip).push(p.last())
    }
}

proof fn lemma_remove_key_lookup(p: Seq<(TripID, Position)>, trip: TripID, k: TripID)
    requires
        k != trip,
    ensures
        lookup(remove_key(p, trip), k) == lookup(p, k),
    decreases p.len(),
{
    if p.len() > 0 {
        lemma_remove_key_lookup(p.drop_last(), trip, k);
        lemma_lookup_last(p, k);
        if p.last().0 != trip {
            let r = remove_key(p.drop_last(), trip).push(p.last());
            lemma_lookup_last(r, k);
            assert(r.drop_last() =~= remove_key(p.drop_last(), trip));
        }
    }
}

proof fn lemma_remove_trip(p1: Seq<(TripID, Position)>, p2: Seq<(TripID, Position)>, trip: TripID)
    ensures
        lookup(p1, trip) is None ==> all_trips_diff(p1, p2) == all_trips_diff(
            remove_key(p1, trip),
            remove_key(p2, trip),
        ),
        lookup(p1, trip) is Some && lookup(p2, trip) == lookup(p1, trip) ==> ({
            let d = all_trips_diff(remove_key(p1, trip), remove_key(p2, trip));
            all_trips_diff(p1, p2) == (d.0 + 1, d.1)
        }),
    decreases p1.len(),
{
    if p1.len() > 0 {
        let p = p1.drop_last();
        let (k, x) = p1.last();
        lemma_remove_trip(p, p2, trip);
        lemma_lookup_last(p1, trip);
        if k != trip {
            let q1 = remove_key(p1, trip);
            assert(q1.drop_last() =~= remove_key(p, trip));
            assert(q1.last() == (k, x));
            lemma_remove_key_lookup(p, trip, k);
            lemma_remove_key_lookup(p2, trip, k);
        }
    }
}

/// Where a trip sits at the same point in both worlds, its single-trip
/// difference has no segment, and in the all-trips difference it adds one to
/// the count of unchanged trips and no segment: with the trip taken out of
/// both worlds the count is one lower and the segments are the same.
pub proof fn lemma_identical_point_is_same(
    p1: Seq<(TripID, Position)>,
    p2: Seq<(TripID, Position)>,
    trip: TripID,
    pt: Position,
)
    requires
        lookup(p1, trip) == Some(pt),
        lookup(p2, trip) == Some(pt),
    ensures
        diff_line(lookup(p1, trip), lookup(p2, trip)) is None,
        all_trips_diff(p1, p2).0 == all_trips_diff(remove_key(p1, trip), remove_key(p2, trip)).0
            + 1,
        all_trips_diff(p1, p2).1 == all_trips_diff(remove_key(p1, trip), remove_key(p2, trip)).1,
{
    lemma_remove_trip(p1, p2, trip);
}

} // verus!
