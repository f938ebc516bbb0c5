//! One simulation world as the comparison sees it: the map it runs on and
//! the observable state of its simulation at the current simulated time.
//!
//! The simulation engine fills these tables; this module answers the
//! correspondence queries (trip to position, trip to agent, agent to route)
//! from them without changing anything.
use crate::geo::Position;
use vstd::prelude::*;

verus! {

/// A logical trip, stable across both worlds of one scenario.
#[derive(Clone, Copy, Debug, PartialEq, Eq, Structural, Hash)]
pub struct TripID {
    pub id: u64,
}

/// A live agent realising a trip at some simulated time.
#[derive(Clone, Copy, Debug, PartialEq, Eq, Structural, Hash)]
pub struct AgentID {
    pub id: u64,
}

/// The path an agent has traced: a non-empty sequence of points.
#[derive(Debug)]
pub struct Route {
    pts: Vec<Position>,
}

impl View for Route {
    type V = Seq<Position>;

    closed spec fn view(&self) -> Seq<Position> {
        self.pts@
    }
}

impl Route {
    #[verifier::type_invariant]
    spec fn non_empty(self) -> bool {
        self.pts@.len() > 0
    }

    /// The route through `pts`, or `None` where `pts` is empty.
    pub fn new(pts: Vec<Position>) -> (r: Option<Route>)
        ensures
            r is None <==> pts@.len() == 0,
            r matches Some(rt) ==> rt@ == pts@,
    {
        if pts.len() == 0 {
            None
        } else {
            Some(Route { pts })
        }
    }

    /// The points of the route, in order.
    pub fn points(&self) -> (r: &Vec<Position>)
        ensures
            r@ == self@,
            r@.len() > 0,
    {
        proof {
            use_type_invariant(self);
        }
        &self.pts
    }

    /// A second route with the same points.
    pub fn copy(&self) -> (r: Route)
        ensures
            r@ == self@,
    {
        proof {
            use_type_invariant(self);
        }
        let mut pts: Vec<Position> = Vec::new();
        let mut i: usize = 0;
        while i < self.pts.len()
            invariant
                i <= self.pts@.len(),
                pts@ == self.pts@.subrange(0, i as int),
            decreases self.pts@.len() - i,
        {
            pts.push(self.pts[i]);
            i = i + 1;
            assert(pts@ =~= self.pts@.subrange(0, i as int));
        }
        assert(pts@ =~= self.pts@);
        Route { pts }
    }
}

/// The map a world runs on.
#[derive(Debug)]
pub struct MapState {
    pub name: String,
}

/// What a world's simulation shows at its current time.
///
/// `positions` holds the canonical point of every trip that can be located
/// now; a trip that has not started, has finished or cannot be located has no
/// entry. Where a table names a key twice, its first entry counts.
#[derive(Debug)]
pub struct SimState {
    /// Simulated time in milliseconds.
    pub time: u64,
    pub positions: Vec<(TripID, Position)>,
    pub agents: Vec<(TripID, AgentID)>,
    pub routes: Vec<(AgentID, Route)>,
}

/// One simulation world: a map and the simulation that runs on it.
#[derive(Debug)]
pub struct World {
    pub map: MapState,
    pub sim: SimState,
}

/// The value of the first entry of `s` under key `k`.
pub open spec fn lookup<K, V>(s: Seq<(K, V)>, k: K) -> Option<V>
    decreases s.len(),
{
    if s.len() == 0 {
        None
    } else if s[0].0 == k {
        Some(s[0].1)
    } else {
        lookup(s.drop_first(), k)
    }
}

/// A route table with each route replaced by its points.
pub open spec fn routes_view(s: Seq<(AgentID, Route)>) -> Seq<(AgentID, Seq<Position>)> {
    s.map_values(|e: (AgentID, Route)| (e.0, e.1@))
}

/// The points of a route that may be absent.
pub open spec fn route_opt_view(r: Option<Route>) -> Option<Seq<Position>> {
    match r {
        Some(rt) => Some(rt@),
        None => None,
    }
}

proof fn lemma_lookup_step<K, V>(s: Seq<(K, V)>, k: K, i: int)
    requires
        0 <= i < s.len(),
    ensures
        lookup(s.subrange(i, s.len() as int), k) == if s[i].0 == k {
            Some(s[i].1)
        } else {
            lookup(s.subrange(i + 1, s.len() as int), k)
        },
{
    assert(s.subrange(i, s.len() as int).drop_first() =~= s.subrange(i + 1, s.len() as int));
}

proof fn lemma_lookup_end<K, V>(s: Seq<(K, V)>, k: K)
    ensures
        lookup(s.subrange(s.len() as int, s.len() as int), k) is None,
        lookup(s.subrange(0, s.len() as int), k) == lookup(s, k),
{
    assert(s.subrange(0, s.len() as int) =~= s);
}

/// The first entry under `k` is in the table without its last entry, or,
/// where it is not, is that last entry.
pub proof fn lemma_lookup_last<K, V>(s: Seq<(K, V)>, k: K)
    requires
        s.len() > 0,
    ensures
        lookup(s, k) == match lookup(s.drop_last(), k) {
            Some(v) => Some(v),
            None => if s.last().0 == k {
                Some(s.last().1)
            } else {
                None
            },
        },
    decreases s.len(),
{
    if s.len() == 1 {
        assert(lookup(s.drop_first(), k) is None);
        assert(lookup(s.drop_last(), k) is None);
    } else {
        assert(s.drop_last()[0] == s[0]);
        if s[0].0 != k {
            lemma_lookup_last(s.drop_first(), k);
            assert(s.drop_first().drop_last() =~= s.drop_last().drop_first());
            assert(s.drop_first().last() == s.last());
            assert(lookup(s.drop_last(), k) == lookup(s.drop_last().drop_first(), k));
        }
    }
}

impl SimState {
    /// The canonical point of `trip` now, if it can be located.
    pub fn canonical_pt(&self, trip: TripID) -> (r: Option<Position>)
        ensures
            r == lookup(self.positions@, trip),
    {
        let n = self.positions.len();
        proof {
            lemma_lookup_end(self.positions@, trip);
        }
        let mut i: usize = 0;
        while i < n
            invariant
                n == self.positions@.len(),
                i <= n,
                lookup(self.positions@, trip) == lookup(
                    self.positions@.subrange(i as int, n as int),
                    trip,
                ),
            decreases n - i,
        {
            proof {
                lemma_lookup_step(self.positions@, trip, i as int);
            }
            if self.positions[i].0 == trip {
                return Some(self.positions[i].1);
            }
            i = i + 1;
        }
        None
    }

    /// The agent realising `trip` now, if there is one.
    pub fn trip_to_agent(&self, trip: TripID) -> (r: Option<AgentID>)
        ensures
            r == lookup(self.agents@, trip),
    {
        let n = self.agents.len();
        proof {
            lemma_lookup_end(self.agents@, trip);
        }
        let mut i: usize = 0;
        while i < n
            invariant
                n == self.agents@.len(),
                i <= n,
                lookup(self.agents@, trip) == lookup(
                    self.agents@.subrange(i as int, n as int),
                    trip,
                ),
            decreases n - i,
        {
            proof {
                lemma_lookup_step(self.agents@, trip, i as int);
            }
            if self.agents[i].0 == trip {
                return Some(self.agents[i].1);
            }
            i = i + 1;
        }
        None
    }

    /// The route traced by `agent`, if the agent can be found.
    pub fn trace_route(&self, agent: AgentID) -> (r: Option<Route>)
        ensures
            route_opt_view(r) == lookup(routes_view(self.routes@), agent),
    {
        let n = self.routes.len();
        let ghost rv = routes_view(self.routes@);
        proof {
            lemma_lookup_end(rv, agent);
        }
        let mut i: usize = 0;
        while i < n
            invariant
                n == self.routes@.len(),
                rv == routes_view(self.routes@),
                rv.len() == n,
                i <= n,
                lookup(rv, agent) == lookup(rv.subrange(i as int, n as int), agent),
            decreases n - i,
        {
            proof {
                lemma_lookup_step(rv, agent, i as int);
            }
            if self.routes[i].0 == agent {
                return Some(self.routes[i].1.copy());
            }
            i = i + 1;
        }
        None
    }
}

/// The whole of a world as plain values.
pub struct WorldView {
    pub map_name: Seq<char>,
    pub time: u64,
    pub positions: Seq<(TripID, Position)>,
    pub agents: Seq<(TripID, AgentID)>,
    pub routes: Seq<(AgentID, Seq<Position>)>,
}

impl View for World {
    type V = WorldView;

    open spec fn view(&self) -> WorldView {
        WorldView {
            map_name: self.map.name@,
            time: self.sim.time,
            positions: self.sim.positions@,
            agents: self.sim.agents@,
            routes: routes_view(self.sim.routes@),
        }
    }
}

fn copy_table<K: Copy, V: Copy>(v: &Vec<(K, V)>) -> (r: Vec<(K, V)>)
    ensures
        r@ == v@,
{
    let mut r: Vec<(K, V)> = Vec::new();
    let mut i: usize = 0;
    while i < v.len()
        invariant
            i <= v@.len(),
            r@ == v@.subrange(0, i as int),
        decreases v@.len() - i,
    {
        r.push(v[i]);
        i = i + 1;
        assert(r@ =~= v@.subrange(0, i as int));
    }
    assert(r@ =~= v@);
    r
}

impl World {
    /// A second world equal to this one in every value.
    pub fn copy(&self) -> (r: World)
        ensures
            r@ == self@,
    {
        let positions = copy_table(&self.sim.positions);
        let agents = copy_table(&self.sim.agents);
        let n = self.sim.routes.len();
        let mut routes: Vec<(AgentID, Route)> = Vec::new();
        let mut i: usize = 0;
        while i < n
            invariant
                n == self.sim.routes@.len(),
                i <= n,
                routes_view(routes@) == routes_view(self.sim.routes@).subrange(0, i as int),
            decreases n - i,
        {
            let rt = self.sim.routes[i].1.copy();
            let ghost before = routes@;
            routes.push((self.sim.routes[i].0, rt));
            proof {
                assert(routes@ == before.push((self.sim.routes@[i as int].0, rt)));
                assert(routes_view(routes@) =~= routes_view(before).push(
                    routes_view(self.sim.routes@)[i as int],
                ));
            }
            i = i + 1;
            assert(routes_view(routes@) =~= routes_view(self.sim.routes@).subrange(0, i as int));
        }
        assert(routes_view(routes@) =~= routes_view(self.sim.routes@));
        World {
            map: MapState { name: self.map.name.clone() },
            sim: SimState { time: self.sim.time, positions, agents, routes },
        }
    }
}

} // verus!
