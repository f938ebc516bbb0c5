use abtest::checkpoint::savestate_path;
use abtest::diff::{DiffAllTrips, DiffOneTrip};
use abtest::geo::{Position, Segment};
use abtest::session::{ABTestMode, DiffMode, DiffState, StepError};
use abtest::world::{AgentID, MapState, Route, SimState, TripID, World};

fn pos(x: i64, y: i64) -> Position {
    Position { x, y }
}

fn trip(id: u64) -> TripID {
    TripID { id }
}

fn route(pts: Vec<Position>) -> Route {
    Route::new(pts).unwrap()
}

fn sim(time: u64, positions: Vec<(TripID, Position)>) -> SimState {
    SimState { time, positions, agents: Vec::new(), routes: Vec::new() }
}

fn world(name: &str, sim: SimState) -> World {
    World { map: MapState { name: name.to_string() }, sim }
}

fn two_trip_sims() -> (SimState, SimState) {
    let mut a = sim(1000, vec![(trip(1), pos(0, 0)), (trip(2), pos(10, 10))]);
    a.agents = vec![(trip(1), AgentID { id: 7 })];
    a.routes = vec![(AgentID { id: 7 }, route(vec![pos(0, 0), pos(3, 4)]))];
    let mut b = sim(1000, vec![(trip(1), pos(5, 0)), (trip(2), pos(10, 10))]);
    b.agents = vec![(trip(1), AgentID { id: 9 })];
    b.routes = vec![(AgentID { id: 9 }, route(vec![pos(5, 0)]))];
    (a, b)
}

#[test]
fn trip_in_neither_world_has_no_fields() {
    let (a, b) = two_trip_sims();
    let d = DiffOneTrip::new(trip(99), &a, &b);
    assert_eq!(d.trip, trip(99));
    assert!(d.line.is_none());
    assert!(d.primary_route.is_none());
    assert!(d.secondary_route.is_none());
    assert!(!d.in_both);
}

#[test]
fn all_trips_counts_same_and_skips_missing() {
    let a = sim(0, vec![(trip(1), pos(1, 1)), (trip(2), pos(2, 2)), (trip(3), pos(3, 3))]);
    let b = sim(0, vec![(trip(2), pos(7, 2)), (trip(1), pos(1, 1))]);
    let d = DiffAllTrips::new(&a, &b);
    assert_eq!(d.same_trips, 1);
    assert_eq!(d.lines, vec![Segment { pt1: pos(2, 2), pt2: pos(7, 2) }]);
}

#[test]
fn all_trips_with_nothing_located() {
    let a = sim(0, Vec::new());
    let b = sim(0, vec![(trip(1), pos(1, 1))]);
    let d = DiffAllTrips::new(&a, &b);
    assert_eq!(d.same_trips, 0);
    assert!(d.lines.is_empty());
    let d = DiffAllTrips::new(&b, &a);
    assert_eq!(d.same_trips, 0);
    assert!(d.lines.is_empty());
}

#[test]
fn line_joins_both_canonical_points() {
    let (a, b) = two_trip_sims();
    let d = DiffOneTrip::new(trip(1), &a, &b);
    assert_eq!(d.line, Some(Segment { pt1: pos(0, 0), pt2: pos(5, 0) }));
    assert!(d.in_both);
    assert_eq!(d.primary_route.unwrap().points(), &vec![pos(0, 0), pos(3, 4)]);
    assert_eq!(d.secondary_route.unwrap().points(), &vec![pos(5, 0)]);
}

#[test]
fn identical_point_gives_no_line_and_counts_same() {
    let (a, b) = two_trip_sims();
    let d = DiffOneTrip::new(trip(2), &a, &b);
    assert!(d.line.is_none());
    assert!(d.primary_route.is_none());
    let all = DiffAllTrips::new(&a, &b);
    assert_eq!(all.same_trips, 1);
    assert_eq!(all.lines, vec![Segment { pt1: pos(0, 0), pt2: pos(5, 0) }]);
}

#[test]
fn first_entry_of_a_table_counts() {
    let a = sim(0, vec![(trip(4), pos(1, 2)), (trip(4), pos(8, 8))]);
    assert_eq!(a.canonical_pt(trip(4)), Some(pos(1, 2)));
    assert_eq!(a.canonical_pt(trip(5)), None);
}

#[test]
fn segment_needs_distinct_points() {
    assert_eq!(Segment::maybe_new(pos(1, 1), pos(1, 1)), None);
    assert_eq!(
        Segment::maybe_new(pos(1, 1), pos(1, 2)),
        Some(Segment { pt1: pos(1, 1), pt2: pos(1, 2) })
    );
}

#[test]
fn empty_route_is_refused() {
    assert!(Route::new(Vec::new()).is_none());
    let r = route(vec![pos(1, 2), pos(2, 3)]);
    assert_eq!(r.copy().points(), &vec![pos(1, 2), pos(2, 3)]);
}

fn session() -> ABTestMode {
    let (a, b) = two_trip_sims();
    ABTestMode::new("t", world("m", a), world("m2", b))
}

#[test]
fn swap_twice_restores_roles_and_diff() {
    let mut s = session();
    s.set_diff_mode(DiffMode::SingleTrip(trip(1)));
    s.swap();
    assert_eq!(s.primary().map.name, "m2");
    match s.diff() {
        DiffState::OneTrip(d) => {
            assert_eq!(d.line, Some(Segment { pt1: pos(5, 0), pt2: pos(0, 0) }))
        }
        _ => panic!("mode lost"),
    }
    s.swap();
    assert_eq!(s.primary().map.name, "m");
    assert_eq!(s.secondary().map.name, "m2");
    assert_eq!(s.diff_mode(), DiffMode::SingleTrip(trip(1)));
    match s.diff() {
        DiffState::OneTrip(d) => {
            assert_eq!(d.line, Some(Segment { pt1: pos(0, 0), pt2: pos(5, 0) }))
        }
        _ => panic!("mode lost"),
    }
}

#[test]
fn set_diff_mode_replaces_result() {
    let mut s = session();
    assert_eq!(s.diff_mode(), DiffMode::Off);
    s.set_diff_mode(DiffMode::AllTrips);
    match s.diff() {
        DiffState::AllTrips(d) => assert_eq!(d.same_trips, 1),
        _ => panic!("wrong mode"),
    }
    s.set_diff_mode(DiffMode::Off);
    assert!(matches!(s.diff(), DiffState::Off));
}

#[test]
fn step_moves_both_clocks_and_recomputes() {
    let mut s = session();
    s.set_diff_mode(DiffMode::AllTrips);
    let r = s.step(100, sim(1100, vec![(trip(1), pos(2, 2))]), sim(1100, vec![(trip(1), pos(2, 2))]));
    assert_eq!(r, Ok(()));
    assert_eq!(s.primary().sim.time, 1100);
    assert_eq!(s.secondary().sim.time, 1100);
    assert_eq!(s.primary().map.name, "m");
    match s.diff() {
        DiffState::AllTrips(d) => {
            assert_eq!(d.same_trips, 1);
            assert!(d.lines.is_empty());
        }
        _ => panic!("wrong mode"),
    }
}

#[test]
fn step_with_mismatched_clock_keeps_the_other_world() {
    let mut s = session();
    let r = s.step(100, sim(1100, Vec::new()), sim(1200, Vec::new()));
    assert_eq!(r, Err(StepError::SecondaryClock));
    assert_eq!(s.primary().sim.time, 1100);
    assert!(s.primary().sim.positions.is_empty());
    assert_eq!(s.secondary().sim.time, 1000);
    assert_eq!(s.secondary().sim.positions.len(), 2);
    let r = s.step(100, sim(1150, Vec::new()), sim(1100, Vec::new()));
    assert_eq!(r, Err(StepError::PrimaryClock));
    assert_eq!(s.primary().sim.time, 1100);
    assert_eq!(s.secondary().sim.time, 1100);
    let r = s.step(u64::MAX, sim(5, Vec::new()), sim(5, Vec::new()));
    assert_eq!(r, Err(StepError::BothClocks));
    assert_eq!(s.primary().sim.time, 1100);
}

#[test]
fn repeated_trip_counts_once_at_first_entry() {
    let a = sim(0, vec![(trip(1), pos(1, 1)), (trip(1), pos(1, 1))]);
    let b = sim(0, vec![(trip(1), pos(1, 1))]);
    let d = DiffAllTrips::new(&a, &b);
    assert_eq!(d.same_trips, 1);
    assert!(d.lines.is_empty());
    let d = DiffAllTrips::new(&b, &a);
    assert_eq!(d.same_trips, 1);
    let a = sim(0, vec![(trip(1), pos(1, 1)), (trip(1), pos(9, 9))]);
    let d = DiffAllTrips::new(&a, &b);
    assert_eq!(d.same_trips, 1);
    assert!(d.lines.is_empty());
}

#[test]
fn repeated_trip_among_others() {
    let a = sim(
        0,
        vec![(trip(1), pos(1, 1)), (trip(2), pos(2, 2)), (trip(3), pos(3, 3)), (trip(1), pos(4, 4))],
    );
    let b = sim(0, vec![(trip(1), pos(1, 1)), (trip(2), pos(7, 2))]);
    let d = DiffAllTrips::new(&a, &b);
    assert_eq!(d.same_trips, 1);
    assert_eq!(d.lines, vec![Segment { pt1: pos(2, 2), pt2: pos(7, 2) }]);
}

#[test]
fn point_missing_in_one_world_is_not_in_both() {
    let (a, mut b) = two_trip_sims();
    b.positions.remove(0);
    let d = DiffOneTrip::new(trip(1), &a, &b);
    assert!(!d.in_both);
    assert!(d.line.is_none());
    assert!(d.primary_route.is_some());
    assert!(d.secondary_route.is_some());
}

#[test]
fn checkpoint_path_and_restore() {
    let s = ABTestMode::new(
        "rush_hour",
        world("downtown", sim(600_000, vec![(trip(1), pos(1, 1))])),
        world("downtown", sim(600_000, Vec::new())),
    );
    let (ss, path) = s.savestate();
    assert_eq!(path, "../data/ab_test_saves/downtown/rush_hour/600s.bin");
    assert!(path.contains("downtown/rush_hour/600s"));
    let r = ABTestMode::from_savestate("rush_hour", ss);
    assert_eq!(r.primary().sim.time, 600_000);
    assert_eq!(r.primary().map.name, "downtown");
    assert_eq!(r.test_name(), "rush_hour");
    assert_eq!(r.diff_mode(), DiffMode::Off);
    assert_eq!(s.primary().sim.positions, r.primary().sim.positions);
}

#[test]
fn path_with_fraction_of_a_second() {
    assert_eq!(savestate_path("m", "t", 12_250), "../data/ab_test_saves/m/t/12.250s.bin");
    assert_eq!(savestate_path("m", "t", 5), "../data/ab_test_saves/m/t/0.005s.bin");
    assert_eq!(savestate_path("m", "t", 0), "../data/ab_test_saves/m/t/0s.bin");
}

#[test]
fn restored_session_steps_like_the_original() {
    let mut s = session();
    let (ss, _) = s.savestate();
    let mut r = ABTestMode::from_savestate("t", ss);
    for k in 1..4u64 {
        let next = || sim(1000 + 100 * k, vec![(trip(1), pos(k as i64, 0))]);
        assert_eq!(s.step(100, next(), next()), Ok(()));
        assert_eq!(r.step(100, next(), next()), Ok(()));
        assert_eq!(
            s.primary().sim.canonical_pt(trip(1)),
            r.primary().sim.canonical_pt(trip(1))
        );
    }
}
