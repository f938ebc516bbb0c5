use abtest::control::{Action, Command};
use abtest::geo::Position;
use abtest::session::{ABTestMode, DiffMode, DiffState};
use abtest::world::{MapState, SimState, TripID, World};

fn world(name: &str, time: u64, x: i64) -> World {
    World {
        map: MapState { name: name.to_string() },
        sim: SimState {
            time,
            positions: vec![(TripID { id: 1 }, Position { x, y: 0 })],
            agents: Vec::new(),
            routes: Vec::new(),
        },
    }
}

fn session() -> ABTestMode {
    ABTestMode::new("cmp", world("a", 3000, 0), world("b", 3000, 4))
}

#[test]
fn diff_all_needs_no_selection() {
    let mut s = session();
    assert!(matches!(s.handle_command(Command::DiffAllTrips, true), Action::Keep));
    assert_eq!(s.diff_mode(), DiffMode::Off);
    assert!(matches!(s.handle_command(Command::DiffAllTrips, false), Action::Keep));
    assert_eq!(s.diff_mode(), DiffMode::AllTrips);
    match s.diff() {
        DiffState::AllTrips(d) => {
            assert_eq!(d.same_trips, 0);
            assert_eq!(d.lines.len(), 1);
        }
        _ => panic!("wrong mode"),
    }
}

#[test]
fn diff_trip_only_from_no_diff() {
    let mut s = session();
    s.handle_command(Command::DiffAllTrips, false);
    s.handle_command(Command::DiffTrip(TripID { id: 1 }), false);
    assert_eq!(s.diff_mode(), DiffMode::AllTrips);
    s.handle_command(Command::StopDiffing, false);
    assert_eq!(s.diff_mode(), DiffMode::Off);
    s.handle_command(Command::DiffTrip(TripID { id: 1 }), true);
    assert_eq!(s.diff_mode(), DiffMode::SingleTrip(TripID { id: 1 }));
}

#[test]
fn swap_save_quit_and_scoreboard() {
    let mut s = session();
    assert!(matches!(s.handle_command(Command::Swap, false), Action::Keep));
    assert_eq!(s.primary().map.name, "b");
    match s.handle_command(Command::SaveState, false) {
        Action::Save(ss, path) => {
            assert_eq!(path, "../data/ab_test_saves/b/cmp/3s.bin");
            assert_eq!(ss.primary_map.name, "b");
            assert_eq!(ss.secondary_map.name, "a");
        }
        _ => panic!("no snapshot"),
    }
    assert_eq!(s.primary().map.name, "b");
    assert!(matches!(s.handle_command(Command::Quit, false), Action::Quit));
    assert!(matches!(s.handle_command(Command::Scoreboard, false), Action::ShowScoreboard));
}
