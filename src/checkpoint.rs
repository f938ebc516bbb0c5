//! Checkpoints: a full snapshot of both worlds of a session, and the place
//! it is stored under.
use crate::session::{ABTestMode, DiffMode, StepError};
use crate::world::{lookup, MapState, SimState, TripID, World, WorldView};
use vstd::prelude::*;
use vstd::string::StringExecFns;

verus! {

/// The ten decimal digits, in order.
pub open spec fn digits() -> Seq<char> {
    seq!['0', '1', '2', '3', '4', '5', '6', '7', '8', '9']
}

/// `n` written in decimal, without leading zeros.
pub open spec fn decimal(n: nat) -> Seq<char>
    decreases n,
{
    if n < 10 {
        seq![digits()[n as int]]
    } else {
        decimal(n / 10).push(digits()[(n % 10) as int])
    }
}

/// A simulated time of `ms` milliseconds written in seconds: whole seconds,
/// then a point and three digits where a fraction of a second is left, then
/// `s` (`600s`, `12.250s`).
pub open spec fn time_text(ms: nat) -> Seq<char> {
    let frac = ms % 1000;
    let whole = decimal(ms / 1000);
    if frac == 0 {
        whole.push('s')
    } else {
        whole.push('.') + seq![
            digits()[(frac / 100) as int],
            digits()[(frac / 10 % 10) as int],
            digits()[(frac % 10) as int],
        ].push('s')
    }
}

/// Where the checkpoint of test `test` on map `map` at `ms` milliseconds is
/// stored: `../data/ab_test_saves/<map>/<test>/<time>.bin`.
pub open spec fn checkpoint_path(map: Seq<char>, test: Seq<char>, ms: nat) -> Seq<char> {
    "../data/ab_test_saves/"@ + map.push('/') + test.push('/') + time_text(ms) + ".bin"@
}

fn digit_str(d: u64) -> (r: &'static str)
    requires
        d < 10,
    ensures
        r@ == seq![digits()[d as int]],
{
    match d {
        0 => {
            proof {
                reveal_strlit("0");
            }
            "0"
        },
        1 => {
            proof {
                reveal_strlit("1");
            }
            "1"
        },
        2 => {
            proof {
                reveal_strlit("2");
            }
            "2"
        },
        3 => {
            proof {
                reveal_strlit("3");
            }
            "3"
        },
        4 => {
            proof {
                reveal_strlit("4");
            }
            "4"
        },
        5 => {
            proof {
                reveal_strlit("5");
            }
            "5"
        },
        6 => {
            proof {
                reveal_strlit("6");
            }
            "6"
        },
        7 => {
            proof {
                reveal_strlit("7");
            }
            "7"
        },
        8 => {
            proof {
                reveal_strlit("8");
            }
            "8"
        },
        _ => {
            proof {
                reveal_strlit("9");
            }
            "9"
        },
    }
}

/// Appends the one-character string `c` to `s`.
fn push_str1(s: &mut String, c: &str)
    requires
        c@.len() == 1,
    ensures
        final(s)@ == old(s)@.push(c@[0]),
{
    s.append(c);
    assert(final(s)@ =~= old(s)@.push(c@[0]));
}

fn push_decimal(s: &mut String, n: u64)
    ensures
        final(s)@ == old(s)@ + decimal(n as nat),
    decreases n,
{
    if n >= 10 {
        push_decimal(s, n / 10);
    }
    push_str1(s, digit_str(n % 10));
    assert(final(s)@ =~= old(s)@ + decimal(n as nat));
}

/// The path of the checkpoint of test `test_name` on map `map_name` at
/// `time_ms` milliseconds of simulated time.
pub fn savestate_path(map_name: &str, test_name: &str, time_ms: u64) -> (r: String)
    ensures
        r@ == checkpoint_path(map_name@, test_name@, time_ms as nat),
{
    let mut s = String::from_str("../data/ab_test_saves/");
    s.append(map_name);
    proof {
        reveal_strlit("/");
    }
    push_str1(&mut s, "/");
    s.append(test_name);
    push_str1(&mut s, "/");
    push_decimal(&mut s, time_ms / 1000);
    let frac = time_ms % 1000;
    if frac != 0 {
        proof {
            reveal_strlit(".");
        }
        push_str1(&mut s, ".");
        push_str1(&mut s, digit_str(frac / 100));
        push_str1(&mut s, digit_str(frac / 10 % 10));
        push_str1(&mut s, digit_str(frac % 10));
    }
    proof {
        reveal_strlit("s");
    }
    push_str1(&mut s, "s");
    s.append(".bin");
    assert(s@ =~= checkpoint_path(map_name@, test_name@, time_ms as nat));
    s
}

/// A full snapshot of both worlds of a session.
#[derive(Debug)]
pub struct ABTestSavestate {
    pub primary_map: MapState,
    pub primary_sim: SimState,
    pub secondary_map: MapState,
    pub secondary_sim: SimState,
}

impl ABTestSavestate {
    /// The active world of the snapshot, as plain values.
    pub open spec fn primary_view(&self) -> WorldView {
        (World { map: self.primary_map, sim: self.primary_sim })@
    }

    /// The secondary world of the snapshot, as plain values.
    pub open spec fn secondary_view(&self) -> WorldView {
        (World { map: self.secondary_map, sim: self.secondary_sim })@
    }
}

/// `ss` holds the worlds of session `s`, each in its role, value for value.
pub open spec fn saved_from(s: ABTestMode, ss: ABTestSavestate) -> bool {
    &&& ss.primary_view() == s.active()@
    &&& ss.secondary_view() == s.other()@
}

/// `r` is the session restored from `ss` for test `test`: the snapshot's
/// active world is active again, and no difference is shown.
pub open spec fn restored_from(ss: ABTestSavestate, test: Seq<char>, r: ABTestMode) -> bool {
    &&& r.active() == (World { map: ss.primary_map, sim: ss.primary_sim })
    &&& r.other() == (World { map: ss.secondary_map, sim: ss.secondary_sim })
    &&& r.mode() == DiffMode::Off
    &&& r.name() == test
    &&& r.wf()
}

impl ABTestMode {
    /// A snapshot of both worlds and the path it belongs under, which names
    /// the active world's map, the test and the active world's time. The
    /// session itself is left as it is.
    pub fn savestate(&self) -> (r: (ABTestSavestate, String))
        ensures
            saved_from(*self, r.0),
            r.1@ == checkpoint_path(self.active().map.name@, self.name(), self.active().sim.time as nat),
    {
        let p = self.primary().copy();
        let s = self.secondary().copy();
        let path = savestate_path(p.map.name.as_str(), self.test_name().as_str(), p.sim.time);
        let World { map: primary_map, sim: primary_sim } = p;
        let World { map: secondary_map, sim: secondary_sim } = s;
        (ABTestSavestate { primary_map, primary_sim, secondary_map, secondary_sim }, path)
    }

    /// The session that a snapshot holds, for test `test_name`.
    pub fn from_savestate(test_name: &str, ss: ABTestSavestate) -> (r: ABTestMode)
        ensures
            restored_from(ss, test_name@, r),
    {
        let ABTestSavestate { primary_map, primary_sim, secondary_map, secondary_sim } = ss;
        ABTestMode::new(
            test_name,
            World { map: primary_map, sim: primary_sim },
            World { map: secondary_map, sim: secondary_sim },
        )
    }
}

/// A session restored from a snapshot of `s` has the worlds of `s`, value for
/// value and each in its role, so every trip has the same canonical point in
/// it as in `s`.
pub proof fn lemma_restore_matches(s: ABTestMode, ss: ABTestSavestate, r: ABTestMode)
    requires
        saved_from(s, ss),
        restored_from(ss, s.name(), r),
    ensures
        r.active()@ == s.active()@,
        r.other()@ == s.other()@,
        forall|trip: TripID|
            lookup(r.active().sim.positions@, trip) == lookup(s.active().sim.positions@, trip),
        forall|trip: TripID|
            lookup(r.other().sim.positions@, trip) == lookup(s.other().sim.positions@, trip),
{
}

/// Two sessions with equal worlds, stepped by the same `dt` with the same
/// engine results, give the same result and still have
/// equal worlds, with equal canonical points for every trip. With
/// `lemma_restore_matches` this carries a restored session along every
/// sequence of steps of the session it was saved from.
pub proof fn lemma_equal_worlds_step_alike(
    a: ABTestMode,
    b: ABTestMode,
    dt: u64,
    primary_next: SimState,
    secondary_next: SimState,
    ra: Result<(), StepError>,
    a2: ABTestMode,
    rb: Result<(), StepError>,
    b2: ABTestMode,
)
    requires
        a.active()@ == b.active()@,
        a.other()@ == b.other()@,
        ABTestMode::stepped(a, dt, primary_next, secondary_next, ra, a2),
        ABTestMode::stepped(b, dt, primary_next, secondary_next, rb, b2),
    ensures
        ra == rb,
        a2.active()@ == b2.active()@,
        a2.other()@ == b2.other()@,
        forall|trip: TripID|
            lookup(a2.active().sim.positions@, trip) == lookup(b2.active().sim.positions@, trip),
{
}

/// `run` is a run of sessions from `run[0]`: each next session is what the
/// step `steps[i]` (its length, and the engine's new active and secondary
/// states) gives from the one before, with result `results[i]`.
pub open spec fn steps_through(
    run: Seq<ABTestMode>,
    steps: Seq<(u64, SimState, SimState)>,
    results: Seq<Result<(), StepError>>,
) -> bool {
    &&& run.len() == steps.len() + 1
    &&& results.len() == steps.len()
    &&& forall|i: int|
        0 <= i < steps.len() ==> ABTestMode::stepped(
            #[trigger] run[i],
            steps[i].0,
            steps[i].1,
            steps[i].2,
            results[i],
            run[i + 1],
        )
}

proof fn lemma_runs_alike_upto(
    a: Seq<ABTestMode>,
    ra: Seq<Result<(), StepError>>,
    b: Seq<ABTestMode>,
    rb: Seq<Result<(), StepError>>,
    steps: Seq<(u64, SimState, SimState)>,
    i: int,
)
    requires
        a[0].active()@ == b[0].active()@,
        a[0].other()@ == b[0].other()@,
        steps_through(a, steps, ra),
        steps_through(b, steps, rb),
        0 <= i < a.len(),
    ensures
        a[i].active()@ == b[i].active()@,
        a[i].other()@ == b[i].other()@,
        i < steps.len() ==> ra[i] == rb[i],
    decreases i,
{
    if i > 0 {
        lemma_runs_alike_upto(a, ra, b, rb, steps, i - 1);
        lemma_equal_worlds_step_alike(
            a[i - 1],
            b[i - 1],
            steps[i - 1].0,
            steps[i - 1].1,
            steps[i - 1].2,
            ra[i - 1],
            a[i],
            rb[i - 1],
            b[i],
        );
    }
    if i < steps.len() {
        lemma_equal_worlds_step_alike(
            a[i],
            b[i],
            steps[i].0,
            steps[i].1,
            steps[i].2,
            ra[i],
            a[i + 1],
            rb[i],
            b[i + 1],
        );
    }
}

/// A session restored from a snapshot of `s`, then stepped by the same
/// sequence of steps with the same engine results as `s` is, gives the same
/// result at every step and, after every step, has worlds equal to those of
/// `s`, so every trip has the same canonical point in both.
pub proof fn lemma_restored_runs_alike(
    ss: ABTestSavestate,
    steps: Seq<(u64, SimState, SimState)>,
    a: Seq<ABTestMode>,
    ra: Seq<Result<(), StepError>>,
    b: Seq<ABTestMode>,
    rb: Seq<Result<(), StepError>>,
)
    requires
        saved_from(a[0], ss),
        restored_from(ss, a[0].name(), b[0]),
        steps_through(a, steps, ra),
        steps_through(b, steps, rb),
    ensures
        ra == rb,
        forall|i: int|
            0 <= i < a.len() ==> #[trigger] a[i].active()@ == b[i].active()@ && a[i].other()@
                == b[i].other()@,
        forall|i: int, trip: TripID|
            0 <= i < a.len() ==> #[trigger] lookup(a[i].active().sim.positions@, trip) == lookup(
                b[i].active().sim.positions@,
                trip,
            ) && lookup(a[i].other().sim.positions@, trip) == lookup(
                b[i].other().sim.positions@,
                trip,
            ),
{
    assert forall|i: int| 0 <= i < a.len() implies #[trigger] a[i].active()@ == b[i].active()@
        && a[i].other()@ == b[i].other()@ by {
        lemma_runs_alike_upto(a, ra, b, rb, steps, i);
    }
    assert forall|i: int| 0 <= i < ra.len() implies ra[i] == rb[i] by {
        lemma_runs_alike_upto(a, ra, b, rb, steps, i);
    }
    assert(ra =~= rb);
    assert forall|i: int, trip: TripID| 0 <= i < a.len() implies #[trigger] lookup(
        a[i].active().sim.positions@,
        trip,
    ) == lookup(b[i].active().sim.positions@, trip) && lookup(a[i].other().sim.positions@, trip)
        == lookup(b[i].other().sim.positions@, trip) by {
        lemma_runs_alike_upto(a, ra, b, rb, steps, i);
        assert(a[i].active()@.positions == b[i].active()@.positions);
        assert(a[i].other()@.positions == b[i].other()@.positions);
    }
}

} // verus!
