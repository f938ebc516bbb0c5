//! A comparison session: two worlds, one active and one secondary, stepped
//! in lockstep, with at most one difference kept up to date.
use crate::diff::{all_trips_diff, diff_line, trip_route, DiffAllTrips, DiffOneTrip};
use crate::geo::{Position, Segment};
use crate::world::{lookup, route_opt_view, SimState, TripID, World};
use vstd::prelude::*;

verus! {

/// Which difference the session keeps up to date.
#[derive(Clone, Copy, Debug, PartialEq, Eq, Structural)]
pub enum DiffMode {
    Off,
    SingleTrip(TripID),
    AllTrips,
}

/// The difference that the session holds, of the kind its mode names.
#[derive(Debug)]
pub enum DiffState {
    Off,
    OneTrip(DiffOneTrip),
    AllTrips(DiffAllTrips),
}

/// A difference as plain values.
pub enum DiffView {
    Off,
    OneTrip {
        trip: TripID,
        line: Option<Segment>,
        in_both: bool,
        primary_route: Option<Seq<Position>>,
        secondary_route: Option<Seq<Position>>,
    },
    AllTrips { same_trips: nat, lines: Seq<Segment> },
}

impl DiffState {
    pub open spec fn view(&self) -> DiffView {
        match self {
            DiffState::Off => DiffView::Off,
            DiffState::OneTrip(d) => DiffView::OneTrip {
                trip: d.trip,
                line: d.line,
                in_both: d.in_both,
                primary_route: route_opt_view(d.primary_route),
                secondary_route: route_opt_view(d.secondary_route),
            },
            DiffState::AllTrips(d) => DiffView::AllTrips {
                same_trips: d.same_trips as nat,
                lines: d.lines@,
            },
        }
    }

    pub open spec fn mode(&self) -> DiffMode {
        match self {
            DiffState::Off => DiffMode::Off,
            DiffState::OneTrip(d) => DiffMode::SingleTrip(d.trip),
            DiffState::AllTrips(_) => DiffMode::AllTrips,
        }
    }
}

/// The difference of the kind `mode` names, computed from the active world
/// `p` and the secondary world `s`.
pub open spec fn expected_diff(mode: DiffMode, p: SimState, s: SimState) -> DiffView {
    match mode {
        DiffMode::Off => DiffView::Off,
        DiffMode::SingleTrip(trip) => DiffView::OneTrip {
            trip,
            line: diff_line(lookup(p.positions@, trip), lookup(s.positions@, trip)),
            in_both: lookup(p.positions@, trip) is Some && lookup(s.positions@, trip) is Some,
            primary_route: trip_route(p, trip),
            secondary_route: trip_route(s, trip),
        },
        DiffMode::AllTrips => {
            let (same_trips, lines) = all_trips_diff(p.positions@, s.positions@);
            DiffView::AllTrips { same_trips, lines }
        },
    }
}

/// Why a step was refused.
#[derive(Clone, Copy, Debug, PartialEq, Eq, Structural)]
pub enum StepError {
    /// The active world's new clock does not read its old time plus the step.
    PrimaryClock,
    /// The secondary world's new clock does not read its old time plus the
    /// step.
    SecondaryClock,
    /// Neither world's new clock reads its old time plus the step.
    BothClocks,
}

/// The result of a step, from whether each world's clock moved by the step.
pub open spec fn step_result(p_ok: bool, s_ok: bool) -> Result<(), StepError> {
    if p_ok && s_ok {
        Ok(())
    } else if s_ok {
        Err(StepError::PrimaryClock)
    } else if p_ok {
        Err(StepError::SecondaryClock)
    } else {
        Err(StepError::BothClocks)
    }
}

/// Two worlds compared side by side.
#[derive(Debug)]
pub struct ABTestMode {
    primary: World,
    secondary: World,
    diff: DiffState,
    test_name: String,
}

impl ABTestMode {
    /// The world shown and controlled.
    pub closed spec fn active(&self) -> World {
        self.primary
    }

    /// The other world.
    pub closed spec fn other(&self) -> World {
        self.secondary
    }

    pub closed spec fn diff_state(&self) -> DiffState {
        self.diff
    }

    pub closed spec fn name(&self) -> Seq<char> {
        self.test_name@
    }

    pub open spec fn mode(&self) -> DiffMode {
        self.diff_state().mode()
    }

    /// The difference held is the one the mode names, computed from the
    /// worlds as they are now.
    pub open spec fn wf(&self) -> bool {
        self.diff_state().view() == expected_diff(self.mode(), self.active().sim, self.other().sim)
    }

    /// `after` is `before` with the two worlds exchanged, the mode kept, and
    /// the difference recomputed.
    pub open spec fn swapped(before: ABTestMode, after: ABTestMode) -> bool {
        &&& after.active() == before.other()
        &&& after.other() == before.active()
        &&& after.mode() == before.mode()
        &&& after.name() == before.name()
        &&& after.wf()
    }

    /// `after` is what a step of `dt` from `before` gives, with result `r`,
    /// where the engine reports `primary_next` and `secondary_next`. Each
    /// world whose new clock reads its old time plus `dt` takes its new
    /// simulation, whatever the other world does; a world whose clock is off
    /// keeps its old one, and `r` names it. The maps, the mode and the name
    /// are kept, and the difference is recomputed.
    pub open spec fn stepped(
        before: ABTestMode,
        dt: u64,
        primary_next: SimState,
        secondary_next: SimState,
        r: Result<(), StepError>,
        after: ABTestMode,
    ) -> bool {
        let p_ok = primary_next.time == before.active().sim.time + dt;
        let s_ok = secondary_next.time == before.other().sim.time + dt;
        &&& r == step_result(p_ok, s_ok)
        &&& after.active() == (World {
            map: before.active().map,
            sim: if p_ok {
                primary_next
            } else {
                before.active().sim
            },
        })
        &&& after.other() == (World {
            map: before.other().map,
            sim: if s_ok {
                secondary_next
            } else {
                before.other().sim
            },
        })
        &&& after.mode() == before.mode()
        &&& after.name() == before.name()
        &&& after.wf()
    }

    /// A session on `primary` and `secondary`, showing `primary` and no
    /// difference.
    pub fn new(test_name: &str, primary: World, secondary: World) -> (r: ABTestMode)
        ensures
            r.active() == primary,
            r.other() == secondary,
            r.mode() == DiffMode::Off,
            r.name() == test_name@,
            r.wf(),
    {
        ABTestMode { primary, secondary, diff: DiffState::Off, test_name: test_name.to_string() }
    }

    fn compute(mode: DiffMode, p: &SimState, s: &SimState) -> (r: DiffState)
        ensures
            r.mode() == mode,
            r.view() == expected_diff(mode, *p, *s),
    {
        match mode {
            DiffMode::Off => DiffState::Off,
            DiffMode::SingleTrip(trip) => DiffState::OneTrip(DiffOneTrip::new(trip, p, s)),
            DiffMode::AllTrips => DiffState::AllTrips(DiffAllTrips::new(p, s)),
        }
    }

    /// Recomputes the difference that the mode names from the worlds' present
    /// state.
    pub fn recalculate_stuff(&mut self)
        ensures
            final(self).active() == old(self).active(),
            final(self).other() == old(self).other(),
            final(self).mode() == old(self).mode(),
            final(self).name() == old(self).name(),
            final(self).wf(),
    {
        let mode = self.diff_mode();
        self.diff = ABTestMode::compute(mode, &self.primary.sim, &self.secondary.sim);
    }

    /// The mode in effect.
    pub fn diff_mode(&self) -> (r: DiffMode)
        ensures
            r == self.mode(),
    {
        match &self.diff {
            DiffState::Off => DiffMode::Off,
            DiffState::OneTrip(d) => DiffMode::SingleTrip(d.trip),
            DiffState::AllTrips(_) => DiffMode::AllTrips,
        }
    }

    /// Replaces the mode, dropping the old difference and computing the new
    /// one.
    pub fn set_diff_mode(&mut self, mode: DiffMode)
        ensures
            final(self).active() == old(self).active(),
            final(self).other() == old(self).other(),
            final(self).mode() == mode,
            final(self).name() == old(self).name(),
            final(self).wf(),
    {
        self.diff = ABTestMode::compute(mode, &self.primary.sim, &self.secondary.sim);
    }

    /// Exchanges the active and the secondary world, then recomputes the
    /// difference in effect against the world now active.
    pub fn swap(&mut self)
        ensures
            ABTestMode::swapped(*old(self), *final(self)),
    {
        std::mem::swap(&mut self.primary, &mut self.secondary);
        self.recalculate_stuff();
    }

    /// Takes one lockstep step of `dt` milliseconds: `primary_next` and
    /// `secondary_next` are the active and the secondary simulation after
    /// each was advanced by `dt`. Each world whose clock reads its old time
    /// plus `dt` takes its new state, with no rollback where the other's is
    /// off; the error names the world or worlds left as they were.
    pub fn step(
        &mut self,
        dt: u64,
        primary_next: SimState,
        secondary_next: SimState,
    ) -> (r: Result<(), StepError>)
        ensures
            ABTestMode::stepped(*old(self), dt, primary_next, secondary_next, r, *final(self)),
    {
        let p_ok = match self.primary.sim.time.checked_add(dt) {
            Some(t) => t == primary_next.time,
            None => false,
        };
        let s_ok = match self.secondary.sim.time.checked_add(dt) {
            Some(t) => t == secondary_next.time,
            None => false,
        };
        if p_ok {
            self.primary.sim = primary_next;
        }
        if s_ok {
            self.secondary.sim = secondary_next;
        }
        self.recalculate_stuff();
        if p_ok && s_ok {
            Ok(())
        } else if s_ok {
            Err(StepError::PrimaryClock)
        } else if p_ok {
            Err(StepError::SecondaryClock)
        } else {
            Err(StepError::BothClocks)
        }
    }

    /// The world shown and controlled.
    pub fn primary(&self) -> (r: &World)
        ensures
            *r == self.active(),
    {
        &self.primary
    }

    /// The other world.
    pub fn secondary(&self) -> (r: &World)
        ensures
            *r == self.other(),
    {
        &self.secondary
    }

    /// The difference held.
    pub fn diff(&self) -> (r: &DiffState)
        ensures
            *r == self.diff_state(),
    {
        &self.diff
    }

    /// The name of the comparison.
    pub fn test_name(&self) -> (r: &String)
        ensures
            r@ == self.name(),
    {
        &self.test_name
    }
}

/// Swapping twice gives back the session's worlds in their first places and,
/// with no step between, the difference held before.
pub proof fn lemma_swap_twice(s: ABTestMode, once: ABTestMode, twice: ABTestMode)
    requires
        s.wf(),
        ABTestMode::swapped(s, once),
        ABTestMode::swapped(once, twice),
    ensures
        twice.active() == s.active(),
        twice.other() == s.other(),
        twice.mode() == s.mode(),
        twice.diff_state().view() == s.diff_state().view(),
{
}

} // verus!
