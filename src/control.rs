//! The commands that drive a session, and what each one does to it.
use crate::checkpoint::{checkpoint_path, saved_from, ABTestSavestate};
use crate::session::{ABTestMode, DiffMode};
use crate::world::TripID;
use vstd::prelude::*;

verus! {

/// A command given to a session by whoever drives it.
#[derive(Clone, Copy, Debug, PartialEq, Eq, Structural)]
pub enum Command {
    Quit,
    Swap,
    Scoreboard,
    SaveState,
    /// Show the difference of every trip; taken only with no difference shown
    /// and nothing selected.
    DiffAllTrips,
    /// Show the difference of one trip; taken only with no difference shown.
    DiffTrip(TripID),
    /// Stop showing a difference.
    StopDiffing,
}

/// What the driver of a session is to do after a command.
#[derive(Debug)]
pub enum Action {
    /// Carry on with the session.
    Keep,
    /// Leave the session.
    Quit,
    /// Pause and show the scoreboard of both worlds.
    ShowScoreboard,
    /// Store the snapshot under the path.
    Save(ABTestSavestate, String),
}

/// The mode after `cmd` is given in mode `mode`, with or without a selected
/// object.
pub open spec fn mode_after(mode: DiffMode, cmd: Command, has_selection: bool) -> DiffMode {
    match cmd {
        Command::DiffAllTrips => if mode == DiffMode::Off && !has_selection {
            DiffMode::AllTrips
        } else {
            mode
        },
        Command::DiffTrip(trip) => if mode == DiffMode::Off {
            DiffMode::SingleTrip(trip)
        } else {
            mode
        },
        Command::StopDiffing => DiffMode::Off,
        _ => mode,
    }
}

impl ABTestMode {
    /// Carries out `cmd`. A swap exchanges the worlds; the diff commands
    /// change the mode as `mode_after` says and compute its difference; a
    /// save hands back a snapshot and its path and leaves the session as it
    /// is; quitting and the scoreboard change nothing here.
    pub fn handle_command(&mut self, cmd: Command, has_selection: bool) -> (r: Action)
        requires
            old(self).wf(),
        ensures
            final(self).wf(),
            final(self).mode() == mode_after(old(self).mode(), cmd, has_selection),
            final(self).name() == old(self).name(),
            cmd == Command::Swap ==> final(self).active() == old(self).other()
                && final(self).other() == old(self).active(),
            cmd != Command::Swap ==> final(self).active() == old(self).active()
                && final(self).other() == old(self).other(),
            cmd != Command::Swap && mode_after(old(self).mode(), cmd, has_selection) == old(
                self,
            ).mode() ==> *final(self) == *old(self),
            r is Quit <==> cmd == Command::Quit,
            r is ShowScoreboard <==> cmd == Command::Scoreboard,
            r is Save <==> cmd == Command::SaveState,
            r matches Action::Save(ss, path) ==> saved_from(*old(self), ss) && path@
                == checkpoint_path(
                old(self).active().map.name@,
                old(self).name(),
                old(self).active().sim.time as nat,
            ),
    {
        match cmd {
            Command::Quit => Action::Quit,
            Command::Scoreboard => Action::ShowScoreboard,
            Command::SaveState => {
                let (ss, path) = self.savestate();
                Action::Save(ss, path)
            },
            Command::Swap => {
                self.swap();
                Action::Keep
            },
            Command::DiffAllTrips => {
                if self.diff_mode() == DiffMode::Off && !has_selection {
                    self.set_diff_mode(DiffMode::AllTrips);
                }
                Action::Keep
            },
            Command::DiffTrip(trip) => {
                if self.diff_mode() == DiffMode::Off {
                    self.set_diff_mode(DiffMode::SingleTrip(trip));
                }
                Action::Keep
            },
            Command::StopDiffing => {
                if self.diff_mode() != DiffMode::Off {
                    self.set_diff_mode(DiffMode::Off);
                }
                Action::Keep
            },
        }
    }
}

} // verus!
