//! The play / pause / reset state machine that decides whether a tick runs.

use vstd::prelude::*;

verus! {

/// Where the simulation stands between frames.
#[derive(Clone, Copy, Debug, PartialEq, Eq, Structural)]
pub enum SimState {
    /// Freshly set up or reset; nothing has moved yet.
    Stopped,
    /// Ticks are carried out.
    Playing,
    /// Started, and held still for now.
    Paused,
}

/// What the operator can ask for.
#[derive(Clone, Copy, Debug, PartialEq, Eq, Structural)]
pub enum Command {
    /// The play / pause button.
    Toggle,
    /// Back to the starting configuration.
    Reset,
}

/// What is done to the bodies in response to a command.
#[derive(Clone, Copy, Debug, PartialEq, Eq, Structural)]
pub enum Action {
    /// Leave the bodies alone.
    Keep,
    /// Replace all bodies by the starting configuration.
    Respawn,
}

/// What the play / pause button offers.
#[derive(Clone, Copy, Debug, PartialEq, Eq, Structural)]
pub enum ButtonLabel {
    Play,
    Pause,
}

impl SimState {
    pub open spec fn spec_started(self) -> bool {
        self != SimState::Stopped
    }

    pub open spec fn spec_playing(self) -> bool {
        self == SimState::Playing
    }

    pub open spec fn spec_after(self, command: Command) -> SimState {
        match command {
            Command::Reset => SimState::Stopped,
            Command::Toggle => if self == SimState::Playing {
                SimState::Paused
            } else {
                SimState::Playing
            },
        }
    }

    /// The state a simulation begins in.
    pub fn initial() -> (s: SimState)
        ensures
            s == SimState::Stopped,
    {
        SimState::Stopped
    }

    /// Whether the play button has been pressed since the last reset.
    #[verifier::when_used_as_spec(spec_started)]
    pub fn started(self) -> (b: bool)
        ensures
            b == self.spec_started(),
    {
        match self {
            SimState::Stopped => false,
            _ => true,
        }
    }

    /// Whether a tick is asked for this frame.
    #[verifier::when_used_as_spec(spec_playing)]
    pub fn playing(self) -> (b: bool)
        ensures
            b == self.spec_playing(),
    {
        match self {
            SimState::Playing => true,
            _ => false,
        }
    }

    /// The state that two flags, started and playing, stand for. A
    /// simulation that plays counts as started.
    pub fn from_flags(started: bool, playing: bool) -> (s: SimState)
        ensures
            s.spec_playing() == playing,
            !playing ==> s.spec_started() == started,
    {
        if playing {
            SimState::Playing
        } else if started {
            SimState::Paused
        } else {
            SimState::Stopped
        }
    }

    /// The state after a command, and what to do to the bodies.
    pub fn apply(self, command: Command) -> (r: (SimState, Action))
        ensures
            r.0 == self.spec_after(command),
            r.1 == (if command == Command::Reset {
                Action::Respawn
            } else {
                Action::Keep
            }),
    {
        match command {
            Command::Reset => (SimState::Stopped, Action::Respawn),
            Command::Toggle => match self {
                SimState::Playing => (SimState::Paused, Action::Keep),
                _ => (SimState::Playing, Action::Keep),
            },
        }
    }

    /// The state after a tick that could not be carried out: a simulation
    /// that plays is paused, any other stays as it is.
    pub fn halted(self) -> (s: SimState)
        ensures
            s == (if self == SimState::Playing {
                SimState::Paused
            } else {
                self
            }),
    {
        match self {
            SimState::Playing => SimState::Paused,
            other => other,
        }
    }

    /// The button offers a pause while playing, and play otherwise.
    pub fn button(self) -> (l: ButtonLabel)
        ensures
            l == (if self.spec_playing() {
                ButtonLabel::Pause
            } else {
                ButtonLabel::Play
            }),
    {
        match self {
            SimState::Playing => ButtonLabel::Pause,
            _ => ButtonLabel::Play,
        }
    }
}

/// Pressing the button always leaves the simulation started, and flips
/// whether it plays; a reset stops it from any state.
pub proof fn lemma_commands(s: SimState)
    ensures
        s.spec_after(Command::Toggle).spec_started(),
        s.spec_after(Command::Toggle).spec_playing() == !s.spec_playing(),
        s.spec_after(Command::Reset) == SimState::Stopped,
{
}

} // verus!
