//! The data model: channels, desired states, commands, and the errors
//! a controller reports to its caller.

use vstd::prelude::*;

verus! {

/// One of the three independently controllable light positions.
#[derive(Clone, Copy, Debug, PartialEq, Eq, Structural)]
pub enum Channel {
    Red,
    Yellow,
    Green,
}

impl Channel {
    /// The controller keeps one blinker endpoint per channel in a
    /// dense array; this is the channel's slot in it.
    pub open spec fn spec_slot(self) -> int {
        match self {
            Channel::Red => 0,
            Channel::Yellow => 1,
            Channel::Green => 2,
        }
    }

    /// The channel's controller-side slot: stable, dense, below three.
    pub fn slot(self) -> (r: usize)
        ensures
            r as int == self.spec_slot(),
            r < 3,
    {
        match self {
            Channel::Red => 0,
            Channel::Yellow => 1,
            Channel::Green => 2,
        }
    }
}

/// A physical level a channel can be driven to.
#[derive(Clone, Copy, Debug, PartialEq, Eq, Structural)]
pub enum LightState {
    Off,
    On,
}

/// What a command asks of a channel: steady off, steady on, or a
/// periodic blink with the given phase durations in milliseconds.
#[derive(Clone, Copy, Debug, PartialEq, Eq, Structural)]
pub enum DesiredState {
    Off,
    On,
    Blinking { off_ms: u64, on_ms: u64 },
}

impl DesiredState {
    /// Blink phases are positive time intervals; steady states carry
    /// no further data.
    pub open spec fn wf(self) -> bool {
        match self {
            DesiredState::Blinking { off_ms, on_ms } => off_ms > 0 && on_ms > 0,
            _ => true,
        }
    }
}

/// The unit of input to the controller: a channel and the state it
/// should be put in.
#[derive(Clone, Copy, Debug, PartialEq, Eq, Structural)]
pub struct Command {
    pub channel: Channel,
    pub state: DesiredState,
}

impl Command {
    pub open spec fn wf(self) -> bool {
        self.state.wf()
    }
}

/// Errors the controller surfaces to whoever issues commands.
#[derive(Clone, Copy, Debug, PartialEq, Eq, Structural)]
pub enum ControllerError {
    /// No device could be claimed at start-up; fatal to the process.
    DeviceUnavailable,
    /// A single steady-state write failed; the controller stays live.
    DeviceWriteFailed,
}

/// Maps the outcome of one device write, performed outside the
/// library, to the result `apply` owes its caller: success exactly
/// when the write succeeded, and `DeviceWriteFailed` otherwise.
pub fn command_outcome(write_ok: bool) -> (r: Result<(), ControllerError>)
    ensures
        write_ok <==> r is Ok,
        !write_ok ==> r == Result::<(), ControllerError>::Err(ControllerError::DeviceWriteFailed),
{
    if write_ok {
        Ok(())
    } else {
        Err(ControllerError::DeviceWriteFailed)
    }
}

} // verus!
