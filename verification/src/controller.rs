//! The controller's dispatch decisions.
//!
//! The controller is the single point of serialization for the device:
//! for every command it first signals the target channel's blinker to
//! cancel any cycle in progress, and only then either performs the
//! steady-state write itself or re-arms that blinker. `dispatch` is
//! that decision, as the exact sequence of actions the controller's
//! execution context must carry out, in order.

use vstd::prelude::*;

use crate::blinker::{run_state, run_writes, BlinkPhase, BlinkerEvent, BlinkerState};
use crate::command::{Channel, Command, DesiredState, LightState};

verus! {

/// One action of the controller: hand a signal to a channel's blinker,
/// or write a steady level to the device itself.
#[derive(Clone, Copy, Debug, PartialEq, Eq, Structural)]
pub enum Action {
    SendSignal { channel: Channel, event: BlinkerEvent },
    WriteLight { channel: Channel, level: LightState },
}

/// The channel an action is aimed at.
pub open spec fn action_channel(a: Action) -> Channel {
    match a {
        Action::SendSignal { channel, event } => channel,
        Action::WriteLight { channel, level } => channel,
    }
}

/// What the controller does with one command: first and always, cancel
/// the target channel's blinker; then write the steady level itself
/// (off or on), or arm the blinker with the new cadence (blinking).
pub open spec fn spec_dispatch(cmd: Command) -> Seq<Action> {
    seq![Action::SendSignal { channel: cmd.channel, event: BlinkerEvent::Cancel }] + match cmd.state {
        DesiredState::Off => seq![
            Action::WriteLight { channel: cmd.channel, level: LightState::Off },
        ],
        DesiredState::On => seq![
            Action::WriteLight { channel: cmd.channel, level: LightState::On },
        ],
        DesiredState::Blinking { off_ms, on_ms } => seq![
            Action::SendSignal { channel: cmd.channel, event: BlinkerEvent::Arm { off_ms, on_ms } },
        ],
    }
}

/// The actions a command dispatches, in the order the controller must
/// perform them.
pub fn dispatch(cmd: &Command) -> (acts: Vec<Action>)
    ensures
        acts@ == spec_dispatch(*cmd),
{
    let mut acts: Vec<Action> = Vec::new();
    acts.push(Action::SendSignal { channel: cmd.channel, event: BlinkerEvent::Cancel });
    match cmd.state {
        DesiredState::Off => {
            acts.push(Action::WriteLight { channel: cmd.channel, level: LightState::Off });
        },
        DesiredState::On => {
            acts.push(Action::WriteLight { channel: cmd.channel, level: LightState::On });
        },
        DesiredState::Blinking { off_ms, on_ms } => {
            acts.push(
                Action::SendSignal {
                    channel: cmd.channel,
                    event: BlinkerEvent::Arm { off_ms, on_ms },
                },
            );
        },
    }
    proof {
        assert(acts@ =~= spec_dispatch(*cmd));
    }
    acts
}

/// The signals a sequence of actions delivers to one channel's
/// blinker, in order.
pub open spec fn signals_for(ch: Channel, acts: Seq<Action>) -> Seq<BlinkerEvent>
    decreases acts.len(),
{
    if acts.len() == 0 {
        Seq::empty()
    } else {
        let head = match acts[0] {
            Action::SendSignal { channel, event } => if channel == ch {
                seq![event]
            } else {
                Seq::<BlinkerEvent>::empty()
            },
            Action::WriteLight { .. } => Seq::<BlinkerEvent>::empty(),
        };
        head + signals_for(ch, acts.skip(1))
    }
}

/// Cross-channel independence, at the level of one command: every
/// action a command dispatches is aimed at the command's own channel,
/// and no other channel's blinker is sent any signal.
pub proof fn lemma_dispatch_single_channel(cmd: Command, other: Channel)
    requires
        other != cmd.channel,
    ensures
        forall|i: int|
            0 <= i < spec_dispatch(cmd).len() ==> action_channel(spec_dispatch(cmd)[i])
                == cmd.channel,
        signals_for(other, spec_dispatch(cmd)) == Seq::<BlinkerEvent>::empty(),
{
    let acts = spec_dispatch(cmd);
    assert(acts.len() == 2);
    assert(action_channel(acts[0]) == cmd.channel);
    assert(action_channel(acts[1]) == cmd.channel);
    assert(acts.skip(1) =~= seq![acts[1]]);
    assert(acts.skip(1).skip(1) =~= Seq::<Action>::empty());
    assert(signals_for(other, acts.skip(1).skip(1)) == Seq::<BlinkerEvent>::empty());
    assert(signals_for(other, acts.skip(1)) =~= Seq::<BlinkerEvent>::empty());
    assert(signals_for(other, acts) =~= Seq::<BlinkerEvent>::empty());
}

/// What dispatching one command does to the target channel's blinker:
/// the signals themselves provoke no device write — cancellation
/// strictly prevents the write of any interrupted phase — and they
/// leave the blinker exactly as the command asks: idle for a steady
/// state, armed at the start of the off interval for a blinking one.
/// Together with `lemma_no_stale_write` this rules out any write of a
/// superseded cycle: after the cancel, the blinker's behaviour no
/// longer depends on what it was doing before.
pub proof fn lemma_command_quiets_target(s: BlinkerState, cmd: Command)
    ensures
        (run_writes(s, signals_for(cmd.channel, spec_dispatch(cmd))) == Seq::<
            LightState,
        >::empty()),
        !(cmd.state is Blinking) ==> run_state(s, signals_for(cmd.channel, spec_dispatch(cmd)))
            == BlinkerState::Idle,
        (forall|off_ms: u64, on_ms: u64|
            cmd.state == DesiredState::Blinking { off_ms, on_ms } ==> run_state(
                s,
                signals_for(cmd.channel, spec_dispatch(cmd)),
            ) == BlinkerState::Blinking { off_ms, on_ms, phase: BlinkPhase::OffPhase }),
{
    let acts = spec_dispatch(cmd);
    let sigs = signals_for(cmd.channel, acts);
    assert(acts.len() == 2);
    assert(acts.skip(1) =~= seq![acts[1]]);
    assert(acts.skip(1).skip(1) =~= Seq::<Action>::empty());
    let tail = acts.skip(1);
    assert(tail[0] == acts[1]);
    assert(signals_for(cmd.channel, tail.skip(1)) =~= Seq::<BlinkerEvent>::empty());
    match cmd.state {
        DesiredState::Blinking { off_ms, on_ms } => {
            let armed = BlinkerState::Blinking { off_ms, on_ms, phase: BlinkPhase::OffPhase };
            assert(acts[1] == Action::SendSignal {
                channel: cmd.channel,
                event: BlinkerEvent::Arm { off_ms, on_ms },
            });
            assert(signals_for(cmd.channel, tail) =~= seq![BlinkerEvent::Arm { off_ms, on_ms }]);
            assert(sigs =~= seq![BlinkerEvent::Cancel, BlinkerEvent::Arm { off_ms, on_ms }]);
            assert(sigs.skip(1) =~= seq![BlinkerEvent::Arm { off_ms, on_ms }]);
            assert(sigs.skip(1).skip(1) =~= Seq::<BlinkerEvent>::empty());
            assert(run_state(armed, sigs.skip(1).skip(1)) == armed);
            assert(run_writes(armed, sigs.skip(1).skip(1)) =~= Seq::<LightState>::empty());
            assert(run_state(BlinkerState::Idle, sigs.skip(1)) == armed);
            assert(run_writes(BlinkerState::Idle, sigs.skip(1)) =~= Seq::<LightState>::empty());
            assert(run_state(s, sigs) == armed);
            assert(run_writes(s, sigs) =~= Seq::<LightState>::empty());
        },
        _ => {
            assert(signals_for(cmd.channel, tail) =~= Seq::<BlinkerEvent>::empty());
            assert(sigs =~= seq![BlinkerEvent::Cancel]);
            assert(sigs.skip(1) =~= Seq::<BlinkerEvent>::empty());
            assert(run_state(BlinkerState::Idle, sigs.skip(1)) == BlinkerState::Idle);
            assert(run_writes(BlinkerState::Idle, sigs.skip(1)) =~= Seq::<LightState>::empty());
            assert(run_state(s, sigs) == BlinkerState::Idle);
            assert(run_writes(s, sigs) =~= Seq::<LightState>::empty());
        },
    }
}

/// What the controller writes at start-up: every channel is put to
/// the steady off level before any command is taken.
pub open spec fn spec_startup_actions() -> Seq<Action> {
    seq![
        Action::WriteLight { channel: Channel::Red, level: LightState::Off },
        Action::WriteLight { channel: Channel::Yellow, level: LightState::Off },
        Action::WriteLight { channel: Channel::Green, level: LightState::Off },
    ]
}

/// The start-up writes, in the order the controller must perform
/// them.
pub fn startup_actions() -> (acts: Vec<Action>)
    ensures
        acts@ == spec_startup_actions(),
{
    let mut acts: Vec<Action> = Vec::new();
    acts.push(Action::WriteLight { channel: Channel::Red, level: LightState::Off });
    acts.push(Action::WriteLight { channel: Channel::Yellow, level: LightState::Off });
    acts.push(Action::WriteLight { channel: Channel::Green, level: LightState::Off });
    proof {
        assert(acts@ =~= spec_startup_actions());
    }
    acts
}

/// The controller's model of the whole system: the state of each
/// channel's blinker.
pub struct LightsModel {
    pub red: BlinkerState,
    pub yellow: BlinkerState,
    pub green: BlinkerState,
}

/// The modelled blinker state of one channel.
pub open spec fn chan_state(m: LightsModel, ch: Channel) -> BlinkerState {
    match ch {
        Channel::Red => m.red,
        Channel::Yellow => m.yellow,
        Channel::Green => m.green,
    }
}

/// The system after the blinkers have consumed the signals one command
/// dispatches to them: each channel's blinker runs exactly the signals
/// aimed at it.
pub open spec fn apply_signals(m: LightsModel, cmd: Command) -> LightsModel {
    LightsModel {
        red: run_state(m.red, signals_for(Channel::Red, spec_dispatch(cmd))),
        yellow: run_state(m.yellow, signals_for(Channel::Yellow, spec_dispatch(cmd))),
        green: run_state(m.green, signals_for(Channel::Green, spec_dispatch(cmd))),
    }
}

/// Cross-channel independence, at the level of the system model: a
/// command leaves the blinker state of every other channel exactly as
/// it was.
pub proof fn lemma_other_channels_untouched(m: LightsModel, cmd: Command, other: Channel)
    requires
        other != cmd.channel,
    ensures
        chan_state(apply_signals(m, cmd), other) == chan_state(m, other),
{
    lemma_dispatch_single_channel(cmd, other);
    assert(run_state(chan_state(m, other), Seq::<BlinkerEvent>::empty()) == chan_state(m, other));
}

} // verus!
