use traffic_light::blinker::{Blinker, BlinkerEvent, BlinkerState};
use traffic_light::command::{command_outcome, Channel, Command, ControllerError, DesiredState, LightState};
use traffic_light::controller::{dispatch, startup_actions, Action};

/// A bench model of the whole system: one blinker per channel and a
/// log of every write that reaches the fake device, in order.
struct Bench {
    blinkers: [Blinker; 3],
    writes: Vec<(Channel, LightState)>,
}

impl Bench {
    fn new() -> Bench {
        Bench {
            blinkers: [Blinker::new(), Blinker::new(), Blinker::new()],
            writes: Vec::new(),
        }
    }

    /// Dispatch a command and carry out its actions in order, as the
    /// controller's execution context would.
    fn apply(&mut self, channel: Channel, state: DesiredState) {
        for act in dispatch(&Command { channel, state }) {
            match act {
                Action::SendSignal { channel, event } => {
                    if let Some(level) = self.blinkers[channel.slot()].step(event) {
                        self.writes.push((channel, level));
                    }
                }
                Action::WriteLight { channel, level } => {
                    self.writes.push((channel, level));
                }
            }
        }
    }

    /// Let one channel's blinker run through its current phase.
    fn elapse(&mut self, channel: Channel) {
        if let Some(level) = self.blinkers[channel.slot()].step(BlinkerEvent::Timeout) {
            self.writes.push((channel, level));
        }
    }
}

#[test]
fn dispatch_cancels_first() {
    let cmd = Command { channel: Channel::Red, state: DesiredState::On };
    let acts = dispatch(&cmd);
    assert_eq!(acts.len(), 2);
    assert_eq!(
        acts[0],
        Action::SendSignal { channel: Channel::Red, event: BlinkerEvent::Cancel }
    );
    assert_eq!(
        acts[1],
        Action::WriteLight { channel: Channel::Red, level: LightState::On }
    );
}

#[test]
fn dispatch_blinking_arms_after_cancel() {
    let cmd = Command {
        channel: Channel::Yellow,
        state: DesiredState::Blinking { off_ms: 30, on_ms: 40 },
    };
    let acts = dispatch(&cmd);
    assert_eq!(acts.len(), 2);
    assert_eq!(
        acts[0],
        Action::SendSignal { channel: Channel::Yellow, event: BlinkerEvent::Cancel }
    );
    assert_eq!(
        acts[1],
        Action::SendSignal {
            channel: Channel::Yellow,
            event: BlinkerEvent::Arm { off_ms: 30, on_ms: 40 },
        }
    );
}

#[test]
fn dispatch_targets_only_its_channel() {
    let states = [
        DesiredState::Off,
        DesiredState::On,
        DesiredState::Blinking { off_ms: 5, on_ms: 5 },
    ];
    for channel in [Channel::Red, Channel::Yellow, Channel::Green] {
        for state in states {
            for act in dispatch(&Command { channel, state }) {
                let target = match act {
                    Action::SendSignal { channel, .. } => channel,
                    Action::WriteLight { channel, .. } => channel,
                };
                assert_eq!(target, channel);
            }
        }
    }
}

#[test]
fn scenario_steady_states() {
    let mut bench = Bench::new();
    bench.apply(Channel::Red, DesiredState::On);
    bench.apply(Channel::Red, DesiredState::Off);
    assert_eq!(
        bench.writes,
        vec![(Channel::Red, LightState::On), (Channel::Red, LightState::Off)]
    );
}

#[test]
fn scenario_blink_then_cancel() {
    let mut bench = Bench::new();
    bench.apply(Channel::Yellow, DesiredState::Blinking { off_ms: 50, on_ms: 50 });
    assert_eq!(bench.writes, vec![]);
    // two phase elapses within the waiting window: one full toggle
    bench.elapse(Channel::Yellow);
    bench.elapse(Channel::Yellow);
    bench.apply(Channel::Yellow, DesiredState::Off);
    assert_eq!(
        bench.writes,
        vec![
            (Channel::Yellow, LightState::On),
            (Channel::Yellow, LightState::Off),
            (Channel::Yellow, LightState::Off),
        ]
    );
    // however long the old cadence had left, nothing further arrives
    assert_eq!(bench.blinkers[Channel::Yellow.slot()].wait_ms(), None);
    bench.elapse(Channel::Yellow);
    bench.elapse(Channel::Yellow);
    assert_eq!(bench.writes.len(), 3);
}

#[test]
fn scenario_rearm_mid_cycle() {
    let mut bench = Bench::new();
    bench.apply(Channel::Green, DesiredState::Blinking { off_ms: 200, on_ms: 200 });
    // mid-phase, before the first write of the old cadence
    bench.apply(Channel::Green, DesiredState::Blinking { off_ms: 10, on_ms: 10 });
    // nothing from the first cadence reached the device
    assert_eq!(bench.writes, vec![]);
    // the blinker now waits with the new durations
    assert_eq!(bench.blinkers[Channel::Green.slot()].wait_ms(), Some(10));
    bench.elapse(Channel::Green);
    assert_eq!(bench.writes, vec![(Channel::Green, LightState::On)]);
    assert_eq!(bench.blinkers[Channel::Green.slot()].wait_ms(), Some(10));
    bench.elapse(Channel::Green);
    assert_eq!(
        bench.writes,
        vec![(Channel::Green, LightState::On), (Channel::Green, LightState::Off)]
    );
}

#[test]
fn rearm_with_same_cadence_writes_nothing() {
    let mut bench = Bench::new();
    bench.apply(Channel::Red, DesiredState::Blinking { off_ms: 50, on_ms: 50 });
    bench.elapse(Channel::Red);
    assert_eq!(bench.writes, vec![(Channel::Red, LightState::On)]);
    // re-arm with the identical pair: no spurious toggle
    bench.apply(Channel::Red, DesiredState::Blinking { off_ms: 50, on_ms: 50 });
    assert_eq!(bench.writes, vec![(Channel::Red, LightState::On)]);
    assert_eq!(
        bench.blinkers[Channel::Red.slot()].state,
        BlinkerState::Blinking { off_ms: 50, on_ms: 50, phase: traffic_light::blinker::BlinkPhase::OffPhase }
    );
}

#[test]
fn channels_are_independent() {
    let mut bench = Bench::new();
    bench.apply(Channel::Red, DesiredState::Blinking { off_ms: 10, on_ms: 20 });
    let red_before = bench.blinkers[Channel::Red.slot()].state;
    // traffic on the other channels leaves red's cadence untouched
    bench.apply(Channel::Green, DesiredState::On);
    bench.apply(Channel::Yellow, DesiredState::Blinking { off_ms: 7, on_ms: 7 });
    assert_eq!(bench.blinkers[Channel::Red.slot()].state, red_before);
    assert_eq!(bench.blinkers[Channel::Red.slot()].wait_ms(), Some(10));
    assert_eq!(bench.writes, vec![(Channel::Green, LightState::On)]);
}

#[test]
fn blinker_follows_cadence() {
    let mut blinker = Blinker::new();
    assert_eq!(blinker.wait_ms(), None);
    assert_eq!(blinker.step(BlinkerEvent::Arm { off_ms: 3, on_ms: 7 }), None);
    assert_eq!(blinker.wait_ms(), Some(3));
    assert_eq!(blinker.step(BlinkerEvent::Timeout), Some(LightState::On));
    assert_eq!(blinker.wait_ms(), Some(7));
    assert_eq!(blinker.step(BlinkerEvent::Timeout), Some(LightState::Off));
    assert_eq!(blinker.wait_ms(), Some(3));
}

#[test]
fn cancelling_an_idle_blinker_is_a_no_op() {
    let mut blinker = Blinker::new();
    assert_eq!(blinker.step(BlinkerEvent::Cancel), None);
    assert_eq!(blinker.state, BlinkerState::Idle);
    assert_eq!(blinker.step(BlinkerEvent::Timeout), None);
    assert_eq!(blinker.state, BlinkerState::Idle);
}

#[test]
fn startup_turns_every_channel_off() {
    let acts = startup_actions();
    assert_eq!(
        acts,
        vec![
            Action::WriteLight { channel: Channel::Red, level: LightState::Off },
            Action::WriteLight { channel: Channel::Yellow, level: LightState::Off },
            Action::WriteLight { channel: Channel::Green, level: LightState::Off },
        ]
    );
}

#[test]
fn command_outcome_reports_write_failures() {
    assert_eq!(command_outcome(true), Ok(()));
    assert_eq!(command_outcome(false), Err(ControllerError::DeviceWriteFailed));
}
