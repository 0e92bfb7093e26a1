//! The per-channel blink state machine.
//!
//! One blinker owns the blink cadence of exactly one channel. It is
//! driven by events: a cancel signal, an arm signal carrying new phase
//! durations, or the elapse of the current phase. Each step yields at
//! most one device write; the surrounding execution context performs
//! the bounded wait that turns elapsed time or an incoming signal into
//! the next event, and carries out the write.

use vstd::prelude::*;

use crate::command::LightState;

verus! {

/// An event a blinker can observe: a signal from the controller
/// (cancel or arm), or the elapse of the current phase duration.
#[derive(Clone, Copy, Debug, PartialEq, Eq, Structural)]
pub enum BlinkerEvent {
    /// Abandon the current cycle and go idle.
    Cancel,
    /// Start (or restart) blinking with these phase durations.
    Arm { off_ms: u64, on_ms: u64 },
    /// The wait for the current phase ran to completion.
    Timeout,
}

/// Which half-cycle an armed blinker is waiting through: the off
/// interval (ends by energizing the channel) or the on interval (ends
/// by de-energizing it).
#[derive(Clone, Copy, Debug, PartialEq, Eq, Structural)]
pub enum BlinkPhase {
    OffPhase,
    OnPhase,
}

/// The state of one channel's blinker: idle, or armed with a cadence
/// and currently waiting through one of its phases.
#[derive(Clone, Copy, Debug, PartialEq, Eq, Structural)]
pub enum BlinkerState {
    Idle,
    Blinking { off_ms: u64, on_ms: u64, phase: BlinkPhase },
}

/// One transition of the blink state machine: the state after the
/// event, and the device write (if any) the event provokes.
///
/// A cancel or arm signal never writes: cancellation strictly prevents
/// the write of the phase it interrupts. Only an undisturbed phase
/// elapse reaches the device, toggling to the other phase.
pub open spec fn spec_step(s: BlinkerState, ev: BlinkerEvent) -> (BlinkerState, Option<
    LightState,
>) {
    match ev {
        BlinkerEvent::Cancel => (BlinkerState::Idle, None),
        BlinkerEvent::Arm { off_ms, on_ms } => (
            BlinkerState::Blinking { off_ms, on_ms, phase: BlinkPhase::OffPhase },
            None,
        ),
        BlinkerEvent::Timeout => match s {
            BlinkerState::Idle => (BlinkerState::Idle, None),
            BlinkerState::Blinking { off_ms, on_ms, phase } => match phase {
                BlinkPhase::OffPhase => (
                    BlinkerState::Blinking { off_ms, on_ms, phase: BlinkPhase::OnPhase },
                    Some(LightState::On),
                ),
                BlinkPhase::OnPhase => (
                    BlinkerState::Blinking { off_ms, on_ms, phase: BlinkPhase::OffPhase },
                    Some(LightState::Off),
                ),
            },
        },
    }
}

/// How long the blinker should wait for its next event: indefinitely
/// when idle, else the duration of the phase it is in.
pub open spec fn spec_wait(s: BlinkerState) -> Option<u64> {
    match s {
        BlinkerState::Idle => None,
        BlinkerState::Blinking { off_ms, on_ms, phase } => match phase {
            BlinkPhase::OffPhase => Some(off_ms),
            BlinkPhase::OnPhase => Some(on_ms),
        },
    }
}

/// The state after a blinker has consumed a whole sequence of events.
pub open spec fn run_state(s: BlinkerState, evs: Seq<BlinkerEvent>) -> BlinkerState
    decreases evs.len(),
{
    if evs.len() == 0 {
        s
    } else {
        run_state(spec_step(s, evs[0]).0, evs.skip(1))
    }
}

/// Every device write a blinker performs while consuming a sequence of
/// events, in order.
pub open spec fn run_writes(s: BlinkerState, evs: Seq<BlinkerEvent>) -> Seq<LightState>
    decreases evs.len(),
{
    if evs.len() == 0 {
        Seq::empty()
    } else {
        let head = match spec_step(s, evs[0]).1 {
            None => Seq::<LightState>::empty(),
            Some(w) => seq![w],
        };
        head + run_writes(spec_step(s, evs[0]).0, evs.skip(1))
    }
}

/// A blinker together with its current state, stepped by the
/// execution context that owns its channel.
pub struct Blinker {
    pub state: BlinkerState,
}

impl Blinker {
    /// A blinker starts idle: armed with nothing, writing nothing.
    pub fn new() -> (r: Blinker)
        ensures
            r.state == BlinkerState::Idle,
    {
        Blinker { state: BlinkerState::Idle }
    }

    /// Consume one event; the result is the device write the caller
    /// must now perform, if the event provoked one.
    pub fn step(&mut self, ev: BlinkerEvent) -> (w: Option<LightState>)
        ensures
            final(self).state == spec_step(old(self).state, ev).0,
            w == spec_step(old(self).state, ev).1,
    {
        match ev {
            BlinkerEvent::Cancel => {
                self.state = BlinkerState::Idle;
                None
            },
            BlinkerEvent::Arm { off_ms, on_ms } => {
                self.state = BlinkerState::Blinking { off_ms, on_ms, phase: BlinkPhase::OffPhase };
                None
            },
            BlinkerEvent::Timeout => {
                match self.state {
                    BlinkerState::Idle => None,
                    BlinkerState::Blinking { off_ms, on_ms, phase } => {
                        match phase {
                            BlinkPhase::OffPhase => {
                                self.state = BlinkerState::Blinking {
                                    off_ms,
                                    on_ms,
                                    phase: BlinkPhase::OnPhase,
                                };
                                Some(LightState::On)
                            },
                            BlinkPhase::OnPhase => {
                                self.state = BlinkerState::Blinking {
                                    off_ms,
                                    on_ms,
                                    phase: BlinkPhase::OffPhase,
                                };
                                Some(LightState::Off)
                            },
                        }
                    },
                }
            },
        }
    }

    /// How long to wait for the next event: `None` means block
    /// indefinitely for a signal, `Some(ms)` means wait at most that
    /// many milliseconds and report a timeout if no signal arrives.
    pub fn wait_ms(&self) -> (r: Option<u64>)
        ensures
            r == spec_wait(self.state),
    {
        match self.state {
            BlinkerState::Idle => None,
            BlinkerState::Blinking { off_ms, on_ms, phase } => {
                match phase {
                    BlinkPhase::OffPhase => Some(off_ms),
                    BlinkPhase::OnPhase => Some(on_ms),
                }
            },
        }
    }
}

/// An idle blinker stays idle and never reaches the device while no
/// arm signal arrives, however many cancels and timeouts it sees.
pub proof fn lemma_idle_silent(evs: Seq<BlinkerEvent>)
    requires
        forall|i: int| 0 <= i < evs.len() ==> !(evs[i] is Arm),
    ensures
        run_state(BlinkerState::Idle, evs) == BlinkerState::Idle,
        run_writes(BlinkerState::Idle, evs) == Seq::<LightState>::empty(),
    decreases evs.len(),
{
    if evs.len() > 0 {
        assert(spec_step(BlinkerState::Idle, evs[0]).0 == BlinkerState::Idle);
        assert(forall|i: int| 0 <= i < evs.skip(1).len() ==> !(evs.skip(1)[i] is Arm));
        lemma_idle_silent(evs.skip(1));
        assert(run_writes(BlinkerState::Idle, evs) =~= Seq::<LightState>::empty());
    }
}

/// No stale write: once a blinker has taken a new signal (a cancel or
/// a re-arm), its further behaviour — every later state and every
/// later write — is determined by that signal and the events after it
/// alone. Nothing of the earlier arming can reach the device again.
pub proof fn lemma_no_stale_write(s1: BlinkerState, s2: BlinkerState, evs: Seq<BlinkerEvent>)
    requires
        evs.len() > 0,
        !(evs[0] is Timeout),
    ensures
        run_state(s1, evs) == run_state(s2, evs),
        run_writes(s1, evs) == run_writes(s2, evs),
{
    assert(spec_step(s1, evs[0]) == spec_step(s2, evs[0]));
}

/// Cancellation latency: a cancel provokes no write of its own, and
/// until the next arm signal the blinker performs no further write at
/// all — regardless of how much of a phase was still pending.
pub proof fn lemma_cancel_silences(s: BlinkerState, evs: Seq<BlinkerEvent>)
    requires
        forall|i: int| 0 <= i < evs.len() ==> !(evs[i] is Arm),
    ensures
        run_writes(s, seq![BlinkerEvent::Cancel] + evs) == Seq::<LightState>::empty(),
        run_state(s, seq![BlinkerEvent::Cancel] + evs) == BlinkerState::Idle,
{
    let whole = seq![BlinkerEvent::Cancel] + evs;
    assert(whole[0] == BlinkerEvent::Cancel);
    assert(whole.skip(1) =~= evs);
    lemma_idle_silent(evs);
    assert(run_writes(s, whole) =~= Seq::<LightState>::empty());
}

/// Idempotent re-arm: cancelling and immediately re-arming a blinking
/// channel with the cadence it already runs emits no device write — no
/// spurious toggle — and leaves the blinker armed with that same
/// cadence, starting from the off interval.
pub proof fn lemma_rearm_idempotent(off_ms: u64, on_ms: u64, phase: BlinkPhase)
    ensures
        (run_writes(
            BlinkerState::Blinking { off_ms, on_ms, phase },
            seq![BlinkerEvent::Cancel, BlinkerEvent::Arm { off_ms, on_ms }],
        ) == Seq::<LightState>::empty()),
        (run_state(
            BlinkerState::Blinking { off_ms, on_ms, phase },
            seq![BlinkerEvent::Cancel, BlinkerEvent::Arm { off_ms, on_ms }],
        ) == BlinkerState::Blinking { off_ms, on_ms, phase: BlinkPhase::OffPhase }),
{
    let s = BlinkerState::Blinking { off_ms, on_ms, phase };
    let armed = BlinkerState::Blinking { off_ms, on_ms, phase: BlinkPhase::OffPhase };
    let evs = seq![BlinkerEvent::Cancel, BlinkerEvent::Arm { off_ms, on_ms }];
    let rest = evs.skip(1);
    assert(evs[0] == BlinkerEvent::Cancel);
    assert(rest =~= seq![BlinkerEvent::Arm { off_ms, on_ms }]);
    assert(rest[0] == BlinkerEvent::Arm { off_ms, on_ms });
    assert(rest.skip(1) =~= Seq::<BlinkerEvent>::empty());
    assert(run_state(armed, rest.skip(1)) == armed);
    assert(run_writes(armed, rest.skip(1)) == Seq::<LightState>::empty());
    assert(run_state(BlinkerState::Idle, rest) == armed);
    assert(run_writes(BlinkerState::Idle, rest) =~= Seq::<LightState>::empty());
    assert(run_state(s, evs) == armed);
    assert(run_writes(s, evs) =~= Seq::<LightState>::empty());
}

} // verus!
