//! The cycle that drives the output line.
//!
//! The loop is a state machine that never touches the line, the clock or
//! the store itself. It names the next thing to do as an [`Action`]; whoever
//! runs it performs that action and hands back what came of it as an
//! [`Event`]. A phase runs through four stages:
//!
//! 1. `Reading`: the stored configuration is read, once;
//! 2. `Holding`: the line stays at the phase's level for the length read;
//! 3. `Switching`: the line is driven to the other level;
//! 4. `Settling`: a short fixed pause, after which the other phase begins.
//!
//! A fault reported by the line ends the cycle for good.

use crate::config::{Durations, TimerConfig};
use vstd::prelude::*;

verus! {

/// Length of the pause after the line has changed its level, in
/// milliseconds.
pub const SETTLE_MS: u32 = 500;

/// The two phases of a cycle.
#[derive(Clone, Copy, Debug, PartialEq, Eq, Structural)]
pub enum Phase {
    /// The line is held high.
    On,
    /// The line is held low.
    Off,
}

/// What the loop asks its runner to do next.
#[derive(Clone, Copy, Debug, PartialEq, Eq, Structural)]
pub enum Action {
    /// Read the store and answer with [`Event::Snapshot`].
    ReadConfig,
    /// Drive the line high and answer with [`Event::Done`], or with
    /// [`Event::Fault`] where the line refuses.
    SetHigh,
    /// Drive the line low and answer with [`Event::Done`], or with
    /// [`Event::Fault`] where the line refuses.
    SetLow,
    /// Pause for this many milliseconds and answer with [`Event::Done`].
    Wait(u32),
    /// Stop: the line has failed and the cycle is over.
    Halt,
}

/// What came of an action.
#[derive(Clone, Copy, Debug, PartialEq, Eq, Structural)]
pub enum Event {
    /// The stored configuration, as read just now.
    Snapshot(TimerConfig),
    /// The action was carried out.
    Done,
    /// The line could not be driven.
    Fault,
}

/// Where the loop stands in its cycle.
#[derive(Clone, Copy, Debug, PartialEq, Eq, Structural)]
pub enum LoopState {
    /// The phase begins: the configuration is being read.
    Reading(Phase),
    /// The line is held at the phase's level for this many milliseconds.
    Holding(Phase, u32),
    /// The phase's time is up: the line is being driven to the other level.
    Switching(Phase),
    /// The line has left the phase's level and is settling.
    Settling(Phase),
    /// The line has failed. Nothing is driven any more.
    Halted,
}

impl Phase {
    /// The phase that follows this one.
    pub open spec fn next(self) -> Phase {
        match self {
            Phase::On => Phase::Off,
            Phase::Off => Phase::On,
        }
    }

    /// The phase that follows this one.
    pub fn following(self) -> (phase: Phase)
        ensures
            phase == self.next(),
    {
        match self {
            Phase::On => Phase::Off,
            Phase::Off => Phase::On,
        }
    }
}

/// How long `phase` lasts under the durations `d`, in milliseconds.
pub open spec fn phase_length(d: Durations, phase: Phase) -> nat {
    match phase {
        Phase::On => d.on_ms,
        Phase::Off => d.off_ms,
    }
}

/// The action that ends `phase`: it drives the line to the level of the
/// phase that follows.
pub open spec fn leaving(phase: Phase) -> Action {
    match phase {
        Phase::On => Action::SetLow,
        Phase::Off => Action::SetHigh,
    }
}

/// The action that the loop waits to see answered while in `state`.
pub open spec fn pending(state: LoopState) -> Action {
    match state {
        LoopState::Reading(_) => Action::ReadConfig,
        LoopState::Holding(_, ms) => Action::Wait(ms),
        LoopState::Switching(phase) => leaving(phase),
        LoopState::Settling(_) => Action::Wait(SETTLE_MS),
        LoopState::Halted => Action::Halt,
    }
}

/// Where the loop stands after `event` reached it in `state`. An event
/// that does not answer the pending action, a fault among them, halts the
/// loop.
pub open spec fn next_state(state: LoopState, event: Event) -> LoopState {
    match (state, event) {
        (LoopState::Reading(phase), Event::Snapshot(config)) => LoopState::Holding(
            phase,
            phase_length(config@, phase) as u32,
        ),
        (LoopState::Holding(phase, _), Event::Done) => LoopState::Switching(phase),
        (LoopState::Switching(phase), Event::Done) => LoopState::Settling(phase),
        (LoopState::Settling(phase), Event::Done) => LoopState::Reading(phase.next()),
        _ => LoopState::Halted,
    }
}

/// How long `phase` lasts under `config`, in milliseconds.
pub fn phase_duration(config: &TimerConfig, phase: Phase) -> (ms: u32)
    ensures
        ms as nat == phase_length(config@, phase),
        ms > 0,
{
    match phase {
        Phase::On => config.on_duration(),
        Phase::Off => config.off_duration(),
    }
}

impl LoopState {
    /// The state in which a loop starts that is to begin with `initial`:
    /// it first drives the line to the level of `initial`, lets it settle,
    /// and then begins that phase.
    pub fn start(initial: Phase) -> (state: LoopState)
        ensures
            state == LoopState::Switching(initial.next()),
            pending(state) == leaving(initial.next()),
    {
        LoopState::Switching(initial.following())
    }

    /// The action to perform in this state.
    pub fn action(&self) -> (action: Action)
        ensures
            action == pending(*self),
    {
        match self {
            LoopState::Reading(_) => Action::ReadConfig,
            LoopState::Holding(_, ms) => Action::Wait(*ms),
            LoopState::Switching(phase) => match phase {
                Phase::On => Action::SetLow,
                Phase::Off => Action::SetHigh,
            },
            LoopState::Settling(_) => Action::Wait(SETTLE_MS),
            LoopState::Halted => Action::Halt,
        }
    }

    /// Takes the answer to the pending action and gives the state that
    /// follows together with the action to perform next. No pause asked
    /// for has length zero.
    pub fn step(self, event: Event) -> (r: (LoopState, Action))
        ensures
            r.0 == next_state(self, event),
            r.1 == pending(r.0),
            r.1 matches Action::Wait(ms) ==> ms > 0,
    {
        let next: LoopState = match self {
            LoopState::Reading(phase) => match event {
                Event::Snapshot(config) => LoopState::Holding(phase, phase_duration(&config, phase)),
                _ => LoopState::Halted,
            },
            LoopState::Holding(phase, _) => match event {
                Event::Done => LoopState::Switching(phase),
                _ => LoopState::Halted,
            },
            LoopState::Switching(phase) => match event {
                Event::Done => LoopState::Settling(phase),
                _ => LoopState::Halted,
            },
            LoopState::Settling(phase) => match event {
                Event::Done => LoopState::Reading(phase.following()),
                _ => LoopState::Halted,
            },
            LoopState::Halted => LoopState::Halted,
        };
        let action: Action = next.action();
        (next, action)
    }
}

/// One thing that happens around the loop.
pub enum Happening {
    /// The stored configuration is replaced by this one.
    Replaced(TimerConfig),
    /// The loop's pending action is carried out without fault and its
    /// answer handed to the loop.
    Turn,
}

/// The loop together with what it works on.
pub struct Plant {
    /// What the store holds.
    pub held: TimerConfig,
    /// Whether the line is high.
    pub line_high: bool,
    /// Where the loop stands.
    pub state: LoopState,
}

/// The answer that `action` gets when it is carried out without fault
/// while the store holds `held`.
pub open spec fn answer(action: Action, held: TimerConfig) -> Event {
    match action {
        Action::ReadConfig => Event::Snapshot(held),
        _ => Event::Done,
    }
}

/// Whether the line is high once `action` was carried out on a line that
/// was high or not as `line_high` says.
pub open spec fn line_after(action: Action, line_high: bool) -> bool {
    match action {
        Action::SetHigh => true,
        Action::SetLow => false,
        _ => line_high,
    }
}

/// The plant after one happening.
pub open spec fn happen(plant: Plant, h: Happening) -> Plant {
    match h {
        Happening::Replaced(new) => Plant {
            held: new,
            line_high: plant.line_high,
            state: plant.state,
        },
        Happening::Turn => Plant {
            held: plant.held,
            line_high: line_after(pending(plant.state), plant.line_high),
            state: next_state(plant.state, answer(pending(plant.state), plant.held)),
        },
    }
}

/// The plant after the happenings of `hs`, in that order.
pub open spec fn happen_all(plant: Plant, hs: Seq<Happening>) -> Plant
    decreases hs.len(),
{
    if hs.len() == 0 {
        plant
    } else {
        happen(happen_all(plant, hs.drop_last()), hs.last())
    }
}

/// How many turns of the loop `hs` holds.
pub open spec fn turns(hs: Seq<Happening>) -> nat
    decreases hs.len(),
{
    if hs.len() == 0 {
        0
    } else if hs.last() is Turn {
        turns(hs.drop_last()) + 1
    } else {
        turns(hs.drop_last())
    }
}

/// The configuration of the last replace in `hs`; `held` where `hs` holds
/// no replace.
pub open spec fn latest(held: TimerConfig, hs: Seq<Happening>) -> TimerConfig
    decreases hs.len(),
{
    if hs.len() == 0 {
        held
    } else {
        match hs.last() {
            Happening::Replaced(new) => new,
            Happening::Turn => latest(held, hs.drop_last()),
        }
    }
}

/// Where a loop stands that was holding the line in `phase` for `ms`
/// milliseconds and has since made `made` turns, three at most.
pub open spec fn stage_after(phase: Phase, ms: u32, made: nat) -> LoopState {
    if made == 0 {
        LoopState::Holding(phase, ms)
    } else if made == 1 {
        LoopState::Switching(phase)
    } else if made == 2 {
        LoopState::Settling(phase)
    } else {
        LoopState::Reading(phase.next())
    }
}

/// The line is at the level that the state of the loop calls for: at the
/// level of the phase while that phase is read for or held, and at the
/// level of the next phase while the line settles.
pub open spec fn line_in_step(plant: Plant) -> bool {
    match plant.state {
        LoopState::Reading(phase) => plant.line_high == (phase is On),
        LoopState::Holding(phase, _) => plant.line_high == (phase is On),
        LoopState::Settling(phase) => plant.line_high == (phase.next() is On),
        LoopState::Switching(_) => true,
        LoopState::Halted => true,
    }
}

/// The store is looked at in the first stage of a phase and in no other:
/// in every other stage the loop moves on in the same way whatever the
/// store holds.
pub proof fn lemma_store_is_read_at_phase_start_only(
    state: LoopState,
    held: TimerConfig,
    other: TimerConfig,
)
    requires
        !(state is Reading),
    ensures
        next_state(state, answer(pending(state), held)) == next_state(
            state,
            answer(pending(state), other),
        ),
{
}

/// A phase runs on what the store held when the phase began. The turn
/// that begins a phase fixes the length of its hold from the store as it
/// is at that turn.
pub proof fn lemma_phase_start_takes_current_config(plant: Plant, phase: Phase)
    requires
        plant.state == LoopState::Reading(phase),
        plant.held@.valid(),
    ensures
        happen(plant, Happening::Turn).state matches LoopState::Holding(begun, ms) && begun == phase
            && ms as nat == phase_length(plant.held@, phase) && ms > 0,
{
}

/// An update takes effect at the next phase boundary: not sooner, and not
/// later. While the loop holds the line in `phase` for `ms` milliseconds,
/// let replaces of the stored configuration and turns of the loop happen
/// in any order, as long as the next phase has not begun (three turns at
/// most). Then the loop is still working off `phase` with its length
/// unchanged, whatever was replaced; the store holds the configuration of
/// the latest replace; and once the three turns are made, the turn that
/// begins the next phase gives it the length that this latest
/// configuration names.
pub proof fn lemma_update_applies_at_phase_boundary(
    plant: Plant,
    phase: Phase,
    ms: u32,
    hs: Seq<Happening>,
)
    requires
        plant.state == LoopState::Holding(phase, ms),
        turns(hs) <= 3,
    ensures
        happen_all(plant, hs).state == stage_after(phase, ms, turns(hs)),
        happen_all(plant, hs).held == latest(plant.held, hs),
        turns(hs) == 3 ==> happen(happen_all(plant, hs), Happening::Turn).state
            == LoopState::Holding(
            phase.next(),
            phase_length(latest(plant.held, hs)@, phase.next()) as u32,
        ),
    decreases hs.len(),
{
    if hs.len() > 0 {
        lemma_update_applies_at_phase_boundary(plant, phase, ms, hs.drop_last());
    }
}

/// The line follows the phase. If the line is at the level that the state
/// of the loop calls for, it still is after anything that happens: so the
/// line is high all through an on phase and low all through an off phase.
pub proof fn lemma_line_follows_phase(plant: Plant, hs: Seq<Happening>)
    requires
        line_in_step(plant),
    ensures
        line_in_step(happen_all(plant, hs)),
    decreases hs.len(),
{
    if hs.len() > 0 {
        lemma_line_follows_phase(plant, hs.drop_last());
    }
}

/// Once halted, always halted: after a fault no turn drives the line
/// again.
pub proof fn lemma_halt_is_final(event: Event)
    ensures
        next_state(LoopState::Halted, event) == LoopState::Halted,
        pending(LoopState::Halted) == Action::Halt,
{
}

/// A fault halts the loop in whatever state it arrives.
pub proof fn lemma_fault_halts(state: LoopState)
    ensures
        next_state(state, Event::Fault) == LoopState::Halted,
{
}

} // verus!
