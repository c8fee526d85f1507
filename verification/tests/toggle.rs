use toggle_timer::config::{ConfigStore, TimerConfig};
use toggle_timer::toggle::{phase_duration, Action, Event, LoopState, Phase, SETTLE_MS};
use toggle_timer::update::submit;

fn config(on_ms: u32, off_ms: u32) -> TimerConfig {
    TimerConfig::new(on_ms, off_ms).unwrap()
}

/// Runs the loop for `turns` turns against `store`, with a line that never
/// fails, and gives the actions that it asked for.
fn run(store: &ConfigStore, start: LoopState, turns: usize) -> (LoopState, Vec<Action>) {
    let mut state = start;
    let mut action = state.action();
    let mut asked = vec![action];
    for _ in 0..turns {
        let event = match action {
            Action::ReadConfig => Event::Snapshot(store.read()),
            _ => Event::Done,
        };
        let (next, then) = state.step(event);
        state = next;
        action = then;
        asked.push(action);
    }
    (state, asked)
}

#[test]
fn settle_interval_is_half_a_second() {
    assert_eq!(SETTLE_MS, 500);
}

#[test]
fn phases_alternate() {
    assert_eq!(Phase::On.following(), Phase::Off);
    assert_eq!(Phase::Off.following(), Phase::On);
}

#[test]
fn phase_duration_picks_the_length_of_the_phase() {
    let c = config(2000, 3000);
    assert_eq!(phase_duration(&c, Phase::On), 2000);
    assert_eq!(phase_duration(&c, Phase::Off), 3000);
}

#[test]
fn loop_starts_by_driving_the_line_to_its_first_level() {
    assert_eq!(LoopState::start(Phase::On), LoopState::Switching(Phase::Off));
    assert_eq!(LoopState::start(Phase::On).action(), Action::SetHigh);
    assert_eq!(LoopState::start(Phase::Off), LoopState::Switching(Phase::On));
    assert_eq!(LoopState::start(Phase::Off).action(), Action::SetLow);
}

#[test]
fn each_state_names_its_action() {
    assert_eq!(LoopState::Reading(Phase::On).action(), Action::ReadConfig);
    assert_eq!(LoopState::Reading(Phase::Off).action(), Action::ReadConfig);
    assert_eq!(LoopState::Holding(Phase::On, 77).action(), Action::Wait(77));
    assert_eq!(LoopState::Holding(Phase::Off, 88).action(), Action::Wait(88));
    assert_eq!(LoopState::Switching(Phase::On).action(), Action::SetLow);
    assert_eq!(LoopState::Switching(Phase::Off).action(), Action::SetHigh);
    assert_eq!(LoopState::Settling(Phase::On).action(), Action::Wait(500));
    assert_eq!(LoopState::Settling(Phase::Off).action(), Action::Wait(500));
    assert_eq!(LoopState::Halted.action(), Action::Halt);
}

#[test]
fn on_phase_runs_through_its_four_stages() {
    let c = config(2000, 3000);
    let (s1, a1) = LoopState::Reading(Phase::On).step(Event::Snapshot(c));
    assert_eq!((s1, a1), (LoopState::Holding(Phase::On, 2000), Action::Wait(2000)));
    let (s2, a2) = s1.step(Event::Done);
    assert_eq!((s2, a2), (LoopState::Switching(Phase::On), Action::SetLow));
    let (s3, a3) = s2.step(Event::Done);
    assert_eq!((s3, a3), (LoopState::Settling(Phase::On), Action::Wait(500)));
    let (s4, a4) = s3.step(Event::Done);
    assert_eq!((s4, a4), (LoopState::Reading(Phase::Off), Action::ReadConfig));
}

#[test]
fn off_phase_runs_through_its_four_stages() {
    let c = config(2000, 3000);
    let (s1, a1) = LoopState::Reading(Phase::Off).step(Event::Snapshot(c));
    assert_eq!((s1, a1), (LoopState::Holding(Phase::Off, 3000), Action::Wait(3000)));
    let (s2, a2) = s1.step(Event::Done);
    assert_eq!((s2, a2), (LoopState::Switching(Phase::Off), Action::SetHigh));
    let (s3, a3) = s2.step(Event::Done);
    assert_eq!((s3, a3), (LoopState::Settling(Phase::Off), Action::Wait(500)));
    let (s4, a4) = s3.step(Event::Done);
    assert_eq!((s4, a4), (LoopState::Reading(Phase::On), Action::ReadConfig));
}

#[test]
fn default_cycle_from_power_up() {
    let store = ConfigStore::default();
    let (state, asked) = run(&store, LoopState::start(Phase::On), 12);
    assert_eq!(
        asked,
        vec![
            Action::SetHigh,
            Action::Wait(500),
            Action::ReadConfig,
            Action::Wait(240_000),
            Action::SetLow,
            Action::Wait(500),
            Action::ReadConfig,
            Action::Wait(480_000),
            Action::SetHigh,
            Action::Wait(500),
            Action::ReadConfig,
            Action::Wait(240_000),
            Action::SetLow,
        ]
    );
    assert_eq!(state, LoopState::Switching(Phase::On));
}

#[test]
fn cycle_that_starts_with_the_off_phase() {
    let store = ConfigStore::new(config(10, 20));
    let (_, asked) = run(&store, LoopState::start(Phase::Off), 7);
    assert_eq!(
        asked,
        vec![
            Action::SetLow,
            Action::Wait(500),
            Action::ReadConfig,
            Action::Wait(20),
            Action::SetHigh,
            Action::Wait(500),
            Action::ReadConfig,
            Action::Wait(10),
        ]
    );
}

#[test]
fn line_is_high_through_on_and_low_through_off() {
    let store = ConfigStore::new(config(10, 20));
    let mut state = LoopState::start(Phase::On);
    let mut high = false;
    for _ in 0..200 {
        let event = match state.action() {
            Action::SetHigh => {
                high = true;
                Event::Done
            }
            Action::SetLow => {
                high = false;
                Event::Done
            }
            Action::ReadConfig => Event::Snapshot(store.read()),
            _ => Event::Done,
        };
        state = state.step(event).0;
        match state {
            LoopState::Holding(Phase::On, _) | LoopState::Reading(Phase::On) => assert!(high),
            LoopState::Holding(Phase::Off, _) | LoopState::Reading(Phase::Off) => assert!(!high),
            _ => {}
        }
    }
}

#[test]
fn update_during_on_phase_waits_for_the_off_phase() {
    let mut store = ConfigStore::default();
    // the on phase begins and fixes its length
    let (holding, hold) = LoopState::Reading(Phase::On).step(Event::Snapshot(store.read()));
    assert_eq!(hold, Action::Wait(240_000));
    // an update arrives while the line is held
    assert!(submit(&mut store, b"on=2&off=3").is_ok());
    // the running phase is not touched
    assert_eq!(holding, LoopState::Holding(Phase::On, 240_000));
    assert_eq!(holding.action(), Action::Wait(240_000));
    let (switching, a1) = holding.step(Event::Done);
    assert_eq!(a1, Action::SetLow);
    let (settling, a2) = switching.step(Event::Done);
    assert_eq!(a2, Action::Wait(500));
    let (reading, a3) = settling.step(Event::Done);
    assert_eq!(a3, Action::ReadConfig);
    // the off phase that follows runs on the update
    let (off_hold, a4) = reading.step(Event::Snapshot(store.read()));
    assert_eq!(off_hold, LoopState::Holding(Phase::Off, 3000));
    assert_eq!(a4, Action::Wait(3000));
    // and so does the on phase after it
    let (_, asked) = run(&store, off_hold, 4);
    assert_eq!(asked[4], Action::Wait(2000));
}

#[test]
fn update_during_settling_is_seen_by_the_phase_that_begins() {
    let mut store = ConfigStore::default();
    let settling = LoopState::Settling(Phase::On);
    assert!(submit(&mut store, b"on=7&off=9").is_ok());
    let (reading, _) = settling.step(Event::Done);
    let (_, hold) = reading.step(Event::Snapshot(store.read()));
    assert_eq!(hold, Action::Wait(9000));
}

#[test]
fn refused_update_changes_no_phase() {
    let mut store = ConfigStore::default();
    assert!(submit(&mut store, b"on=0&off=5").is_err());
    let (_, asked) = run(&store, LoopState::Reading(Phase::On), 5);
    assert_eq!(asked[1], Action::Wait(240_000));
    assert_eq!(asked[5], Action::Wait(480_000));
}

#[test]
fn fault_halts_the_loop() {
    let (state, action) = LoopState::Switching(Phase::On).step(Event::Fault);
    assert_eq!(state, LoopState::Halted);
    assert_eq!(action, Action::Halt);
    let (state, action) = LoopState::Switching(Phase::Off).step(Event::Fault);
    assert_eq!((state, action), (LoopState::Halted, Action::Halt));
}

#[test]
fn fault_halts_the_loop_in_every_state() {
    let states = [
        LoopState::Reading(Phase::On),
        LoopState::Holding(Phase::Off, 5),
        LoopState::Switching(Phase::On),
        LoopState::Settling(Phase::Off),
        LoopState::Halted,
    ];
    for state in states {
        assert_eq!(state.step(Event::Fault), (LoopState::Halted, Action::Halt));
    }
}

#[test]
fn halted_loop_stays_halted() {
    let c = config(2000, 3000);
    assert_eq!(LoopState::Halted.step(Event::Done), (LoopState::Halted, Action::Halt));
    assert_eq!(LoopState::Halted.step(Event::Fault), (LoopState::Halted, Action::Halt));
    assert_eq!(LoopState::Halted.step(Event::Snapshot(c)), (LoopState::Halted, Action::Halt));
}

#[test]
fn answer_to_another_action_halts_the_loop() {
    let c = config(2000, 3000);
    assert_eq!(LoopState::Reading(Phase::On).step(Event::Done).0, LoopState::Halted);
    assert_eq!(LoopState::Holding(Phase::On, 5).step(Event::Snapshot(c)).0, LoopState::Halted);
    assert_eq!(LoopState::Switching(Phase::On).step(Event::Snapshot(c)).0, LoopState::Halted);
    assert_eq!(LoopState::Settling(Phase::On).step(Event::Snapshot(c)).0, LoopState::Halted);
}
