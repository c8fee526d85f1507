use toggle_timer::config::{ConfigStore, TimerConfig};
use toggle_timer::page::post_html;
use toggle_timer::toggle::{Action, Event, LoopState, Phase};
use toggle_timer::request::UpdateError;
use toggle_timer::update::{handle_update, status_message, submit};

#[test]
fn end_to_end_update_then_rejection() {
    let mut store = ConfigStore::default();
    assert_eq!(store.read(), TimerConfig::new(240_000, 480_000).unwrap());

    let accepted = submit(&mut store, b"on=2&off=3");
    assert!(accepted.is_ok());
    assert_eq!(status_message(&accepted), "timer values updated");
    assert_eq!(store.read(), TimerConfig::new(2000, 3000).unwrap());

    let refused = submit(&mut store, b"on=abc&off=3");
    assert_eq!(refused, Err(UpdateError::NotANumber));
    assert_eq!(status_message(&refused), "Invalid timer values!");
    assert_eq!(store.read(), TimerConfig::new(2000, 3000).unwrap());
}

#[test]
fn end_to_end_through_the_request_buffer() {
    let mut store = ConfigStore::default();

    let mut buffer = [0u8; 16];
    buffer[..10].copy_from_slice(b"on=2&off=3");
    let line = handle_update(&mut store, &buffer);
    assert_eq!(line, "timer values updated");
    assert!(post_html(line).contains("<p>timer values updated</p>"));
    assert_eq!(store.read(), TimerConfig::new(2000, 3000).unwrap());

    let mut buffer = [0u8; 16];
    buffer[..12].copy_from_slice(b"on=abc&off=3");
    let line = handle_update(&mut store, &buffer);
    assert_eq!(line, "Invalid timer values!");
    assert!(post_html(line).contains("<p>Invalid timer values!</p>"));
    assert_eq!(store.read(), TimerConfig::new(2000, 3000).unwrap());
}

#[test]
fn end_to_end_loop_picks_up_the_update() {
    let mut store = ConfigStore::default();
    let mut state = LoopState::start(Phase::On);
    let mut waits: Vec<u32> = Vec::new();
    for turn in 0..16 {
        if turn == 3 {
            // the first on phase is being held
            assert_eq!(state, LoopState::Holding(Phase::On, 240_000));
            assert_eq!(handle_update(&mut store, b"on=2&off=3"), "timer values updated");
        }
        let event = match state.action() {
            Action::ReadConfig => Event::Snapshot(store.read()),
            Action::Wait(ms) => {
                waits.push(ms);
                Event::Done
            }
            _ => Event::Done,
        };
        state = state.step(event).0;
    }
    assert_eq!(waits, vec![500, 240_000, 500, 3000, 500, 2000, 500, 3000]);
}
