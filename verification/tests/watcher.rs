use better_im::watcher::{debounce_step, DebounceAction, DebounceState, WatchEvent};
use better_im::watcher::WatchEvent::{Disconnected, Event, Timeout};

fn flushes(events: &[WatchEvent]) -> (usize, DebounceState) {
    let mut s = DebounceState::Idle;
    let mut n = 0;
    for e in events {
        let (next, action) = debounce_step(s, *e);
        if action == DebounceAction::Flush {
            n += 1;
        }
        s = next;
    }
    (n, s)
}

#[test]
fn debounce_coalesces_bursts_into_single_flush() {
    // Burst 1: five events in quick succession, then a quiet window;
    // burst 2: one more event and a quiet window; then every sender goes.
    let (n, s) = flushes(&[Event, Event, Event, Event, Event, Timeout, Event, Timeout, Disconnected]);
    assert_eq!(n, 2);
    assert_eq!(s, DebounceState::Stopped);
}

#[test]
fn disconnect_inside_a_burst_drops_it() {
    let (n, s) = flushes(&[Event, Event, Disconnected]);
    assert_eq!(n, 0);
    assert_eq!(s, DebounceState::Stopped);
    assert_eq!(debounce_step(DebounceState::Stopped, Event), (DebounceState::Stopped, DebounceAction::Stop));
}

#[test]
fn idle_timeout_keeps_waiting() {
    assert_eq!(
        debounce_step(DebounceState::Idle, WatchEvent::Timeout),
        (DebounceState::Idle, DebounceAction::WaitFirst)
    );
    assert_eq!(
        debounce_step(DebounceState::Idle, WatchEvent::Event),
        (DebounceState::Collecting, DebounceAction::WaitWindow)
    );
}
