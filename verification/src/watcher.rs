//! The debounce decisions of the live file watcher.
//!
//! A burst of `chat.db` / `-wal` writes is coalesced into a single incremental
//! sync. The waiting itself (a blocking receive, then receives with a
//! timeout) is done by the caller; this module decides, for each thing the
//! wait produced, what to do next.

use vstd::prelude::*;

verus! {

/// Where the debounce loop stands.
#[derive(Debug, Clone, Copy, PartialEq, Eq, Structural)]
pub enum DebounceState {
    /// Waiting, without a deadline, for the first event of a burst.
    Idle,
    /// Inside a burst: waiting for more events within the debounce window.
    Collecting,
    /// All senders are gone; the loop has ended.
    Stopped,
}

/// What a wait produced.
#[derive(Debug, Clone, Copy, PartialEq, Eq, Structural)]
pub enum WatchEvent {
    /// A file event arrived.
    Event,
    /// The debounce window passed without an event.
    Timeout,
    /// Every sender disconnected.
    Disconnected,
}

/// What the caller does next.
#[derive(Debug, Clone, Copy, PartialEq, Eq, Structural)]
pub enum DebounceAction {
    /// Block until the next event.
    WaitFirst,
    /// Wait for another event, at most one debounce window.
    WaitWindow,
    /// Run the sync once, then block until the next event.
    Flush,
    /// End the loop.
    Stop,
}

/// The debounce transition: the first event opens a burst; events inside the
/// window keep it open; a quiet window closes it with one flush; a
/// disconnect ends the loop (an open burst is dropped, not flushed).
pub open spec fn debounce_step_spec(s: DebounceState, e: WatchEvent) -> (DebounceState, DebounceAction) {
    match (s, e) {
        (DebounceState::Stopped, _) => (DebounceState::Stopped, DebounceAction::Stop),
        (_, WatchEvent::Disconnected) => (DebounceState::Stopped, DebounceAction::Stop),
        (_, WatchEvent::Event) => (DebounceState::Collecting, DebounceAction::WaitWindow),
        (DebounceState::Collecting, WatchEvent::Timeout) => (DebounceState::Idle, DebounceAction::Flush),
        (DebounceState::Idle, WatchEvent::Timeout) => (DebounceState::Idle, DebounceAction::WaitFirst),
    }
}

/// The next state and action after `e` in state `s`.
pub fn debounce_step(s: DebounceState, e: WatchEvent) -> (r: (DebounceState, DebounceAction))
    ensures
        r == debounce_step_spec(s, e),
{
    match (s, e) {
        (DebounceState::Stopped, _) => (DebounceState::Stopped, DebounceAction::Stop),
        (_, WatchEvent::Disconnected) => (DebounceState::Stopped, DebounceAction::Stop),
        (_, WatchEvent::Event) => (DebounceState::Collecting, DebounceAction::WaitWindow),
        (DebounceState::Collecting, WatchEvent::Timeout) => (DebounceState::Idle, DebounceAction::Flush),
        (DebounceState::Idle, WatchEvent::Timeout) => (DebounceState::Idle, DebounceAction::WaitFirst),
    }
}

/// The state after a sequence of events, and how many flushes they caused.
pub open spec fn debounce_run(s: DebounceState, es: Seq<WatchEvent>) -> (DebounceState, nat)
    decreases es.len(),
{
    if es.len() == 0 {
        (s, 0)
    } else {
        let prev = debounce_run(s, es.drop_last());
        let next = debounce_step_spec(prev.0, es.last());
        (next.0, prev.1 + if next.1 == DebounceAction::Flush { 1nat } else { 0nat })
    }
}

/// `k` events in a row.
pub open spec fn burst(k: nat) -> Seq<WatchEvent> {
    Seq::new(k, |i: int| WatchEvent::Event)
}

proof fn lemma_burst_collects(k: nat)
    requires
        k >= 1,
    ensures
        debounce_run(DebounceState::Idle, burst(k)) == (DebounceState::Collecting, 0nat),
    decreases k,
{
    assert(burst(k).last() == WatchEvent::Event);
    if k > 1 {
        lemma_burst_collects((k - 1) as nat);
        assert(burst(k).drop_last() =~= burst((k - 1) as nat));
        assert(debounce_step_spec(DebounceState::Collecting, WatchEvent::Event) == (DebounceState::Collecting, DebounceAction::WaitWindow));
    } else {
        assert(burst(k).drop_last() =~= Seq::<WatchEvent>::empty());
        assert(debounce_run(DebounceState::Idle, burst(k).drop_last()) == (DebounceState::Idle, 0nat));
        assert(debounce_step_spec(DebounceState::Idle, WatchEvent::Event) == (DebounceState::Collecting, DebounceAction::WaitWindow));
    }
}

/// A burst coalesces into exactly one flush: from idle, any number (at least
/// one) of events followed by a quiet window runs the sync once and returns
/// to idle.
pub proof fn lemma_burst_flushes_once(k: nat)
    requires
        k >= 1,
    ensures
        debounce_run(DebounceState::Idle, burst(k).push(WatchEvent::Timeout)) == (DebounceState::Idle, 1nat),
{
    lemma_burst_collects(k);
    assert(burst(k).push(WatchEvent::Timeout).drop_last() =~= burst(k));
}

/// Once stopped, nothing more happens: no event restarts the loop or causes a
/// flush.
pub proof fn lemma_stop_is_final(es: Seq<WatchEvent>)
    ensures
        debounce_run(DebounceState::Stopped, es) == (DebounceState::Stopped, 0nat),
    decreases es.len(),
{
    if es.len() > 0 {
        lemma_stop_is_final(es.drop_last());
    }
}

} // verus!
