//! The folder watcher: after a change to the sticker folder it waits until the
//! folder has been quiet for a second, then re-indexes once.
use vstd::prelude::*;

verus! {

/// Where the watcher stands.
#[derive(PartialEq, Eq, Structural, Clone, Copy, Debug)]
pub enum WatchPhase {
    /// Waiting, without a time limit, for the next change.
    Waiting,
    /// A change was seen; waiting for a second without further changes.
    Settling,
}

/// What the watcher's channel delivered.
#[derive(PartialEq, Eq, Structural, Clone, Copy, Debug)]
pub enum WatchEvent {
    /// A change in the folder.
    Changed,
    /// The watcher reported an error.
    Failed,
    /// A second passed without any message (only while settling).
    QuietPeriod,
    /// The watcher is gone.
    Disconnected,
}

/// What the loop does next.
#[derive(PartialEq, Eq, Structural, Clone, Copy, Debug)]
pub enum WatchAction {
    /// Keep receiving, in the phase returned.
    Listen,
    /// Report the watcher's error, then keep waiting.
    ReportError,
    /// Re-index the library, then wait for the next change.
    Reindex,
    /// End the watcher.
    Stop,
}

/// One step of the watcher: the phase after `event` arrives in `phase`, and what to do.
pub open spec fn watch_transition(phase: WatchPhase, event: WatchEvent) -> (WatchPhase, WatchAction) {
    match phase {
        WatchPhase::Waiting => match event {
            WatchEvent::Changed => (WatchPhase::Settling, WatchAction::Listen),
            WatchEvent::Failed => (WatchPhase::Waiting, WatchAction::ReportError),
            WatchEvent::QuietPeriod => (WatchPhase::Waiting, WatchAction::Listen),
            WatchEvent::Disconnected => (WatchPhase::Waiting, WatchAction::Stop),
        },
        WatchPhase::Settling => match event {
            WatchEvent::Changed => (WatchPhase::Settling, WatchAction::Listen),
            WatchEvent::QuietPeriod => (WatchPhase::Waiting, WatchAction::Reindex),
            WatchEvent::Failed | WatchEvent::Disconnected => (WatchPhase::Settling, WatchAction::Stop),
        },
    }
}

/// Takes one step of the watcher, as `watch_transition` says.
pub fn watch_step(phase: WatchPhase, event: WatchEvent) -> (r: (WatchPhase, WatchAction))
    ensures
        r == watch_transition(phase, event),
{
    match phase {
        WatchPhase::Waiting => match event {
            WatchEvent::Changed => (WatchPhase::Settling, WatchAction::Listen),
            WatchEvent::Failed => (WatchPhase::Waiting, WatchAction::ReportError),
            WatchEvent::QuietPeriod => (WatchPhase::Waiting, WatchAction::Listen),
            WatchEvent::Disconnected => (WatchPhase::Waiting, WatchAction::Stop),
        },
        WatchPhase::Settling => match event {
            WatchEvent::Changed => (WatchPhase::Settling, WatchAction::Listen),
            WatchEvent::QuietPeriod => (WatchPhase::Waiting, WatchAction::Reindex),
            WatchEvent::Failed | WatchEvent::Disconnected => (WatchPhase::Settling, WatchAction::Stop),
        },
    }
}

/// Whether the loop waits with the one-second limit in this phase.
pub fn waits_with_timeout(phase: WatchPhase) -> (r: bool)
    ensures
        r == (phase == WatchPhase::Settling),
{
    phase == WatchPhase::Settling
}

/// The phase and actions after a run of events.
pub open spec fn watch_run(phase: WatchPhase, events: Seq<WatchEvent>) -> (WatchPhase, Seq<WatchAction>)
    decreases events.len(),
{
    if events.len() == 0 {
        (phase, Seq::empty())
    } else {
        let (p, a) = watch_transition(phase, events[0]);
        let (q, rest) = watch_run(p, events.drop_first());
        (q, seq![a] + rest)
    }
}

/// A re-index only follows a quiet second after a change: every `Reindex` is
/// the answer to `QuietPeriod` while settling.
pub proof fn law_reindex_only_after_quiet(phase: WatchPhase, event: WatchEvent)
    ensures
        watch_transition(phase, event).1 == WatchAction::Reindex <==> (phase == WatchPhase::Settling
            && event == WatchEvent::QuietPeriod),
{
}

/// A burst of changes, however long, followed by a quiet second re-indexes exactly
/// once, at the end, and leaves the watcher waiting again. (A quiet second with
/// no change before it, while waiting, re-indexes nothing.)
pub proof fn law_burst_reindexes_once(phase: WatchPhase, n: nat)
    ensures
        ({
            let events = Seq::new(n, |i: int| WatchEvent::Changed).push(WatchEvent::QuietPeriod);
            let (end, actions) = watch_run(phase, events);
            &&& end == WatchPhase::Waiting
            &&& actions.len() == n + 1
            &&& phase == WatchPhase::Waiting && n == 0 ==> actions[0] == WatchAction::Listen
            &&& (phase == WatchPhase::Settling || n > 0) ==> actions[n as int] == WatchAction::Reindex
            &&& forall|i: int| 0 <= i < n ==> actions[i] == WatchAction::Listen
        }),
    decreases n,
{
    let events = Seq::new(n, |i: int| WatchEvent::Changed).push(WatchEvent::QuietPeriod);
    if n == 0 {
        assert(events =~= seq![WatchEvent::QuietPeriod]);
        let (p, a) = watch_transition(phase, WatchEvent::QuietPeriod);
        assert(events.drop_first() =~= Seq::<WatchEvent>::empty());
        assert(watch_run(p, events.drop_first()) == (p, Seq::<WatchAction>::empty()));
        assert(watch_run(phase, events).1 =~= seq![a]);
    } else {
        let m = (n - 1) as nat;
        let rest = Seq::new(m, |i: int| WatchEvent::Changed).push(WatchEvent::QuietPeriod);
        assert(events.drop_first() =~= rest);
        law_burst_reindexes_once(WatchPhase::Settling, m);
        let (p, a) = watch_transition(phase, WatchEvent::Changed);
        assert(p == WatchPhase::Settling);
        let (q, acts) = watch_run(p, rest);
        assert(watch_run(phase, events) == (q, seq![a] + acts));
        assert forall|i: int| 0 <= i < n implies (seq![a] + acts)[i] == WatchAction::Listen by {
            if i > 0 {
                assert((seq![a] + acts)[i] == acts[i - 1]);
            }
        }
    }
}

} // verus!
