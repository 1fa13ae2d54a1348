//! The watch event loop state machine.
//!
//! The loop consumes the external change-event stream for the watched path.
//! A write-type event triggers a rebuild of the resolved chain; a
//! remove-type event stops the loop for good; every other event, and an
//! error of the event source itself, leaves the loop watching. The waiting
//! on the stream and the carrying-out of the decided actions live outside
//! the library.

use crate::config::RebuildConfig;
use crate::config::resolved_commands;
use vstd::prelude::*;

verus! {

/// One event of the change-event stream, as the loop sees it.
#[derive(Debug)]
pub enum WatchEvent {
    /// A write-type event; the field carries the path of the changed file.
    Write(String),
    /// The watched path was removed.
    Remove,
    /// Any other event kind on the watched path.
    Other,
    /// The event source itself reported an error.
    SourceError,
}

/// The loop's state: consuming events, or stopped for good.
#[derive(Debug, Clone, Copy, PartialEq, Eq, Structural)]
pub enum WatchState {
    Watching,
    Stopped,
}

/// What the caller is to do with one consumed event.
#[derive(Debug)]
pub enum LoopAction {
    /// Dispatch a rebuild of this resolved chain.
    Rebuild(RebuildConfig),
    /// Emit the warning for a failed read of the event source and keep
    /// watching.
    WarnEventSource,
    /// Emit the shutdown diagnostic, drain outstanding work, and exit.
    StopAndDrain,
    /// Do nothing.
    Ignore,
}

/// The state an event moves the loop to: a remove-type event stops it, and
/// a stopped loop never leaves its state.
pub open spec fn step_state(state: WatchState, event: WatchEvent) -> WatchState {
    match state {
        WatchState::Stopped => WatchState::Stopped,
        WatchState::Watching => if event is Remove {
            WatchState::Stopped
        } else {
            WatchState::Watching
        },
    }
}

/// The state the loop is in after consuming a whole event sequence.
pub open spec fn run_states(state: WatchState, events: Seq<WatchEvent>) -> WatchState
    decreases events.len(),
{
    if events.len() == 0 {
        state
    } else {
        run_states(step_state(state, events[0]), events.skip(1))
    }
}

/// How many rebuilds a loop starting in `state` dispatches while consuming
/// an event sequence.
pub open spec fn rebuilds_dispatched(state: WatchState, events: Seq<WatchEvent>) -> nat
    decreases events.len(),
{
    if events.len() == 0 {
        0
    } else {
        (if state is Watching && events[0] is Write {
            1nat
        } else {
            0nat
        }) + rebuilds_dispatched(step_state(state, events[0]), events.skip(1))
    }
}

/// The watch event loop: the immutable chain template and the loop state.
pub struct WatchLoop {
    pub template: RebuildConfig,
    pub state: WatchState,
}

impl WatchLoop {
    /// A loop that has just entered watching, holding the chain template it
    /// will resolve on each trigger.
    pub fn new(template: RebuildConfig) -> (r: WatchLoop)
        ensures
            r.state == WatchState::Watching,
            r.template == template,
    {
        WatchLoop { template, state: WatchState::Watching }
    }

    /// Consumes one event. While watching, a write-type event yields the
    /// rebuild of the chain resolved against the changed path, a
    /// remove-type event stops the loop, an event-source error yields a
    /// warning, and anything else is ignored. A stopped loop ignores every
    /// event.
    pub fn handle_event(&mut self, event: WatchEvent) -> (a: LoopAction)
        ensures
            final(self).template == old(self).template,
            final(self).state == step_state(old(self).state, event),
            old(self).state is Stopped ==> a is Ignore,
            old(self).state is Watching ==> match event {
                WatchEvent::Write(path) => a is Rebuild && a->Rebuild_0@.commands
                    == resolved_commands(old(self).template@, path@) && a->Rebuild_0@.verbatim
                    == old(self).template@.verbatim,
                WatchEvent::Remove => a is StopAndDrain,
                WatchEvent::Other => a is Ignore,
                WatchEvent::SourceError => a is WarnEventSource,
            },
    {
        match self.state {
            WatchState::Stopped => LoopAction::Ignore,
            WatchState::Watching => match event {
                WatchEvent::Write(path) => LoopAction::Rebuild(
                    self.template.set_filename(path.as_str()),
                ),
                WatchEvent::Remove => {
                    self.state = WatchState::Stopped;
                    LoopAction::StopAndDrain
                },
                WatchEvent::Other => LoopAction::Ignore,
                WatchEvent::SourceError => LoopAction::WarnEventSource,
            },
        }
    }
}

/// A stopped loop dispatches no rebuild, whatever events are still queued.
pub proof fn lemma_stopped_dispatches_nothing(events: Seq<WatchEvent>)
    ensures
        rebuilds_dispatched(WatchState::Stopped, events) == 0,
    decreases events.len(),
{
    if events.len() > 0 {
        lemma_stopped_dispatches_nothing(events.skip(1));
    }
}

proof fn lemma_dispatch_split(state: WatchState, events: Seq<WatchEvent>, k: int)
    requires
        0 <= k <= events.len(),
    ensures
        rebuilds_dispatched(state, events) == rebuilds_dispatched(state, events.take(k))
            + rebuilds_dispatched(run_states(state, events.take(k)), events.skip(k)),
    decreases k,
{
    if k == 0 {
        assert(events.take(0) =~= Seq::<WatchEvent>::empty());
        assert(events.skip(0) =~= events);
    } else {
        let tail = events.skip(1);
        assert(events.take(k)[0] == events[0]);
        assert(events.take(k).skip(1) =~= tail.take(k - 1));
        assert(events.skip(k) =~= tail.skip(k - 1));
        lemma_dispatch_split(step_state(state, events[0]), tail, k - 1);
    }
}

/// A remove-type event always moves the loop to its stopped state, and no
/// event queued after it — of any kind — is processed into a rebuild: the
/// rebuilds dispatched over the whole stream are exactly those dispatched
/// up to and including the remove event.
pub proof fn lemma_remove_stops_processing(events: Seq<WatchEvent>, k: int)
    requires
        0 <= k < events.len(),
        events[k] is Remove,
    ensures
        run_states(WatchState::Watching, events.take(k + 1)) == WatchState::Stopped,
        rebuilds_dispatched(WatchState::Watching, events) == rebuilds_dispatched(
            WatchState::Watching,
            events.take(k + 1),
        ),
{
    lemma_run_ends_stopped(WatchState::Watching, events.take(k + 1));
    lemma_dispatch_split(WatchState::Watching, events, k + 1);
    lemma_stopped_dispatches_nothing(events.skip(k + 1));
}

proof fn lemma_run_ends_stopped(state: WatchState, events: Seq<WatchEvent>)
    requires
        events.len() > 0,
        events.last() is Remove,
    ensures
        run_states(state, events) == WatchState::Stopped,
    decreases events.len(),
{
    if events.len() == 1 {
        assert(events[0] is Remove);
        assert(step_state(state, events[0]) == WatchState::Stopped);
        assert(events.skip(1) =~= Seq::<WatchEvent>::empty());
        assert(run_states(state, events) == run_states(
            WatchState::Stopped,
            Seq::<WatchEvent>::empty(),
        ));
    } else {
        let tail = events.skip(1);
        assert(tail.last() == events.last());
        lemma_run_ends_stopped(step_state(state, events[0]), tail);
    }
}

} // verus!
