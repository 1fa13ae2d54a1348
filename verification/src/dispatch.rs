//! The execution dispatcher and the async-work manager protocol.
//!
//! A triggered rebuild either runs inline, blocking the caller until the
//! whole chain finishes, or is spawned as an independent unit of work whose
//! handle is passed over the manager channel. A single reaper consumes the
//! channel: it joins each handed-over unit before reading the next message,
//! and a drain message makes it stop once all earlier work is joined. The
//! spawning and joining themselves live outside the library; the library
//! decides what is done with each message and accounts for what was joined.

use vstd::prelude::*;

verus! {

/// How one triggered rebuild is to be run.
#[derive(Debug, Clone, Copy, PartialEq, Eq, Structural)]
pub enum DispatchAction {
    /// Run the chain inline; the caller blocks until it finishes.
    RunInline,
    /// Spawn the chain as an independent unit of work and hand its handle
    /// to the manager channel.
    SpawnDetached,
}

/// Decides how a triggered rebuild is run: detached when asynchronous
/// dispatch is configured, inline otherwise.
pub fn dispatch_action(run_async: bool) -> (a: DispatchAction)
    ensures
        a == (if run_async {
            DispatchAction::SpawnDetached
        } else {
            DispatchAction::RunInline
        }),
{
    if run_async {
        DispatchAction::SpawnDetached
    } else {
        DispatchAction::RunInline
    }
}

/// A control message of the manager channel: one unit of in-flight work,
/// named by a ticket, or the announcement that no further work will come.
#[derive(Debug, Clone, Copy, PartialEq, Eq, Structural)]
pub enum ManagerMessage {
    /// A unit of asynchronous work was dispatched; the ticket names its
    /// handle.
    NewWork(u64),
    /// Drain: no further work will be sent; stop once all earlier work is
    /// joined.
    Finish,
}

/// What the reaper does with one received message.
#[derive(Debug, Clone, Copy, PartialEq, Eq, Structural)]
pub enum ReaperAction {
    /// Wait for the named unit of work to complete before reading the next
    /// message.
    Join(u64),
    /// Stop consuming messages.
    Stop,
}

/// The tickets a reaper joins when it consumes a message sequence: every
/// ticket handed over before the first drain message, in submission order.
pub open spec fn reaper_joins(msgs: Seq<ManagerMessage>) -> Seq<u64>
    decreases msgs.len(),
{
    if msgs.len() == 0 {
        Seq::<u64>::empty()
    } else {
        match msgs[0] {
            ManagerMessage::NewWork(t) => seq![t] + reaper_joins(msgs.skip(1)),
            ManagerMessage::Finish => Seq::<u64>::empty(),
        }
    }
}

/// The reaper's state: whether it still consumes messages, and which
/// tickets it has joined so far, in order.
pub struct Reaper {
    pub running: bool,
    pub joined: Ghost<Seq<u64>>,
}

impl Reaper {
    /// A fresh reaper, consuming messages and having joined nothing.
    pub fn new() -> (r: Reaper)
        ensures
            r.running,
            r.joined@ == Seq::<u64>::empty(),
    {
        Reaper { running: true, joined: Ghost(Seq::<u64>::empty()) }
    }

    /// Consumes one message: work is joined before anything further is
    /// read, and the drain message stops the reaper.
    pub fn step(&mut self, msg: ManagerMessage) -> (a: ReaperAction)
        requires
            old(self).running,
        ensures
            msg matches ManagerMessage::NewWork(t) ==> a == ReaperAction::Join(t)
                && final(self).running && final(self).joined@ == old(self).joined@.push(t),
            msg == ManagerMessage::Finish ==> a == ReaperAction::Stop && !final(self).running
                && final(self).joined@ == old(self).joined@,
    {
        match msg {
            ManagerMessage::NewWork(t) => {
                proof {
                    self.joined@ = self.joined@.push(t);
                }
                ReaperAction::Join(t)
            },
            ManagerMessage::Finish => {
                self.running = false;
                ReaperAction::Stop
            },
        }
    }
}

/// Orderly drain: when a drain message stands at position `k` of the
/// message stream and every earlier message hands over work, the reaper
/// joins exactly those earlier units, in submission order, before it stops.
pub proof fn lemma_drain_joins_all(msgs: Seq<ManagerMessage>, k: int)
    requires
        0 <= k < msgs.len(),
        msgs[k] == ManagerMessage::Finish,
        forall|j: int| 0 <= j < k ==> (#[trigger] msgs[j]) is NewWork,
    ensures
        reaper_joins(msgs) == msgs.take(k).map_values(|m: ManagerMessage| m->NewWork_0),
    decreases k,
{
    let tickets = msgs.take(k).map_values(|m: ManagerMessage| m->NewWork_0);
    if k == 0 {
        assert(reaper_joins(msgs) =~= tickets);
    } else {
        let t = msgs[0]->NewWork_0;
        let tail = msgs.skip(1);
        assert(tail[k - 1] == msgs[k]);
        assert forall|j: int| 0 <= j < k - 1 implies (#[trigger] tail[j]) is NewWork by {
            assert(tail[j] == msgs[j + 1]);
        }
        lemma_drain_joins_all(tail, k - 1);
        assert(reaper_joins(msgs) == seq![t] + reaper_joins(tail));
        assert forall|j: int| 0 <= j < k implies tickets[j] == (seq![t] + tail.take(k - 1).map_values(
            |m: ManagerMessage| m->NewWork_0,
        ))[j] by {
            if j > 0 {
                assert(tail.take(k - 1)[j - 1] == msgs[j]);
            }
        }
        assert(tickets =~= seq![t] + tail.take(k - 1).map_values(
            |m: ManagerMessage| m->NewWork_0,
        ));
    }
}

} // verus!
