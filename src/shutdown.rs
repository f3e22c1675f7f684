//! The discovery broadcaster and the shutdown coordinator of a node, as
//! state machines: the runtime delivers events and performs the actions.

use vstd::prelude::*;

verus! {

/// What the discovery broadcaster is woken by.
#[derive(Debug, Clone, Copy, PartialEq, Eq, Structural)]
pub enum BroadcastEvent {
    /// The publishing interval elapsed.
    Tick,
    /// The stop signal arrived.
    Stop,
}

/// What the discovery broadcaster does next.
#[derive(Debug, Clone, Copy, PartialEq, Eq, Structural)]
pub enum BroadcastAction {
    /// Publish the node identifier on the discovery topic.
    Publish,
    /// Leave the loop, announcing nothing.
    Exit,
    /// Do nothing.
    Idle,
}

/// One step of the broadcaster: whether it has stopped afterwards, and its
/// action.
pub open spec fn broadcast_step(stopped: bool, ev: BroadcastEvent) -> (bool, BroadcastAction) {
    if stopped {
        (true, BroadcastAction::Idle)
    } else {
        match ev {
            BroadcastEvent::Tick => (false, BroadcastAction::Publish),
            BroadcastEvent::Stop => (true, BroadcastAction::Exit),
        }
    }
}

/// The actions of a broadcaster that starts in `stopped` and sees `evs`.
pub open spec fn broadcast_trace(stopped: bool, evs: Seq<BroadcastEvent>) -> Seq<BroadcastAction>
    decreases evs.len(),
{
    if evs.len() == 0 {
        Seq::empty()
    } else {
        let (s, a) = broadcast_step(stopped, evs[0]);
        seq![a] + broadcast_trace(s, evs.drop_first())
    }
}

/// The periodic announcer of a node's identifier.
pub struct Broadcaster {
    node_id: String,
    stopped: bool,
}

impl Broadcaster {
    /// The identifier that is announced.
    pub closed spec fn spec_node_id(&self) -> Seq<char> {
        self.node_id@
    }

    /// Whether the stop signal has been seen.
    pub closed spec fn spec_stopped(&self) -> bool {
        self.stopped
    }

    /// A running broadcaster for `node_id`.
    pub fn new(node_id: &str) -> (r: Broadcaster)
        ensures
            r.spec_node_id() == node_id@,
            !r.spec_stopped(),
    {
        Broadcaster { node_id: String::from_str(node_id), stopped: false }
    }

    /// The identifier that is announced.
    pub fn node_id(&self) -> (r: &str)
        ensures
            r@ == self.spec_node_id(),
    {
        self.node_id.as_str()
    }

    /// Whether the stop signal has been seen.
    pub fn is_stopped(&self) -> (r: bool)
        ensures
            r == self.spec_stopped(),
    {
        self.stopped
    }

    /// Handles one event.
    pub fn step(&mut self, ev: BroadcastEvent) -> (r: BroadcastAction)
        ensures
            (final(self).spec_stopped(), r) == broadcast_step(old(self).spec_stopped(), ev),
            final(self).spec_node_id() == old(self).spec_node_id(),
    {
        if self.stopped {
            BroadcastAction::Idle
        } else {
            match ev {
                BroadcastEvent::Tick => BroadcastAction::Publish,
                BroadcastEvent::Stop => {
                    self.stopped = true;
                    BroadcastAction::Exit
                },
            }
        }
    }
}

/// After the stop signal the broadcaster publishes nothing more; the first
/// stop signal that a running broadcaster sees makes it leave its loop.
pub proof fn lemma_no_publish_after_stop(stopped: bool, evs: Seq<BroadcastEvent>)
    ensures
        broadcast_trace(stopped, evs).len() == evs.len(),
        stopped ==> forall|i: int|
            0 <= i < evs.len() ==> #[trigger] broadcast_trace(stopped, evs)[i]
                != BroadcastAction::Publish,
        forall|i: int, j: int|
            #![trigger evs[j], broadcast_trace(stopped, evs)[i]]
            0 <= j < i < evs.len() && evs[j] == BroadcastEvent::Stop ==> broadcast_trace(
                stopped,
                evs,
            )[i] != BroadcastAction::Publish,
        !stopped && evs.len() > 0 && evs[0] == BroadcastEvent::Stop ==> broadcast_trace(
            stopped,
            evs,
        )[0] == BroadcastAction::Exit,
    decreases evs.len(),
{
    if evs.len() > 0 {
        let (s, a) = broadcast_step(stopped, evs[0]);
        let rest = evs.drop_first();
        lemma_no_publish_after_stop(s, rest);
        let t = broadcast_trace(stopped, evs);
        assert(t == seq![a] + broadcast_trace(s, rest));
        assert forall|i: int, j: int|
            #![trigger evs[j], t[i]]
            0 <= j < i < evs.len() && evs[j] == BroadcastEvent::Stop implies t[i]
                != BroadcastAction::Publish by {
            assert(t[i] == broadcast_trace(s, rest)[i - 1]);
            if j > 0 {
                assert(rest[j - 1] == evs[j]);
            }
        }
        assert forall|i: int| stopped && 0 <= i < evs.len() implies #[trigger] t[i]
            != BroadcastAction::Publish by {
            if i > 0 {
                assert(t[i] == broadcast_trace(s, rest)[i - 1]);
            }
        }
    }
}

/// The phase of a node's coordinated shutdown.
#[derive(Debug, Clone, Copy, PartialEq, Eq, Structural)]
pub enum Phase {
    /// The node serves; the broadcaster runs.
    Serving,
    /// The broadcaster was told to stop; its exit is awaited.
    Draining,
    /// The broadcaster has exited and the process may return.
    Finished,
}

/// What the coordinator observes.
#[derive(Debug, Clone, Copy, PartialEq, Eq, Structural)]
pub enum NodeEvent {
    /// The process was asked to terminate.
    TerminationRequested,
    /// The command dispatcher's loop ended.
    DispatcherEnded,
    /// The broadcaster left its loop.
    BroadcasterExited,
}

/// What the coordinator does next.
#[derive(Debug, Clone, Copy, PartialEq, Eq, Structural)]
pub enum NodeAction {
    /// Keep waiting.
    Wait,
    /// Deliver the stop signal to the broadcaster.
    StopBroadcaster,
    /// Return from the process.
    Exit,
}

/// One step of the coordinator: the next phase and the action.
pub open spec fn coordinator_step(p: Phase, ev: NodeEvent) -> (Phase, NodeAction) {
    match p {
        Phase::Serving => match ev {
            NodeEvent::BroadcasterExited => (Phase::Serving, NodeAction::Wait),
            _ => (Phase::Draining, NodeAction::StopBroadcaster),
        },
        Phase::Draining => match ev {
            NodeEvent::BroadcasterExited => (Phase::Finished, NodeAction::Exit),
            _ => (Phase::Draining, NodeAction::Wait),
        },
        Phase::Finished => (Phase::Finished, NodeAction::Wait),
    }
}

/// The actions of a coordinator that starts in `p` and sees `evs`.
pub open spec fn coordinator_trace(p: Phase, evs: Seq<NodeEvent>) -> Seq<NodeAction>
    decreases evs.len(),
{
    if evs.len() == 0 {
        Seq::empty()
    } else {
        let (q, a) = coordinator_step(p, evs[0]);
        seq![a] + coordinator_trace(q, evs.drop_first())
    }
}

/// The coordinator that races a termination request against the end of the
/// command dispatcher, then waits for the broadcaster.
pub struct Coordinator {
    phase: Phase,
}

impl Coordinator {
    /// The current phase.
    pub closed spec fn spec_phase(&self) -> Phase {
        self.phase
    }

    /// A coordinator of a serving node.
    pub fn new() -> (r: Coordinator)
        ensures
            r.spec_phase() == Phase::Serving,
    {
        Coordinator { phase: Phase::Serving }
    }

    /// The current phase.
    pub fn phase(&self) -> (r: Phase)
        ensures
            r == self.spec_phase(),
    {
        self.phase
    }

    /// Handles one event.
    pub fn step(&mut self, ev: NodeEvent) -> (r: NodeAction)
        ensures
            (final(self).spec_phase(), r) == coordinator_step(old(self).spec_phase(), ev),
    {
        match self.phase {
            Phase::Serving => match ev {
                NodeEvent::BroadcasterExited => NodeAction::Wait,
                _ => {
                    self.phase = Phase::Draining;
                    NodeAction::StopBroadcaster
                },
            },
            Phase::Draining => match ev {
                NodeEvent::BroadcasterExited => {
                    self.phase = Phase::Finished;
                    NodeAction::Exit
                },
                _ => NodeAction::Wait,
            },
            Phase::Finished => NodeAction::Wait,
        }
    }
}

/// A serving node returns only once the broadcaster has exited, and only
/// after the stop signal was delivered to it; the first termination request
/// or end of the dispatcher delivers that signal.
pub proof fn lemma_shutdown_order(p: Phase, evs: Seq<NodeEvent>)
    ensures
        coordinator_trace(p, evs).len() == evs.len(),
        forall|i: int|
            0 <= i < evs.len() && #[trigger] coordinator_trace(p, evs)[i] == NodeAction::Exit
                ==> evs[i] == NodeEvent::BroadcasterExited && (p != Phase::Serving || exists|j: int|
                0 <= j < i && coordinator_trace(p, evs)[j] == NodeAction::StopBroadcaster),
        p == Phase::Serving && evs.len() > 0 && evs[0] != NodeEvent::BroadcasterExited
            ==> coordinator_trace(p, evs)[0] == NodeAction::StopBroadcaster,
    decreases evs.len(),
{
    if evs.len() > 0 {
        let (q, a) = coordinator_step(p, evs[0]);
        let rest = evs.drop_first();
        lemma_shutdown_order(q, rest);
        let t = coordinator_trace(p, evs);
        let u = coordinator_trace(q, rest);
        assert(t == seq![a] + u);
        assert forall|i: int|
            0 <= i < evs.len() && #[trigger] t[i] == NodeAction::Exit implies evs[i]
                == NodeEvent::BroadcasterExited && (p != Phase::Serving || exists|j: int|
                0 <= j < i && t[j] == NodeAction::StopBroadcaster) by {
            if i > 0 {
                assert(t[i] == u[i - 1]);
                assert(rest[i - 1] == evs[i]);
                if p == Phase::Serving {
                    if q == Phase::Serving {
                        let j = choose|j: int| 0 <= j < i - 1 && u[j] == NodeAction::StopBroadcaster;
                        assert(t[j + 1] == u[j]);
                    } else {
                        assert(t[0] == NodeAction::StopBroadcaster);
                    }
                }
            }
        }
    }
}

} // verus!
