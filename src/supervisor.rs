//! The lifecycle supervisor as a state machine: the thread that owns the
//! active client feeds it one event at a time and carries out the command
//! that comes back.
use vstd::prelude::*;

use crate::session::PortAction;

verus! {

/// Where a session stands in its life.
#[derive(Clone, Copy, Debug, PartialEq, Eq, Structural)]
pub enum Phase {
    Starting,
    Running,
    ShuttingDown,
    Stopped,
}

/// What the supervisor observes.
pub enum Event {
    /// Activation and the start protocol completed.
    Activated,
    /// A poll tick: whether a stop request was received, and the pending port
    /// action, if one was taken. A stop request wins: an action that arrives
    /// in the same tick is dropped.
    Tick { shutdown: bool, action: Option<PortAction> },
    /// The client was deactivated.
    Deactivated,
    /// The audio server shut the client down.
    ServerShutdown,
}

/// What the supervisor asks its thread to do next.
pub enum Command {
    /// Sleep until the next poll tick.
    Wait,
    /// Apply a connect or disconnect to the server's graph.
    Apply(PortAction),
    /// Deactivate the client.
    Deactivate,
    /// Leave the poll loop; the session's resources are released.
    Exit,
}

impl Phase {
    /// Whether a stop request was already observed.
    pub open spec fn is_ending(self) -> bool {
        self is ShuttingDown || self is Stopped
    }
}

impl Command {
    pub open spec fn is_apply(&self) -> bool {
        self is Apply
    }

    pub open spec fn is_deactivate(&self) -> bool {
        self is Deactivate
    }
}

/// The supervisor's transition: the phase after `event` and the command to
/// carry out.
pub open spec fn next(phase: Phase, event: Event) -> (Phase, Command) {
    match phase {
        Phase::Starting => match event {
            Event::Activated => (Phase::Running, Command::Wait),
            Event::ServerShutdown => (Phase::Stopped, Command::Exit),
            _ => (Phase::Starting, Command::Wait),
        },
        Phase::Running => match event {
            Event::Tick { shutdown, action } => if shutdown {
                (Phase::ShuttingDown, Command::Deactivate)
            } else {
                match action {
                    Some(a) => (Phase::Running, Command::Apply(a)),
                    None => (Phase::Running, Command::Wait),
                }
            },
            Event::ServerShutdown => (Phase::Stopped, Command::Exit),
            _ => (Phase::Running, Command::Wait),
        },
        Phase::ShuttingDown => match event {
            Event::Deactivated => (Phase::Stopped, Command::Exit),
            Event::ServerShutdown => (Phase::Stopped, Command::Exit),
            _ => (Phase::ShuttingDown, Command::Wait),
        },
        Phase::Stopped => (Phase::Stopped, Command::Exit),
    }
}

/// The commands issued over a run of events that starts in `phase`.
pub open spec fn run(phase: Phase, events: Seq<Event>) -> Seq<Command>
    decreases events.len(),
{
    if events.len() == 0 {
        seq![]
    } else {
        let (p, c) = next(phase, events[0]);
        seq![c] + run(p, events.drop_first())
    }
}

/// The phase at the end of a run of events that starts in `phase`.
pub open spec fn phase_after(phase: Phase, events: Seq<Event>) -> Phase
    decreases events.len(),
{
    if events.len() == 0 {
        phase
    } else {
        phase_after(next(phase, events[0]).0, events.drop_first())
    }
}

/// How many deactivations a sequence of commands holds.
pub open spec fn deactivations(commands: Seq<Command>) -> nat
    decreases commands.len(),
{
    if commands.len() == 0 {
        0
    } else {
        (if commands[0].is_deactivate() { 1nat } else { 0nat }) + deactivations(commands.drop_first())
    }
}

/// The supervisor's step.
pub fn step(phase: Phase, event: Event) -> (r: (Phase, Command))
    ensures
        r == next(phase, event),
{
    match phase {
        Phase::Starting => match event {
            Event::Activated => (Phase::Running, Command::Wait),
            Event::ServerShutdown => (Phase::Stopped, Command::Exit),
            _ => (Phase::Starting, Command::Wait),
        },
        Phase::Running => match event {
            Event::Tick { shutdown, action } => if shutdown {
                (Phase::ShuttingDown, Command::Deactivate)
            } else {
                match action {
                    Some(a) => (Phase::Running, Command::Apply(a)),
                    None => (Phase::Running, Command::Wait),
                }
            },
            Event::ServerShutdown => (Phase::Stopped, Command::Exit),
            _ => (Phase::Running, Command::Wait),
        },
        Phase::ShuttingDown => match event {
            Event::Deactivated => (Phase::Stopped, Command::Exit),
            Event::ServerShutdown => (Phase::Stopped, Command::Exit),
            _ => (Phase::ShuttingDown, Command::Wait),
        },
        Phase::Stopped => (Phase::Stopped, Command::Exit),
    }
}

/// The event of a poll tick from what the tick found: a server shutdown
/// comes first; otherwise the stop request and the action taken, if any.
pub fn tick_event(server_down: bool, stop_requested: bool, action: Option<PortAction>) -> (r: Event)
    ensures
        server_down ==> r is ServerShutdown,
        !server_down ==> r == (Event::Tick { shutdown: stop_requested, action }),
{
    if server_down {
        Event::ServerShutdown
    } else {
        Event::Tick { shutdown: stop_requested, action }
    }
}

/// Once a stop request has been observed the phase never goes back: every
/// later phase is ending too.
pub proof fn lemma_ending_is_final(phase: Phase, events: Seq<Event>)
    requires
        phase.is_ending(),
    ensures
        phase_after(phase, events).is_ending(),
    decreases events.len(),
{
    if events.len() > 0 {
        lemma_ending_is_final(next(phase, events[0]).0, events.drop_first());
    }
}

/// After a stop request has been observed, no port action is applied and
/// the client is not deactivated again.
pub proof fn lemma_nothing_applied_after_stop(phase: Phase, events: Seq<Event>)
    requires
        phase.is_ending(),
    ensures
        forall|i: int| 0 <= i < run(phase, events).len() ==> !(#[trigger] run(phase, events)[i]).is_apply(),
        deactivations(run(phase, events)) == 0,
        run(phase, events).len() == events.len(),
    decreases events.len(),
{
    if events.len() > 0 {
        let (p, c) = next(phase, events[0]);
        let rest = events.drop_first();
        lemma_nothing_applied_after_stop(p, rest);
        let cmds = run(phase, events);
        assert(cmds == seq![c] + run(p, rest));
        assert(cmds.drop_first() =~= run(p, rest));
        assert forall|i: int| 0 <= i < cmds.len() implies !(#[trigger] cmds[i]).is_apply() by {
            if i > 0 {
                assert(cmds[i] == run(p, rest)[i - 1]);
            }
        }
    }
}

/// However many stop requests arrive, the client is deactivated at most once
/// over any run.
pub proof fn lemma_at_most_one_deactivation(phase: Phase, events: Seq<Event>)
    ensures
        deactivations(run(phase, events)) <= 1,
        phase.is_ending() ==> deactivations(run(phase, events)) == 0,
    decreases events.len(),
{
    if events.len() > 0 {
        let (p, c) = next(phase, events[0]);
        let rest = events.drop_first();
        lemma_at_most_one_deactivation(p, rest);
        let cmds = run(phase, events);
        assert(cmds.drop_first() =~= run(p, rest));
        if c.is_deactivate() {
            lemma_nothing_applied_after_stop(p, rest);
        }
    }
}

/// A stop request observed while running deactivates the client exactly
/// once, whatever follows, a second stop request included.
pub proof fn lemma_stop_deactivates_once(events: Seq<Event>)
    requires
        events.len() > 0,
        events[0] matches Event::Tick { shutdown, .. } && shutdown,
    ensures
        deactivations(run(Phase::Running, events)) == 1,
        phase_after(Phase::Running, events).is_ending(),
{
    let rest = events.drop_first();
    let cmds = run(Phase::Running, events);
    assert(cmds.drop_first() =~= run(Phase::ShuttingDown, rest));
    lemma_nothing_applied_after_stop(Phase::ShuttingDown, rest);
    lemma_ending_is_final(Phase::ShuttingDown, rest);
}

/// A port action queued just before a stop request is either applied whole,
/// at a tick before the one that sees the stop, or dropped whole when the
/// same tick sees both; nothing is applied after that, and the client is
/// deactivated exactly once.
pub proof fn lemma_action_then_stop(action: PortAction, stop_first: bool, rest: Seq<Event>)
    requires
        rest.len() > 0,
        rest[0] matches Event::Tick { shutdown, .. } && shutdown,
    ensures
        ({
            let cmds = run(
                Phase::Running,
                seq![Event::Tick { shutdown: stop_first, action: Some(action) }] + rest,
            );
            &&& stop_first ==> forall|i: int| 0 <= i < cmds.len() ==> !(#[trigger] cmds[i]).is_apply()
            &&& !stop_first ==> cmds[0] == Command::Apply(action)
            &&& !stop_first ==> forall|i: int| 1 <= i < cmds.len() ==> !(#[trigger] cmds[i]).is_apply()
            &&& deactivations(cmds) == 1
        }),
{
    let first = Event::Tick { shutdown: stop_first, action: Some(action) };
    let events = seq![first] + rest;
    let cmds = run(Phase::Running, events);
    assert(events[0] == first);
    assert(events.drop_first() =~= rest);
    if stop_first {
        lemma_stop_deactivates_once(events);
        lemma_nothing_applied_after_stop(Phase::ShuttingDown, rest);
        assert(cmds.drop_first() =~= run(Phase::ShuttingDown, rest));
        assert forall|i: int| 0 <= i < cmds.len() implies !(#[trigger] cmds[i]).is_apply() by {
            if i > 0 {
                assert(cmds[i] == run(Phase::ShuttingDown, rest)[i - 1]);
            }
        }
    } else {
        let tail = run(Phase::Running, rest);
        assert(cmds == seq![Command::Apply(action)] + tail);
        assert(cmds.drop_first() =~= tail);
        lemma_stop_deactivates_once(rest);
        let after = rest.drop_first();
        lemma_nothing_applied_after_stop(Phase::ShuttingDown, after);
        assert(tail == seq![Command::Deactivate] + run(Phase::ShuttingDown, after));
        assert forall|i: int| 1 <= i < cmds.len() implies !(#[trigger] cmds[i]).is_apply() by {
            assert(cmds[i] == tail[i - 1]);
            if i > 1 {
                assert(tail[i - 1] == run(Phase::ShuttingDown, after)[i - 2]);
            }
        }
    }
}

/// While running with no stop request, a pending port action is applied
/// exactly as it was sent, at that tick.
pub proof fn lemma_action_applied_when_running(action: PortAction)
    ensures
        next(Phase::Running, Event::Tick { shutdown: false, action: Some(action) })
            == (Phase::Running, Command::Apply(action)),
{
}

} // verus!
