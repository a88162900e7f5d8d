//! Whole runs of a session: the commands that a sequence of events draws
//! from it.

use vstd::prelude::*;
use crate::extract::lemma_typed_records_shape;
use crate::sequencer::{submission_order, Submission};
use crate::session::{Command, Event, Session, SessionModel};

verus! {

/// The state after `events`, one after the other, and the commands that
/// answered them.
pub open spec fn run(start: SessionModel, events: Seq<Event>) -> (SessionModel, Seq<Command>)
    decreases events.len(),
{
    if events.len() == 0 {
        (start, Seq::empty())
    } else {
        let before = run(start, events.drop_last());
        let after = before.0.transition(events.last());
        (after.0, before.1.push(after.1))
    }
}

/// What a command hands to the queue, if anything.
pub open spec fn submission_of(command: Command) -> Option<Submission> {
    match command {
        Command::SubmitPass { index } => Some(Submission::Pass { index }),
        Command::SubmitCopy => Some(Submission::Copy),
        _ => None,
    }
}

/// What the commands of `trace` hand to the queue, in order.
pub open spec fn submissions(trace: Seq<Command>) -> Seq<Submission>
    decreases trace.len(),
{
    if trace.len() == 0 {
        Seq::empty()
    } else {
        let earlier = submissions(trace.drop_last());
        match submission_of(trace.last()) {
            Some(submission) => earlier.push(submission),
            None => earlier,
        }
    }
}

/// Drives `session` through `events` and collects the commands.
pub fn replay<const N: usize>(session: Session<N>, events: Vec<Event>) -> (end: (
    Session<N>,
    Vec<Command>,
))
    ensures
        (end.0@, end.1@) == run(session@, events@),
{
    let ghost start = session@;
    let ghost all = events@;
    let mut session = session;
    let mut trace: Vec<Command> = Vec::new();
    for event in iter: events
        invariant
            iter.seq() == all,
            (session@, trace@) == run(start, all.take(iter.index() as int)),
    {
        let ghost done = iter.index() as int;
        let (next, command) = session.step(event);
        session = next;
        trace.push(command);
        proof {
            assert(all.take(done + 1).drop_last() =~= all.take(done));
        }
    }
    assert(all.take(all.len() as int) =~= all);
    (session, trace)
}

/// A step keeps what was declared, keeps the invariant, and hands at most one
/// submission to the queue: the one that is due.
pub proof fn lemma_transition_keeps_invariant(before: SessionModel, event: Event)
    requires
        before.inv(),
    ensures
        before.transition(event).0.inv(),
        before.transition(event).0.same_declarations(before),
        before.issued <= before.transition(event).0.issued <= before.issued + 1,
        match submission_of(before.transition(event).1) {
            Some(submission) => {
                &&& before.transition(event).0.issued == before.issued + 1
                &&& submission == submission_order(before.passes.len())[before.issued as int]
            },
            None => before.transition(event).0.issued == before.issued,
        },
{
    match event {
        Event::Mapped(bytes) => {
            if bytes@.len() == before.storage.size {
                lemma_typed_records_shape(bytes@, before.storage.elem_size);
            }
        },
        _ => {},
    }
}

/// A run keeps what was declared and keeps the invariant.
pub proof fn lemma_run_keeps_invariant(start: SessionModel, events: Seq<Event>)
    requires
        start.inv(),
    ensures
        run(start, events).0.inv(),
        run(start, events).0.same_declarations(start),
        run(start, events).1.len() == events.len(),
        start.issued <= run(start, events).0.issued,
    decreases events.len(),
{
    if events.len() > 0 {
        lemma_run_keeps_invariant(start, events.drop_last());
        lemma_transition_keeps_invariant(run(start, events.drop_last()).0, events.last());
    }
}

/// A run answers every event with one command.
pub proof fn lemma_run_length(start: SessionModel, events: Seq<Event>)
    ensures
        run(start, events).1.len() == events.len(),
    decreases events.len(),
{
    if events.len() > 0 {
        lemma_run_length(start, events.drop_last());
    }
}

/// The command at `position` of a run answers the event at `position` in the
/// state that the events before it led to.
pub proof fn lemma_command_answers_event(start: SessionModel, events: Seq<Event>, position: int)
    requires
        0 <= position < events.len(),
    ensures
        run(start, events).1.len() == events.len(),
        run(start, events).1[position] == run(start, events.take(position)).0.transition(
            events[position],
        ).1,
    decreases events.len(),
{
    let earlier = events.drop_last();
    lemma_run_length(start, earlier);
    if position == events.len() - 1 {
    } else {
        lemma_command_answers_event(start, earlier, position);
        assert(earlier.take(position) =~= events.take(position));
    }
}

/// A run through two stretches of events is the run through the first
/// followed by the run through the second.
pub proof fn lemma_run_in_two_stretches(start: SessionModel, first: Seq<Event>, second: Seq<Event>)
    ensures
        run(start, first + second).0 == run(run(start, first).0, second).0,
        run(start, first + second).1 == run(start, first).1 + run(run(start, first).0, second).1,
    decreases second.len(),
{
    if second.len() > 0 {
        let shorter = second.drop_last();
        lemma_run_in_two_stretches(start, first, shorter);
        assert((first + second).drop_last() =~= first + shorter);
    }
}

/// A run through one event is one transition.
pub proof fn lemma_run_of_one(start: SessionModel, event: Event)
    ensures
        run(start, seq![event]) == (
            start.transition(event).0,
            seq![start.transition(event).1],
        ),
{
    assert(run(start, seq![event].drop_last()) == (start, Seq::<Command>::empty()));
}

} // verus!
