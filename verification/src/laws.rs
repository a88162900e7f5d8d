//! What holds of every run of a session, however the host and the device
//! behave.

use vstd::prelude::*;
use crate::adapter::{admits, AdapterInfo};
use crate::buffer::uniform_model;
use crate::extract::typed_records;
use crate::pipeline::satisfies;
use crate::plan::{
    encodes_word, is_column_plan, lemma_column_payload_names_its_column, total_work,
};
use crate::readback::{may_follow, ReadbackState};
use crate::sequencer::{submission_order, Submission};
use crate::session::{Command, Event, Failure, Outcome, SessionModel, Stage};
use crate::trace::{
    lemma_command_answers_event, lemma_run_in_two_stretches, lemma_run_keeps_invariant,
    lemma_run_of_one, lemma_transition_keeps_invariant, run, submissions,
};

verus! {

/// The device refused to serve: no adapter, or one that the policy excludes.
pub open spec fn is_refusal(excluded: Seq<u64>, event: Event) -> bool {
    match event {
        Event::Device(Some(info)) => !admits(excluded, info),
        Event::Device(None) => true,
        _ => false,
    }
}

/// The buffers of every pass satisfy the binding layout.
pub open spec fn binds_every_pass(session: SessionModel) -> bool {
    forall|i: int|
        0 <= i < session.passes.len() ==> satisfies(
            session.pass_buffers(#[trigger] session.passes[i]),
            session.pipeline.entries,
        )
}

/// The command that hands submission `position` of a plan of `passes` passes
/// to the queue.
pub open spec fn submit_command(passes: nat, position: nat) -> Command {
    if position < passes {
        Command::SubmitPass { index: position as usize }
    } else {
        Command::SubmitCopy
    }
}

/// `count` times the same event.
pub open spec fn repeated(event: Event, count: nat) -> Seq<Event> {
    Seq::new(count, |k: int| event)
}

/// What a host reports when nothing goes wrong: the adapter `info`, every
/// declaration accepted, every submission completed, `polls` polls before the
/// device signals, and `mapped` as the bytes of the staging buffer.
pub open spec fn clean_report(passes: nat, polls: nat, info: AdapterInfo, mapped: Vec<u8>) -> Seq<
    Event,
> {
    seq![Event::Start, Event::Device(Some(info)), Event::Provisioned] + repeated(
        Event::Completed,
        passes + 1,
    ) + repeated(Event::Pending, polls) + seq![
        Event::Signalled(true),
        Event::Mapped(mapped),
        Event::Completed,
    ]
}

/// The commands of a run in which nothing goes wrong: setup, every pass in
/// plan order, the copy, the mapping request, `polls` polls, the read, the
/// unmap and the stop.
pub open spec fn clean_trace(passes: nat, polls: nat) -> Seq<Command> {
    seq![Command::AcquireDevice, Command::Provision] + Seq::new(
        passes + 1,
        |k: int| submit_command(passes, k as nat),
    ) + seq![Command::RequestMap] + Seq::new(polls, |k: int| Command::Poll) + seq![
        Command::ReadMapped,
        Command::Unmap,
        Command::Stop,
    ]
}

/// `event` is an answer to `command`: it reports on what the command asked
/// for.
pub open spec fn answers(command: Command, event: Event) -> bool {
    match command {
        Command::AcquireDevice => event is Device,
        Command::Provision => event is Provisioned || event is Rejected,
        Command::SubmitPass { .. } => event is Completed,
        Command::SubmitCopy => event is Completed,
        Command::RequestMap => event is Pending || event is Signalled,
        Command::Poll => event is Pending || event is Signalled,
        Command::ReadMapped => event is Mapped,
        Command::Unmap => event is Completed,
        Command::Stop => true,
    }
}

/// `session` is waiting for the answer to `command`.
pub open spec fn awaits(session: SessionModel, command: Command) -> bool {
    match command {
        Command::AcquireDevice => session.stage == Stage::AwaitingDevice,
        Command::Provision => session.stage == Stage::Provisioning,
        Command::SubmitPass { .. } => session.stage == Stage::Submitting,
        Command::SubmitCopy => session.stage == Stage::Submitting,
        Command::RequestMap => session.stage == Stage::Reading && session.readback == Some(
            ReadbackState::Requested,
        ),
        Command::Poll => session.stage == Stage::Reading && session.readback == Some(
            ReadbackState::Requested,
        ),
        Command::ReadMapped => session.stage == Stage::Reading && session.readback == Some(
            ReadbackState::Ready,
        ),
        Command::Unmap => session.stage == Stage::Reading && session.readback == Some(
            ReadbackState::Extracted,
        ),
        Command::Stop => session.stage is Finished,
    }
}

/// The host begins with `Start` and then answers every command it was given.
pub open spec fn answers_in_turn(start: SessionModel, events: Seq<Event>) -> bool
    decreases events.len(),
{
    if events.len() == 0 {
        true
    } else if events.len() == 1 {
        events[0] == Event::Start
    } else {
        &&& answers_in_turn(start, events.drop_last())
        &&& answers(run(start, events.drop_last()).1.last(), events.last())
    }
}

/// Setup stages are passed once: a fresh session has left `Created` after
/// one event, `AwaitingDevice` after two and `Provisioning` after three.
pub proof fn lemma_setup_is_left_behind(start: SessionModel, events: Seq<Event>)
    requires
        start.fresh(),
    ensures
        events.len() >= 1 ==> run(start, events).0.stage != Stage::Created,
        events.len() >= 2 ==> run(start, events).0.stage != Stage::AwaitingDevice,
        events.len() >= 3 ==> run(start, events).0.stage != Stage::Provisioning,
        events.len() == 0 ==> run(start, events).0.stage == Stage::Created,
        events.len() == 1 ==> run(start, events).0.stage == Stage::AwaitingDevice || run(
            start,
            events,
        ).0.stage is Finished,
    decreases events.len(),
{
    if events.len() > 0 {
        lemma_setup_is_left_behind(start, events.drop_last());
    }
}

/// In a run of a fresh session the device is acquired by the first command
/// or never, and the kernel is compiled and the buffers are created by the
/// second command or never: setup happens once, before every submission.
pub proof fn lemma_setup_happens_once(start: SessionModel, events: Seq<Event>, position: int)
    requires
        start.fresh(),
        0 <= position < events.len(),
    ensures
        run(start, events).1[position] == Command::AcquireDevice ==> position == 0,
        run(start, events).1[position] == Command::Provision ==> position == 1,
{
    lemma_command_answers_event(start, events, position);
    lemma_setup_is_left_behind(start, events.take(position));
}

/// Whatever the host reports, the submissions of a run are a stretch of the
/// planned order: the passes in plan order, none left out and none twice, and
/// the copy only after the last pass.
pub proof fn lemma_submissions_follow_plan(start: SessionModel, events: Seq<Event>)
    requires
        start.inv(),
    ensures
        start.issued <= run(start, events).0.issued <= start.passes.len() + 1,
        submissions(run(start, events).1) == submission_order(start.passes.len()).subrange(
            start.issued as int,
            run(start, events).0.issued as int,
        ),
    decreases events.len(),
{
    if events.len() > 0 {
        let before = run(start, events.drop_last());
        lemma_submissions_follow_plan(start, events.drop_last());
        lemma_run_keeps_invariant(start, events.drop_last());
        lemma_transition_keeps_invariant(before.0, events.last());
        assert(run(start, events).1.drop_last() =~= before.1);
    }
}

/// A run that starts fresh and ends complete has submitted every pass and
/// the copy, and delivers exactly as many records as the output buffer has
/// elements, each of the element size.
pub proof fn lemma_complete_run_delivers_every_element(start: SessionModel, events: Seq<Event>)
    requires
        start.fresh(),
        run(start, events).0.stage == Stage::Finished(Outcome::Complete),
    ensures
        run(start, events).0.output.len() == start.storage.element_count(),
        run(start, events).0.output.len() * start.storage.elem_size == start.storage.size,
        forall|i: int|
            0 <= i < run(start, events).0.output.len() ==> (#[trigger] run(
                start,
                events,
            ).0.output[i]).len() == start.storage.elem_size,
        submissions(run(start, events).1) == submission_order(start.passes.len()),
{
    lemma_run_keeps_invariant(start, events);
    lemma_submissions_follow_plan(start, events);
    crate::buffer::lemma_count_times_size(start.storage.size, start.storage.elem_size);
}

/// Where the plan covers the output buffer exactly, one unit of work for
/// every element, a complete run delivers exactly as many records as the
/// plan dispatched work: none is missing and none is added.
pub proof fn lemma_exact_cover_delivers_the_work(start: SessionModel, events: Seq<Event>)
    requires
        start.fresh(),
        total_work(start.passes) == start.storage.element_count(),
        run(start, events).0.stage == Stage::Finished(Outcome::Complete),
    ensures
        run(start, events).0.output.len() == total_work(start.passes),
{
    lemma_complete_run_delivers_every_element(start, events);
}

/// Once a session is over it stays as it is and answers every event with
/// `Stop`.
pub proof fn lemma_finished_is_final(end: SessionModel, events: Seq<Event>)
    requires
        end.stage is Finished,
    ensures
        run(end, events).0 == end,
        forall|k: int| 0 <= k < events.len() ==> #[trigger] run(end, events).1[k] == Command::Stop,
        run(end, events).1.len() == events.len(),
    decreases events.len(),
{
    if events.len() > 0 {
        lemma_finished_is_final(end, events.drop_last());
    }
}

/// Where the device refuses to serve, the session ends without a result and
/// nothing is ever provisioned, dispatched or read.
pub proof fn lemma_refused_adapter_never_dispatches(
    waiting: SessionModel,
    refusal: Event,
    later: Seq<Event>,
)
    requires
        waiting.stage == Stage::AwaitingDevice,
        is_refusal(waiting.excluded, refusal),
    ensures
        waiting.transition(refusal).1 == Command::Stop,
        run(waiting.transition(refusal).0, later).0.stage == Stage::Finished(Outcome::NoResult),
        forall|k: int|
            0 <= k < later.len() ==> #[trigger] run(waiting.transition(refusal).0, later).1[k]
                == Command::Stop,
{
    lemma_finished_is_final(waiting.transition(refusal).0, later);
}

/// A run of a fresh session that ends without a result, or with its
/// declarations rejected, has handed nothing to the queue.
pub proof fn lemma_no_result_means_no_dispatch(start: SessionModel, events: Seq<Event>)
    requires
        start.fresh(),
        run(start, events).0.stage == Stage::Finished(Outcome::NoResult) || run(
            start,
            events,
        ).0.stage == Stage::Finished(Outcome::Failed(Failure::Rejected)),
    ensures
        submissions(run(start, events).1) == Seq::<Submission>::empty(),
        run(start, events).0.readback is None,
{
    lemma_run_keeps_invariant(start, events);
    lemma_submissions_follow_plan(start, events);
}

/// The host is told to read the mapped bytes only in answer to a ready
/// signal, to unmap only in answer to the bytes, and to request the mapping
/// only once the copy, and so every pass, has been submitted.
pub proof fn lemma_host_access_waits_for_the_device(before: SessionModel, event: Event)
    requires
        before.inv(),
    ensures
        before.transition(event).1 == Command::ReadMapped ==> before.readback == Some(
            ReadbackState::Requested,
        ) && event == Event::Signalled(true),
        before.transition(event).1 == Command::Unmap ==> before.readback == Some(
            ReadbackState::Ready,
        ) && event is Mapped,
        before.transition(event).1 == Command::RequestMap ==> before.issued
            == before.passes.len() + 1 && event == Event::Completed,
{
}

/// A session has at most one handshake: it is created when the mapping is
/// requested, it moves only as the protocol allows, and it is never put back
/// to an earlier state or replaced.
pub proof fn lemma_readback_follows_protocol(before: SessionModel, event: Event)
    requires
        before.inv(),
    ensures
        match (before.readback, before.transition(event).0.readback) {
            (None, None) => true,
            (None, Some(created)) => created == ReadbackState::Requested && before.transition(
                event,
            ).1 == Command::RequestMap,
            (Some(earlier), Some(later)) => earlier == later || may_follow(earlier, later),
            (Some(_), None) => false,
        },
{
}

/// While the host reports completed submissions, the session hands out the
/// submissions that are due, one for each report.
pub proof fn lemma_completed_submissions_go_on(submitting: SessionModel, count: nat)
    requires
        submitting.inv(),
        submitting.stage == Stage::Submitting,
        binds_every_pass(submitting),
        submitting.issued + count <= submitting.passes.len() + 1,
    ensures
        run(submitting, repeated(Event::Completed, count)).0 == (SessionModel {
            issued: submitting.issued + count,
            ..submitting
        }),
        run(submitting, repeated(Event::Completed, count)).1 == Seq::new(
            count,
            |k: int| submit_command(submitting.passes.len(), (submitting.issued + k) as nat),
        ),
    decreases count,
{
    if count > 0 {
        let fewer = (count - 1) as nat;
        lemma_completed_submissions_go_on(submitting, fewer);
        assert(repeated(Event::Completed, count).drop_last() =~= repeated(
            Event::Completed,
            fewer,
        ));
    }
}

/// While the device has not signalled, the session keeps polling and nothing
/// else changes.
pub proof fn lemma_pending_polls_go_on(waiting: SessionModel, count: nat)
    requires
        waiting.stage == Stage::Reading,
        waiting.readback == Some(ReadbackState::Requested),
    ensures
        run(waiting, repeated(Event::Pending, count)).0 == waiting,
        run(waiting, repeated(Event::Pending, count)).1 == Seq::new(count, |k: int| Command::Poll),
    decreases count,
{
    if count > 0 {
        let fewer = (count - 1) as nat;
        lemma_pending_polls_go_on(waiting, fewer);
        assert(repeated(Event::Pending, count).drop_last() =~= repeated(Event::Pending, fewer));
    }
}

/// Where nothing goes wrong the session completes: a fresh session on an
/// admitted adapter, whose passes all satisfy the layout, that is told of
/// accepted declarations, completed submissions, a ready mapping and a mapped
/// range of the output buffer's size, issues setup, every pass in plan
/// order, the copy, the mapping request, one poll for every pending report,
/// the read and the unmap, and ends complete with the mapped range cut into
/// records as its output.
pub proof fn lemma_clean_run_completes(
    start: SessionModel,
    polls: nat,
    info: AdapterInfo,
    mapped: Vec<u8>,
)
    requires
        start.fresh(),
        admits(start.excluded, info),
        binds_every_pass(start),
        mapped@.len() == start.storage.size,
    ensures
        run(start, clean_report(start.passes.len(), polls, info, mapped)).1 == clean_trace(
            start.passes.len(),
            polls,
        ),
        run(start, clean_report(start.passes.len(), polls, info, mapped)).0.stage
            == Stage::Finished(Outcome::Complete),
        run(start, clean_report(start.passes.len(), polls, info, mapped)).0.output
            == typed_records(mapped@, start.storage.elem_size),
        run(start, clean_report(start.passes.len(), polls, info, mapped)).0.readback == Some(
            ReadbackState::Released,
        ),
{
    let passes = start.passes.len();
    let setup = seq![Event::Start, Event::Device(Some(info)), Event::Provisioned];
    let completed = repeated(Event::Completed, passes + 1);
    let pending = repeated(Event::Pending, polls);
    let harvest = seq![Event::Signalled(true), Event::Mapped(mapped), Event::Completed];

    // Setup: the device is acquired, the declarations are accepted and the
    // first submission goes out.
    let acquiring = start.transition(Event::Start);
    let provisioning = acquiring.0.transition(Event::Device(Some(info)));
    let submitting = provisioning.0.transition(Event::Provisioned);
    assert(run(start, setup) == (
        submitting.0,
        seq![Command::AcquireDevice, Command::Provision, submit_command(passes, 0)],
    )) by {
        let one = seq![Event::Start];
        let two = seq![Event::Start, Event::Device(Some(info))];
        lemma_run_of_one(start, Event::Start);
        assert(two.drop_last() =~= one);
        assert(setup.drop_last() =~= two);
        assert(run(start, two).1 =~= seq![Command::AcquireDevice, Command::Provision]);
    }

    // Submissions: one for every completed report, then the mapping request.
    lemma_completed_submissions_go_on(submitting.0, passes);
    let drained = run(submitting.0, repeated(Event::Completed, passes));
    let requested = drained.0.transition(Event::Completed);
    assert(completed =~= repeated(Event::Completed, passes) + seq![Event::Completed]);
    lemma_run_in_two_stretches(
        submitting.0,
        repeated(Event::Completed, passes),
        seq![Event::Completed],
    );
    lemma_run_of_one(drained.0, Event::Completed);
    let waiting = requested.0;

    // Polling changes nothing.
    lemma_pending_polls_go_on(waiting, polls);

    // Harvest: the signal, the bytes and the unmap.
    let ready = waiting.transition(Event::Signalled(true));
    let extracted = ready.0.transition(Event::Mapped(mapped));
    let released = extracted.0.transition(Event::Completed);
    assert(run(waiting, harvest) == (
        released.0,
        seq![Command::ReadMapped, Command::Unmap, Command::Stop],
    )) by {
        let one = seq![Event::Signalled(true)];
        let two = seq![Event::Signalled(true), Event::Mapped(mapped)];
        lemma_run_of_one(waiting, Event::Signalled(true));
        assert(two.drop_last() =~= one);
        assert(harvest.drop_last() =~= two);
        assert(run(waiting, two).1 =~= seq![Command::ReadMapped, Command::Unmap]);
    }

    // The stretches in a row.
    lemma_run_in_two_stretches(start, setup, completed);
    lemma_run_in_two_stretches(start, setup + completed, pending);
    lemma_run_in_two_stretches(start, setup + completed + pending, harvest);
}

/// In a session that runs one pass per column, submission `column` of a
/// clean run is the pass of that column, and that pass is bound to a uniform
/// buffer of its own whose four bytes hold the column's number: every pass
/// is dispatched with its own parameters.
pub proof fn lemma_column_pass_carries_its_number(
    session: SessionModel,
    width: u32,
    height: u32,
    polls: nat,
    column: int,
)
    requires
        is_column_plan(session.passes, width, height),
        0 <= column < width,
    ensures
        clean_trace(width as nat, polls)[2 + column] == (Command::SubmitPass {
            index: column as usize,
        }),
        session.passes[column].payload is Some,
        encodes_word(session.passes[column].payload->Some_0, column as u32),
        session.pass_buffers(session.passes[column]) == seq![
            session.storage,
            uniform_model(4, session.uniform_slot),
        ],
{
    lemma_column_payload_names_its_column(session.passes, width, height, column);
}

/// After every step the session waits for the answer to the command it has
/// just issued.
pub proof fn lemma_session_awaits_its_command(before: SessionModel, event: Event)
    requires
        before.inv(),
    ensures
        awaits(before.transition(event).0, before.transition(event).1),
{
}

/// A host that begins with `Start` and answers every command in turn is
/// never refused: the session fails on the protocol only when an event comes
/// out of turn.
pub proof fn lemma_answers_in_turn_are_accepted(start: SessionModel, events: Seq<Event>)
    requires
        start.fresh(),
        answers_in_turn(start, events),
    ensures
        run(start, events).0.stage != Stage::Finished(Outcome::Failed(Failure::Protocol)),
        events.len() > 0 ==> awaits(run(start, events).0, run(start, events).1.last()),
    decreases events.len(),
{
    if events.len() > 0 {
        let earlier = events.drop_last();
        lemma_answers_in_turn_are_accepted(start, earlier);
        lemma_run_keeps_invariant(start, earlier);
        lemma_session_awaits_its_command(run(start, earlier).0, events.last());
        if earlier.len() == 0 {
        }
    }
}

/// Two sessions with the same declarations that are told the same events
/// are sent the same commands and end in the same state with the same
/// output: nothing but the declarations and the events decides a run.
pub proof fn lemma_equal_declarations_equal_runs(
    first: SessionModel,
    second: SessionModel,
    events: Seq<Event>,
)
    requires
        first.fresh(),
        second.fresh(),
        first.same_declarations(second),
    ensures
        run(first, events) == run(second, events),
{
}

} // verus!
