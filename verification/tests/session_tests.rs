use gpu_dispatch::adapter::{AdapterInfo, AdapterPolicy};
use gpu_dispatch::buffer::BufferRole;
use gpu_dispatch::error::ConstructionError;
use gpu_dispatch::pipeline::{LayoutEntry, PipelineBinding};
use gpu_dispatch::plan::{DispatchPlan, Pass, Workgroups};
use gpu_dispatch::readback::ReadbackState;
use gpu_dispatch::session::{Command, Event, Failure, Outcome, Session, SessionConfig, Stage};
use gpu_dispatch::trace::replay;

fn layout() -> Vec<LayoutEntry> {
    vec![
        LayoutEntry { slot: 0, role: BufferRole::StorageReadWrite },
        LayoutEntry { slot: 1, role: BufferRole::Uniform },
    ]
}

fn config(columns: u32, rows: u32, output_size: u64) -> SessionConfig {
    SessionConfig {
        policy: AdapterPolicy::standard(),
        pipeline: PipelineBinding::new(layout(), String::from("main")).unwrap(),
        storage_slot: 0,
        uniform_slot: 1,
        output_size,
        plan: DispatchPlan::per_column(columns, rows),
        input: None,
    }
}

fn good_adapter() -> Event {
    Event::Device(Some(AdapterInfo { vendor: 0x10de }))
}

fn started(columns: u32, rows: u32, output_size: u64) -> Session<12> {
    let session = Session::<12>::new(config(columns, rows, output_size)).unwrap();
    let (session, command) = session.step(Event::Start);
    assert_eq!(command, Command::AcquireDevice);
    session
}

fn reading(columns: u32, rows: u32, output_size: u64) -> Session<12> {
    let mut events = vec![good_adapter(), Event::Provisioned];
    for _ in 0..columns {
        events.push(Event::Completed);
    }
    events.push(Event::Completed);
    let (session, trace) = replay(started(columns, rows, output_size), events);
    assert_eq!(trace.last(), Some(&Command::RequestMap));
    session
}

#[test]
fn new_session_is_created_and_has_no_outcome() {
    let session = Session::<12>::new(config(2, 3, 72)).unwrap();
    assert_eq!(session.stage(), Stage::Created);
    assert_eq!(session.outcome(), None);
    assert_eq!(session.storage().size(), 72);
    assert_eq!(session.storage().elem_size(), 12);
    assert_eq!(session.storage().element_count(), 6);
    assert_eq!(session.storage().role(), BufferRole::StorageReadWrite);
    assert_eq!(session.storage().slot(), Some(0));
    assert_eq!(session.staging().size(), 72);
    assert_eq!(session.staging().role(), BufferRole::StagingReadback);
    assert_eq!(session.pipeline().entry_point(), "main");
    assert_eq!(session.pipeline().slot_count(), 2);
    assert_eq!(session.input(), None);
    assert!(session.into_records().is_none());
}

#[test]
fn session_of_exactly_one_element_is_declared() {
    let session = Session::<12>::new(config(1, 1, 12)).unwrap();
    assert_eq!(session.storage().element_count(), 1);
}

#[test]
fn session_rejects_a_size_that_is_not_a_whole_number_of_elements() {
    assert!(matches!(
        Session::<12>::new(config(1, 1, 13)),
        Err(ConstructionError::SizeNotMultiple)
    ));
    assert!(matches!(
        Session::<12>::new(config(1, 1, 11)),
        Err(ConstructionError::SizeNotMultiple)
    ));
    assert!(matches!(
        Session::<8>::new(config(1, 1, 12)),
        Err(ConstructionError::SizeNotMultiple)
    ));
}

#[test]
fn session_rejects_zero_sized_elements() {
    assert!(matches!(
        Session::<0>::new(config(1, 1, 12)),
        Err(ConstructionError::ZeroSizedElement)
    ));
}

#[test]
fn session_rejects_input_of_the_wrong_size() {
    let mut short = config(1, 1, 24);
    short.input = Some(vec![0; 23]);
    assert!(matches!(Session::<12>::new(short), Err(ConstructionError::InputSizeMismatch)));
    let mut long = config(1, 1, 24);
    long.input = Some(vec![0; 36]);
    assert!(matches!(Session::<12>::new(long), Err(ConstructionError::InputSizeMismatch)));
    let mut exact = config(1, 1, 24);
    exact.input = Some(vec![5; 24]);
    let session = Session::<12>::new(exact).unwrap();
    assert_eq!(session.input(), Some(&vec![5u8; 24]));
}

#[test]
fn session_reports_the_size_before_the_input() {
    let mut both = config(1, 1, 25);
    both.input = Some(vec![0; 3]);
    assert!(matches!(Session::<12>::new(both), Err(ConstructionError::SizeNotMultiple)));
}

#[test]
fn complete_run_issues_every_command_in_order() {
    let session = Session::<12>::new(config(3, 2, 72)).unwrap();
    let mapped: Vec<u8> = (0u8..72).collect();
    let events = vec![
        Event::Start,
        good_adapter(),
        Event::Provisioned,
        Event::Completed,
        Event::Completed,
        Event::Completed,
        Event::Completed,
        Event::Pending,
        Event::Pending,
        Event::Signalled(true),
        Event::Mapped(mapped.clone()),
        Event::Completed,
    ];
    let (session, trace) = replay(session, events);
    assert_eq!(
        trace,
        vec![
            Command::AcquireDevice,
            Command::Provision,
            Command::SubmitPass { index: 0 },
            Command::SubmitPass { index: 1 },
            Command::SubmitPass { index: 2 },
            Command::SubmitCopy,
            Command::RequestMap,
            Command::Poll,
            Command::Poll,
            Command::ReadMapped,
            Command::Unmap,
            Command::Stop,
        ]
    );
    assert_eq!(session.stage(), Stage::Finished(Outcome::Complete));
    assert_eq!(session.outcome(), Some(Outcome::Complete));
    let records = session.into_records().unwrap();
    assert_eq!(records.len(), 6);
    for (i, record) in records.iter().enumerate() {
        assert_eq!(record.to_vec(), mapped[i * 12..(i + 1) * 12].to_vec());
    }
}

#[test]
fn stages_follow_the_commands() {
    let session = Session::<12>::new(config(1, 1, 12)).unwrap();
    let (session, _) = session.step(Event::Start);
    assert_eq!(session.stage(), Stage::AwaitingDevice);
    let (session, _) = session.step(good_adapter());
    assert_eq!(session.stage(), Stage::Provisioning);
    let (session, _) = session.step(Event::Provisioned);
    assert_eq!(session.stage(), Stage::Submitting);
    let (session, _) = session.step(Event::Completed);
    assert_eq!(session.stage(), Stage::Submitting);
    assert_eq!(session.readback(), None);
    let (session, _) = session.step(Event::Completed);
    assert_eq!(session.stage(), Stage::Reading);
    assert_eq!(session.readback(), Some(ReadbackState::Requested));
    let (session, _) = session.step(Event::Pending);
    assert_eq!(session.stage(), Stage::Reading);
    assert_eq!(session.readback(), Some(ReadbackState::Requested));
    let (session, _) = session.step(Event::Signalled(true));
    assert_eq!(session.stage(), Stage::Reading);
    assert_eq!(session.readback(), Some(ReadbackState::Ready));
    let (session, _) = session.step(Event::Mapped(vec![0; 12]));
    assert_eq!(session.stage(), Stage::Reading);
    assert_eq!(session.readback(), Some(ReadbackState::Extracted));
    assert_eq!(session.outcome(), None);
    let (session, _) = session.step(Event::Completed);
    assert_eq!(session.stage(), Stage::Finished(Outcome::Complete));
    assert_eq!(session.readback(), Some(ReadbackState::Released));
}

#[test]
fn plan_without_passes_goes_straight_to_the_copy() {
    let session = started(0, 0, 12);
    let (session, trace) = replay(session, vec![good_adapter(), Event::Provisioned, Event::Completed]);
    assert_eq!(trace, vec![Command::Provision, Command::SubmitCopy, Command::RequestMap]);
    assert_eq!(session.stage(), Stage::Reading);
    assert_eq!(session.readback(), Some(ReadbackState::Requested));
}

#[test]
fn idle_passes_are_submitted_like_any_other() {
    let session = started(2, 0, 12);
    let events = vec![good_adapter(), Event::Provisioned, Event::Completed, Event::Completed];
    let (_, trace) = replay(session, events);
    assert_eq!(
        trace,
        vec![
            Command::Provision,
            Command::SubmitPass { index: 0 },
            Command::SubmitPass { index: 1 },
            Command::SubmitCopy,
        ]
    );
}

#[test]
fn missing_adapter_gives_no_result() {
    let (session, command) = started(2, 2, 48).step(Event::Device(None));
    assert_eq!(command, Command::Stop);
    assert_eq!(session.outcome(), Some(Outcome::NoResult));
    assert_eq!(session.readback(), None);
    assert!(session.into_records().is_none());
}

#[test]
fn rejected_declarations_abandon_the_run_before_any_dispatch() {
    let (session, trace) = replay(started(2, 2, 48), vec![good_adapter(), Event::Rejected, Event::Completed]);
    assert_eq!(trace, vec![Command::Provision, Command::Stop, Command::Stop]);
    assert_eq!(session.outcome(), Some(Outcome::Failed(Failure::Rejected)));
}

#[test]
fn mapping_error_abandons_the_run() {
    let (session, command) = reading(2, 1, 24).step(Event::Signalled(false));
    assert_eq!(command, Command::Stop);
    assert_eq!(session.outcome(), Some(Outcome::Failed(Failure::Mapping)));
    assert_eq!(session.readback(), Some(ReadbackState::Failed));
    assert!(session.into_records().is_none());
}

#[test]
fn mapping_error_after_polling_abandons_the_run() {
    let (session, trace) = replay(
        reading(2, 1, 24),
        vec![Event::Pending, Event::Pending, Event::Signalled(false), Event::Mapped(vec![0; 24])],
    );
    assert_eq!(trace, vec![Command::Poll, Command::Poll, Command::Stop, Command::Stop]);
    assert_eq!(session.outcome(), Some(Outcome::Failed(Failure::Mapping)));
}

#[test]
fn mapped_range_of_the_wrong_size_abandons_the_run() {
    let (session, _) = reading(2, 1, 24).step(Event::Signalled(true));
    let (session, command) = session.step(Event::Mapped(vec![0; 12]));
    assert_eq!(command, Command::Stop);
    assert_eq!(session.outcome(), Some(Outcome::Failed(Failure::Extraction)));
    let (session, _) = reading(2, 1, 24).step(Event::Signalled(true));
    let (session, command) = session.step(Event::Mapped(vec![0; 36]));
    assert_eq!(command, Command::Stop);
    assert_eq!(session.outcome(), Some(Outcome::Failed(Failure::Extraction)));
    let (session, _) = reading(2, 1, 24).step(Event::Signalled(true));
    let (session, command) = session.step(Event::Mapped(vec![0; 25]));
    assert_eq!(command, Command::Stop);
    assert_eq!(session.outcome(), Some(Outcome::Failed(Failure::Extraction)));
}

#[test]
fn pass_whose_buffers_do_not_fit_the_layout_is_not_submitted() {
    let mut declared = config(2, 1, 24);
    declared.pipeline = PipelineBinding::new(
        vec![LayoutEntry { slot: 0, role: BufferRole::StorageReadWrite }],
        String::from("main"),
    )
    .unwrap();
    let session = Session::<12>::new(declared).unwrap();
    let (session, trace) = replay(session, vec![Event::Start, good_adapter(), Event::Provisioned]);
    assert_eq!(trace, vec![Command::AcquireDevice, Command::Provision, Command::Stop]);
    assert_eq!(session.outcome(), Some(Outcome::Failed(Failure::Binding)));
}

#[test]
fn later_pass_that_does_not_fit_stops_the_run_where_it_stands() {
    let mut plan = DispatchPlan::new();
    plan.push(Pass { workgroups: Workgroups { x: 1, y: 1, z: 1 }, payload: Some(vec![1, 0, 0, 0]) });
    plan.push(Pass { workgroups: Workgroups { x: 1, y: 1, z: 1 }, payload: None });
    let mut declared = config(0, 0, 24);
    declared.plan = plan;
    let session = Session::<12>::new(declared).unwrap();
    let events = vec![Event::Start, good_adapter(), Event::Provisioned, Event::Completed];
    let (session, trace) = replay(session, events);
    assert_eq!(
        trace,
        vec![
            Command::AcquireDevice,
            Command::Provision,
            Command::SubmitPass { index: 0 },
            Command::Stop,
        ]
    );
    assert_eq!(session.outcome(), Some(Outcome::Failed(Failure::Binding)));
}

#[test]
fn wrong_storage_slot_fails_the_binding() {
    let mut declared = config(1, 1, 12);
    declared.storage_slot = 7;
    let session = Session::<12>::new(declared).unwrap();
    let (session, trace) = replay(session, vec![Event::Start, good_adapter(), Event::Provisioned]);
    assert_eq!(trace.last(), Some(&Command::Stop));
    assert_eq!(session.outcome(), Some(Outcome::Failed(Failure::Binding)));
}

#[test]
fn event_out_of_turn_abandons_the_run() {
    let fresh = Session::<12>::new(config(1, 1, 12)).unwrap();
    let (session, command) = fresh.step(Event::Completed);
    assert_eq!(command, Command::Stop);
    assert_eq!(session.outcome(), Some(Outcome::Failed(Failure::Protocol)));

    let (session, command) = started(1, 1, 12).step(Event::Start);
    assert_eq!(command, Command::Stop);
    assert_eq!(session.outcome(), Some(Outcome::Failed(Failure::Protocol)));

    let (session, _) = started(1, 1, 12).step(good_adapter());
    let (session, command) = session.step(Event::Completed);
    assert_eq!(command, Command::Stop);
    assert_eq!(session.outcome(), Some(Outcome::Failed(Failure::Protocol)));

    let (session, _) = replay(started(1, 1, 12), vec![good_adapter(), Event::Provisioned]);
    let (session, command) = session.step(Event::Signalled(true));
    assert_eq!(command, Command::Stop);
    assert_eq!(session.outcome(), Some(Outcome::Failed(Failure::Protocol)));
}

#[test]
fn bytes_before_the_signal_are_refused() {
    let (session, command) = reading(1, 1, 12).step(Event::Mapped(vec![0; 12]));
    assert_eq!(command, Command::Stop);
    assert_eq!(session.outcome(), Some(Outcome::Failed(Failure::Protocol)));
}

#[test]
fn second_signal_is_refused() {
    let (session, _) = reading(1, 1, 12).step(Event::Signalled(true));
    let (session, command) = session.step(Event::Signalled(true));
    assert_eq!(command, Command::Stop);
    assert_eq!(session.outcome(), Some(Outcome::Failed(Failure::Protocol)));
}

#[test]
fn second_read_is_refused() {
    let (session, _) = replay(reading(1, 1, 12), vec![Event::Signalled(true), Event::Mapped(vec![1; 12])]);
    let (session, command) = session.step(Event::Mapped(vec![2; 12]));
    assert_eq!(command, Command::Stop);
    assert_eq!(session.outcome(), Some(Outcome::Failed(Failure::Protocol)));
    assert!(session.into_records().is_none());
}

#[test]
fn finished_session_answers_every_event_with_stop() {
    let (session, _) = started(1, 1, 12).step(Event::Device(None));
    let events = vec![
        Event::Start,
        good_adapter(),
        Event::Provisioned,
        Event::Completed,
        Event::Signalled(true),
        Event::Mapped(vec![0; 12]),
    ];
    let (session, trace) = replay(session, events);
    assert_eq!(trace, vec![Command::Stop; 6]);
    assert_eq!(session.outcome(), Some(Outcome::NoResult));
}

#[test]
fn every_pass_gets_a_uniform_buffer_of_its_own() {
    let session = Session::<12>::new(config(3, 1, 36)).unwrap();
    for index in 0..3usize {
        let buffer = session.uniform_buffer(index).unwrap();
        assert_eq!(buffer.role(), BufferRole::Uniform);
        assert_eq!(buffer.size(), 4);
        assert_eq!(buffer.slot(), Some(1));
        assert_eq!(
            session.pass(index).unwrap().payload,
            Some((index as u32).to_ne_bytes().to_vec())
        );
    }
    assert!(session.uniform_buffer(3).is_none());
    assert!(session.pass(3).is_none());
}

#[test]
fn pass_without_payload_has_no_uniform_buffer() {
    let mut declared = config(0, 0, 12);
    declared.plan = DispatchPlan::single_pass(1);
    let session = Session::<12>::new(declared).unwrap();
    assert!(session.uniform_buffer(0).is_none());
    assert!(session.pass(0).is_some());
}

#[test]
fn replay_of_no_events_changes_nothing() {
    let session = Session::<12>::new(config(1, 1, 12)).unwrap();
    let (session, trace) = replay(session, Vec::new());
    assert!(trace.is_empty());
    assert_eq!(session.stage(), Stage::Created);
}
