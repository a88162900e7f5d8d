//! One dispatch-and-readback session as a state machine. The host performs
//! each command on the device and reports what happened as an event; the
//! session decides what comes next.

use vstd::prelude::*;
use crate::adapter::{admits, AdapterInfo, AdapterPolicy};
use crate::buffer::{uniform_model, BufferModel, BufferResource, BufferRole};
use crate::error::ConstructionError;
use crate::extract::{extract, lemma_typed_records_shape, record_bytes, typed_records};
use crate::pipeline::{models, satisfies, PipelineBinding, PipelineModel};
use crate::plan::{DispatchPlan, Pass, PassModel};
use crate::readback::{HostStep, PendingReadback, ReadbackState};
use crate::sequencer::{Submission, SubmissionSequencer};

verus! {

/// Why a session was abandoned.
#[derive(Clone, Copy, Debug, PartialEq, Eq, Structural)]
pub enum Failure {
    /// The device rejected the declared buffers or the pipeline.
    Rejected,
    /// The buffers of a pass do not satisfy the binding layout.
    Binding,
    /// The device reported a mapping error.
    Mapping,
    /// The mapped range does not have the size of the output buffer.
    Extraction,
    /// The host reported an event that does not answer the last command.
    Protocol,
}

/// How a session ended.
#[derive(Clone, Copy, Debug, PartialEq, Eq, Structural)]
pub enum Outcome {
    /// No adapter was found, or only one that the policy excludes.
    NoResult,
    /// Every pass ran and the output was read back.
    Complete,
    /// The run was abandoned.
    Failed(Failure),
}

/// Where a session stands.
#[derive(Clone, Copy, Debug, PartialEq, Eq, Structural)]
pub enum Stage {
    /// Nothing has been asked of the host yet.
    Created,
    /// The host is acquiring an adapter, a device and its queue.
    AwaitingDevice,
    /// The host is compiling the kernel and creating buffers and pipeline.
    Provisioning,
    /// A pass or the copy is with the queue.
    Submitting,
    /// The mapping of the staging buffer was requested.
    Reading,
    /// The session is over.
    Finished(Outcome),
}

/// What the host does next.
#[derive(Clone, Copy, Debug, PartialEq, Eq, Structural)]
pub enum Command {
    /// Acquire an adapter, then a device and its queue, and report the
    /// adapter's metadata.
    AcquireDevice,
    /// Compile the kernel, create the output buffer, the staging buffer and
    /// the pipeline with its layout.
    Provision,
    /// Create the uniform buffer of the pass at `index`, bind the buffers,
    /// record the dispatch and submit it.
    SubmitPass { index: usize },
    /// Record the copy of the output buffer into the staging buffer and
    /// submit it.
    SubmitCopy,
    /// Request the mapping of the staging buffer, drive the device once and
    /// report whether the mapping was signalled.
    RequestMap,
    /// Drive the device again and report whether the mapping was signalled.
    Poll,
    /// Report the bytes of the mapped range.
    ReadMapped,
    /// Drop every view of the mapped range and unmap the staging buffer.
    Unmap,
    /// Nothing more: the session is over.
    Stop,
}

/// What the host reports back.
#[derive(Clone, Debug, PartialEq, Eq)]
pub enum Event {
    /// The host is ready to take the first command.
    Start,
    /// The answer to `AcquireDevice`: the adapter's metadata, or `None` where
    /// no adapter or no device could be had.
    Device(Option<AdapterInfo>),
    /// The answer to `Provision` when everything was created.
    Provisioned,
    /// The answer to `Provision` when the device rejected a declaration.
    Rejected,
    /// The answer to `SubmitPass`, `SubmitCopy` and `Unmap`.
    Completed,
    /// The answer to `RequestMap` and `Poll` while the device has not
    /// signalled.
    Pending,
    /// The answer to `RequestMap` and `Poll` once the device has signalled:
    /// `true` for a ready mapping, `false` for a mapping error.
    Signalled(bool),
    /// The answer to `ReadMapped`.
    Mapped(Vec<u8>),
}

/// The mathematical content of a [`Session`]: what was declared, and how far
/// the run has come.
pub struct SessionModel {
    pub excluded: Seq<u64>,
    pub pipeline: PipelineModel,
    pub storage: BufferModel,
    pub uniform_slot: u32,
    pub passes: Seq<PassModel>,
    pub input: Option<Seq<u8>>,
    pub stage: Stage,
    pub issued: nat,
    pub readback: Option<ReadbackState>,
    pub output: Seq<Seq<u8>>,
}

impl SessionModel {
    /// The output holds one record for every element of the output buffer.
    pub open spec fn delivered(self) -> bool {
        &&& self.output.len() == self.storage.element_count()
        &&& forall|i: int|
            0 <= i < self.output.len() ==> (#[trigger] self.output[i]).len()
                == self.storage.elem_size
    }

    /// What holds of every session however it was driven: nothing is
    /// submitted before setup is over, the readback begins only when the copy
    /// is out, and a complete session has delivered its output and released
    /// the mapping.
    pub open spec fn inv(self) -> bool {
        &&& self.storage.wf()
        &&& self.issued <= self.passes.len() + 1
        &&& self.readback is Some ==> self.issued == self.passes.len() + 1
        &&& match self.stage {
            Stage::Created => self.issued == 0 && self.readback is None,
            Stage::AwaitingDevice => self.issued == 0 && self.readback is None,
            Stage::Provisioning => self.issued == 0 && self.readback is None,
            Stage::Submitting => self.issued >= 1 && self.readback is None,
            Stage::Reading => {
                ||| self.readback == Some(ReadbackState::Requested)
                ||| self.readback == Some(ReadbackState::Ready)
                ||| self.readback == Some(ReadbackState::Extracted) && self.delivered()
            },
            Stage::Finished(outcome) => {
                &&& outcome == Outcome::Complete <==> self.readback == Some(
                    ReadbackState::Released,
                )
                &&& outcome == Outcome::Complete ==> self.delivered()
                &&& outcome == Outcome::NoResult ==> self.issued == 0
                &&& outcome == Outcome::Failed(Failure::Rejected) ==> self.issued == 0
                &&& outcome == Outcome::Failed(Failure::Mapping) <==> self.readback == Some(
                    ReadbackState::Failed,
                )
            },
        }
    }

    /// A session that has not been started.
    pub open spec fn fresh(self) -> bool {
        &&& self.storage.wf()
        &&& self.stage == Stage::Created
        &&& self.issued == 0
        &&& self.readback is None
        &&& self.output == Seq::<Seq<u8>>::empty()
    }

    /// The same declarations as `other`.
    pub open spec fn same_declarations(self, other: SessionModel) -> bool {
        &&& self.excluded == other.excluded
        &&& self.pipeline == other.pipeline
        &&& self.storage == other.storage
        &&& self.uniform_slot == other.uniform_slot
        &&& self.passes == other.passes
        &&& self.input == other.input
    }

    /// The buffers that the binding group of `pass` attaches: the output
    /// buffer and, where the pass has a payload, its uniform buffer.
    pub open spec fn pass_buffers(self, pass: PassModel) -> Seq<BufferModel> {
        match pass.payload {
            Some(bytes) => seq![self.storage, uniform_model(bytes.len(), self.uniform_slot)],
            None => seq![self.storage],
        }
    }

    /// The session ends with `outcome`.
    pub open spec fn finish(self, outcome: Outcome) -> (SessionModel, Command) {
        (SessionModel { stage: Stage::Finished(outcome), ..self }, Command::Stop)
    }

    /// The next submission goes out: the pass that is due, if its buffers
    /// satisfy the layout; the copy once every pass is out; the mapping
    /// request once the copy is out.
    pub open spec fn submit_next(self) -> (SessionModel, Command) {
        if self.issued < self.passes.len() {
            if satisfies(
                self.pass_buffers(self.passes[self.issued as int]),
                self.pipeline.entries,
            ) {
                (
                    SessionModel { stage: Stage::Submitting, issued: self.issued + 1, ..self },
                    Command::SubmitPass { index: self.issued as usize },
                )
            } else {
                self.finish(Outcome::Failed(Failure::Binding))
            }
        } else if self.issued == self.passes.len() {
            (
                SessionModel { stage: Stage::Submitting, issued: self.issued + 1, ..self },
                Command::SubmitCopy,
            )
        } else {
            (
                SessionModel {
                    stage: Stage::Reading,
                    readback: Some(ReadbackState::Requested),
                    ..self
                },
                Command::RequestMap,
            )
        }
    }

    /// What a waiting readback does with `event`.
    pub open spec fn await_signal(self, event: Event) -> (SessionModel, Command) {
        match event {
            Event::Pending => (self, Command::Poll),
            Event::Signalled(mapped) => if mapped {
                (
                    SessionModel { readback: Some(ReadbackState::Ready), ..self },
                    Command::ReadMapped,
                )
            } else {
                (SessionModel { readback: Some(ReadbackState::Failed), ..self }).finish(
                    Outcome::Failed(Failure::Mapping),
                )
            },
            _ => self.finish(Outcome::Failed(Failure::Protocol)),
        }
    }

    /// What a ready readback does with `event`.
    pub open spec fn take_bytes(self, event: Event) -> (SessionModel, Command) {
        match event {
            Event::Mapped(bytes) => if bytes@.len() == self.storage.size {
                (
                    SessionModel {
                        readback: Some(ReadbackState::Extracted),
                        output: typed_records(bytes@, self.storage.elem_size),
                        ..self
                    },
                    Command::Unmap,
                )
            } else {
                self.finish(Outcome::Failed(Failure::Extraction))
            },
            _ => self.finish(Outcome::Failed(Failure::Protocol)),
        }
    }

    /// What a readback whose bytes were copied does with `event`.
    pub open spec fn release(self, event: Event) -> (SessionModel, Command) {
        match event {
            Event::Completed => (SessionModel {
                readback: Some(ReadbackState::Released),
                ..self
            }).finish(Outcome::Complete),
            _ => self.finish(Outcome::Failed(Failure::Protocol)),
        }
    }

    /// The state after `event` and the command that answers it.
    pub open spec fn transition(self, event: Event) -> (SessionModel, Command) {
        match self.stage {
            Stage::Created => match event {
                Event::Start => (
                    SessionModel { stage: Stage::AwaitingDevice, ..self },
                    Command::AcquireDevice,
                ),
                _ => self.finish(Outcome::Failed(Failure::Protocol)),
            },
            Stage::AwaitingDevice => match event {
                Event::Device(Some(info)) => if admits(self.excluded, info) {
                    (SessionModel { stage: Stage::Provisioning, ..self }, Command::Provision)
                } else {
                    self.finish(Outcome::NoResult)
                },
                Event::Device(None) => self.finish(Outcome::NoResult),
                _ => self.finish(Outcome::Failed(Failure::Protocol)),
            },
            Stage::Provisioning => match event {
                Event::Provisioned => self.submit_next(),
                Event::Rejected => self.finish(Outcome::Failed(Failure::Rejected)),
                _ => self.finish(Outcome::Failed(Failure::Protocol)),
            },
            Stage::Submitting => match event {
                Event::Completed => self.submit_next(),
                _ => self.finish(Outcome::Failed(Failure::Protocol)),
            },
            Stage::Reading => match self.readback {
                Some(ReadbackState::Requested) => self.await_signal(event),
                Some(ReadbackState::Ready) => self.take_bytes(event),
                Some(ReadbackState::Extracted) => self.release(event),
                _ => self.finish(Outcome::Failed(Failure::Protocol)),
            },
            Stage::Finished(_) => (self, Command::Stop),
        }
    }
}

/// What a session is declared with.
pub struct SessionConfig {
    /// Which adapters the session refuses.
    pub policy: AdapterPolicy,
    /// The kernel's entry point and binding layout.
    pub pipeline: PipelineBinding,
    /// The slot of the output buffer.
    pub storage_slot: u32,
    /// The slot of the per-pass uniform buffer.
    pub uniform_slot: u32,
    /// The byte size of the output buffer.
    pub output_size: u64,
    /// The passes to run.
    pub plan: DispatchPlan,
    /// The bytes the output buffer starts with, if it carries input.
    pub input: Option<Vec<u8>>,
}

/// The bytes that a buffer starts with.
pub open spec fn input_bytes(input: Option<Vec<u8>>) -> Option<Seq<u8>> {
    match input {
        Some(bytes) => Some(bytes@),
        None => None,
    }
}

/// The session that `config` declares for records of `elem_size` bytes,
/// before its first step.
pub open spec fn declared(config: SessionConfig, elem_size: nat) -> SessionModel {
    SessionModel {
        excluded: config.policy@,
        pipeline: config.pipeline@,
        storage: BufferModel {
            size: config.output_size as nat,
            elem_size,
            role: BufferRole::StorageReadWrite,
            slot: Some(config.storage_slot),
        },
        uniform_slot: config.uniform_slot,
        passes: config.plan@,
        input: input_bytes(config.input),
        stage: Stage::Created,
        issued: 0,
        readback: None,
        output: Seq::empty(),
    }
}

/// One dispatch-and-readback session whose output has records of `N` bytes.
pub struct Session<const N: usize> {
    policy: AdapterPolicy,
    pipeline: PipelineBinding,
    storage: BufferResource,
    uniform_slot: u32,
    plan: DispatchPlan,
    input: Option<Vec<u8>>,
    stage: Stage,
    sequencer: SubmissionSequencer,
    readback: Option<PendingReadback>,
    records: Vec<[u8; N]>,
}

/// The state of a handshake, if there is one.
pub open spec fn readback_state(readback: Option<PendingReadback>) -> Option<ReadbackState> {
    match readback {
        Some(pending) => Some(pending@),
        None => None,
    }
}

impl<const N: usize> View for Session<N> {
    type V = SessionModel;

    closed spec fn view(&self) -> SessionModel {
        SessionModel {
            excluded: self.policy@,
            pipeline: self.pipeline@,
            storage: self.storage@,
            uniform_slot: self.uniform_slot,
            passes: self.plan@,
            input: input_bytes(self.input),
            stage: self.stage,
            issued: self.sequencer@.issued,
            readback: readback_state(self.readback),
            output: record_bytes::<N>(self.records@),
        }
    }
}

impl<const N: usize> Session<N> {
    #[verifier::type_invariant]
    spec fn consistent(&self) -> bool {
        &&& self@.inv()
        &&& self.storage@.elem_size == N
        &&& self.sequencer@.passes == self.plan@.len()
    }

    /// Declares a session. The output buffer must hold a whole number of
    /// records, and input, where there is any, must fill it exactly.
    pub fn new(config: SessionConfig) -> (result: Result<Session<N>, ConstructionError>)
        ensures
            N == 0 ==> result == Err::<Session<N>, _>(ConstructionError::ZeroSizedElement),
            N > 0 && config.output_size % (N as u64) != 0 ==> result == Err::<Session<N>, _>(
                ConstructionError::SizeNotMultiple,
            ),
            N > 0 && config.output_size % (N as u64) == 0 && config.input is Some
                && config.input->Some_0@.len() != config.output_size ==> result == Err::<
                Session<N>,
                _,
            >(ConstructionError::InputSizeMismatch),
            N > 0 && config.output_size % (N as u64) == 0 && (config.input is Some
                ==> config.input->Some_0@.len() == config.output_size) ==> result is Ok
                && result->Ok_0@ == declared(config, N as nat) && result->Ok_0@.fresh(),
    {
        let mut storage = match BufferResource::new(
            BufferRole::StorageReadWrite,
            config.output_size,
            N as u64,
        ) {
            Ok(storage) => storage,
            Err(e) => {
                return Err(e);
            },
        };
        storage.attach(config.storage_slot);
        let filled = match &config.input {
            Some(bytes) => bytes.len() as u64 == config.output_size,
            None => true,
        };
        if !filled {
            return Err(ConstructionError::InputSizeMismatch);
        }
        let sequencer = SubmissionSequencer::new(config.plan.len());
        assert(record_bytes::<N>(Seq::<[u8; N]>::empty()) =~= Seq::<Seq<u8>>::empty());
        Ok(
            Session {
                policy: config.policy,
                pipeline: config.pipeline,
                storage,
                uniform_slot: config.uniform_slot,
                plan: config.plan,
                input: config.input,
                stage: Stage::Created,
                sequencer,
                readback: None,
                records: Vec::new(),
            },
        )
    }

    /// Where the session stands.
    pub fn stage(&self) -> (stage: Stage)
        ensures
            stage == self@.stage,
            self@.inv(),
    {
        proof {
            use_type_invariant(self);
        }
        self.stage
    }

    /// How the session ended, or `None` while it runs.
    pub fn outcome(&self) -> (outcome: Option<Outcome>)
        ensures
            outcome == match self@.stage {
                Stage::Finished(outcome) => Some(outcome),
                _ => None,
            },
    {
        match self.stage {
            Stage::Finished(outcome) => Some(outcome),
            _ => None,
        }
    }

    /// How far the readback has come, or `None` while no mapping was
    /// requested.
    pub fn readback(&self) -> (state: Option<ReadbackState>)
        ensures
            state == self@.readback,
    {
        match &self.readback {
            Some(pending) => Some(pending.state()),
            None => None,
        }
    }

    /// The output buffer.
    pub fn storage(&self) -> (storage: BufferResource)
        ensures
            storage@ == self@.storage,
            storage@.wf(),
            storage@.elem_size == N,
    {
        proof {
            use_type_invariant(self);
        }
        self.storage
    }

    /// The staging buffer that the output is read back through: as large as
    /// the output buffer.
    pub fn staging(&self) -> (staging: BufferResource)
        ensures
            staging@ == self@.storage.staging_twin(),
    {
        self.storage.staging_twin()
    }

    /// The pipeline.
    pub fn pipeline(&self) -> (pipeline: &PipelineBinding)
        ensures
            pipeline@ == self@.pipeline,
    {
        &self.pipeline
    }

    /// The bytes the output buffer starts with, if it carries input.
    pub fn input(&self) -> (input: Option<&Vec<u8>>)
        ensures
            match input {
                Some(bytes) => self@.input == Some(bytes@),
                None => self@.input is None,
            },
    {
        match &self.input {
            Some(bytes) => Some(bytes),
            None => None,
        }
    }

    /// The pass at `index` of the plan.
    pub fn pass(&self, index: usize) -> (pass: Option<&Pass>)
        ensures
            index < self@.passes.len() ==> pass is Some && pass->Some_0@
                == self@.passes[index as int],
            index >= self@.passes.len() ==> pass is None,
    {
        self.plan.pass(index)
    }

    /// The uniform buffer that is created for the pass at `index`: one of
    /// its own for every pass that has a payload, sized to the payload.
    pub fn uniform_buffer(&self, index: usize) -> (buffer: Option<BufferResource>)
        ensures
            buffer is Some <==> index < self@.passes.len() && self@.passes[index as int].payload
                is Some,
            buffer is Some ==> buffer->Some_0@ == uniform_model(
                self@.passes[index as int].payload->Some_0.len(),
                self@.uniform_slot,
            ),
    {
        match self.plan.pass(index) {
            Some(pass) => match &pass.payload {
                Some(bytes) => Some(BufferResource::uniform(bytes.len(), self.uniform_slot)),
                None => None,
            },
            None => None,
        }
    }

    /// The records that were read back: all of them once the session is
    /// complete.
    pub fn into_records(self) -> (records: Option<Vec<[u8; N]>>)
        ensures
            records is Some <==> self@.stage == Stage::Finished(Outcome::Complete),
            records is Some ==> record_bytes::<N>(records->Some_0@) == self@.output
                && records->Some_0@.len() == self@.storage.element_count(),
    {
        proof {
            use_type_invariant(&self);
        }
        match self.stage {
            Stage::Finished(Outcome::Complete) => Some(self.records),
            _ => None,
        }
    }

    fn finish(self, outcome: Outcome) -> (next: (Session<N>, Command))
        requires
            outcome == Outcome::NoResult || outcome == Outcome::Failed(Failure::Binding)
                || outcome == Outcome::Failed(Failure::Extraction) || outcome == Outcome::Failed(
                Failure::Protocol,
            ) || outcome == Outcome::Failed(Failure::Rejected),
            outcome == Outcome::NoResult || outcome == Outcome::Failed(Failure::Rejected)
                ==> self@.issued == 0,
            self@.readback != Some(ReadbackState::Released),
            self@.readback != Some(ReadbackState::Failed),
        ensures
            (next.0@, next.1) == self@.finish(outcome),
    {
        proof {
            use_type_invariant(&self);
        }
        (Session { stage: Stage::Finished(outcome), ..self }, Command::Stop)
    }

    fn refuse(self) -> (next: (Session<N>, Command))
        requires
            !(self@.stage is Finished),
        ensures
            (next.0@, next.1) == self@.finish(Outcome::Failed(Failure::Protocol)),
    {
        proof {
            use_type_invariant(&self);
        }
        self.finish(Outcome::Failed(Failure::Protocol))
    }

    fn submit_next(self) -> (next: (Session<N>, Command))
        requires
            self@.stage == Stage::Provisioning || self@.stage == Stage::Submitting,
        ensures
            (next.0@, next.1) == self@.submit_next(),
    {
        proof {
            use_type_invariant(&self);
        }
        match self.sequencer.due() {
            Some(Submission::Pass { index }) => {
                let bound = match self.plan.pass(index) {
                    Some(pass) => {
                        let mut buffers: Vec<BufferResource> = Vec::new();
                        buffers.push(self.storage);
                        match &pass.payload {
                            Some(bytes) => {
                                buffers.push(
                                    BufferResource::uniform(bytes.len(), self.uniform_slot),
                                );
                            },
                            None => {},
                        }
                        assert(models(buffers@) =~= self@.pass_buffers(pass@));
                        match self.pipeline.bind_group(buffers.as_slice()) {
                            Ok(_) => true,
                            Err(_) => false,
                        }
                    },
                    None => false,
                };
                if bound {
                    (
                        Session {
                            stage: Stage::Submitting,
                            sequencer: self.sequencer.advance(),
                            ..self
                        },
                        Command::SubmitPass { index },
                    )
                } else {
                    self.finish(Outcome::Failed(Failure::Binding))
                }
            },
            Some(Submission::Copy) => (
                Session {
                    stage: Stage::Submitting,
                    sequencer: self.sequencer.advance(),
                    ..self
                },
                Command::SubmitCopy,
            ),
            None => (
                Session {
                    stage: Stage::Reading,
                    readback: Some(PendingReadback::request()),
                    ..self
                },
                Command::RequestMap,
            ),
        }
    }

    fn await_signal(self, pending: PendingReadback, event: Event) -> (next: (Session<N>, Command))
        requires
            self@.stage == Stage::Reading,
            self@.readback == Some(ReadbackState::Requested),
            pending@ == ReadbackState::Requested,
        ensures
            (next.0@, next.1) == self@.await_signal(event),
    {
        proof {
            use_type_invariant(&self);
        }
        match event {
            Event::Pending => (self, Command::Poll),
            Event::Signalled(mapped) => {
                let mut pending = pending;
                pending.resolve(mapped);
                if mapped {
                    (Session { readback: Some(pending), ..self }, Command::ReadMapped)
                } else {
                    (
                        Session {
                            stage: Stage::Finished(Outcome::Failed(Failure::Mapping)),
                            readback: Some(pending),
                            ..self
                        },
                        Command::Stop,
                    )
                }
            },
            _ => self.refuse(),
        }
    }

    fn take_bytes(self, pending: PendingReadback, event: Event) -> (next: (Session<N>, Command))
        requires
            self@.stage == Stage::Reading,
            self@.readback == Some(ReadbackState::Ready),
            pending@ == ReadbackState::Ready,
        ensures
            (next.0@, next.1) == self@.take_bytes(event),
    {
        proof {
            use_type_invariant(&self);
        }
        match event {
            Event::Mapped(bytes) => {
                if bytes.len() as u64 != self.storage.size() {
                    return self.finish(Outcome::Failed(Failure::Extraction));
                }
                match extract::<N>(bytes.as_slice()) {
                    Ok(records) => {
                        let mut pending = pending;
                        pending.observe();
                        proof {
                            lemma_typed_records_shape(bytes@, N as nat);
                            crate::buffer::lemma_count_times_size(
                                self.storage@.size,
                                self.storage@.elem_size,
                            );
                            assert(typed_records(bytes@, N as nat).len()
                                == self.storage@.element_count()) by (nonlinear_arith)
                                requires
                                    typed_records(bytes@, N as nat).len() * N == bytes@.len(),
                                    self.storage@.element_count() * N == bytes@.len(),
                                    N > 0,
                            ;
                        }
                        (Session { readback: Some(pending), records, ..self }, Command::Unmap)
                    },
                    Err(_) => {
                        // The range has the size of the output buffer, which
                        // is a whole number of records.
                        proof {
                            assert(false);
                        }
                        self.finish(Outcome::Failed(Failure::Extraction))
                    },
                }
            },
            _ => self.refuse(),
        }
    }

    fn release(self, pending: PendingReadback, event: Event) -> (next: (Session<N>, Command))
        requires
            self@.stage == Stage::Reading,
            self@.readback == Some(ReadbackState::Extracted),
            pending@ == ReadbackState::Extracted,
        ensures
            (next.0@, next.1) == self@.release(event),
    {
        proof {
            use_type_invariant(&self);
        }
        match event {
            Event::Completed => {
                let mut pending = pending;
                pending.release();
                (
                    Session {
                        stage: Stage::Finished(Outcome::Complete),
                        readback: Some(pending),
                        ..self
                    },
                    Command::Stop,
                )
            },
            _ => self.refuse(),
        }
    }

    /// Takes what the host reports and returns the session after it together
    /// with the command that the host performs next.
    pub fn step(self, event: Event) -> (next: (Session<N>, Command))
        ensures
            (next.0@, next.1) == self@.transition(event),
            self@.inv(),
            next.0@.inv(),
    {
        proof {
            use_type_invariant(&self);
        }
        let next = match self.stage {
            Stage::Created => match event {
                Event::Start => (
                    Session { stage: Stage::AwaitingDevice, ..self },
                    Command::AcquireDevice,
                ),
                _ => self.refuse(),
            },
            Stage::AwaitingDevice => match event {
                Event::Device(Some(info)) => {
                    if self.policy.admits(&info) {
                        (Session { stage: Stage::Provisioning, ..self }, Command::Provision)
                    } else {
                        self.finish(Outcome::NoResult)
                    }
                },
                Event::Device(None) => self.finish(Outcome::NoResult),
                _ => self.refuse(),
            },
            Stage::Provisioning => match event {
                Event::Provisioned => self.submit_next(),
                Event::Rejected => self.finish(Outcome::Failed(Failure::Rejected)),
                _ => self.refuse(),
            },
            Stage::Submitting => match event {
                Event::Completed => self.submit_next(),
                _ => self.refuse(),
            },
            Stage::Reading => match self.readback {
                Some(pending) => match pending.next_step() {
                    HostStep::Poll => self.await_signal(pending, event),
                    HostStep::Read => self.take_bytes(pending, event),
                    HostStep::Unmap => self.release(pending, event),
                    _ => self.refuse(),
                },
                None => self.refuse(),
            },
            Stage::Finished(_) => (self, Command::Stop),
        };
        proof {
            use_type_invariant(&next.0);
        }
        next
    }
}

} // verus!
