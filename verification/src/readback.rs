//! The handshake that turns the device's mapping-ready notification into
//! something the host can wait for.

use vstd::prelude::*;

verus! {

/// How far one readback has come.
#[derive(Clone, Copy, Debug, PartialEq, Eq, Structural)]
pub enum ReadbackState {
    /// The mapping was requested and the device has not answered.
    Requested,
    /// The device reported the mapping ready.
    Ready,
    /// The host has copied the mapped bytes.
    Extracted,
    /// The staging buffer is unmapped again.
    Released,
    /// The device reported a mapping error.
    Failed,
}

/// What the host does next for a readback.
#[derive(Clone, Copy, Debug, PartialEq, Eq, Structural)]
pub enum HostStep {
    /// Drive the device and look at the signal again.
    Poll,
    /// Read the mapped range.
    Read,
    /// Unmap the staging buffer.
    Unmap,
    /// Nothing: the readback is complete.
    Done,
    /// Nothing: the readback failed and the run is abandoned.
    Abandon,
}

/// The protocol allows a readback to go from `from` to `to` in one step.
pub open spec fn may_follow(from: ReadbackState, to: ReadbackState) -> bool {
    match from {
        ReadbackState::Requested => to == ReadbackState::Ready || to == ReadbackState::Failed,
        ReadbackState::Ready => to == ReadbackState::Extracted,
        ReadbackState::Extracted => to == ReadbackState::Released,
        ReadbackState::Released => false,
        ReadbackState::Failed => false,
    }
}

/// How many steps of the protocol lie behind a state.
pub open spec fn progress(state: ReadbackState) -> nat {
    match state {
        ReadbackState::Requested => 0,
        ReadbackState::Ready => 1,
        ReadbackState::Extracted => 2,
        ReadbackState::Released => 3,
        ReadbackState::Failed => 3,
    }
}

/// What the host does next in `state`.
pub open spec fn step_for(state: ReadbackState) -> HostStep {
    match state {
        ReadbackState::Requested => HostStep::Poll,
        ReadbackState::Ready => HostStep::Read,
        ReadbackState::Extracted => HostStep::Unmap,
        ReadbackState::Released => HostStep::Done,
        ReadbackState::Failed => HostStep::Abandon,
    }
}

/// A single-use handshake for one readback. It is resolved once, observed
/// once and released once; a call that comes out of turn is refused and
/// changes nothing.
#[derive(Clone, Copy, Debug, PartialEq, Eq, Structural)]
pub struct PendingReadback {
    state: ReadbackState,
}

impl View for PendingReadback {
    type V = ReadbackState;

    closed spec fn view(&self) -> ReadbackState {
        self.state
    }
}

impl PendingReadback {
    /// The handshake for a mapping that has just been requested.
    pub fn request() -> (pending: PendingReadback)
        ensures
            pending@ == ReadbackState::Requested,
    {
        PendingReadback { state: ReadbackState::Requested }
    }

    /// The state of the handshake.
    pub fn state(&self) -> (state: ReadbackState)
        ensures
            state == self@,
    {
        self.state
    }

    /// What the host does next.
    pub fn next_step(&self) -> (step: HostStep)
        ensures
            step == step_for(self@),
    {
        match self.state {
            ReadbackState::Requested => HostStep::Poll,
            ReadbackState::Ready => HostStep::Read,
            ReadbackState::Extracted => HostStep::Unmap,
            ReadbackState::Released => HostStep::Done,
            ReadbackState::Failed => HostStep::Abandon,
        }
    }

    /// Takes the device's answer to the mapping request: ready if `mapped`,
    /// failed if not. Only a handshake that is still waiting accepts it.
    pub fn resolve(&mut self, mapped: bool) -> (accepted: bool)
        ensures
            accepted == (old(self)@ == ReadbackState::Requested),
            accepted && mapped ==> final(self)@ == ReadbackState::Ready,
            accepted && !mapped ==> final(self)@ == ReadbackState::Failed,
            !accepted ==> final(self)@ == old(self)@,
            accepted ==> may_follow(old(self)@, final(self)@),
    {
        match self.state {
            ReadbackState::Requested => {
                self.state = if mapped {
                    ReadbackState::Ready
                } else {
                    ReadbackState::Failed
                };
                true
            },
            _ => false,
        }
    }

    /// Records that the host has copied the mapped bytes. Only a ready
    /// handshake accepts it.
    pub fn observe(&mut self) -> (accepted: bool)
        ensures
            accepted == (old(self)@ == ReadbackState::Ready),
            accepted ==> final(self)@ == ReadbackState::Extracted,
            !accepted ==> final(self)@ == old(self)@,
            accepted ==> may_follow(old(self)@, final(self)@),
    {
        match self.state {
            ReadbackState::Ready => {
                self.state = ReadbackState::Extracted;
                true
            },
            _ => false,
        }
    }

    /// Records that the staging buffer is unmapped. Only a handshake whose
    /// bytes have been copied accepts it.
    pub fn release(&mut self) -> (accepted: bool)
        ensures
            accepted == (old(self)@ == ReadbackState::Extracted),
            accepted ==> final(self)@ == ReadbackState::Released,
            !accepted ==> final(self)@ == old(self)@,
            accepted ==> may_follow(old(self)@, final(self)@),
    {
        match self.state {
            ReadbackState::Extracted => {
                self.state = ReadbackState::Released;
                true
            },
            _ => false,
        }
    }
}

/// Every step of the protocol moves forward: a handshake never returns to a
/// state it has left, so it cannot be used for a second readback.
pub proof fn lemma_protocol_moves_forward(from: ReadbackState, to: ReadbackState)
    requires
        may_follow(from, to),
    ensures
        progress(from) < progress(to),
        to != ReadbackState::Requested,
{
}

/// The bytes are read only from a ready mapping and the buffer is unmapped
/// only after they were copied.
pub proof fn lemma_host_steps(state: ReadbackState)
    ensures
        step_for(state) == HostStep::Read <==> state == ReadbackState::Ready,
        step_for(state) == HostStep::Unmap <==> state == ReadbackState::Extracted,
        step_for(state) == HostStep::Poll <==> state == ReadbackState::Requested,
{
}

} // verus!
