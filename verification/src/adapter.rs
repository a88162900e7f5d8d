//! Which adapters a session may run on.

use vstd::prelude::*;

verus! {

/// The vendor identifier of the software rasteriser that sessions refuse by
/// default.
pub const SOFTWARE_RASTERIZER_VENDOR: u64 = 0x10005;

/// What a session reads of an adapter before it decides to run on it.
#[derive(Clone, Copy, Debug, PartialEq, Eq, Structural)]
pub struct AdapterInfo {
    pub vendor: u64,
}

/// A rule that excludes adapters by vendor. An excluded adapter is treated
/// like an absent one: the session ends without a result.
#[derive(Clone, Debug, PartialEq, Eq)]
pub struct AdapterPolicy {
    excluded: Vec<u64>,
}

impl View for AdapterPolicy {
    type V = Seq<u64>;

    closed spec fn view(&self) -> Seq<u64> {
        self.excluded@
    }
}

/// A policy that excludes the vendors in `excluded` admits `info`.
pub open spec fn admits(excluded: Seq<u64>, info: AdapterInfo) -> bool {
    !excluded.contains(info.vendor)
}

impl AdapterPolicy {
    /// The policy that excludes exactly the vendors in `excluded`.
    pub fn excluding(excluded: Vec<u64>) -> (policy: AdapterPolicy)
        ensures
            policy@ == excluded@,
    {
        AdapterPolicy { excluded }
    }

    /// The policy that admits every adapter.
    pub fn permissive() -> (policy: AdapterPolicy)
        ensures
            policy@ == Seq::<u64>::empty(),
    {
        AdapterPolicy { excluded: Vec::new() }
    }

    /// The policy that excludes the known software rasteriser and nothing
    /// else.
    pub fn standard() -> (policy: AdapterPolicy)
        ensures
            policy@ == seq![SOFTWARE_RASTERIZER_VENDOR],
    {
        let mut excluded: Vec<u64> = Vec::new();
        excluded.push(SOFTWARE_RASTERIZER_VENDOR);
        AdapterPolicy { excluded }
    }

    /// Whether a session may run on the adapter that `info` describes.
    pub fn admits(&self, info: &AdapterInfo) -> (admitted: bool)
        ensures
            admitted == admits(self@, *info),
    {
        let mut i: usize = 0;
        while i < self.excluded.len()
            invariant
                i <= self.excluded@.len(),
                forall|k: int| 0 <= k < i ==> self.excluded@[k] != info.vendor,
            decreases self.excluded@.len() - i,
        {
            if self.excluded[i] == info.vendor {
                return false;
            }
            i += 1;
        }
        true
    }
}

} // verus!
