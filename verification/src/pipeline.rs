//! The binding layout of a compute pipeline: which buffer role attaches to
//! which slot, and whether a set of buffers satisfies it.

use vstd::prelude::*;
use crate::buffer::{BufferModel, BufferResource, BufferRole};
use crate::error::ConstructionError;

verus! {

/// One binding slot of a kernel and the role of the buffer it expects. Every
/// slot is visible to the compute stage.
#[derive(Clone, Copy, Debug, PartialEq, Eq, Structural)]
pub struct LayoutEntry {
    pub slot: u32,
    pub role: BufferRole,
}

/// A role that a binding slot can declare. Staging memory is never attached to
/// a kernel.
pub open spec fn bindable(role: BufferRole) -> bool {
    role != BufferRole::StagingReadback
}

/// Every entry declares a role that can be attached.
pub open spec fn all_bindable(entries: Seq<LayoutEntry>) -> bool {
    forall|i: int| 0 <= i < entries.len() ==> bindable(#[trigger] entries[i].role)
}

/// No two entries declare the same slot.
pub open spec fn distinct_slots(entries: Seq<LayoutEntry>) -> bool {
    forall|i: int, j: int|
        0 <= i < j < entries.len() ==> (#[trigger] entries[i]).slot != (#[trigger] entries[j]).slot
}

/// `buffer` is attached to the slot of `entry` and has the role it declares.
pub open spec fn attaches(buffer: BufferModel, entry: LayoutEntry) -> bool {
    buffer.slot == Some(entry.slot) && buffer.role == entry.role
}

/// The contents of `buffers`, one by one.
pub open spec fn models(buffers: Seq<BufferResource>) -> Seq<BufferModel> {
    Seq::new(buffers.len(), |i: int| buffers[i]@)
}

/// Some buffer among `buffers` is attached to `entry`.
pub open spec fn covered(buffers: Seq<BufferModel>, entry: LayoutEntry) -> bool {
    exists|j: int| 0 <= j < buffers.len() && attaches(#[trigger] buffers[j], entry)
}

/// `buffers` holds one buffer for every entry and no others.
pub open spec fn satisfies(buffers: Seq<BufferModel>, entries: Seq<LayoutEntry>) -> bool {
    &&& buffers.len() == entries.len()
    &&& forall|i: int| 0 <= i < entries.len() ==> covered(buffers, #[trigger] entries[i])
}

/// The mathematical content of a [`PipelineBinding`].
pub struct PipelineModel {
    pub entries: Seq<LayoutEntry>,
    pub entry_point: Seq<char>,
}

/// A compiled kernel's entry point together with its binding layout.
pub struct PipelineBinding {
    entries: Vec<LayoutEntry>,
    entry_point: String,
}

impl View for PipelineBinding {
    type V = PipelineModel;

    closed spec fn view(&self) -> PipelineModel {
        PipelineModel { entries: self.entries@, entry_point: self.entry_point@ }
    }
}

impl PipelineBinding {
    #[verifier::type_invariant]
    spec fn well_declared(&self) -> bool {
        all_bindable(self.entries@) && distinct_slots(self.entries@)
    }

    /// Declares a pipeline. The layout must name only attachable roles and no
    /// slot twice; an unattachable role is reported before a repeated slot.
    pub fn new(entries: Vec<LayoutEntry>, entry_point: String) -> (result: Result<
        PipelineBinding,
        ConstructionError,
    >)
        ensures
            match result {
                Ok(pipeline) => {
                    &&& pipeline@.entries == entries@
                    &&& pipeline@.entry_point == entry_point@
                    &&& all_bindable(entries@)
                    &&& distinct_slots(entries@)
                },
                Err(e) => {
                    ||| e == ConstructionError::UnbindableRole && !all_bindable(entries@)
                    ||| e == ConstructionError::DuplicateSlot && all_bindable(entries@)
                        && !distinct_slots(entries@)
                },
            },
    {
        let n = entries.len();
        let mut i: usize = 0;
        while i < n
            invariant
                n == entries@.len(),
                i <= n,
                forall|k: int| 0 <= k < i ==> bindable(#[trigger] entries@[k].role),
            decreases n - i,
        {
            if entries[i].role == BufferRole::StagingReadback {
                return Err(ConstructionError::UnbindableRole);
            }
            i += 1;
        }
        let mut j: usize = 0;
        while j < n
            invariant
                n == entries@.len(),
                j <= n,
                all_bindable(entries@),
                forall|a: int, b: int|
                    0 <= a < b < j ==> (#[trigger] entries@[a]).slot != (
                    #[trigger] entries@[b]).slot,
            decreases n - j,
        {
            let mut k: usize = 0;
            while k < j
                invariant
                    n == entries@.len(),
                    k <= j < n,
                    all_bindable(entries@),
                    forall|a: int|
                        0 <= a < k ==> (#[trigger] entries@[a]).slot != entries@[j as int].slot,
                decreases j - k,
            {
                if entries[k].slot == entries[j].slot {
                    return Err(ConstructionError::DuplicateSlot);
                }
                k += 1;
            }
            j += 1;
        }
        Ok(PipelineBinding { entries, entry_point })
    }

    /// The number of binding slots.
    pub fn slot_count(&self) -> (count: usize)
        ensures
            count == self@.entries.len(),
    {
        self.entries.len()
    }

    /// The entry at `index` of the layout, in declaration order.
    pub fn entry(&self, index: usize) -> (entry: Option<LayoutEntry>)
        ensures
            index < self@.entries.len() ==> entry == Some(self@.entries[index as int]) && bindable(
                self@.entries[index as int].role,
            ),
            index >= self@.entries.len() ==> entry is None,
    {
        proof {
            use_type_invariant(self);
        }
        if index < self.entries.len() {
            Some(self.entries[index])
        } else {
            None
        }
    }

    /// The name of the kernel's entry point.
    pub fn entry_point(&self) -> (name: &str)
        ensures
            name@ == self@.entry_point,
    {
        self.entry_point.as_str()
    }

    /// Builds the binding group for one dispatch. It succeeds exactly when
    /// `buffers` satisfies the layout; the group then names, for every entry
    /// of the layout in order, the position in `buffers` of the first buffer
    /// that is attached to it.
    pub fn bind_group(&self, buffers: &[BufferResource]) -> (result: Result<
        Vec<usize>,
        ConstructionError,
    >)
        ensures
            match result {
                Ok(group) => {
                    &&& satisfies(models(buffers@), self@.entries)
                    &&& group@.len() == self@.entries.len()
                    &&& forall|i: int|
                        0 <= i < group@.len() ==> 0 <= #[trigger] group@[i] < buffers@.len()
                            && attaches(buffers@[group@[i] as int]@, self@.entries[i])
                    &&& forall|i: int, k: int|
                        0 <= i < group@.len() && 0 <= k < group@[i] ==> !attaches(
                            #[trigger] buffers@[k]@,
                            #[trigger] self@.entries[i],
                        )
                },
                Err(e) => e == ConstructionError::LayoutMismatch && !satisfies(
                    models(buffers@),
                    self@.entries,
                ),
            },
    {
        let n = self.entries.len();
        if buffers.len() != n {
            return Err(ConstructionError::LayoutMismatch);
        }
        let mut group: Vec<usize> = Vec::new();
        let mut i: usize = 0;
        while i < n
            invariant
                n == self.entries@.len(),
                n == buffers@.len(),
                i <= n,
                group@.len() == i,
                forall|k: int|
                    0 <= k < i ==> covered(models(buffers@), #[trigger] self.entries@[k]),
                forall|k: int|
                    0 <= k < i ==> 0 <= #[trigger] group@[k] < buffers@.len() && attaches(
                        buffers@[group@[k] as int]@,
                        self.entries@[k],
                    ),
                forall|a: int, k: int|
                    0 <= a < i && 0 <= k < group@[a] ==> !attaches(
                        #[trigger] buffers@[k]@,
                        #[trigger] self.entries@[a],
                    ),
            decreases n - i,
        {
            let entry = self.entries[i];
            match find_attached(buffers, entry) {
                None => {
                    return Err(ConstructionError::LayoutMismatch);
                },
                Some(j) => {
                    assert(attaches(models(buffers@)[j as int], entry));
                    group.push(j);
                },
            }
            i += 1;
        }
        Ok(group)
    }
}

/// The position of the first buffer among `buffers` that is attached to
/// `entry`, if there is one.
pub fn find_attached(buffers: &[BufferResource], entry: LayoutEntry) -> (found: Option<usize>)
    ensures
        match found {
            Some(j) => {
                &&& j < buffers@.len()
                &&& attaches(buffers@[j as int]@, entry)
                &&& forall|k: int| 0 <= k < j ==> !attaches(#[trigger] buffers@[k]@, entry)
            },
            None => !covered(models(buffers@), entry),
        },
{
    let mut j: usize = 0;
    while j < buffers.len()
        invariant
            j <= buffers@.len(),
            forall|k: int| 0 <= k < j ==> !attaches(#[trigger] buffers@[k]@, entry),
        decreases buffers@.len() - j,
    {
        let buffer = &buffers[j];
        let attached = match buffer.slot() {
            Some(slot) => slot == entry.slot,
            None => false,
        };
        if attached && buffer.role() == entry.role {
            return Some(j);
        }
        j += 1;
    }
    None
}

} // verus!
