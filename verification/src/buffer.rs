//! Device buffers as the orchestration sees them: a byte size, the size of one
//! element of the typed view that will later read the buffer, a usage role
//! fixed at creation, and the binding slot the buffer is attached to.

use vstd::prelude::*;
use crate::error::ConstructionError;

verus! {

/// What a buffer is used for. The role is chosen when the buffer is created
/// and never changes.
#[derive(Clone, Copy, Debug, PartialEq, Eq, Structural)]
pub enum BufferRole {
    /// Storage that kernels only read.
    StorageReadOnly,
    /// Storage that kernels read and write.
    StorageReadWrite,
    /// Parameters of one pass.
    Uniform,
    /// Host-visible memory that receives a copy of device results.
    StagingReadback,
}

/// What the device must allow on a buffer.
#[derive(Clone, Copy, Debug, PartialEq, Eq, Structural)]
pub struct BufferUsage {
    /// Kernels bind it as storage.
    pub storage: bool,
    /// Kernels bind it as uniform parameters.
    pub uniform: bool,
    /// It is the source of copies.
    pub copy_source: bool,
    /// It is the destination of copies and uploads.
    pub copy_destination: bool,
    /// The host maps it for reading.
    pub map_read: bool,
}

impl BufferRole {
    /// What the device must allow on a buffer of this role.
    pub open spec fn usage_spec(self) -> BufferUsage {
        match self {
            BufferRole::StorageReadOnly => BufferUsage {
                storage: true,
                uniform: false,
                copy_source: false,
                copy_destination: true,
                map_read: false,
            },
            BufferRole::StorageReadWrite => BufferUsage {
                storage: true,
                uniform: false,
                copy_source: true,
                copy_destination: true,
                map_read: false,
            },
            BufferRole::Uniform => BufferUsage {
                storage: false,
                uniform: true,
                copy_source: true,
                copy_destination: true,
                map_read: false,
            },
            BufferRole::StagingReadback => BufferUsage {
                storage: false,
                uniform: false,
                copy_source: false,
                copy_destination: true,
                map_read: true,
            },
        }
    }

    /// What the device must allow on a buffer of this role: only staging
    /// memory is mapped by the host, and only storage that kernels write is
    /// copied out.
    #[verifier::when_used_as_spec(usage_spec)]
    pub fn usage(self) -> (usage: BufferUsage)
        ensures
            usage == self.usage_spec(),
    {
        match self {
            BufferRole::StorageReadOnly => BufferUsage {
                storage: true,
                uniform: false,
                copy_source: false,
                copy_destination: true,
                map_read: false,
            },
            BufferRole::StorageReadWrite => BufferUsage {
                storage: true,
                uniform: false,
                copy_source: true,
                copy_destination: true,
                map_read: false,
            },
            BufferRole::Uniform => BufferUsage {
                storage: false,
                uniform: true,
                copy_source: true,
                copy_destination: true,
                map_read: false,
            },
            BufferRole::StagingReadback => BufferUsage {
                storage: false,
                uniform: false,
                copy_source: false,
                copy_destination: true,
                map_read: true,
            },
        }
    }
}

/// The mathematical content of a [`BufferResource`].
pub struct BufferModel {
    pub size: nat,
    pub elem_size: nat,
    pub role: BufferRole,
    pub slot: Option<u32>,
}

impl BufferModel {
    /// The byte size is a whole number of elements.
    pub open spec fn wf(self) -> bool {
        self.elem_size > 0 && self.size % self.elem_size == 0
    }

    /// How many elements the typed view of the buffer has.
    pub open spec fn element_count(self) -> nat {
        self.size / self.elem_size
    }

    /// The staging buffer that receives a copy of this one: same size, same
    /// element size, attached to no slot.
    pub open spec fn staging_twin(self) -> BufferModel {
        BufferModel {
            size: self.size,
            elem_size: self.elem_size,
            role: BufferRole::StagingReadback,
            slot: None,
        }
    }
}

/// The uniform buffer of one pass: as many bytes as the payload has, attached
/// to `slot`.
pub open spec fn uniform_model(len: nat, slot: u32) -> BufferModel {
    BufferModel { size: len, elem_size: 1, role: BufferRole::Uniform, slot: Some(slot) }
}

/// A fixed-size block of device memory.
#[derive(Clone, Copy, Debug, PartialEq, Eq, Structural)]
pub struct BufferResource {
    size: u64,
    elem_size: u64,
    role: BufferRole,
    slot: Option<u32>,
}

impl View for BufferResource {
    type V = BufferModel;

    closed spec fn view(&self) -> BufferModel {
        BufferModel {
            size: self.size as nat,
            elem_size: self.elem_size as nat,
            role: self.role,
            slot: self.slot,
        }
    }
}

impl BufferResource {
    #[verifier::type_invariant]
    spec fn whole_elements(&self) -> bool {
        self.elem_size > 0 && self.size % self.elem_size == 0
    }

    /// Declares a buffer of `size` bytes whose typed view has elements of
    /// `elem_size` bytes. The size must be a whole number of elements.
    pub fn new(role: BufferRole, size: u64, elem_size: u64) -> (result: Result<
        BufferResource,
        ConstructionError,
    >)
        ensures
            elem_size == 0 ==> result == Err::<BufferResource, _>(
                ConstructionError::ZeroSizedElement,
            ),
            elem_size > 0 && size % elem_size != 0 ==> result == Err::<BufferResource, _>(
                ConstructionError::SizeNotMultiple,
            ),
            elem_size > 0 && size % elem_size == 0 ==> result is Ok && result->Ok_0@ == (
            BufferModel { size: size as nat, elem_size: elem_size as nat, role, slot: None }),
    {
        if elem_size == 0 {
            Err(ConstructionError::ZeroSizedElement)
        } else if size % elem_size != 0 {
            Err(ConstructionError::SizeNotMultiple)
        } else {
            Ok(BufferResource { size, elem_size, role, slot: None })
        }
    }

    /// Declares a buffer that holds exactly `count` elements of `elem_size`
    /// bytes.
    pub fn for_elements(role: BufferRole, count: u64, elem_size: u64) -> (result: Result<
        BufferResource,
        ConstructionError,
    >)
        ensures
            elem_size == 0 ==> result == Err::<BufferResource, _>(
                ConstructionError::ZeroSizedElement,
            ),
            elem_size > 0 && count * elem_size > u64::MAX ==> result == Err::<BufferResource, _>(
                ConstructionError::SizeOverflow,
            ),
            elem_size > 0 && count * elem_size <= u64::MAX ==> result is Ok && result->Ok_0@ == (
            BufferModel {
                size: (count * elem_size) as nat,
                elem_size: elem_size as nat,
                role,
                slot: None,
            }) && result->Ok_0@.element_count() == count,
    {
        if elem_size == 0 {
            return Err(ConstructionError::ZeroSizedElement);
        }
        match count.checked_mul(elem_size) {
            None => Err(ConstructionError::SizeOverflow),
            Some(size) => {
                proof {
                    lemma_whole_elements(count as nat, elem_size as nat);
                }
                Ok(BufferResource { size, elem_size, role, slot: None })
            },
        }
    }

    /// Declares the uniform buffer for a payload of `len` bytes, attached to
    /// `slot`. Each pass gets a buffer of its own.
    pub fn uniform(len: usize, slot: u32) -> (buffer: BufferResource)
        ensures
            buffer@ == uniform_model(len as nat, slot),
    {
        BufferResource {
            size: len as u64,
            elem_size: 1,
            role: BufferRole::Uniform,
            slot: Some(slot),
        }
    }

    /// The byte size.
    pub fn size(&self) -> (size: u64)
        ensures
            size == self@.size,
            self@.wf(),
    {
        proof {
            use_type_invariant(self);
        }
        self.size
    }

    /// The size in bytes of one element of the typed view.
    pub fn elem_size(&self) -> (elem_size: u64)
        ensures
            elem_size == self@.elem_size,
            elem_size > 0,
    {
        proof {
            use_type_invariant(self);
        }
        self.elem_size
    }

    /// The usage role.
    pub fn role(&self) -> (role: BufferRole)
        ensures
            role == self@.role,
    {
        self.role
    }

    /// The slot the buffer is attached to, if any.
    pub fn slot(&self) -> (slot: Option<u32>)
        ensures
            slot == self@.slot,
    {
        self.slot
    }

    /// How many elements the typed view has.
    pub fn element_count(&self) -> (count: u64)
        ensures
            count == self@.element_count(),
            count * self@.elem_size == self@.size,
    {
        proof {
            use_type_invariant(self);
            lemma_count_times_size(self.size as nat, self.elem_size as nat);
        }
        self.size / self.elem_size
    }

    /// Attaches the buffer to `slot`. Size and role stay as they are.
    pub fn attach(&mut self, slot: u32)
        ensures
            final(self)@ == (BufferModel { slot: Some(slot), ..old(self)@ }),
    {
        proof {
            use_type_invariant(&*self);
        }
        self.slot = Some(slot);
    }

    /// Detaches the buffer from its slot.
    pub fn detach(&mut self)
        ensures
            final(self)@ == (BufferModel { slot: None, ..old(self)@ }),
    {
        proof {
            use_type_invariant(&*self);
        }
        self.slot = None;
    }

    /// The staging buffer that a copy of this buffer is read back through.
    pub fn staging_twin(&self) -> (staging: BufferResource)
        ensures
            staging@ == self@.staging_twin(),
    {
        proof {
            use_type_invariant(self);
        }
        BufferResource {
            size: self.size,
            elem_size: self.elem_size,
            role: BufferRole::StagingReadback,
            slot: None,
        }
    }
}

/// `count` elements of `elem_size` bytes fill `count * elem_size` bytes with
/// nothing left over.
pub proof fn lemma_whole_elements(count: nat, elem_size: nat)
    requires
        elem_size > 0,
    ensures
        (count * elem_size) % elem_size == 0,
        (count * elem_size) / elem_size == count,
{
    vstd::arithmetic::div_mod::lemma_mod_multiples_basic(count as int, elem_size as int);
    vstd::arithmetic::div_mod::lemma_div_by_multiple(count as int, elem_size as int);
}

/// A size that is a whole number of elements is the element count times the
/// element size.
pub proof fn lemma_count_times_size(size: nat, elem_size: nat)
    requires
        elem_size > 0,
        size % elem_size == 0,
    ensures
        (size / elem_size) * elem_size == size,
{
    vstd::arithmetic::div_mod::lemma_fundamental_div_mod(size as int, elem_size as int);
    vstd::arithmetic::mul::lemma_mul_is_commutative(elem_size as int, (size / elem_size) as int);
}

} // verus!
