//! Typed views: a byte range read as a sequence of fixed-size records, and
//! records laid out as bytes.

use vstd::prelude::*;

verus! {

/// Why a byte range cannot be read as records of `N` bytes.
#[derive(Clone, Copy, Debug, PartialEq, Eq, Structural)]
pub enum ExtractError {
    /// The record size is zero.
    ZeroSizedElement,
    /// The record size does not divide the length of the range.
    SizeMismatch,
}

/// The bytes of record `index` in a range cut into records of `size` bytes.
pub open spec fn record_at(bytes: Seq<u8>, size: nat, index: int) -> Seq<u8> {
    bytes.subrange(index * size, (index + 1) * size)
}

/// `records` is `bytes` cut into consecutive records of `N` bytes, in order and
/// with nothing left over.
pub open spec fn is_typed_view<const N: usize>(records: Seq<[u8; N]>, bytes: Seq<u8>) -> bool {
    &&& records.len() * N == bytes.len()
    &&& forall|i: int|
        0 <= i < records.len() ==> (#[trigger] records[i])@ == record_at(bytes, N as nat, i)
}

/// `bytes` cut into consecutive records of `size` bytes.
pub open spec fn typed_records(bytes: Seq<u8>, size: nat) -> Seq<Seq<u8>> {
    Seq::new(bytes.len() / size, |i: int| record_at(bytes, size, i))
}

/// The bytes of each record in `records`.
pub open spec fn record_bytes<const N: usize>(records: Seq<[u8; N]>) -> Seq<Seq<u8>> {
    Seq::new(records.len(), |i: int| records[i]@)
}

/// The bytes of `records`, one record after the other.
pub open spec fn packed<const N: usize>(records: Seq<[u8; N]>) -> Seq<u8> {
    Seq::new(records.len() * (N as nat), |k: int| records[k / (N as int)]@[k % (N as int)])
}

/// Calls `bytemuck::cast_slice` from `u8` to `[u8; N]` and copies the result.
/// Both types have alignment 1, so the cast fails only on a length that `N`
/// does not divide or on `N == 0`, which `requires` leaves out; the result
/// reinterprets the same memory, so record `i` holds bytes `i * N` to
/// `(i + 1) * N` of the input.
#[verifier::external_body]
fn cast_records<const N: usize>(bytes: &[u8]) -> (records: Vec<[u8; N]>)
    requires
        N > 0,
        bytes@.len() % (N as nat) == 0,
    ensures
        is_typed_view::<N>(records@, bytes@),
{
    bytemuck::cast_slice::<u8, [u8; N]>(bytes).to_vec()
}

/// Reads a mapped byte range as records of `N` bytes and copies them into
/// host-owned memory.
pub fn extract<const N: usize>(mapped: &[u8]) -> (result: Result<Vec<[u8; N]>, ExtractError>)
    ensures
        match result {
            Ok(records) => {
                &&& N > 0
                &&& mapped@.len() % (N as nat) == 0
                &&& is_typed_view::<N>(records@, mapped@)
                &&& record_bytes::<N>(records@) == typed_records(mapped@, N as nat)
            },
            Err(ExtractError::ZeroSizedElement) => N == 0,
            Err(ExtractError::SizeMismatch) => N > 0 && mapped@.len() % (N as nat) != 0,
        },
{
    if N == 0 {
        Err(ExtractError::ZeroSizedElement)
    } else if mapped.len() % N != 0 {
        Err(ExtractError::SizeMismatch)
    } else {
        let records = cast_records::<N>(mapped);
        proof {
            lemma_typed_view_is_unique::<N>(records@, mapped@);
        }
        Ok(records)
    }
}

/// Lays records out as the bytes of a buffer: the typed input of a session.
pub fn pack<const N: usize>(records: &[[u8; N]]) -> (bytes: Vec<u8>)
    ensures
        bytes@ == packed::<N>(records@),
        bytes@.len() == records@.len() * N,
        N > 0 ==> is_typed_view::<N>(records@, bytes@),
{
    let mut bytes: Vec<u8> = Vec::new();
    let mut i: usize = 0;
    while i < records.len()
        invariant
            i <= records@.len(),
            bytes@.len() == i * N,
            forall|k: int|
                0 <= k < bytes@.len() ==> #[trigger] bytes@[k] == records@[k / (N as int)]@[k % (
                N as int)],
        decreases records@.len() - i,
    {
        let record = &records[i];
        let mut j: usize = 0;
        while j < N
            invariant
                i < records@.len(),
                j <= N,
                *record == records@[i as int],
                bytes@.len() == i * N + j,
                forall|k: int|
                    0 <= k < bytes@.len() ==> #[trigger] bytes@[k] == records@[k / (N as int)]@[k
                        % (N as int)],
            decreases N - j,
        {
            proof {
                vstd::arithmetic::div_mod::lemma_fundamental_div_mod_converse(
                    i * N + j,
                    N as int,
                    i as int,
                    j as int,
                );
            }
            bytes.push(record[j]);
            j += 1;
        }
        i += 1;
        assert(bytes@.len() == i * N) by (nonlinear_arith)
            requires
                bytes@.len() == (i - 1) * N + N,
        ;
    }
    proof {
        assert(bytes@ =~= packed::<N>(records@));
        if N > 0 {
            lemma_packed_is_typed_view::<N>(records@);
        }
    }
    bytes
}

/// Records that were packed are read back unchanged: the packed bytes have
/// the records as their typed view.
pub proof fn lemma_packed_is_typed_view<const N: usize>(records: Seq<[u8; N]>)
    requires
        N > 0,
    ensures
        is_typed_view::<N>(records, packed::<N>(records)),
        record_bytes::<N>(records) == typed_records(packed::<N>(records), N as nat),
{
    let bytes = packed::<N>(records);
    let size = N as int;
    assert forall|i: int| 0 <= i < records.len() implies (#[trigger] records[i])@ == record_at(
        bytes,
        N as nat,
        i,
    ) by {
        assert(0 <= i * size && (i + 1) * size <= records.len() * size) by (nonlinear_arith)
            requires
                0 <= i < records.len(),
                size > 0,
        ;
        assert((i + 1) * size - i * size == size) by (nonlinear_arith);
        assert forall|j: int| 0 <= j < size implies records[i]@[j] == record_at(
            bytes,
            N as nat,
            i,
        )[j] by {
            vstd::arithmetic::div_mod::lemma_fundamental_div_mod_converse(
                i * size + j,
                size,
                i,
                j,
            );
        }
    }
    lemma_typed_view_is_unique::<N>(records, bytes);
}

/// A range has one typed view: the records that cut it in order.
pub proof fn lemma_typed_view_is_unique<const N: usize>(records: Seq<[u8; N]>, bytes: Seq<u8>)
    requires
        N > 0,
        is_typed_view::<N>(records, bytes),
    ensures
        record_bytes::<N>(records) == typed_records(bytes, N as nat),
        records.len() == bytes.len() / (N as nat),
{
    vstd::arithmetic::div_mod::lemma_div_by_multiple(records.len() as int, N as int);
}

/// Every record of a typed view has the record size, and a range that is a
/// whole number of records yields that many.
pub proof fn lemma_typed_records_shape(bytes: Seq<u8>, size: nat)
    requires
        size > 0,
        bytes.len() % size == 0,
    ensures
        typed_records(bytes, size).len() * size == bytes.len(),
        forall|i: int|
            0 <= i < typed_records(bytes, size).len() ==> (#[trigger] typed_records(
                bytes,
                size,
            )[i]).len() == size,
{
    let count = bytes.len() / size;
    vstd::arithmetic::div_mod::lemma_fundamental_div_mod(bytes.len() as int, size as int);
    assert(count * size == bytes.len()) by (nonlinear_arith)
        requires
            size * count == bytes.len(),
    ;
    assert forall|i: int| 0 <= i < count implies (#[trigger] typed_records(bytes, size)[i]).len()
        == size by {
        assert(0 <= i * size && (i + 1) * size <= count * size) by (nonlinear_arith)
            requires
                0 <= i < count,
                size > 0,
        ;
        assert((i + 1) * size - i * size == size) by (nonlinear_arith);
    }
}

} // verus!
