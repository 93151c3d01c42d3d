//! Attestation: assemble, sign and deliver the report.
//!
//! The report binds the device identity, the monitor identity and the
//! enclave's measurement to a caller-supplied payload. The signature
//! covers exactly
//! `ENCLAVE_REPORT_BYTES - SIGNATURE_SIZE - (ATTEST_DATA_MAXLEN - size)`
//! leading bytes of the serialized enclave report: the payload actually
//! supplied, never the unused tail of the payload buffer and never the
//! signature field itself. That byte count is a wire-format contract;
//! [`signed_prefix_len`] is its one definition here.
//!
//! Signing itself is the monitor's oracle over a byte slice. The model
//! signer [`sm_sign`] is deterministic in the signed bytes alone
//! ([`sig_of`]), which makes the coverage laws provable: bytes outside
//! the signed range cannot influence the signature
//! ([`lemma_sig_covers_prefix_only`]), and flipping any single byte
//! inside it changes the signature ([`lemma_sig_sensitive`]).

use vstd::prelude::*;

use crate::codes::ATTEST_DATA_MAXLEN;
use crate::codes::ENCLAVE_MAX;
use crate::codes::ENCLAVE_REPORT_BYTES;
use crate::codes::EnclaveRetCode;
use crate::codes::MDSIZE;
use crate::codes::REPORT_BYTES;
use crate::codes::SIGNATURE_SIZE;
use crate::codes::lvl_of;
use crate::codes::state_lvl;
use crate::copy::copy_from_enclave;
use crate::copy::copy_to_enclave;
use crate::lifecycle::le_byte;
use crate::memory::Memory;
use crate::memory::bytes_written;
use crate::memory::word_byte;
use crate::monitor::Monitor;

verus! {

/// `n` zero bytes.
pub open spec fn zero_seq(n: int) -> Seq<u8> {
    Seq::new(n as nat, |i: int| 0u8)
}

/// The little-endian encoding of `v`.
pub open spec fn le64(v: u64) -> Seq<u8> {
    Seq::new(8, |i: int| word_byte(v, i))
}

/// Sum of the bytes of `s`.
pub open spec fn byte_sum(s: Seq<u8>) -> int
    decreases s.len(),
{
    if s.len() == 0 {
        0
    } else {
        byte_sum(s.drop_last()) + s.last()
    }
}

/// The byte sum is bounded by 255 per byte.
pub proof fn lemma_byte_sum_bounds(s: Seq<u8>)
    ensures
        0 <= byte_sum(s) <= 255 * s.len(),
    decreases s.len(),
{
    if s.len() > 0 {
        lemma_byte_sum_bounds(s.drop_last());
    }
}

/// Messages of one length that differ in exactly the byte at `k` have
/// byte sums that differ by exactly that byte's difference.
pub proof fn lemma_byte_sum_diff(s1: Seq<u8>, s2: Seq<u8>, k: int)
    requires
        s1.len() == s2.len(),
        0 <= k < s1.len(),
        forall|i: int| 0 <= i < s1.len() && i != k ==> s1[i] == s2[i],
    ensures
        byte_sum(s1) - byte_sum(s2) == s1[k] - s2[k],
    decreases s1.len(),
{
    if k == s1.len() - 1 {
        assert(s1.drop_last() =~= s2.drop_last());
    } else {
        lemma_byte_sum_diff(s1.drop_last(), s2.drop_last(), k);
    }
}

/// What the model signing oracle computes over a message: the byte sum
/// plus the length, folded into a word.
pub open spec fn sum64(s: Seq<u8>) -> u64 {
    ((byte_sum(s) + s.len()) % 0x10000000000000000) as u64
}

/// The model signature over a message: the little-endian digest word,
/// zero-padded to signature size. It is a function of the signed bytes
/// alone.
pub open spec fn sig_of(msg: Seq<u8>) -> Seq<u8> {
    Seq::new(
        SIGNATURE_SIZE as nat,
        |i: int|
            if i < 8 {
                word_byte(sum64(msg), i)
            } else {
                0u8
            },
    )
}

/// Only the signed prefix reaches the signature: two serialized reports
/// that agree on their first `n` bytes -- however they differ at or
/// beyond index `n` -- are signed alike when the prefix of `n` bytes is
/// what is signed.
pub proof fn lemma_sig_covers_prefix_only(u1: Seq<u8>, u2: Seq<u8>, n: int)
    requires
        0 <= n <= u1.len(),
        u1.len() == u2.len(),
        forall|i: int| 0 <= i < n ==> u1[i] == u2[i],
    ensures
        sig_of(u1.take(n)) == sig_of(u2.take(n)),
{
    assert(u1.take(n) =~= u2.take(n));
}

/// Flipping exactly one byte of the signed message changes the
/// signature. (The model bound: the message is shorter than 2^32 bytes,
/// which every report satisfies.)
pub proof fn lemma_sig_sensitive(s1: Seq<u8>, s2: Seq<u8>, k: int)
    requires
        s1.len() == s2.len(),
        s1.len() <= 0xffffffff,
        0 <= k < s1.len(),
        s1[k] != s2[k],
        forall|i: int| 0 <= i < s1.len() && i != k ==> s1[i] == s2[i],
    ensures
        sig_of(s1) != sig_of(s2),
{
    lemma_byte_sum_diff(s1, s2, k);
    lemma_byte_sum_bounds(s1);
    lemma_byte_sum_bounds(s2);
    let v1 = sum64(s1);
    let v2 = sum64(s2);
    assert(v1 != v2);
    assert((((v1 >> 0u64) & 0xff) as u8 != ((v2 >> 0u64) & 0xff) as u8) || (((v1 >> 8u64) & 0xff)
        as u8 != ((v2 >> 8u64) & 0xff) as u8) || (((v1 >> 16u64) & 0xff) as u8 != ((v2 >> 16u64)
        & 0xff) as u8) || (((v1 >> 24u64) & 0xff) as u8 != ((v2 >> 24u64) & 0xff) as u8) || (((v1
        >> 32u64) & 0xff) as u8 != ((v2 >> 32u64) & 0xff) as u8) || (((v1 >> 40u64) & 0xff) as u8
        != ((v2 >> 40u64) & 0xff) as u8) || (((v1 >> 48u64) & 0xff) as u8 != ((v2 >> 48u64) & 0xff)
        as u8) || (((v1 >> 56u64) & 0xff) as u8 != ((v2 >> 56u64) & 0xff) as u8) || v1 == v2)
        by (bit_vector);
    assert(word_byte(v1, 0) == ((v1 >> 0u64) & 0xff) as u8);
    assert(word_byte(v1, 1) == ((v1 >> 8u64) & 0xff) as u8);
    assert(word_byte(v1, 2) == ((v1 >> 16u64) & 0xff) as u8);
    assert(word_byte(v1, 3) == ((v1 >> 24u64) & 0xff) as u8);
    assert(word_byte(v1, 4) == ((v1 >> 32u64) & 0xff) as u8);
    assert(word_byte(v1, 5) == ((v1 >> 40u64) & 0xff) as u8);
    assert(word_byte(v1, 6) == ((v1 >> 48u64) & 0xff) as u8);
    assert(word_byte(v1, 7) == ((v1 >> 56u64) & 0xff) as u8);
    assert(word_byte(v2, 0) == ((v2 >> 0u64) & 0xff) as u8);
    assert(word_byte(v2, 1) == ((v2 >> 8u64) & 0xff) as u8);
    assert(word_byte(v2, 2) == ((v2 >> 16u64) & 0xff) as u8);
    assert(word_byte(v2, 3) == ((v2 >> 24u64) & 0xff) as u8);
    assert(word_byte(v2, 4) == ((v2 >> 32u64) & 0xff) as u8);
    assert(word_byte(v2, 5) == ((v2 >> 40u64) & 0xff) as u8);
    assert(word_byte(v2, 6) == ((v2 >> 48u64) & 0xff) as u8);
    assert(word_byte(v2, 7) == ((v2 >> 56u64) & 0xff) as u8);
    assert(exists|j: int| 0 <= j < 8 && word_byte(v1, j) != word_byte(v2, j));
    let j = choose|j: int| 0 <= j < 8 && word_byte(v1, j) != word_byte(v2, j);
    assert(sig_of(s1)[j] != sig_of(s2)[j]);
}

/// Compute the digest word of the model signature.
fn compute_sum64(msg: &Vec<u8>) -> (r: u64)
    requires
        msg@.len() <= 0xffffffff,
    ensures
        r == sum64(msg@),
{
    let mut sum: u64 = 0;
    let mut i: usize = 0;
    while i < msg.len()
        invariant
            i <= msg@.len(),
            msg@.len() <= 0xffffffff,
            sum == byte_sum(msg@.take(i as int)),
            sum <= 255 * i,
        decreases msg@.len() - i,
    {
        proof {
            assert(msg@.take(i + 1).drop_last() =~= msg@.take(i as int));
            assert(msg@.take(i + 1).last() == msg@[i as int]);
        }
        sum = sum + msg[i] as u64;
        i += 1;
    }
    proof {
        assert(msg@.take(msg@.len() as int) =~= msg@);
        lemma_byte_sum_bounds(msg@);
    }
    sum + msg.len() as u64
}

/// The monitor's signing oracle over a byte slice, as a deterministic
/// model: the signature is [`sig_of`] the message.
pub fn sm_sign(msg: &Vec<u8>) -> (r: Vec<u8>)
    requires
        msg@.len() <= 0xffffffff,
    ensures
        r@ == sig_of(msg@),
        r@.len() == SIGNATURE_SIZE,
{
    let digest = compute_sum64(msg);
    let mut r: Vec<u8> = Vec::new();
    let mut i: usize = 0;
    while i < 8
        invariant
            i <= 8,
            r@.len() == i,
            forall|j: int| 0 <= j < i ==> r@[j] == word_byte(digest, j),
        decreases 8 - i,
    {
        let b = le_byte(digest, i);
        r.push(b);
        i += 1;
    }
    while i < SIGNATURE_SIZE
        invariant
            8 <= i <= SIGNATURE_SIZE,
            r@.len() == i,
            forall|j: int| 0 <= j < 8 ==> r@[j] == word_byte(digest, j),
            forall|j: int| 8 <= j < i ==> r@[j] == 0u8,
        decreases SIGNATURE_SIZE - i,
    {
        r.push(0u8);
        i += 1;
    }
    proof {
        assert(r@ =~= sig_of(msg@));
    }
    r
}

/// Append `src` to `dst`.
fn append_vec(dst: &mut Vec<u8>, src: &Vec<u8>)
    ensures
        final(dst)@ == old(dst)@ + src@,
{
    let mut i: usize = 0;
    while i < src.len()
        invariant
            i <= src@.len(),
            dst@ == old(dst)@ + src@.take(i as int),
        decreases src@.len() - i,
    {
        proof {
            assert((old(dst)@ + src@.take(i as int)).push(src@[i as int]) =~= old(dst)@
                + src@.take(i + 1));
        }
        dst.push(src[i]);
        i += 1;
    }
    proof {
        assert(old(dst)@ + src@.take(src@.len() as int) =~= old(dst)@ + src@);
    }
}

/// Append `n` zero bytes to `dst`.
fn append_zeros(dst: &mut Vec<u8>, n: usize)
    ensures
        final(dst)@ == old(dst)@ + zero_seq(n as int),
{
    let mut i: usize = 0;
    while i < n
        invariant
            i <= n,
            dst@ == old(dst)@ + zero_seq(i as int),
        decreases n - i,
    {
        proof {
            assert((old(dst)@ + zero_seq(i as int)).push(0u8) =~= old(dst)@ + zero_seq(i + 1));
        }
        dst.push(0u8);
        i += 1;
    }
}

/// Append the little-endian encoding of `v` to `dst`.
fn append_le64(dst: &mut Vec<u8>, v: u64)
    ensures
        final(dst)@ == old(dst)@ + le64(v),
{
    let mut i: usize = 0;
    while i < 8
        invariant
            i <= 8,
            dst@.len() == old(dst)@.len() + i,
            dst@ == old(dst)@ + le64(v).take(i as int),
        decreases 8 - i,
    {
        let b = le_byte(v, i);
        proof {
            assert((old(dst)@ + le64(v).take(i as int)).push(word_byte(v, i as int)) =~= old(dst)@
                + le64(v).take(i + 1));
        }
        dst.push(b);
        i += 1;
    }
    proof {
        assert(old(dst)@ + le64(v).take(8) =~= old(dst)@ + le64(v));
    }
}

/// The first `n` bytes of `src`.
fn prefix_of(src: &Vec<u8>, n: usize) -> (r: Vec<u8>)
    requires
        n <= src@.len(),
    ensures
        r@ == src@.take(n as int),
{
    let mut r: Vec<u8> = Vec::new();
    let mut i: usize = 0;
    while i < n
        invariant
            i <= n,
            n <= src@.len(),
            r@.len() == i,
            forall|j: int| 0 <= j < i ==> r@[j] == src@[j],
        decreases n - i,
    {
        r.push(src[i]);
        i += 1;
    }
    proof {
        assert(r@ =~= src@.take(n as int));
    }
    r
}

/// The serialized enclave report without its signature: the payload
/// zero-padded to the full buffer, the payload length word, and the
/// enclave's measurement.
pub open spec fn unsigned_report_bytes(data: Seq<u8>, size: int, encl_hash: Seq<u8>) -> Seq<u8> {
    Seq::new(
        ATTEST_DATA_MAXLEN as nat,
        |i: int|
            if i < data.len() {
                data[i]
            } else {
                0u8
            },
    ) + le64(size as u64) + encl_hash
}

/// How many leading bytes of the serialized enclave report the signature
/// covers: everything up to the signature field, less the unused tail of
/// the payload buffer.
pub open spec fn signed_prefix_len(size: int) -> int {
    ENCLAVE_REPORT_BYTES - SIGNATURE_SIZE - (ATTEST_DATA_MAXLEN - size)
}

/// The full serialized report for enclave `eid` carrying payload `data`:
/// device public key, enclave report (payload, length, measurement,
/// signature over exactly the signed prefix), then the monitor's own
/// hash, public key and signature.
pub open spec fn report_bytes(m: Monitor, eid: int, data: Seq<u8>, size: int) -> Seq<u8> {
    let unsigned = unsigned_report_bytes(data, size, m.enclaves@[eid].hash@);
    let sig = sig_of(unsigned.take(signed_prefix_len(size)));
    m.dev_public_key@ + unsigned + sig + m.sm_hash@ + m.sm_public_key@ + m.sm_signature@
}

/// `attest` is permitted: the slot holds an enclave that is at least
/// `Initialized`.
pub open spec fn attestable(m: Monitor, eid: int) -> bool {
    0 <= eid < ENCLAVE_MAX && state_lvl(m.enclaves@[eid].state) >= 2
}

/// Assemble, sign and deliver the attestation report for enclave `eid`.
///
/// `data` (the payload source) and `report_ptr` (the report destination)
/// are enclave-side pointers: both copies are bounded to the enclave's
/// own regions and fail with `IllegalArgument` when out of bounds, in
/// which case memory is untouched -- in particular, no partial or
/// unsigned report ever reaches `report_ptr`.
pub fn attest_enclave(
    m: &Monitor,
    mem: &mut Memory,
    report_ptr: usize,
    data: usize,
    size: usize,
    eid: usize,
) -> (r: EnclaveRetCode)
    requires
        m.wf(),
        old(mem).wf(),
    ensures
        final(mem).wf(),
        final(mem).base == old(mem).base,
        size > ATTEST_DATA_MAXLEN ==> r == EnclaveRetCode::IllegalArgument && final(mem).bytes@
            == old(mem).bytes@,
        size <= ATTEST_DATA_MAXLEN && !attestable(*m, eid as int) ==> r
            == EnclaveRetCode::NotInitialized && final(mem).bytes@ == old(mem).bytes@,
        size <= ATTEST_DATA_MAXLEN && attestable(*m, eid as int) && !(m.within_enclave_region(
            eid as int,
            data as int,
            size as int,
        ) && old(mem).in_range(data as int, size as int)) ==> r == EnclaveRetCode::IllegalArgument
            && final(mem).bytes@ == old(mem).bytes@,
        size <= ATTEST_DATA_MAXLEN && attestable(*m, eid as int) && (m.within_enclave_region(
            eid as int,
            data as int,
            size as int,
        ) && old(mem).in_range(data as int, size as int)) && !(m.within_enclave_region(
            eid as int,
            report_ptr as int,
            REPORT_BYTES as int,
        ) && old(mem).in_range(report_ptr as int, REPORT_BYTES as int)) ==> r
            == EnclaveRetCode::IllegalArgument && final(mem).bytes@ == old(mem).bytes@,
        size <= ATTEST_DATA_MAXLEN && attestable(*m, eid as int) && (m.within_enclave_region(
            eid as int,
            data as int,
            size as int,
        ) && old(mem).in_range(data as int, size as int)) && (m.within_enclave_region(
            eid as int,
            report_ptr as int,
            REPORT_BYTES as int,
        ) && old(mem).in_range(report_ptr as int, REPORT_BYTES as int)) ==> r
            == EnclaveRetCode::Success && final(mem).bytes@ == bytes_written(
            old(mem).bytes@,
            report_ptr - old(mem).base,
            report_bytes(
                *m,
                eid as int,
                old(mem).bytes@.subrange(data - old(mem).base, data - old(mem).base + size),
                size as int,
            ),
        ),
{
    if size > ATTEST_DATA_MAXLEN {
        return EnclaveRetCode::IllegalArgument;
    }
    let att = eid < ENCLAVE_MAX && lvl_of(m.enclaves[eid].state) >= 2;
    if !att {
        return EnclaveRetCode::NotInitialized;
    }
    // Copy the payload to be signed out of the enclave.
    let data_bytes = match copy_from_enclave(m, mem, eid, data, size) {
        Ok(v) => v,
        Err(c) => {
            return c;
        },
    };
    // Serialize the enclave report up to the signature field.
    let mut unsigned: Vec<u8> = Vec::new();
    append_vec(&mut unsigned, &data_bytes);
    append_zeros(&mut unsigned, ATTEST_DATA_MAXLEN - size);
    append_le64(&mut unsigned, size as u64);
    append_vec(&mut unsigned, &m.enclaves[eid].hash);
    proof {
        assert(crate::monitor::enclave_wf(m.enclaves@[eid as int]));
        assert(unsigned@ =~= unsigned_report_bytes(
            data_bytes@,
            size as int,
            m.enclaves@[eid as int].hash@,
        ));
    }
    // Sign exactly the leading bytes up to the signature field, less the
    // unused tail of the payload buffer.
    let signed_len = ENCLAVE_REPORT_BYTES - SIGNATURE_SIZE - (ATTEST_DATA_MAXLEN - size);
    let msg = prefix_of(&unsigned, signed_len);
    let sig = sm_sign(&msg);
    // Assemble the full report around it.
    let mut report: Vec<u8> = Vec::new();
    append_vec(&mut report, &m.dev_public_key);
    append_vec(&mut report, &unsigned);
    append_vec(&mut report, &sig);
    append_vec(&mut report, &m.sm_hash);
    append_vec(&mut report, &m.sm_public_key);
    append_vec(&mut report, &m.sm_signature);
    proof {
        assert(report@ =~= report_bytes(*m, eid as int, data_bytes@, size as int));
        assert(report@.len() == REPORT_BYTES);
    }
    // Deliver the report into the enclave.
    let rc = copy_to_enclave(m, mem, eid, report_ptr, &report);
    if !matches!(rc, EnclaveRetCode::Success) {
        return rc;
    }
    EnclaveRetCode::Success
}

} // verus!
