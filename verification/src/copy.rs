//! Cross-domain copies, each guarded by a PMP overlap check.
//!
//! Host-facing copies refuse any host pointer that intersects a live PMP
//! reservation; enclave-facing copies bound the enclave-side pointer to
//! the target enclave's own regions. In the running system the check and
//! the memory access happen atomically under the global lock; here the
//! `&mut` borrows give the pair the same atomicity. Every function
//! requires the touched range to lie inside the modelled stretch of
//! physical memory.

use vstd::prelude::*;

use crate::codes::ENCLAVE_MAX;
use crate::codes::ENCLAVE_REGIONS_MAX;
use crate::codes::EnclaveRetCode;
use crate::codes::WORD_SIZE;
use crate::memory::Memory;
use crate::memory::bytes_with_word;
use crate::memory::bytes_written;
use crate::monitor::Monitor;
use crate::monitor::enclave_wf;
use crate::monitor::valid_region;

verus! {

/// Write one machine word to a host address, refusing a destination that
/// overlaps any PMP-protected region. The destination is untouched on
/// refusal.
pub fn copy_word_to_host(m: &Monitor, mem: &mut Memory, dest_ptr: usize, value: usize) -> (r:
    EnclaveRetCode)
    requires
        m.wf(),
        old(mem).wf(),
        old(mem).in_range(dest_ptr as int, WORD_SIZE as int),
    ensures
        final(mem).wf(),
        final(mem).base == old(mem).base,
        m.pmp.slot_overlaps(dest_ptr as int, WORD_SIZE as int) ==> r
            == EnclaveRetCode::RegionOverlaps && final(mem).bytes@ == old(mem).bytes@,
        !m.pmp.slot_overlaps(dest_ptr as int, WORD_SIZE as int) ==> r == EnclaveRetCode::Success
            && final(mem).bytes@ == bytes_with_word(
            old(mem).bytes@,
            dest_ptr - old(mem).base,
            value as u64,
        ),
{
    let region_overlap = m.pmp.detect_overlap(dest_ptr, WORD_SIZE);
    if region_overlap {
        EnclaveRetCode::RegionOverlaps
    } else {
        mem.write_word(dest_ptr, value as u64);
        EnclaveRetCode::Success
    }
}

/// Copy `size` bytes from an untrusted host address into the monitor's
/// own buffer `dest`, refusing a source that overlaps any PMP-protected
/// region. `dest` is untouched on refusal.
pub fn copy_from_host(m: &Monitor, mem: &Memory, source: usize, dest: &mut Vec<u8>, size: usize)
    -> (r: EnclaveRetCode)
    requires
        m.wf(),
        mem.wf(),
        mem.in_range(source as int, size as int),
    ensures
        m.pmp.slot_overlaps(source as int, size as int) ==> r == EnclaveRetCode::RegionOverlaps
            && final(dest)@ == old(dest)@,
        !m.pmp.slot_overlaps(source as int, size as int) ==> r == EnclaveRetCode::Success
            && final(dest)@ == mem.bytes@.subrange(source - mem.base, source - mem.base + size),
{
    let region_overlap = m.pmp.detect_overlap(source, size);
    if region_overlap {
        EnclaveRetCode::RegionOverlaps
    } else {
        let copied = mem.read_bytes(source, size);
        *dest = copied;
        EnclaveRetCode::Success
    }
}

/// Whether `[addr, addr + size)` lies inside one installed region of
/// enclave `eid`.
pub fn check_within_enclave(m: &Monitor, eid: usize, addr: usize, size: usize) -> (r: bool)
    requires
        m.wf(),
        eid < ENCLAVE_MAX,
    ensures
        r == m.within_enclave_region(eid as int, addr as int, size as int),
{
    let mut j: usize = 0;
    let mut found = false;
    while j < ENCLAVE_REGIONS_MAX
        invariant
            m.wf(),
            eid < ENCLAVE_MAX,
            j <= ENCLAVE_REGIONS_MAX,
            found == exists|k: int|
                {
                    &&& 0 <= k < j
                    &&& !(m.enclaves@[eid as int].regions@[k].region_type is Invalid)
                    &&& m.pmp.slots@[m.enclaves@[eid as int].regions@[k].pmp_rid as int].base
                        <= addr
                    &&& addr + size <= m.pmp.slots@[m.enclaves@[eid as int].regions@[k].pmp_rid
                        as int].base + m.pmp.slots@[m.enclaves@[eid as int].regions@[k].pmp_rid
                        as int].size
                },
        decreases ENCLAVE_REGIONS_MAX - j,
    {
        proof {
            assert(enclave_wf(m.enclaves@[eid as int]));
        }
        let region = m.enclaves[eid].regions[j];
        if !matches!(region.region_type, crate::codes::RegionType::Invalid) {
            proof {
                assert(valid_region(*m, eid as int, j as int));
            }
            let slot_base = m.pmp.region_get_addr(region.pmp_rid);
            let slot_size = m.pmp.region_get_size(region.pmp_rid);
            if slot_base <= addr && size <= slot_size && addr - slot_base <= slot_size - size {
                found = true;
            }
        }
        j += 1;
    }
    found
}

/// Copy `size` bytes out of enclave `eid`'s memory, refusing a source
/// range that is not bounded by the enclave's own regions.
pub fn copy_from_enclave(m: &Monitor, mem: &Memory, eid: usize, source: usize, size: usize) -> (r:
    Result<Vec<u8>, EnclaveRetCode>)
    requires
        m.wf(),
        mem.wf(),
        eid < ENCLAVE_MAX,
    ensures
        r is Ok <==> (m.within_enclave_region(eid as int, source as int, size as int)
            && mem.in_range(source as int, size as int)),
        r matches Ok(v) ==> v@ == mem.bytes@.subrange(source - mem.base, source - mem.base + size),
        r matches Err(c) ==> c == EnclaveRetCode::IllegalArgument,
{
    if check_within_enclave(m, eid, source, size) && mem.in_bounds(source, size) {
        Ok(mem.read_bytes(source, size))
    } else {
        Err(EnclaveRetCode::IllegalArgument)
    }
}

/// Copy the monitor's buffer `src` into enclave `eid`'s memory at `dest`,
/// refusing a destination range that is not bounded by the enclave's own
/// regions. Memory is untouched on refusal.
pub fn copy_to_enclave(m: &Monitor, mem: &mut Memory, eid: usize, dest: usize, src: &Vec<u8>) -> (r:
    EnclaveRetCode)
    requires
        m.wf(),
        old(mem).wf(),
        eid < ENCLAVE_MAX,
    ensures
        final(mem).wf(),
        final(mem).base == old(mem).base,
        r == EnclaveRetCode::Success <==> (m.within_enclave_region(
            eid as int,
            dest as int,
            src@.len() as int,
        ) && old(mem).in_range(dest as int, src@.len() as int)),
        r == EnclaveRetCode::Success ==> final(mem).bytes@ == bytes_written(
            old(mem).bytes@,
            dest - old(mem).base,
            src@,
        ),
        r != EnclaveRetCode::Success ==> r == EnclaveRetCode::IllegalArgument && final(mem).bytes@
            == old(mem).bytes@,
{
    if check_within_enclave(m, eid, dest, src.len()) && mem.in_bounds(dest, src.len()) {
        mem.write_bytes(dest, src);
        EnclaveRetCode::Success
    } else {
        EnclaveRetCode::IllegalArgument
    }
}

} // verus!
