//! The lifecycle operations: create, run, exit, stop, resume, and the
//! region accessors.
//!
//! Each operation decides under the global lock (the `&mut Monitor`
//! borrow), and its contract pins the return code and the new table for
//! every input. Two laws of the machine are stated here as well:
//! every operation moves each slot only along the edges of the state
//! machine ([`op_steps_ok`], in every mutating contract), and a matched
//! run/exit pair restores the thread count
//! ([`lemma_run_exit_thread_count`]).

use vstd::prelude::*;

use crate::codes::ENCLAVE_MAX;
use crate::codes::ENCLAVE_REGIONS_MAX;
use crate::codes::EnclaveRetCode;
use crate::codes::EnclaveState;
use crate::codes::MAX_ENCL_THREADS;
use crate::codes::RegionType;
use crate::codes::STOP_EDGE_CALL_HOST;
use crate::codes::STOP_TIMER_INTERRUPT;
use crate::codes::PMP_MAX_REGIONS;
use crate::codes::PMP_NO_PERM;
use crate::codes::PmpPriority;
use crate::codes::RISCV_PGSHIFT;
use crate::codes::RISCV_PGSIZE;
use crate::codes::SATP_MODE_SV39_FIELD;
use crate::codes::MDSIZE;
use crate::codes::WORD_SIZE;
use crate::codes::state_lvl;
use crate::copy::copy_word_to_host;
use crate::memory::Memory;
use crate::memory::bytes_with_word;
use crate::memory::bytes_zeroed;
use crate::memory::word_byte;
use crate::monitor::Enclave;
use crate::monitor::EnclaveRegion;
use crate::monitor::Monitor;
use crate::monitor::RuntimeParams;
use crate::monitor::RuntimePaParams;
use crate::monitor::blank_enclave;
use crate::monitor::count_regions;
use crate::monitor::enclave_wf;
use crate::monitor::lemma_count_regions_update;
use crate::monitor::lemma_region_sum_update;
use crate::monitor::pmp_balanced;
use crate::monitor::region_sum;
use crate::pmp::Pmp;
use crate::pmp::PmpSlot;
use crate::pmp::count_in_use;
use crate::pmp::lemma_count_update;
use crate::pmp::ranges_overlap;
use crate::pmp::valid_range;

verus! {

/// One edge of the enclave state machine.
pub open spec fn machine_edge(a: EnclaveState, b: EnclaveState) -> bool {
    ||| (a is Invalid && b is Fresh)  // create succeeds
    ||| (a is Fresh && b is Initialized)  // measurement accepted
    ||| (a is Initialized && b is Running)  // run
    ||| (a is Running && b is Running)  // run, stop, resume
    ||| (a is Running && b is Initialized)  // last exit
    ||| (state_lvl(a) >= 1 && b is Invalid)  // destroy

}

/// What one operation may do to a slot's state: leave it, or move it
/// along at most two edges of the machine (creation passes through
/// `Fresh` on its way to `Initialized`).
pub open spec fn op_steps_ok(a: EnclaveState, b: EnclaveState) -> bool {
    ||| a == b
    ||| machine_edge(a, b)
    ||| exists|c: EnclaveState| machine_edge(a, c) && machine_edge(c, b)
}

/// `run` is permitted: the slot holds an enclave and a thread slot is
/// still free.
pub open spec fn runnable(m: Monitor, eid: int) -> bool {
    m.enclave_exists_spec(eid) && m.enclaves@[eid].n_thread < MAX_ENCL_THREADS
}

/// `exit` and `stop` are permitted: the enclave is running.
pub open spec fn running(m: Monitor, eid: int) -> bool {
    0 <= eid < ENCLAVE_MAX && m.enclaves@[eid].state is Running
}

/// `resume` is permitted: running, with a parked thread to re-enter.
pub open spec fn resumable(m: Monitor, eid: int) -> bool {
    running(m, eid) && m.enclaves@[eid].n_thread > 0
}

/// The table after a successful `run` on `eid`: the slot turns
/// `Running` and gains one thread.
pub open spec fn run_table(es: Seq<Enclave>, eid: int) -> Seq<Enclave> {
    es.update(
        eid,
        (Enclave {
            state: EnclaveState::Running,
            n_thread: (es[eid].n_thread + 1) as usize,
            ..es[eid]
        }),
    )
}

/// The table after a successful `exit` on `eid`: the slot loses one
/// thread and returns to `Initialized` when the last thread leaves.
pub open spec fn exit_table(es: Seq<Enclave>, eid: int) -> Seq<Enclave> {
    es.update(
        eid,
        (Enclave {
            state: if es[eid].n_thread == 1 {
                EnclaveState::Initialized
            } else {
                EnclaveState::Running
            },
            n_thread: (es[eid].n_thread - 1) as usize,
            ..es[eid]
        }),
    )
}

/// A matched `run`/`exit` pair on `eid` keeps the thread count within
/// `[0, MAX_ENCL_THREADS]` and returns it to its pre-run value.
pub proof fn lemma_run_exit_thread_count(es: Seq<Enclave>, eid: int)
    requires
        0 <= eid < es.len(),
        state_lvl(es[eid].state) >= 1,
        es[eid].n_thread < MAX_ENCL_THREADS,
    ensures
        run_table(es, eid)[eid].state is Running,
        0 <= run_table(es, eid)[eid].n_thread <= MAX_ENCL_THREADS,
        exit_table(run_table(es, eid), eid)[eid].n_thread == es[eid].n_thread,
        0 <= exit_table(run_table(es, eid), eid)[eid].n_thread <= MAX_ENCL_THREADS,
{
}

/// Run a thread inside enclave `eid`: transition to `Running`, count the
/// thread in, and context-switch in with the "first entry" flag. Refused
/// with `NotRunnable` unless the enclave exists with a free thread slot.
pub fn run_enclave(m: &mut Monitor, eid: usize) -> (r: EnclaveRetCode)
    requires
        old(m).wf(),
    ensures
        final(m).wf(),
        r == EnclaveRetCode::Success <==> runnable(*old(m), eid as int),
        r != EnclaveRetCode::Success ==> r == EnclaveRetCode::NotRunnable && *final(m) == *old(m),
        r == EnclaveRetCode::Success ==> final(m).enclaves@ == run_table(
            old(m).enclaves@,
            eid as int,
        ),
        final(m).pmp == old(m).pmp,
        final(m).dev_public_key == old(m).dev_public_key,
        final(m).sm_hash == old(m).sm_hash,
        final(m).sm_public_key == old(m).sm_public_key,
        final(m).sm_signature == old(m).sm_signature,
        count_in_use(final(m).pmp.slots@) - count_in_use(old(m).pmp.slots@) == region_sum(
            final(m).enclaves@,
        ) - region_sum(old(m).enclaves@),
        pmp_balanced(*old(m)) ==> pmp_balanced(*final(m)),
        forall|i: int|
            0 <= i < ENCLAVE_MAX ==> op_steps_ok(
                old(m).enclaves@[i].state,
                final(m).enclaves@[i].state,
            ),
{
    let runnable_now = m.enclave_exists(eid) && m.enclaves[eid].n_thread < MAX_ENCL_THREADS;
    if !runnable_now {
        return EnclaveRetCode::NotRunnable;
    }
    let mut e = m.enclaves.remove(eid);
    e.state = EnclaveState::Running;
    e.n_thread = e.n_thread + 1;
    proof {
        assert(enclave_wf(old(m).enclaves@[eid as int]));
    }
    m.enclaves.insert(eid, e);
    proof {
        assert(m.enclaves@ =~= run_table(old(m).enclaves@, eid as int));
        lemma_region_sum_update(old(m).enclaves@, eid as int, m.enclaves@[eid as int]);
        assert(machine_edge(EnclaveState::Initialized, EnclaveState::Running));
        assert forall|i: int, j: int| crate::monitor::valid_region(*m, i, j) implies
            crate::monitor::valid_region(*old(m), i, j) && m.enclaves@[i].regions@[j]
            == old(m).enclaves@[i].regions@[j] by {
            assert(m.enclaves@[i].regions@ == old(m).enclaves@[i].regions@);
        }
    }
    EnclaveRetCode::Success
}

/// Exit one thread of enclave `eid`: context-switch out, count the
/// thread out, and return the slot to `Initialized` when the last thread
/// leaves. Refused with `NotRunning` unless the enclave is running. The
/// return value `retval` is handed to the host context, which lies
/// outside the model.
pub fn exit_enclave(m: &mut Monitor, retval: usize, eid: usize) -> (r: EnclaveRetCode)
    requires
        old(m).wf(),
    ensures
        final(m).wf(),
        r == EnclaveRetCode::Success <==> running(*old(m), eid as int),
        r != EnclaveRetCode::Success ==> r == EnclaveRetCode::NotRunning && *final(m) == *old(m),
        r == EnclaveRetCode::Success ==> final(m).enclaves@ == exit_table(
            old(m).enclaves@,
            eid as int,
        ),
        final(m).pmp == old(m).pmp,
        final(m).dev_public_key == old(m).dev_public_key,
        final(m).sm_hash == old(m).sm_hash,
        final(m).sm_public_key == old(m).sm_public_key,
        final(m).sm_signature == old(m).sm_signature,
        count_in_use(final(m).pmp.slots@) - count_in_use(old(m).pmp.slots@) == region_sum(
            final(m).enclaves@,
        ) - region_sum(old(m).enclaves@),
        pmp_balanced(*old(m)) ==> pmp_balanced(*final(m)),
        forall|i: int|
            0 <= i < ENCLAVE_MAX ==> op_steps_ok(
                old(m).enclaves@[i].state,
                final(m).enclaves@[i].state,
            ),
{
    let exitable = eid < ENCLAVE_MAX && matches!(m.enclaves[eid].state, EnclaveState::Running);
    if !exitable {
        return EnclaveRetCode::NotRunning;
    }
    proof {
        assert(enclave_wf(old(m).enclaves@[eid as int]));
    }
    let mut e = m.enclaves.remove(eid);
    e.n_thread = e.n_thread - 1;
    if e.n_thread == 0 {
        e.state = EnclaveState::Initialized;
    }
    m.enclaves.insert(eid, e);
    proof {
        assert(m.enclaves@ =~= exit_table(old(m).enclaves@, eid as int));
        lemma_region_sum_update(old(m).enclaves@, eid as int, m.enclaves@[eid as int]);
        assert forall|i: int, j: int| crate::monitor::valid_region(*m, i, j) implies
            crate::monitor::valid_region(*old(m), i, j) && m.enclaves@[i].regions@[j]
            == old(m).enclaves@[i].regions@[j] by {
            assert(m.enclaves@[i].regions@ == old(m).enclaves@[i].regions@);
        }
    }
    let _ = retval;
    EnclaveRetCode::Success
}

/// Park the running thread of enclave `eid` and return to the host,
/// translating the platform's stop reason. The enclave stays `Running`
/// with its thread count unchanged, awaiting `resume`. Refused with
/// `NotRunning` unless the enclave is running.
pub fn stop_enclave(m: &Monitor, request: u64, eid: usize) -> (r: EnclaveRetCode)
    requires
        m.wf(),
    ensures
        !running(*m, eid as int) ==> r == EnclaveRetCode::NotRunning,
        running(*m, eid as int) ==> r == (if request == STOP_TIMER_INTERRUPT {
            EnclaveRetCode::Interrupted
        } else if request == STOP_EDGE_CALL_HOST {
            EnclaveRetCode::EdgeCallHost
        } else {
            EnclaveRetCode::UnknownError
        }),
{
    let stoppable = eid < ENCLAVE_MAX && matches!(m.enclaves[eid].state, EnclaveState::Running);
    if !stoppable {
        return EnclaveRetCode::NotRunning;
    }
    if request == STOP_TIMER_INTERRUPT {
        EnclaveRetCode::Interrupted
    } else if request == STOP_EDGE_CALL_HOST {
        EnclaveRetCode::EdgeCallHost
    } else {
        EnclaveRetCode::UnknownError
    }
}

/// Re-enter a parked thread of enclave `eid` without touching the thread
/// count. Refused with `NotResumable` unless the enclave is running with
/// at least one thread.
pub fn resume_enclave(m: &Monitor, eid: usize) -> (r: EnclaveRetCode)
    requires
        m.wf(),
    ensures
        r == EnclaveRetCode::Success <==> resumable(*m, eid as int),
        r != EnclaveRetCode::Success ==> r == EnclaveRetCode::NotResumable,
{
    let ok = eid < ENCLAVE_MAX && matches!(m.enclaves[eid].state, EnclaveState::Running)
        && m.enclaves[eid].n_thread > 0;
    if ok {
        EnclaveRetCode::Success
    } else {
        EnclaveRetCode::NotResumable
    }
}

/// Index of the first region of enclave `eid` with type `ty`, or -1 when
/// there is none (or `eid` names no table slot).
pub fn get_enclave_region_index(m: &Monitor, eid: usize, ty: RegionType) -> (r: i64)
    requires
        m.wf(),
    ensures
        r != -1 ==> {
            &&& 0 <= r < ENCLAVE_REGIONS_MAX
            &&& eid < ENCLAVE_MAX
            &&& m.enclaves@[eid as int].regions@[r as int].region_type == ty
            &&& forall|j: int|
                0 <= j < r ==> m.enclaves@[eid as int].regions@[j].region_type != ty
        },
        r == -1 ==> (eid >= ENCLAVE_MAX || forall|j: int|
            0 <= j < ENCLAVE_REGIONS_MAX ==> m.enclaves@[eid as int].regions@[j].region_type != ty),
{
    if eid >= ENCLAVE_MAX {
        return -1;
    }
    proof {
        assert(enclave_wf(m.enclaves@[eid as int]));
    }
    let mut j: usize = 0;
    while j < ENCLAVE_REGIONS_MAX
        invariant
            m.wf(),
            eid < ENCLAVE_MAX,
            j <= ENCLAVE_REGIONS_MAX,
            m.enclaves@[eid as int].regions@.len() == ENCLAVE_REGIONS_MAX,
            forall|k: int| 0 <= k < j ==> m.enclaves@[eid as int].regions@[k].region_type != ty,
        decreases ENCLAVE_REGIONS_MAX - j,
    {
        if m.enclaves[eid].regions[j].region_type == ty {
            return j as i64;
        }
        j += 1;
    }
    -1
}

/// Size of region `memid` of enclave `eid`, read from the PMP driver; 0
/// when the indices name no live reservation.
pub fn get_enclave_region_size(m: &Monitor, eid: usize, memid: i64) -> (r: usize)
    requires
        m.wf(),
    ensures
        (eid < ENCLAVE_MAX && 0 <= memid < ENCLAVE_REGIONS_MAX) ==> r == ({
            let rid = m.enclaves@[eid as int].regions@[memid as int].pmp_rid as int;
            if m.pmp.live(rid) {
                m.pmp.slots@[rid].size
            } else {
                0usize
            }
        }),
        !(eid < ENCLAVE_MAX && 0 <= memid < ENCLAVE_REGIONS_MAX) ==> r == 0,
{
    if eid < ENCLAVE_MAX && 0 <= memid && memid < ENCLAVE_REGIONS_MAX as i64 {
        proof {
            assert(enclave_wf(m.enclaves@[eid as int]));
        }
        let rid = m.enclaves[eid].regions[memid as usize].pmp_rid;
        m.pmp.region_get_size(rid)
    } else {
        0
    }
}

/// Base address of region `memid` of enclave `eid`, read from the PMP
/// driver; 0 when the indices name no live reservation.
pub fn get_enclave_region_base(m: &Monitor, eid: usize, memid: i64) -> (r: usize)
    requires
        m.wf(),
    ensures
        (eid < ENCLAVE_MAX && 0 <= memid < ENCLAVE_REGIONS_MAX) ==> r == ({
            let rid = m.enclaves@[eid as int].regions@[memid as int].pmp_rid as int;
            if m.pmp.live(rid) {
                m.pmp.slots@[rid].base
            } else {
                0usize
            }
        }),
        !(eid < ENCLAVE_MAX && 0 <= memid < ENCLAVE_REGIONS_MAX) ==> r == 0,
{
    if eid < ENCLAVE_MAX && 0 <= memid && memid < ENCLAVE_REGIONS_MAX as i64 {
        proof {
            assert(enclave_wf(m.enclaves@[eid as int]));
        }
        let rid = m.enclaves[eid].regions[memid as usize].pmp_rid;
        m.pmp.region_get_addr(rid)
    } else {
        0
    }
}


/// The host's creation request: the two physical regions, the runtime
/// layout inside the private region, the host-writable address for the
/// new EID, and the runtime parameters stored verbatim.
#[derive(Clone, Copy, PartialEq, Eq, Structural, Debug)]
pub struct CreateArgs {
    pub epm_paddr: usize,
    pub epm_size: usize,
    pub utm_paddr: usize,
    pub utm_size: usize,
    pub runtime_paddr: usize,
    pub user_paddr: usize,
    pub free_paddr: usize,
    pub eid_pptr: usize,
    pub params: RuntimeParams,
}

/// The argument validator: both regions are non-empty, page-aligned and
/// inside the modelled memory, the EID output word is addressable, and
/// the runtime layout sits inside the private region in order.
pub open spec fn create_args_valid(args: CreateArgs, mem: Memory) -> bool {
    &&& args.epm_size > 0
    &&& args.utm_size > 0
    &&& args.epm_paddr % RISCV_PGSIZE == 0
    &&& args.epm_size % RISCV_PGSIZE == 0
    &&& args.utm_paddr % RISCV_PGSIZE == 0
    &&& args.utm_size % RISCV_PGSIZE == 0
    &&& mem.in_range(args.epm_paddr as int, args.epm_size as int)
    &&& mem.in_range(args.utm_paddr as int, args.utm_size as int)
    &&& mem.in_range(args.eid_pptr as int, WORD_SIZE as int)
    &&& args.epm_paddr <= args.runtime_paddr <= args.user_paddr <= args.free_paddr
    &&& args.free_paddr <= args.epm_paddr + args.epm_size
}

/// Executable form of [`create_args_valid`].
pub fn is_create_args_valid(args: &CreateArgs, mem: &Memory) -> (r: bool)
    requires
        mem.wf(),
    ensures
        r == create_args_valid(*args, *mem),
{
    args.epm_size > 0 && args.utm_size > 0 && args.epm_paddr % RISCV_PGSIZE == 0
        && args.epm_size % RISCV_PGSIZE == 0 && args.utm_paddr % RISCV_PGSIZE == 0
        && args.utm_size % RISCV_PGSIZE == 0 && mem.in_bounds(args.epm_paddr, args.epm_size)
        && mem.in_bounds(args.utm_paddr, args.utm_size) && mem.in_bounds(args.eid_pptr, WORD_SIZE)
        && args.epm_paddr <= args.runtime_paddr && args.runtime_paddr <= args.user_paddr
        && args.user_paddr <= args.free_paddr && args.free_paddr - args.epm_paddr <= args.epm_size
}

/// Byte `i` of the model measurement: the little-endian encodings of the
/// private region's base and size and of the runtime layout, zero-padded
/// to a digest.
pub open spec fn measurement_byte(args: CreateArgs, i: int) -> u8 {
    if 0 <= i < 8 {
        word_byte(args.epm_paddr as u64, i)
    } else if i < 16 {
        word_byte(args.epm_size as u64, i - 8)
    } else if i < 24 {
        word_byte(args.runtime_paddr as u64, i - 16)
    } else if i < 32 {
        word_byte(args.user_paddr as u64, i - 24)
    } else if i < 40 {
        word_byte(args.free_paddr as u64, i - 32)
    } else {
        0u8
    }
}

/// The model measurement digest. It stands in for hashing the enclave
/// image: it binds the physical layout the enclave was created with.
pub open spec fn measurement_of(args: CreateArgs) -> Seq<u8> {
    Seq::new(MDSIZE as nat, |i: int| measurement_byte(args, i))
}

/// Byte `i` of the little-endian encoding of `v`.
pub fn le_byte(v: u64, i: usize) -> (r: u8)
    requires
        i < 8,
    ensures
        r == word_byte(v, i as int),
{
    let sh: u64 = (8 * i) as u64;
    assert((v >> sh) & 0xff <= 0xff) by (bit_vector);
    ((v >> sh) & 0xff) as u8
}

/// Executable form of [`measurement_byte`].
fn measure_byte(args: &CreateArgs, i: usize) -> (r: u8)
    requires
        i < MDSIZE,
    ensures
        r == measurement_byte(*args, i as int),
{
    if i < 8 {
        le_byte(args.epm_paddr as u64, i)
    } else if i < 16 {
        le_byte(args.epm_size as u64, i - 8)
    } else if i < 24 {
        le_byte(args.runtime_paddr as u64, i - 16)
    } else if i < 32 {
        le_byte(args.user_paddr as u64, i - 24)
    } else if i < 40 {
        le_byte(args.free_paddr as u64, i - 32)
    } else {
        0u8
    }
}

/// Compute the model measurement digest.
pub fn compute_measurement(args: &CreateArgs) -> (r: Vec<u8>)
    ensures
        r@ == measurement_of(*args),
{
    let mut r: Vec<u8> = Vec::new();
    let mut i: usize = 0;
    while i < MDSIZE
        invariant
            i <= MDSIZE,
            r@.len() == i,
            forall|j: int| 0 <= j < i ==> r@[j] == measurement_byte(*args, j),
        decreases MDSIZE - i,
    {
        let b = measure_byte(args, i);
        r.push(b);
        i += 1;
    }
    proof {
        assert(r@ =~= measurement_of(*args));
    }
    r
}

/// Two PMP slots are still free.
pub open spec fn has_two_free(p: Pmp) -> bool {
    exists|i: int, j: int|
        0 <= i < j < PMP_MAX_REGIONS && !p.slots@[i].in_use && !p.slots@[j].in_use
}

/// Some table slot is free for a new enclave.
pub open spec fn has_free_eid(m: Monitor) -> bool {
    exists|i: int| 0 <= i < ENCLAVE_MAX && m.enclaves@[i].state is Invalid
}

/// `eid` is the slot the EID allocator hands out: the first free one.
pub open spec fn eid_is_first_free(m: Monitor, eid: int) -> bool {
    &&& 0 <= eid < ENCLAVE_MAX
    &&& m.enclaves@[eid].state is Invalid
    &&& forall|j: int| 0 <= j < eid ==> !(m.enclaves@[j].state is Invalid)
}

/// The PMP driver can host both regions of a new enclave: two free
/// slots, both ranges valid, neither colliding with a live reservation
/// nor with each other.
pub open spec fn pmp_can_host(p: Pmp, eb: int, es: int, ub: int, us: int) -> bool {
    &&& valid_range(eb, es)
    &&& valid_range(ub, us)
    &&& !p.slot_overlaps(eb, es)
    &&& !p.slot_overlaps(ub, us)
    &&& !ranges_overlap(eb, es, ub, us)
    &&& has_two_free(p)
}

/// Everything a successful creation commits, relating the monitor and
/// memory before and after. `eid` is the slot the allocator chose,
/// `rid0`/`rid1` the two PMP reservations (private region first). The
/// new record is measured and `Initialized`; memory holds the scrubbed
/// shared region and, unless it now overlaps a protected region, the new
/// EID at the host's output word.
pub open spec fn create_committed(
    pre: Monitor,
    post: Monitor,
    mem_pre: Memory,
    mem_post: Memory,
    args: CreateArgs,
    eid: int,
) -> bool {
    let e = post.enclaves@[eid];
    let rid0 = e.regions@[0].pmp_rid as int;
    let rid1 = e.regions@[1].pmp_rid as int;
    let scrubbed = bytes_zeroed(
        mem_pre.bytes@,
        args.utm_paddr - mem_pre.base,
        args.utm_size as int,
    );
    &&& post.enclaves@ == pre.enclaves@.update(eid, e)
    &&& e.state is Initialized
    &&& e.n_thread == 0
    &&& e.regions@.len() == ENCLAVE_REGIONS_MAX
    &&& e.regions@[0].region_type is Epm
    &&& e.regions@[1].region_type is Utm
    &&& (forall|j: int| 2 <= j < ENCLAVE_REGIONS_MAX ==> e.regions@[j].region_type is Invalid)
    &&& e.encl_satp == (((args.epm_paddr as u64) >> (RISCV_PGSHIFT as u64))
        | SATP_MODE_SV39_FIELD)
    &&& e.params == args.params
    &&& e.pa_params == (RuntimePaParams {
        dram_base: args.epm_paddr,
        dram_size: args.epm_size,
        runtime_base: args.runtime_paddr,
        user_base: args.user_paddr,
        free_base: args.free_paddr,
    })
    &&& e.hash@ == measurement_of(args)
    &&& 0 <= rid0 < PMP_MAX_REGIONS
    &&& 0 <= rid1 < PMP_MAX_REGIONS
    &&& rid0 != rid1
    &&& !pre.pmp.slots@[rid0].in_use
    &&& !pre.pmp.slots@[rid1].in_use
    &&& post.pmp.slots@ == pre.pmp.slots@.update(
        rid0,
        (PmpSlot {
            in_use: true,
            base: args.epm_paddr,
            size: args.epm_size,
            prio: PmpPriority::Any,
            perm: PMP_NO_PERM,
        }),
    ).update(
        rid1,
        (PmpSlot {
            in_use: true,
            base: args.utm_paddr,
            size: args.utm_size,
            prio: PmpPriority::Bottom,
            perm: PMP_NO_PERM,
        }),
    )
    &&& mem_post.base == mem_pre.base
    &&& mem_post.bytes@ == (if post.pmp.slot_overlaps(args.eid_pptr as int, WORD_SIZE as int) {
        scrubbed
    } else {
        bytes_with_word(scrubbed, args.eid_pptr - mem_pre.base, eid as u64)
    })
}

/// Create a new enclave from the host's request.
///
/// The fallible steps run in order -- validate, reserve an EID, reserve
/// the private then the shared PMP region, shut the host out of the
/// private region, scrub the shared region, measure, commit -- and every
/// failure undoes all earlier reservations, so a failed creation leaves
/// the monitor and memory exactly as they were. On success the new EID
/// is written back to the host's output word (silently skipped if that
/// word now lies under a protected region, as the write itself is
/// overlap-checked).
pub fn create_enclave(m: &mut Monitor, mem: &mut Memory, args: &CreateArgs) -> (r: EnclaveRetCode)
    requires
        old(m).wf(),
        old(mem).wf(),
    ensures
        final(m).wf(),
        final(mem).wf(),
        final(mem).base == old(mem).base,
        final(m).dev_public_key == old(m).dev_public_key,
        final(m).sm_hash == old(m).sm_hash,
        final(m).sm_public_key == old(m).sm_public_key,
        final(m).sm_signature == old(m).sm_signature,
        count_in_use(final(m).pmp.slots@) - count_in_use(old(m).pmp.slots@) == region_sum(
            final(m).enclaves@,
        ) - region_sum(old(m).enclaves@),
        pmp_balanced(*old(m)) ==> pmp_balanced(*final(m)),
        forall|i: int|
            0 <= i < ENCLAVE_MAX ==> op_steps_ok(
                old(m).enclaves@[i].state,
                final(m).enclaves@[i].state,
            ),
        r == EnclaveRetCode::IllegalArgument <==> !create_args_valid(*args, *old(mem)),
        r == EnclaveRetCode::NoFreeResource <==> (create_args_valid(*args, *old(mem))
            && !has_free_eid(*old(m))),
        r == EnclaveRetCode::PmpFailure <==> (create_args_valid(*args, *old(mem)) && has_free_eid(
            *old(m),
        ) && !pmp_can_host(
            old(m).pmp,
            args.epm_paddr as int,
            args.epm_size as int,
            args.utm_paddr as int,
            args.utm_size as int,
        )),
        r == EnclaveRetCode::Success <==> (create_args_valid(*args, *old(mem)) && has_free_eid(
            *old(m),
        ) && pmp_can_host(
            old(m).pmp,
            args.epm_paddr as int,
            args.epm_size as int,
            args.utm_paddr as int,
            args.utm_size as int,
        )),
        r != EnclaveRetCode::Success ==> final(m).enclaves@ == old(m).enclaves@
            && final(m).pmp.slots@ == old(m).pmp.slots@ && final(mem).bytes@ == old(mem).bytes@,
        r == EnclaveRetCode::Success ==> forall|eid: int|
            eid_is_first_free(*old(m), eid) ==> create_committed(
                *old(m),
                *final(m),
                *old(mem),
                *final(mem),
                *args,
                eid,
            ),
{
    if !is_create_args_valid(args, mem) {
        return EnclaveRetCode::IllegalArgument;
    }
    let eid = match m.find_free_eid() {
        Some(e) => e,
        None => {
            return EnclaveRetCode::NoFreeResource;
        },
    };
    let rid0 = match m.pmp.region_init(args.epm_paddr, args.epm_size, PmpPriority::Any) {
        Ok(rid) => rid,
        Err(_) => {
            proof {
                crate::monitor::lemma_wf_unchanged(*old(m), *m);
            }
            return EnclaveRetCode::PmpFailure;
        },
    };
    let ghost pmp1 = m.pmp;
    let rid1 = match m.pmp.region_init(args.utm_paddr, args.utm_size, PmpPriority::Bottom) {
        Ok(rid) => rid,
        Err(_) => {
            m.pmp.region_free(rid0);
            proof {
                assert(m.pmp.slots@ =~= old(m).pmp.slots@);
                crate::monitor::lemma_wf_unchanged(*old(m), *m);
            }
            return EnclaveRetCode::PmpFailure;
        },
    };
    proof {
        assert(rid0 != rid1);
        assert(!old(m).pmp.slots@[rid1 as int].in_use);
        let eb = args.epm_paddr as int;
        let es = args.epm_size as int;
        let ub = args.utm_paddr as int;
        let us = args.utm_size as int;
        assert forall|k: int|
            0 <= k < PMP_MAX_REGIONS && old(m).pmp.slots@[k].in_use implies pmp1.slots@[k]
            == old(m).pmp.slots@[k] by {}
        if old(m).pmp.slot_overlaps(ub, us) {
            let k = choose|k: int|
                0 <= k < PMP_MAX_REGIONS && old(m).pmp.slots@[k].in_use && ranges_overlap(
                    old(m).pmp.slots@[k].base as int,
                    old(m).pmp.slots@[k].size as int,
                    ub,
                    us,
                );
            assert(pmp1.slots@[k].in_use && ranges_overlap(
                pmp1.slots@[k].base as int,
                pmp1.slots@[k].size as int,
                ub,
                us,
            ));
            assert(pmp1.slot_overlaps(ub, us));
            assert(false);
        }
        assert(pmp1.slots@[rid0 as int] == (PmpSlot {
            in_use: true,
            base: args.epm_paddr,
            size: args.epm_size,
            prio: PmpPriority::Any,
            perm: PMP_NO_PERM,
        }));
        if ranges_overlap(eb, es, ub, us) {
            assert((rid0 as int) < PMP_MAX_REGIONS);
            assert(pmp1.slots@[rid0 as int].in_use && ranges_overlap(
                pmp1.slots@[rid0 as int].base as int,
                pmp1.slots@[rid0 as int].size as int,
                ub,
                us,
            ));
            assert(pmp1.slot_overlaps(ub, us));
            assert(false);
        }
        let lo = if rid0 < rid1 {
            rid0 as int
        } else {
            rid1 as int
        };
        let hi = if rid0 < rid1 {
            rid1 as int
        } else {
            rid0 as int
        };
        assert(0 <= lo < hi < PMP_MAX_REGIONS && !old(m).pmp.slots@[lo].in_use
            && !old(m).pmp.slots@[hi].in_use);
        assert(has_two_free(old(m).pmp));
        assert(pmp_can_host(old(m).pmp, eb, es, ub, us));
    }
    proof {
        assert(m.pmp.slots@[rid1 as int] == (PmpSlot {
            in_use: true,
            base: args.utm_paddr,
            size: args.utm_size,
            prio: PmpPriority::Bottom,
            perm: PMP_NO_PERM,
        }));
        assert(m.pmp.live(rid0 as int));
    }
    // Shut the host out of the private region before the shared region is
    // scrubbed and the image is measured.
    if m.pmp.set_global(rid0, PMP_NO_PERM).is_err() {
        m.pmp.region_free(rid1);
        m.pmp.region_free(rid0);
        return EnclaveRetCode::PmpFailure;
    }
    mem.zero_range(args.utm_paddr, args.utm_size);
    // Build the record: it passes through `Fresh` and, the measurement
    // being accepted, commits as `Initialized`.
    let mut e = blank_enclave();
    e.state = EnclaveState::Initialized;
    let ghost regions0 = e.regions@;
    e.regions.set(0, EnclaveRegion { pmp_rid: rid0, region_type: RegionType::Epm });
    let ghost regions1 = e.regions@;
    e.regions.set(1, EnclaveRegion { pmp_rid: rid1, region_type: RegionType::Utm });
    proof {
        lemma_count_regions_update(
            regions0,
            0,
            EnclaveRegion { pmp_rid: rid0, region_type: RegionType::Epm },
        );
        lemma_count_regions_update(
            regions1,
            1,
            EnclaveRegion { pmp_rid: rid1, region_type: RegionType::Utm },
        );
        assert(count_regions(e.regions@) == 2);
    }
    e.hash = compute_measurement(args);
    e.encl_satp = ((args.epm_paddr as u64) >> (RISCV_PGSHIFT as u64)) | SATP_MODE_SV39_FIELD;
    e.n_thread = 0;
    e.params = args.params;
    e.pa_params = RuntimePaParams {
        dram_base: args.epm_paddr,
        dram_size: args.epm_size,
        runtime_base: args.runtime_paddr,
        user_base: args.user_paddr,
        free_base: args.free_paddr,
    };
    let ghost committed = e;
    let ghost pre_table = m.enclaves@;
    m.enclaves.set(eid, e);
    proof {
        lemma_region_sum_update(pre_table, eid as int, committed);
        // The two fresh reservations and the permission write leave every
        // other slot as it was.
        lemma_count_update(
            old(m).pmp.slots@,
            rid0 as int,
            pmp1.slots@[rid0 as int],
        );
        lemma_count_update(pmp1.slots@, rid1 as int, m.pmp.slots@[rid1 as int]);
        assert(m.pmp.slots@ =~= old(m).pmp.slots@.update(
            rid0 as int,
            (PmpSlot {
                in_use: true,
                base: args.epm_paddr,
                size: args.epm_size,
                prio: PmpPriority::Any,
                perm: PMP_NO_PERM,
            }),
        ).update(
            rid1 as int,
            (PmpSlot {
                in_use: true,
                base: args.utm_paddr,
                size: args.utm_size,
                prio: PmpPriority::Bottom,
                perm: PMP_NO_PERM,
            }),
        ));
        lemma_count_update(
            old(m).pmp.slots@,
            rid0 as int,
            m.pmp.slots@[rid0 as int],
        );
        assert(count_in_use(m.pmp.slots@) == count_in_use(old(m).pmp.slots@) + 2);
        assert forall|k: int|
            0 <= k < PMP_MAX_REGIONS && old(m).pmp.slots@[k].in_use implies m.pmp.slots@[k]
            == old(m).pmp.slots@[k] && m.pmp.slots@[k].in_use by {}
        assert forall|i: int, j: int|
            crate::monitor::valid_region(*m, i, j) && i != eid implies crate::monitor::valid_region(
            *old(m),
            i,
            j,
        ) && m.enclaves@[i].regions@[j] == old(m).enclaves@[i].regions@[j] by {
            assert(m.enclaves@[i].regions@ == old(m).enclaves@[i].regions@);
        }
        assert(m.wf());
        assert(machine_edge(EnclaveState::Invalid, EnclaveState::Fresh) && machine_edge(
            EnclaveState::Fresh,
            EnclaveState::Initialized,
        ));
    }
    let _ = copy_word_to_host(&*m, mem, args.eid_pptr, eid);
    EnclaveRetCode::Success
}



} // verus!
