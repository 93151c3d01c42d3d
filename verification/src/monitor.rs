//! The enclave table and the monitor's global state.
//!
//! `Monitor` gathers everything the global lock protects: the fixed
//! enclave table and the PMP driver state, together with the security
//! monitor's own identity material used by attestation. Its
//! well-formedness predicate `Monitor::wf` carries the invariants every
//! operation preserves: thread counts agree with states, every installed
//! region of a live enclave owns a live PMP slot, and no two installed
//! regions share one.

use vstd::prelude::*;

use crate::codes::ENCLAVE_MAX;
use crate::codes::ENCLAVE_REGIONS_MAX;
use crate::codes::MAX_ENCL_THREADS;
use crate::codes::MDSIZE;
use crate::codes::PMP_MAX_REGIONS;
use crate::codes::PUBLIC_KEY_SIZE;
use crate::codes::SIGNATURE_SIZE;
use crate::codes::EnclaveState;
use crate::codes::RegionType;
use crate::codes::state_lvl;
use crate::pmp::Pmp;
use crate::pmp::count_in_use;

verus! {

/// Virtual-address runtime parameters handed in by the host and stored
/// verbatim in the record.
#[derive(Clone, Copy, PartialEq, Eq, Structural, Debug)]
pub struct RuntimeParams {
    pub runtime_entry: usize,
    pub user_entry: usize,
    pub untrusted_ptr: usize,
    pub untrusted_size: usize,
}

/// Physical-address layout derived from the creation arguments.
#[derive(Clone, Copy, PartialEq, Eq, Structural, Debug)]
pub struct RuntimePaParams {
    pub dram_base: usize,
    pub dram_size: usize,
    pub runtime_base: usize,
    pub user_base: usize,
    pub free_base: usize,
}

/// One entry of an enclave's region array: a PMP reservation id and its
/// kind.
#[derive(Clone, Copy, PartialEq, Eq, Structural, Debug)]
pub struct EnclaveRegion {
    pub pmp_rid: usize,
    pub region_type: RegionType,
}

/// One slot of the enclave table.
pub struct Enclave {
    pub state: EnclaveState,
    pub regions: Vec<EnclaveRegion>,
    pub hash: Vec<u8>,
    pub encl_satp: u64,
    pub n_thread: usize,
    pub params: RuntimeParams,
    pub pa_params: RuntimePaParams,
}

/// How many entries of a region array are installed.
pub open spec fn count_regions(s: Seq<EnclaveRegion>) -> int
    decreases s.len(),
{
    if s.len() == 0 {
        0
    } else {
        count_regions(s.drop_last()) + if s.last().region_type is Invalid {
            0int
        } else {
            1int
        }
    }
}

/// Replacing one region entry changes the installed count by the
/// difference of the two entries.
pub proof fn lemma_count_regions_update(s: Seq<EnclaveRegion>, i: int, v: EnclaveRegion)
    requires
        0 <= i < s.len(),
    ensures
        count_regions(s.update(i, v)) == count_regions(s) - (if s[i].region_type is Invalid {
            0int
        } else {
            1int
        }) + (if v.region_type is Invalid {
            0int
        } else {
            1int
        }),
    decreases s.len(),
{
    let t = s.update(i, v);
    if i == s.len() - 1 {
        assert(t.drop_last() =~= s.drop_last());
    } else {
        assert(t.drop_last() =~= s.drop_last().update(i, v));
        lemma_count_regions_update(s.drop_last(), i, v);
    }
}

/// PMP reservations an enclave record accounts for: its installed region
/// count while it is at least `Fresh`, none while the slot is `Invalid`.
pub open spec fn region_contribution(e: Enclave) -> int {
    if state_lvl(e.state) >= 1 {
        count_regions(e.regions@)
    } else {
        0
    }
}

/// Sum of [`region_contribution`] over the whole table.
pub open spec fn region_sum(es: Seq<Enclave>) -> int
    decreases es.len(),
{
    if es.len() == 0 {
        0
    } else {
        region_sum(es.drop_last()) + region_contribution(es.last())
    }
}

/// Replacing one record changes the sum by the difference of the two
/// records' contributions.
pub proof fn lemma_region_sum_update(es: Seq<Enclave>, i: int, e: Enclave)
    requires
        0 <= i < es.len(),
    ensures
        region_sum(es.update(i, e)) == region_sum(es) - region_contribution(es[i])
            + region_contribution(e),
    decreases es.len(),
{
    let t = es.update(i, e);
    if i == es.len() - 1 {
        assert(t.drop_last() =~= es.drop_last());
    } else {
        assert(t.drop_last() =~= es.drop_last().update(i, e));
        lemma_region_sum_update(es.drop_last(), i, e);
    }
}

/// Per-record invariants: the fixed capacities, and the agreement of
/// `n_thread` with the state machine. No transition of this core
/// produces `Stopped` (a stopped thread merely parks while the record
/// stays `Running`), so a well-formed table never holds it.
pub open spec fn enclave_wf(e: Enclave) -> bool {
    &&& e.regions@.len() == ENCLAVE_REGIONS_MAX
    &&& e.hash@.len() == MDSIZE
    &&& e.n_thread <= MAX_ENCL_THREADS
    &&& !(e.state is Stopped)
    &&& (e.state is Running ==> e.n_thread >= 1)
    &&& (e.state is Initialized ==> e.n_thread == 0)
    &&& (e.state is Invalid ==> e.n_thread == 0 && forall|j: int|
        0 <= j < ENCLAVE_REGIONS_MAX ==> e.regions@[j].region_type is Invalid)
}

/// Everything the global lock protects, plus the monitor's identity
/// material. Exclusive access (`&mut Monitor`) models holding the lock.
pub struct Monitor {
    pub enclaves: Vec<Enclave>,
    pub pmp: Pmp,
    pub dev_public_key: Vec<u8>,
    pub sm_hash: Vec<u8>,
    pub sm_public_key: Vec<u8>,
    pub sm_signature: Vec<u8>,
}

/// The resource-accounting balance: the number of PMP reservations held
/// equals the sum over enclaves at least `Fresh` of their installed
/// region counts. A fresh monitor satisfies it with zero on both sides,
/// and every operation preserves it, which is exactly the absence of
/// reservation leaks on every failure path.
pub open spec fn pmp_balanced(m: Monitor) -> bool {
    count_in_use(m.pmp.slots@) == region_sum(m.enclaves@)
}

/// Entry `j` of enclave `i` is installed in a record that is at least
/// `Fresh`.
pub open spec fn valid_region(m: Monitor, i: int, j: int) -> bool {
    &&& 0 <= i < ENCLAVE_MAX
    &&& 0 <= j < ENCLAVE_REGIONS_MAX
    &&& state_lvl(m.enclaves@[i].state) >= 1
    &&& !(m.enclaves@[i].regions@[j].region_type is Invalid)
}

impl Monitor {
    /// Table and driver invariants, identity material of the right
    /// shapes, per-record invariants, and the region-ownership
    /// discipline: every installed region of a live record names a live
    /// PMP reservation, and no reservation is named twice.
    pub open spec fn wf(self) -> bool {
        &&& self.enclaves@.len() == ENCLAVE_MAX
        &&& self.pmp.wf()
        &&& self.dev_public_key@.len() == PUBLIC_KEY_SIZE
        &&& self.sm_hash@.len() == MDSIZE
        &&& self.sm_public_key@.len() == PUBLIC_KEY_SIZE
        &&& self.sm_signature@.len() == SIGNATURE_SIZE
        &&& forall|i: int| 0 <= i < ENCLAVE_MAX ==> enclave_wf(self.enclaves@[i])
        &&& forall|i: int, j: int|
            valid_region(self, i, j) ==> self.pmp.live(
                self.enclaves@[i].regions@[j].pmp_rid as int,
            )
        &&& forall|i1: int, j1: int, i2: int, j2: int|
            valid_region(self, i1, j1) && valid_region(self, i2, j2) && !(i1 == i2 && j1 == j2)
                ==> self.enclaves@[i1].regions@[j1].pmp_rid
                != self.enclaves@[i2].regions@[j2].pmp_rid
    }

    /// `[addr, addr + size)` lies inside one installed region of enclave
    /// `eid`: the bound every enclave-side copy pointer must satisfy.
    pub open spec fn within_enclave_region(self, eid: int, addr: int, size: int) -> bool {
        exists|j: int|
            {
                &&& 0 <= j < ENCLAVE_REGIONS_MAX
                &&& !(self.enclaves@[eid].regions@[j].region_type is Invalid)
                &&& self.pmp.slots@[self.enclaves@[eid].regions@[j].pmp_rid as int].base <= addr
                &&& addr + size <= self.pmp.slots@[self.enclaves@[eid].regions@[j].pmp_rid
                    as int].base + self.pmp.slots@[self.enclaves@[eid].regions@[j].pmp_rid
                    as int].size
            }
    }

    /// The slot `eid` holds an enclave, that is one whose state is at
    /// least `Fresh`.
    pub open spec fn enclave_exists_spec(self, eid: int) -> bool {
        0 <= eid < ENCLAVE_MAX && state_lvl(self.enclaves@[eid].state) >= 1
    }
}

/// A blank table slot: `Invalid`, no regions, a zero measurement.
pub fn blank_enclave() -> (e: Enclave)
    ensures
        enclave_wf(e),
        e.state is Invalid,
        count_regions(e.regions@) == 0,
        region_contribution(e) == 0,
{
    let mut regions: Vec<EnclaveRegion> = Vec::new();
    let mut i: usize = 0;
    while i < ENCLAVE_REGIONS_MAX
        invariant
            i <= ENCLAVE_REGIONS_MAX,
            regions@.len() == i,
            forall|j: int| 0 <= j < i ==> regions@[j].region_type is Invalid,
            count_regions(regions@) == 0,
        decreases ENCLAVE_REGIONS_MAX - i,
    {
        let r = EnclaveRegion { pmp_rid: 0, region_type: RegionType::Invalid };
        proof {
            assert(regions@.push(r).drop_last() =~= regions@);
        }
        regions.push(r);
        i += 1;
    }
    let mut hash: Vec<u8> = Vec::new();
    let mut k: usize = 0;
    while k < MDSIZE
        invariant
            k <= MDSIZE,
            hash@.len() == k,
        decreases MDSIZE - k,
    {
        hash.push(0u8);
        k += 1;
    }
    Enclave {
        state: EnclaveState::Invalid,
        regions,
        hash,
        encl_satp: 0,
        n_thread: 0,
        params: RuntimeParams {
            runtime_entry: 0,
            user_entry: 0,
            untrusted_ptr: 0,
            untrusted_size: 0,
        },
        pa_params: RuntimePaParams {
            dram_base: 0,
            dram_size: 0,
            runtime_base: 0,
            user_base: 0,
            free_base: 0,
        },
    }
}

impl Monitor {
    /// A monitor with an empty table, all PMP slots free, and the given
    /// identity material.
    pub fn new(
        dev_public_key: Vec<u8>,
        sm_hash: Vec<u8>,
        sm_public_key: Vec<u8>,
        sm_signature: Vec<u8>,
    ) -> (m: Monitor)
        requires
            dev_public_key@.len() == PUBLIC_KEY_SIZE,
            sm_hash@.len() == MDSIZE,
            sm_public_key@.len() == PUBLIC_KEY_SIZE,
            sm_signature@.len() == SIGNATURE_SIZE,
        ensures
            m.wf(),
            forall|i: int| 0 <= i < ENCLAVE_MAX ==> m.enclaves@[i].state is Invalid,
            forall|i: int| 0 <= i < PMP_MAX_REGIONS ==> !m.pmp.slots@[i].in_use,
            count_in_use(m.pmp.slots@) == 0,
            region_sum(m.enclaves@) == 0,
            pmp_balanced(m),
            m.dev_public_key == dev_public_key,
            m.sm_hash == sm_hash,
            m.sm_public_key == sm_public_key,
            m.sm_signature == sm_signature,
    {
        let mut enclaves: Vec<Enclave> = Vec::new();
        let mut i: usize = 0;
        while i < ENCLAVE_MAX
            invariant
                i <= ENCLAVE_MAX,
                enclaves@.len() == i,
                forall|j: int|
                    0 <= j < i ==> enclave_wf(enclaves@[j]) && enclaves@[j].state is Invalid,
                region_sum(enclaves@) == 0,
            decreases ENCLAVE_MAX - i,
        {
            let e = blank_enclave();
            proof {
                assert(enclaves@.push(e).drop_last() =~= enclaves@);
            }
            enclaves.push(e);
            i += 1;
        }
        Monitor { enclaves, pmp: Pmp::new(), dev_public_key, sm_hash, sm_public_key, sm_signature }
    }

    /// First free table slot, the EID allocator's scan.
    pub fn find_free_eid(&self) -> (r: Option<usize>)
        requires
            self.wf(),
        ensures
            r matches Some(eid) ==> {
                &&& eid < ENCLAVE_MAX
                &&& self.enclaves@[eid as int].state is Invalid
                &&& forall|j: int| 0 <= j < eid ==> !(self.enclaves@[j].state is Invalid)
            },
            r is None ==> forall|j: int|
                0 <= j < ENCLAVE_MAX ==> !(self.enclaves@[j].state is Invalid),
    {
        let mut i: usize = 0;
        while i < ENCLAVE_MAX
            invariant
                self.wf(),
                i <= ENCLAVE_MAX,
                forall|j: int| 0 <= j < i ==> !(self.enclaves@[j].state is Invalid),
            decreases ENCLAVE_MAX - i,
        {
            if matches!(self.enclaves[i].state, EnclaveState::Invalid) {
                return Some(i);
            }
            i += 1;
        }
        None
    }

    /// Whether slot `eid` holds an enclave: its state is at least
    /// `Fresh`.
    pub fn enclave_exists(&self, eid: usize) -> (r: bool)
        requires
            self.wf(),
        ensures
            r == self.enclave_exists_spec(eid as int),
    {
        eid < ENCLAVE_MAX && crate::codes::lvl_of(self.enclaves[eid].state) >= 1
    }
}


/// Well-formedness only reads the table and the PMP slots: a monitor
/// whose views are unchanged is still well-formed.
pub proof fn lemma_wf_unchanged(pre: Monitor, post: Monitor)
    requires
        pre.wf(),
        post.enclaves@ == pre.enclaves@,
        post.pmp.slots@ == pre.pmp.slots@,
        post.dev_public_key@ == pre.dev_public_key@,
        post.sm_hash@ == pre.sm_hash@,
        post.sm_public_key@ == pre.sm_public_key@,
        post.sm_signature@ == pre.sm_signature@,
    ensures
        post.wf(),
{
    assert forall|i: int, j: int| valid_region(post, i, j) implies post.pmp.live(
        post.enclaves@[i].regions@[j].pmp_rid as int,
    ) by {
        assert(valid_region(pre, i, j));
    }
    assert forall|i1: int, j1: int, i2: int, j2: int|
        valid_region(post, i1, j1) && valid_region(post, i2, j2) && !(i1 == i2 && j1
            == j2) implies post.enclaves@[i1].regions@[j1].pmp_rid
        != post.enclaves@[i2].regions@[j2].pmp_rid by {
        assert(valid_region(pre, i1, j1));
        assert(valid_region(pre, i2, j2));
    }
}

/// Committing a new record whose two regions sit in two previously free
/// PMP slots keeps the monitor well-formed: the fresh reservation ids
/// collide neither with each other nor with any region installed before.
pub proof fn lemma_wf_after_create(pre: Monitor, post: Monitor, eid: int, rid0: int, rid1: int)
    requires
        pre.wf(),
        0 <= eid < ENCLAVE_MAX,
        post.enclaves@.len() == ENCLAVE_MAX,
        post.enclaves@ == pre.enclaves@.update(eid, post.enclaves@[eid]),
        enclave_wf(post.enclaves@[eid]),
        post.enclaves@[eid].regions@[0].pmp_rid == rid0,
        post.enclaves@[eid].regions@[1].pmp_rid == rid1,
        forall|j: int|
            2 <= j < ENCLAVE_REGIONS_MAX ==> post.enclaves@[eid].regions@[j].region_type
                is Invalid,
        0 <= rid0 < PMP_MAX_REGIONS,
        0 <= rid1 < PMP_MAX_REGIONS,
        rid0 != rid1,
        !pre.pmp.slots@[rid0].in_use,
        !pre.pmp.slots@[rid1].in_use,
        post.pmp.wf(),
        post.pmp.slots@.len() == PMP_MAX_REGIONS,
        post.pmp.slots@[rid0].in_use,
        post.pmp.slots@[rid1].in_use,
        forall|k: int|
            0 <= k < PMP_MAX_REGIONS && k != rid0 && k != rid1 ==> post.pmp.slots@[k]
                == pre.pmp.slots@[k],
        post.dev_public_key@ == pre.dev_public_key@,
        post.sm_hash@ == pre.sm_hash@,
        post.sm_public_key@ == pre.sm_public_key@,
        post.sm_signature@ == pre.sm_signature@,
    ensures
        post.wf(),
{
    assert forall|i: int| 0 <= i < ENCLAVE_MAX implies enclave_wf(post.enclaves@[i]) by {
        if i != eid {
            assert(post.enclaves@[i] == pre.enclaves@[i]);
        }
    }
    assert forall|i: int, j: int| valid_region(post, i, j) implies post.pmp.live(
        post.enclaves@[i].regions@[j].pmp_rid as int,
    ) by {
        if i != eid {
            assert(valid_region(pre, i, j));
            let r = pre.enclaves@[i].regions@[j].pmp_rid as int;
            assert(pre.pmp.live(r));
            assert(r != rid0 && r != rid1);
        }
    }
    assert forall|i1: int, j1: int, i2: int, j2: int|
        valid_region(post, i1, j1) && valid_region(post, i2, j2) && !(i1 == i2 && j1
            == j2) implies post.enclaves@[i1].regions@[j1].pmp_rid
        != post.enclaves@[i2].regions@[j2].pmp_rid by {
        if i1 != eid && i2 != eid {
            assert(valid_region(pre, i1, j1));
            assert(valid_region(pre, i2, j2));
        } else if i1 == eid && i2 != eid {
            assert(valid_region(pre, i2, j2));
            let r = pre.enclaves@[i2].regions@[j2].pmp_rid as int;
            assert(pre.pmp.live(r));
            assert(r != rid0 && r != rid1);
        } else if i1 != eid && i2 == eid {
            assert(valid_region(pre, i1, j1));
            let r = pre.enclaves@[i1].regions@[j1].pmp_rid as int;
            assert(pre.pmp.live(r));
            assert(r != rid0 && r != rid1);
        }
    }
}

} // verus!
