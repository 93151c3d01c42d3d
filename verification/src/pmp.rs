//! Model of the PMP driver: a fixed set of hardware protection slots.
//!
//! A reservation claims the first free slot for one physical address
//! range. Reservations never overlap: `region_init` refuses a range that
//! intersects any live slot, which is what makes the monitor's
//! no-aliasing invariants hold.

use vstd::prelude::*;

use crate::codes::PMP_MAX_REGIONS;
use crate::codes::PMP_NO_PERM;
use crate::codes::PmpError;
use crate::codes::PmpPriority;

verus! {

/// One hardware PMP slot.
pub struct PmpSlot {
    pub in_use: bool,
    pub base: usize,
    pub size: usize,
    pub prio: PmpPriority,
    pub perm: u8,
}

/// `[a, a + s)` and `[b, b + t)` share at least one address.
pub open spec fn ranges_overlap(a: int, s: int, b: int, t: int) -> bool {
    a < b + t && b < a + s
}

/// How many slots are reserved.
pub open spec fn count_in_use(s: Seq<PmpSlot>) -> int
    decreases s.len(),
{
    if s.len() == 0 {
        0
    } else {
        count_in_use(s.drop_last()) + if s.last().in_use {
            1int
        } else {
            0int
        }
    }
}

/// Replacing one slot changes the reservation count by the difference of
/// the two slots' `in_use` flags.
pub proof fn lemma_count_update(s: Seq<PmpSlot>, i: int, v: PmpSlot)
    requires
        0 <= i < s.len(),
    ensures
        count_in_use(s.update(i, v)) == count_in_use(s) - (if s[i].in_use {
            1int
        } else {
            0int
        }) + (if v.in_use {
            1int
        } else {
            0int
        }),
    decreases s.len(),
{
    let t = s.update(i, v);
    if i == s.len() - 1 {
        assert(t.drop_last() =~= s.drop_last());
    } else {
        assert(t.drop_last() =~= s.drop_last().update(i, v));
        lemma_count_update(s.drop_last(), i, v);
    }
}

/// The driver's state: all `PMP_MAX_REGIONS` hardware slots.
pub struct Pmp {
    pub slots: Vec<PmpSlot>,
}

/// A range a slot may hold: non-empty and not wrapping the address space.
pub open spec fn valid_range(base: int, size: int) -> bool {
    size > 0 && base + size <= usize::MAX
}

impl Pmp {
    /// All slots exist, live slots hold valid ranges, free slots hold no
    /// stale configuration, and no two live slots overlap.
    pub open spec fn wf(self) -> bool {
        &&& self.slots@.len() == PMP_MAX_REGIONS
        &&& forall|i: int|
            0 <= i < PMP_MAX_REGIONS && self.slots@[i].in_use ==> valid_range(
                self.slots@[i].base as int,
                self.slots@[i].size as int,
            )
        &&& forall|i: int|
            0 <= i < PMP_MAX_REGIONS && !self.slots@[i].in_use ==> self.slots@[i]
                == (PmpSlot { in_use: false, base: 0, size: 0, prio: PmpPriority::Any, perm: 0 })
        &&& forall|i: int, j: int|
            0 <= i < PMP_MAX_REGIONS && 0 <= j < PMP_MAX_REGIONS && i != j && self.slots@[i].in_use
                && self.slots@[j].in_use ==> !ranges_overlap(
                self.slots@[i].base as int,
                self.slots@[i].size as int,
                self.slots@[j].base as int,
                self.slots@[j].size as int,
            )
    }

    /// `[addr, addr + size)` intersects some live reservation.
    pub open spec fn slot_overlaps(self, addr: int, size: int) -> bool {
        exists|i: int|
            0 <= i < PMP_MAX_REGIONS && self.slots@[i].in_use && ranges_overlap(
                self.slots@[i].base as int,
                self.slots@[i].size as int,
                addr,
                size,
            )
    }

    /// Some slot is still free.
    pub open spec fn has_free_slot(self) -> bool {
        exists|i: int| 0 <= i < PMP_MAX_REGIONS && !self.slots@[i].in_use
    }

    /// `rid` names a live reservation.
    pub open spec fn live(self, rid: int) -> bool {
        0 <= rid < PMP_MAX_REGIONS && self.slots@[rid].in_use
    }

    /// All slots free.
    pub fn new() -> (r: Pmp)
        ensures
            r.wf(),
            forall|i: int| 0 <= i < PMP_MAX_REGIONS ==> !r.slots@[i].in_use,
            count_in_use(r.slots@) == 0,
    {
        let mut slots: Vec<PmpSlot> = Vec::new();
        let mut i: usize = 0;
        while i < PMP_MAX_REGIONS
            invariant
                i <= PMP_MAX_REGIONS,
                slots@.len() == i,
                forall|j: int|
                    0 <= j < i ==> slots@[j] == (PmpSlot {
                        in_use: false,
                        base: 0,
                        size: 0,
                        prio: PmpPriority::Any,
                        perm: 0,
                    }),
                count_in_use(slots@) == 0,
            decreases PMP_MAX_REGIONS - i,
        {
            let s = PmpSlot { in_use: false, base: 0, size: 0, prio: PmpPriority::Any, perm: 0 };
            proof {
                assert(slots@.push(s).drop_last() =~= slots@);
            }
            slots.push(s);
            i += 1;
        }
        Pmp { slots }
    }

    /// Whether `[addr, addr + size)` intersects a live reservation. This
    /// is the query every cross-domain copy makes before touching memory.
    pub fn detect_overlap(&self, addr: usize, size: usize) -> (r: bool)
        requires
            self.wf(),
            addr + size <= usize::MAX,
        ensures
            r == self.slot_overlaps(addr as int, size as int),
    {
        let mut i: usize = 0;
        let mut found = false;
        while i < PMP_MAX_REGIONS
            invariant
                self.wf(),
                addr + size <= usize::MAX,
                i <= PMP_MAX_REGIONS,
                found == exists|k: int|
                    0 <= k < i && self.slots@[k].in_use && ranges_overlap(
                        self.slots@[k].base as int,
                        self.slots@[k].size as int,
                        addr as int,
                        size as int,
                    ),
            decreases PMP_MAX_REGIONS - i,
        {
            let s = &self.slots[i];
            if s.in_use && s.base < addr + size && addr < s.base + s.size {
                found = true;
            }
            i += 1;
        }
        found
    }

    /// Reserve the first free slot for `[base, base + size)`.
    ///
    /// Succeeds exactly when the range is valid, a slot is free, and the
    /// range overlaps no live reservation; the error tells which check
    /// failed, in that order of priority: range, overlap, exhaustion.
    pub fn region_init(&mut self, base: usize, size: usize, prio: PmpPriority) -> (r: Result<
        usize,
        PmpError,
    >)
        requires
            old(self).wf(),
        ensures
            final(self).wf(),
            r is Ok <==> (valid_range(base as int, size as int) && old(self).has_free_slot()
                && !old(self).slot_overlaps(base as int, size as int)),
            r matches Ok(rid) ==> {
                &&& rid < PMP_MAX_REGIONS
                &&& !old(self).slots@[rid as int].in_use
                &&& forall|j: int| 0 <= j < rid ==> old(self).slots@[j].in_use
                &&& final(self).slots@ == old(self).slots@.update(
                    rid as int,
                    (PmpSlot { in_use: true, base, size, prio, perm: PMP_NO_PERM }),
                )
            },
            r is Err ==> final(self).slots@ == old(self).slots@,
            r matches Err(e) ==> e == (if !valid_range(base as int, size as int) {
                PmpError::BadRange
            } else if old(self).slot_overlaps(base as int, size as int) {
                PmpError::Overlap
            } else {
                PmpError::NoFreeSlot
            }),
    {
        if !(size > 0 && base <= usize::MAX - size) {
            return Err(PmpError::BadRange);
        }
        if self.detect_overlap(base, size) {
            return Err(PmpError::Overlap);
        }
        let mut i: usize = 0;
        while i < PMP_MAX_REGIONS
            invariant
                self.wf(),
                self.slots@ == old(self).slots@,
                valid_range(base as int, size as int),
                !old(self).slot_overlaps(base as int, size as int),
                i <= PMP_MAX_REGIONS,
                forall|j: int| 0 <= j < i ==> self.slots@[j].in_use,
            decreases PMP_MAX_REGIONS - i,
        {
            if !self.slots[i].in_use {
                let s = PmpSlot { in_use: true, base, size, prio, perm: PMP_NO_PERM };
                self.slots.set(i, s);
                return Ok(i);
            }
            i += 1;
        }
        Err(PmpError::NoFreeSlot)
    }

    /// Release the reservation `rid`. A `rid` that names no slot is
    /// ignored.
    pub fn region_free(&mut self, rid: usize)
        requires
            old(self).wf(),
        ensures
            final(self).wf(),
            rid < PMP_MAX_REGIONS ==> final(self).slots@ == old(self).slots@.update(
                rid as int,
                (PmpSlot { in_use: false, base: 0, size: 0, prio: PmpPriority::Any, perm: 0 }),
            ),
            rid >= PMP_MAX_REGIONS ==> final(self).slots@ == old(self).slots@,
    {
        if rid < PMP_MAX_REGIONS {
            self.slots.set(
                rid,
                PmpSlot { in_use: false, base: 0, size: 0, prio: PmpPriority::Any, perm: 0 },
            );
        }
    }

    /// Install the permission pattern `perm` on reservation `rid` for all
    /// harts. Succeeds exactly when `rid` names a live reservation.
    pub fn set_global(&mut self, rid: usize, perm: u8) -> (r: Result<(), ()>)
        requires
            old(self).wf(),
        ensures
            final(self).wf(),
            r is Ok <==> old(self).live(rid as int),
            r is Ok ==> final(self).slots@ == old(self).slots@.update(
                rid as int,
                (PmpSlot { perm, ..old(self).slots@[rid as int] }),
            ),
            r is Err ==> final(self).slots@ == old(self).slots@,
    {
        if rid < PMP_MAX_REGIONS && self.slots[rid].in_use {
            let s = PmpSlot {
                in_use: self.slots[rid].in_use,
                base: self.slots[rid].base,
                size: self.slots[rid].size,
                prio: self.slots[rid].prio,
                perm,
            };
            self.slots.set(rid, s);
            Ok(())
        } else {
            Err(())
        }
    }

    /// Base address of reservation `rid`; 0 if `rid` names no live slot.
    pub fn region_get_addr(&self, rid: usize) -> (r: usize)
        requires
            self.wf(),
        ensures
            r == if self.live(rid as int) {
                self.slots@[rid as int].base
            } else {
                0usize
            },
    {
        if rid < PMP_MAX_REGIONS && self.slots[rid].in_use {
            self.slots[rid].base
        } else {
            0
        }
    }

    /// Size of reservation `rid`; 0 if `rid` names no live slot.
    pub fn region_get_size(&self, rid: usize) -> (r: usize)
        requires
            self.wf(),
        ensures
            r == if self.live(rid as int) {
                self.slots@[rid as int].size
            } else {
                0usize
            },
    {
        if rid < PMP_MAX_REGIONS && self.slots[rid].in_use {
            self.slots[rid].size
        } else {
            0
        }
    }
}

} // verus!
