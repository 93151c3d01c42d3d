//! Fixed constants, return codes, and the enclave state enumeration.

use vstd::prelude::*;

verus! {

/// Number of slots in the enclave table.
pub const ENCLAVE_MAX: usize = 16;

/// Fixed capacity of each enclave's region array.
pub const ENCLAVE_REGIONS_MAX: usize = 8;

/// Upper bound on concurrently executing hardware threads per enclave.
pub const MAX_ENCL_THREADS: usize = 1;

/// Number of PMP slots the hardware offers.
pub const PMP_MAX_REGIONS: usize = 16;

/// log2 of the page size.
pub const RISCV_PGSHIFT: usize = 12;

/// The page size in bytes.
pub const RISCV_PGSIZE: usize = 4096;

/// Size in bytes of one machine word.
pub const WORD_SIZE: usize = 8;

/// SATP mode field for Sv39 translation, already shifted into place.
pub const SATP_MODE_SV39_FIELD: u64 = 0x8000000000000000;

/// PMP permission pattern denying the host every access.
pub const PMP_NO_PERM: u8 = 0;

/// Bytes in a public key.
pub const PUBLIC_KEY_SIZE: usize = 32;

/// Bytes in a signature.
pub const SIGNATURE_SIZE: usize = 64;

/// Bytes in a measurement digest.
pub const MDSIZE: usize = 64;

/// Largest caller-supplied payload an attestation report can carry.
pub const ATTEST_DATA_MAXLEN: usize = 1024;

/// Serialized size of the enclave-report part: payload buffer, length
/// word, measurement, signature.
pub const ENCLAVE_REPORT_BYTES: usize = ATTEST_DATA_MAXLEN + WORD_SIZE + MDSIZE + SIGNATURE_SIZE;

/// Serialized size of a whole attestation report: device key, enclave
/// report, then the monitor's hash, key and signature.
pub const REPORT_BYTES: usize = PUBLIC_KEY_SIZE + ENCLAVE_REPORT_BYTES + MDSIZE + PUBLIC_KEY_SIZE
    + SIGNATURE_SIZE;

/// Stop reason raised when a timer interrupt parked the enclave.
pub const STOP_TIMER_INTERRUPT: u64 = 0;

/// Stop reason raised when the enclave requested an edge call to the host.
pub const STOP_EDGE_CALL_HOST: u64 = 1;

/// Return codes exposed upward to the SBI dispatcher.
#[derive(Clone, Copy, PartialEq, Eq, Structural, Debug)]
pub enum EnclaveRetCode {
    Success,
    IllegalArgument,
    NotInitialized,
    NotRunnable,
    NotRunning,
    NotResumable,
    NoFreeResource,
    PmpFailure,
    RegionOverlaps,
    Interrupted,
    EdgeCallHost,
    UnknownError,
}

/// Lifecycle states of an enclave table slot.
#[derive(Clone, Copy, PartialEq, Eq, Structural, Debug)]
pub enum EnclaveState {
    Invalid,
    Fresh,
    Initialized,
    Running,
    Stopped,
}

/// Total order on the states: `Invalid < Fresh < Initialized < Running < Stopped`.
pub open spec fn state_lvl(s: EnclaveState) -> int {
    match s {
        EnclaveState::Invalid => 0,
        EnclaveState::Fresh => 1,
        EnclaveState::Initialized => 2,
        EnclaveState::Running => 3,
        EnclaveState::Stopped => 4,
    }
}

/// Executable form of [`state_lvl`].
pub fn lvl_of(s: EnclaveState) -> (r: u8)
    ensures
        r as int == state_lvl(s),
{
    match s {
        EnclaveState::Invalid => 0,
        EnclaveState::Fresh => 1,
        EnclaveState::Initialized => 2,
        EnclaveState::Running => 3,
        EnclaveState::Stopped => 4,
    }
}

/// Kind tag of one entry in an enclave's region array.
#[derive(Clone, Copy, PartialEq, Eq, Structural, Debug)]
pub enum RegionType {
    Invalid,
    Epm,
    Utm,
    Other,
}

/// Priority class a PMP reservation is requested at.
#[derive(Clone, Copy, PartialEq, Eq, Structural, Debug)]
pub enum PmpPriority {
    Any,
    Top,
    Bottom,
}

/// Why a PMP reservation was refused.
#[derive(Clone, Copy, PartialEq, Eq, Structural, Debug)]
pub enum PmpError {
    BadRange,
    Overlap,
    NoFreeSlot,
}

} // verus!
