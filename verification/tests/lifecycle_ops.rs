use sm::codes::EnclaveRetCode;
use sm::codes::EnclaveState;
use sm::codes::PmpPriority;
use sm::codes::STOP_EDGE_CALL_HOST;
use sm::codes::STOP_TIMER_INTERRUPT;
use sm::lifecycle::create_enclave;
use sm::lifecycle::exit_enclave;
use sm::lifecycle::resume_enclave;
use sm::lifecycle::run_enclave;
use sm::lifecycle::stop_enclave;
use sm::lifecycle::CreateArgs;
use sm::memory::Memory;
use sm::monitor::Monitor;
use sm::monitor::RuntimeParams;

const MEM_BASE: usize = 0x80100000;
const MEM_LEN: usize = 0x600000;
const EPM_BASE: usize = 0x80200000;
const EPM_SIZE: usize = 0x200000;
const UTM_BASE: usize = 0x80400000;
const UTM_SIZE: usize = 0x100000;

fn new_monitor() -> Monitor {
    Monitor::new(vec![7u8; 32], vec![9u8; 64], vec![11u8; 32], vec![13u8; 64])
}

fn new_memory() -> Memory {
    Memory::new(MEM_BASE, MEM_LEN)
}

fn std_args() -> CreateArgs {
    CreateArgs {
        epm_paddr: EPM_BASE,
        epm_size: EPM_SIZE,
        utm_paddr: UTM_BASE,
        utm_size: UTM_SIZE,
        runtime_paddr: EPM_BASE,
        user_paddr: EPM_BASE + 0x1000,
        free_paddr: EPM_BASE + 0x2000,
        eid_pptr: MEM_BASE,
        params: RuntimeParams {
            runtime_entry: 0x1000,
            user_entry: 0x2000,
            untrusted_ptr: UTM_BASE,
            untrusted_size: UTM_SIZE,
        },
    }
}

fn free_pmp_slots(m: &Monitor) -> usize {
    m.pmp.slots.iter().filter(|s| !s.in_use).count()
}

#[test]
fn happy_path_create_run_exit() {
    let mut m = new_monitor();
    let mut mem = new_memory();
    // Sentinel under the EID output word: the successful create must
    // overwrite it with the word 0.
    for i in 0..8 {
        mem.write_byte(MEM_BASE + i, 0xff);
    }
    let rc = create_enclave(&mut m, &mut mem, &std_args());
    assert_eq!(rc, EnclaveRetCode::Success);
    assert_eq!(m.enclaves[0].state, EnclaveState::Initialized);
    assert_eq!(m.enclaves[0].n_thread, 0);
    for i in 0..8 {
        assert_eq!(mem.read_byte(MEM_BASE + i), 0, "EID word written back to the host");
    }
    assert_eq!(run_enclave(&mut m, 0), EnclaveRetCode::Success);
    assert_eq!(m.enclaves[0].state, EnclaveState::Running);
    assert_eq!(m.enclaves[0].n_thread, 1);
    assert_eq!(exit_enclave(&mut m, 0, 0), EnclaveRetCode::Success);
    assert_eq!(m.enclaves[0].state, EnclaveState::Initialized);
    assert_eq!(m.enclaves[0].n_thread, 0);
}

#[test]
fn create_installs_two_reservations() {
    let mut m = new_monitor();
    let mut mem = new_memory();
    assert_eq!(free_pmp_slots(&m), 16);
    assert_eq!(create_enclave(&mut m, &mut mem, &std_args()), EnclaveRetCode::Success);
    assert_eq!(free_pmp_slots(&m), 14);
    let r0 = m.enclaves[0].regions[0];
    let r1 = m.enclaves[0].regions[1];
    assert_eq!(r0.region_type, sm::codes::RegionType::Epm);
    assert_eq!(r1.region_type, sm::codes::RegionType::Utm);
    assert_eq!(m.pmp.slots[r0.pmp_rid].base, EPM_BASE);
    assert_eq!(m.pmp.slots[r0.pmp_rid].size, EPM_SIZE);
    assert_eq!(m.pmp.slots[r1.pmp_rid].base, UTM_BASE);
    assert_eq!(m.pmp.slots[r1.pmp_rid].size, UTM_SIZE);
    assert_eq!(m.pmp.slots[r1.pmp_rid].prio, PmpPriority::Bottom);
    // Second enclave gets EID 1, written to its own output word.
    let mut args2 = std_args();
    args2.epm_paddr = 0x80500000;
    args2.epm_size = 0x100000;
    args2.utm_paddr = 0x80600000;
    args2.utm_size = 0x100000;
    args2.runtime_paddr = 0x80500000;
    args2.user_paddr = 0x80501000;
    args2.free_paddr = 0x80502000;
    args2.eid_pptr = MEM_BASE + 8;
    assert_eq!(create_enclave(&mut m, &mut mem, &args2), EnclaveRetCode::Success);
    assert_eq!(mem.read_byte(MEM_BASE + 8), 1);
    assert_eq!(free_pmp_slots(&m), 12);
}

#[test]
fn create_computes_satp() {
    let mut m = new_monitor();
    let mut mem = new_memory();
    assert_eq!(create_enclave(&mut m, &mut mem, &std_args()), EnclaveRetCode::Success);
    assert_eq!(m.enclaves[0].encl_satp, (0x80200000u64 >> 12) | 0x8000000000000000u64);
    assert_eq!(m.enclaves[0].encl_satp, 0x8000000000080200u64);
}

#[test]
fn create_rejects_bad_arguments() {
    let mut m = new_monitor();
    let mut mem = new_memory();
    let mut args = std_args();
    args.epm_size = 0;
    assert_eq!(create_enclave(&mut m, &mut mem, &args), EnclaveRetCode::IllegalArgument);
    let mut args = std_args();
    args.epm_paddr = EPM_BASE + 1; // not page-aligned
    assert_eq!(create_enclave(&mut m, &mut mem, &args), EnclaveRetCode::IllegalArgument);
    let mut args = std_args();
    args.free_paddr = EPM_BASE + EPM_SIZE + 0x1000; // runtime layout leaves the region
    assert_eq!(create_enclave(&mut m, &mut mem, &args), EnclaveRetCode::IllegalArgument);
    // Nothing was reserved or changed.
    assert_eq!(free_pmp_slots(&m), 16);
    assert_eq!(m.enclaves[0].state, EnclaveState::Invalid);
}

#[test]
fn pmp_exhaustion_unwinds_first_reservation() {
    let mut m = new_monitor();
    let mut mem = new_memory();
    // Fill all but one PMP slot with unrelated reservations.
    for i in 0..15 {
        let r = m.pmp.region_init((i + 1) * 0x1000, 0x1000, PmpPriority::Any);
        assert!(r.is_ok());
    }
    assert_eq!(free_pmp_slots(&m), 1);
    let rc = create_enclave(&mut m, &mut mem, &std_args());
    assert_eq!(rc, EnclaveRetCode::PmpFailure);
    // The private-region reservation was rolled back and the EID slot
    // stayed free.
    assert_eq!(free_pmp_slots(&m), 1);
    assert_eq!(m.enclaves[0].state, EnclaveState::Invalid);
}

#[test]
fn pmp_overlap_is_refused() {
    let mut m = new_monitor();
    let mut mem = new_memory();
    assert_eq!(create_enclave(&mut m, &mut mem, &std_args()), EnclaveRetCode::Success);
    // A second enclave over the same private region cannot be created.
    let mut args = std_args();
    args.eid_pptr = MEM_BASE + 8;
    assert_eq!(create_enclave(&mut m, &mut mem, &args), EnclaveRetCode::PmpFailure);
    assert_eq!(free_pmp_slots(&m), 14);
    assert_eq!(m.enclaves[1].state, EnclaveState::Invalid);
}

#[test]
fn stop_and_resume_keep_thread_parked() {
    let mut m = new_monitor();
    let mut mem = new_memory();
    assert_eq!(create_enclave(&mut m, &mut mem, &std_args()), EnclaveRetCode::Success);
    assert_eq!(run_enclave(&mut m, 0), EnclaveRetCode::Success);
    assert_eq!(stop_enclave(&m, STOP_TIMER_INTERRUPT, 0), EnclaveRetCode::Interrupted);
    assert_eq!(m.enclaves[0].state, EnclaveState::Running);
    assert_eq!(m.enclaves[0].n_thread, 1);
    assert_eq!(resume_enclave(&m, 0), EnclaveRetCode::Success);
    assert_eq!(m.enclaves[0].n_thread, 1);
}

#[test]
fn stop_reason_translation() {
    let mut m = new_monitor();
    let mut mem = new_memory();
    assert_eq!(create_enclave(&mut m, &mut mem, &std_args()), EnclaveRetCode::Success);
    assert_eq!(run_enclave(&mut m, 0), EnclaveRetCode::Success);
    assert_eq!(stop_enclave(&m, STOP_EDGE_CALL_HOST, 0), EnclaveRetCode::EdgeCallHost);
    assert_eq!(stop_enclave(&m, 99, 0), EnclaveRetCode::UnknownError);
}

#[test]
fn double_exit_is_refused() {
    let mut m = new_monitor();
    let mut mem = new_memory();
    assert_eq!(create_enclave(&mut m, &mut mem, &std_args()), EnclaveRetCode::Success);
    assert_eq!(exit_enclave(&mut m, 0, 0), EnclaveRetCode::NotRunning);
    assert_eq!(m.enclaves[0].state, EnclaveState::Initialized);
}

#[test]
fn run_bounds_thread_count() {
    let mut m = new_monitor();
    let mut mem = new_memory();
    assert_eq!(create_enclave(&mut m, &mut mem, &std_args()), EnclaveRetCode::Success);
    assert_eq!(run_enclave(&mut m, 0), EnclaveRetCode::Success);
    // MAX_ENCL_THREADS is 1: a second thread cannot enter.
    assert_eq!(run_enclave(&mut m, 0), EnclaveRetCode::NotRunnable);
    assert_eq!(m.enclaves[0].n_thread, 1);
}

#[test]
fn wrong_state_refusals() {
    let mut m = new_monitor();
    let mut mem = new_memory();
    assert_eq!(run_enclave(&mut m, 0), EnclaveRetCode::NotRunnable);
    assert_eq!(stop_enclave(&m, STOP_TIMER_INTERRUPT, 0), EnclaveRetCode::NotRunning);
    assert_eq!(resume_enclave(&m, 0), EnclaveRetCode::NotResumable);
    assert_eq!(exit_enclave(&mut m, 0, 0), EnclaveRetCode::NotRunning);
    // Out-of-range EIDs get the same refusals.
    assert_eq!(run_enclave(&mut m, 999), EnclaveRetCode::NotRunnable);
    assert_eq!(create_enclave(&mut m, &mut mem, &std_args()), EnclaveRetCode::Success);
    assert_eq!(resume_enclave(&m, 0), EnclaveRetCode::NotResumable);
}

#[test]
fn region_accessors() {
    let mut m = new_monitor();
    let mut mem = new_memory();
    assert_eq!(create_enclave(&mut m, &mut mem, &std_args()), EnclaveRetCode::Success);
    let epm_idx = sm::lifecycle::get_enclave_region_index(&m, 0, sm::codes::RegionType::Epm);
    let utm_idx = sm::lifecycle::get_enclave_region_index(&m, 0, sm::codes::RegionType::Utm);
    assert_eq!(epm_idx, 0);
    assert_eq!(utm_idx, 1);
    assert_eq!(
        sm::lifecycle::get_enclave_region_index(&m, 0, sm::codes::RegionType::Other),
        -1
    );
    assert_eq!(sm::lifecycle::get_enclave_region_base(&m, 0, 0), EPM_BASE);
    assert_eq!(sm::lifecycle::get_enclave_region_size(&m, 0, 0), EPM_SIZE);
    assert_eq!(sm::lifecycle::get_enclave_region_base(&m, 0, 1), UTM_BASE);
    assert_eq!(sm::lifecycle::get_enclave_region_size(&m, 0, 1), UTM_SIZE);
    // Out-of-range region indices read as 0.
    assert_eq!(sm::lifecycle::get_enclave_region_size(&m, 0, -1), 0);
    assert_eq!(sm::lifecycle::get_enclave_region_size(&m, 0, 8), 0);
    assert_eq!(sm::lifecycle::get_enclave_region_base(&m, 0, -1), 0);
    assert_eq!(sm::lifecycle::get_enclave_region_base(&m, 0, 8), 0);
}

#[test]
fn measurement_binds_layout() {
    let args = std_args();
    let h = sm::lifecycle::compute_measurement(&args);
    assert_eq!(h.len(), 64);
    // Little-endian epm base 0x80200000, then epm size 0x200000.
    assert_eq!(&h[0..8], &[0x00, 0x00, 0x20, 0x80, 0, 0, 0, 0]);
    assert_eq!(&h[8..16], &[0x00, 0x00, 0x20, 0x00, 0, 0, 0, 0]);
    // runtime / user / free addresses follow; tail is zero.
    assert_eq!(h[16], 0x00);
    assert_eq!(h[19], 0x80);
    for i in 40..64 {
        assert_eq!(h[i], 0);
    }
    let mut m = new_monitor();
    let mut mem = new_memory();
    assert_eq!(create_enclave(&mut m, &mut mem, &args), EnclaveRetCode::Success);
    assert_eq!(m.enclaves[0].hash, h);
}
