use sm::attest::attest_enclave;
use sm::attest::sm_sign;
use sm::codes::EnclaveRetCode;
use sm::copy::copy_from_enclave;
use sm::copy::copy_from_host;
use sm::copy::copy_to_enclave;
use sm::copy::copy_word_to_host;
use sm::lifecycle::create_enclave;
use sm::lifecycle::CreateArgs;
use sm::memory::Memory;
use sm::monitor::Monitor;
use sm::monitor::RuntimeParams;

const MEM_BASE: usize = 0x80100000;
const MEM_LEN: usize = 0x600000;
const EPM_BASE: usize = 0x80200000;
const EPM_SIZE: usize = 0x200000;
const UTM_BASE: usize = 0x80400000;
const UTM_SIZE: usize = 0x100000;

fn new_monitor() -> Monitor {
    Monitor::new(vec![7u8; 32], vec![9u8; 64], vec![11u8; 32], vec![13u8; 64])
}

fn new_memory() -> Memory {
    Memory::new(MEM_BASE, MEM_LEN)
}

fn std_args() -> CreateArgs {
    CreateArgs {
        epm_paddr: EPM_BASE,
        epm_size: EPM_SIZE,
        utm_paddr: UTM_BASE,
        utm_size: UTM_SIZE,
        runtime_paddr: EPM_BASE,
        user_paddr: EPM_BASE + 0x1000,
        free_paddr: EPM_BASE + 0x2000,
        eid_pptr: MEM_BASE,
        params: RuntimeParams {
            runtime_entry: 0x1000,
            user_entry: 0x2000,
            untrusted_ptr: UTM_BASE,
            untrusted_size: UTM_SIZE,
        },
    }
}

fn created() -> (Monitor, Memory) {
    let mut m = new_monitor();
    let mut mem = new_memory();
    assert_eq!(create_enclave(&mut m, &mut mem, &std_args()), EnclaveRetCode::Success);
    (m, mem)
}

#[test]
fn overlap_guarded_word_write() {
    let mut m = new_monitor();
    let mut mem = new_memory();
    mem.write_byte(EPM_BASE + 0x10, 0x77);
    assert_eq!(create_enclave(&mut m, &mut mem, &std_args()), EnclaveRetCode::Success);
    // The destination lies inside the installed private region: refused,
    // and the byte is untouched.
    let rc = copy_word_to_host(&m, &mut mem, EPM_BASE + 0x10, 0xdead);
    assert_eq!(rc, EnclaveRetCode::RegionOverlaps);
    assert_eq!(mem.read_byte(EPM_BASE + 0x10), 0x77);
    // A host destination outside every region takes the word.
    let rc = copy_word_to_host(&m, &mut mem, MEM_BASE + 0x100, 0xdead);
    assert_eq!(rc, EnclaveRetCode::Success);
    assert_eq!(mem.read_byte(MEM_BASE + 0x100), 0xad);
    assert_eq!(mem.read_byte(MEM_BASE + 0x101), 0xde);
    assert_eq!(mem.read_byte(MEM_BASE + 0x102), 0x00);
}

#[test]
fn copy_from_host_checks_source() {
    let (m, mut mem) = created();
    mem.write_byte(MEM_BASE + 0x200, 42);
    mem.write_byte(MEM_BASE + 0x201, 43);
    let mut buf: Vec<u8> = vec![0xaa; 2];
    let rc = copy_from_host(&m, &mem, MEM_BASE + 0x200, &mut buf, 2);
    assert_eq!(rc, EnclaveRetCode::Success);
    assert_eq!(buf, vec![42, 43]);
    // A source inside the shared region overlaps a reservation: refused,
    // buffer untouched.
    let mut buf2: Vec<u8> = vec![0xaa; 2];
    let rc = copy_from_host(&m, &mem, UTM_BASE, &mut buf2, 2);
    assert_eq!(rc, EnclaveRetCode::RegionOverlaps);
    assert_eq!(buf2, vec![0xaa, 0xaa]);
}

#[test]
fn enclave_copies_are_bounded() {
    let (m, mut mem) = created();
    mem.write_byte(EPM_BASE + 4, 5);
    let got = copy_from_enclave(&m, &mem, 0, EPM_BASE + 4, 2).unwrap();
    assert_eq!(got, vec![5, 0]);
    // A source outside the enclave's regions is refused.
    assert_eq!(
        copy_from_enclave(&m, &mem, 0, MEM_BASE, 2),
        Err(EnclaveRetCode::IllegalArgument)
    );
    // A range that crosses the region's end is refused.
    assert!(copy_from_enclave(&m, &mem, 0, EPM_BASE + EPM_SIZE - 1, 2).is_err());
    let payload = vec![1u8, 2, 3];
    assert_eq!(copy_to_enclave(&m, &mut mem, 0, UTM_BASE + 8, &payload), EnclaveRetCode::Success);
    assert_eq!(mem.read_byte(UTM_BASE + 8), 1);
    assert_eq!(mem.read_byte(UTM_BASE + 10), 3);
    assert_eq!(
        copy_to_enclave(&m, &mut mem, 0, MEM_BASE + 0x40, &payload),
        EnclaveRetCode::IllegalArgument
    );
    assert_eq!(mem.read_byte(MEM_BASE + 0x40), 0);
}

#[test]
fn model_signature_exact_value() {
    let sig = sm_sign(&vec![1u8, 2, 3]);
    assert_eq!(sig.len(), 64);
    // Digest word: byte sum 6 plus length 3.
    assert_eq!(sig[0], 9);
    for i in 1..64 {
        assert_eq!(sig[i], 0);
    }
}

#[test]
fn attest_report_layout_and_signature() {
    let (m, mut mem) = created();
    let report_ptr = UTM_BASE;
    let rc = attest_enclave(&m, &mut mem, report_ptr, EPM_BASE, 64, 0);
    assert_eq!(rc, EnclaveRetCode::Success);
    // Device public key leads the report.
    assert_eq!(mem.read_byte(report_ptr), 7);
    assert_eq!(mem.read_byte(report_ptr + 31), 7);
    // Payload (zeros from enclave memory), then its length word at the
    // end of the payload buffer.
    assert_eq!(mem.read_byte(report_ptr + 32), 0);
    assert_eq!(mem.read_byte(report_ptr + 32 + 1024), 64);
    for i in 1..8 {
        assert_eq!(mem.read_byte(report_ptr + 32 + 1024 + i), 0);
    }
    // The enclave's measurement.
    assert_eq!(mem.read_byte(report_ptr + 32 + 1032 + 2), 0x20);
    assert_eq!(mem.read_byte(report_ptr + 32 + 1032 + 3), 0x80);
    // The signature covers exactly 72 + 64 = 136 leading bytes of the
    // enclave report, all zero here, so the digest word is the length.
    assert_eq!(mem.read_byte(report_ptr + 32 + 1096), 136);
    for i in 1..64 {
        assert_eq!(mem.read_byte(report_ptr + 32 + 1096 + i), 0);
    }
    // The monitor's own hash, key and signature close the report.
    assert_eq!(mem.read_byte(report_ptr + 32 + 1160), 9);
    assert_eq!(mem.read_byte(report_ptr + 32 + 1160 + 64), 11);
    assert_eq!(mem.read_byte(report_ptr + 32 + 1160 + 96), 13);
}

#[test]
fn attest_signature_sees_payload() {
    // The same call with one payload byte changed yields a different
    // signature: the byte lies inside the signed range.
    let (m, mut mem) = created();
    let rc = attest_enclave(&m, &mut mem, UTM_BASE, EPM_BASE, 64, 0);
    assert_eq!(rc, EnclaveRetCode::Success);
    let sig_before = mem.read_byte(UTM_BASE + 32 + 1096);
    let (m2, mut mem2) = created();
    mem2.write_byte(EPM_BASE + 5, 1);
    let rc = attest_enclave(&m2, &mut mem2, UTM_BASE, EPM_BASE, 64, 0);
    assert_eq!(rc, EnclaveRetCode::Success);
    let sig_after = mem2.read_byte(UTM_BASE + 32 + 1096);
    assert_eq!(sig_after, sig_before + 1);
}

#[test]
fn attest_rejects_oversized_payload() {
    let (m, mut mem) = created();
    assert_eq!(
        attest_enclave(&m, &mut mem, UTM_BASE, EPM_BASE, 1025, 0),
        EnclaveRetCode::IllegalArgument
    );
}

#[test]
fn attest_requires_initialized_enclave() {
    let m = new_monitor();
    let mut mem = new_memory();
    assert_eq!(
        attest_enclave(&m, &mut mem, UTM_BASE, EPM_BASE, 64, 0),
        EnclaveRetCode::NotInitialized
    );
}

#[test]
fn attest_over_foreign_pointer_returns_no_report() {
    let mut m = new_monitor();
    let mut mem = new_memory();
    // A second enclave whose private region will host the report pointer.
    assert_eq!(create_enclave(&mut m, &mut mem, &std_args()), EnclaveRetCode::Success);
    let mut args2 = std_args();
    args2.epm_paddr = 0x80500000;
    args2.epm_size = 0x100000;
    args2.utm_paddr = 0x80600000;
    args2.utm_size = 0x100000;
    args2.runtime_paddr = 0x80500000;
    args2.user_paddr = 0x80501000;
    args2.free_paddr = 0x80502000;
    args2.eid_pptr = MEM_BASE + 8;
    assert_eq!(create_enclave(&mut m, &mut mem, &args2), EnclaveRetCode::Success);
    // Attest enclave 0 with a report pointer inside enclave 1's private
    // region: the delivering copy is bounded to enclave 0's regions and
    // surfaces the violation; no byte of a report reaches memory.
    let foreign = 0x80500000 + 0x10;
    let before = mem.read_byte(foreign);
    let rc = attest_enclave(&m, &mut mem, foreign, EPM_BASE, 64, 0);
    assert_eq!(rc, EnclaveRetCode::IllegalArgument);
    assert_eq!(mem.read_byte(foreign), before);
    // The payload source is equally bounded.
    let rc = attest_enclave(&m, &mut mem, UTM_BASE, 0x80500000, 64, 0);
    assert_eq!(rc, EnclaveRetCode::IllegalArgument);
}

#[test]
fn attest_signature_ignores_bytes_outside_range() {
    // With a 64-byte payload the signed range covers 136 leading bytes of
    // the enclave report: the measurement field lies beyond it. Two
    // enclaves with different measurements but identical payloads get
    // reports that differ in the measurement and agree in the signature.
    let (m1, mut mem1) = created();
    assert_eq!(attest_enclave(&m1, &mut mem1, UTM_BASE, EPM_BASE, 64, 0), EnclaveRetCode::Success);
    let mut m2 = new_monitor();
    let mut mem2 = new_memory();
    let mut args = std_args();
    args.runtime_paddr = EPM_BASE + 0x800;
    assert_eq!(create_enclave(&mut m2, &mut mem2, &args), EnclaveRetCode::Success);
    assert_eq!(attest_enclave(&m2, &mut mem2, UTM_BASE, EPM_BASE, 64, 0), EnclaveRetCode::Success);
    // The measurements differ (at the runtime address's second byte)...
    assert_ne!(
        mem1.read_byte(UTM_BASE + 32 + 1032 + 17),
        mem2.read_byte(UTM_BASE + 32 + 1032 + 17)
    );
    // ...but every signature byte is the same.
    for i in 0..64 {
        assert_eq!(
            mem1.read_byte(UTM_BASE + 32 + 1096 + i),
            mem2.read_byte(UTM_BASE + 32 + 1096 + i)
        );
    }
}
