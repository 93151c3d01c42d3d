use sm::codes::PmpError;
use sm::codes::PmpPriority;
use sm::pmp::Pmp;

#[test]
fn reservations_take_first_free_slot() {
    let mut p = Pmp::new();
    assert_eq!(p.region_init(0x1000, 0x1000, PmpPriority::Any), Ok(0));
    assert_eq!(p.region_init(0x3000, 0x1000, PmpPriority::Bottom), Ok(1));
    assert_eq!(p.region_get_addr(0), 0x1000);
    assert_eq!(p.region_get_size(0), 0x1000);
    assert_eq!(p.region_get_addr(1), 0x3000);
    // Freeing slot 0 makes it the first free slot again.
    p.region_free(0);
    assert_eq!(p.region_get_addr(0), 0);
    assert_eq!(p.region_get_size(0), 0);
    assert_eq!(p.region_init(0x5000, 0x1000, PmpPriority::Any), Ok(0));
}

#[test]
fn reservation_errors() {
    let mut p = Pmp::new();
    assert_eq!(p.region_init(0x1000, 0, PmpPriority::Any), Err(PmpError::BadRange));
    assert_eq!(p.region_init(usize::MAX, 2, PmpPriority::Any), Err(PmpError::BadRange));
    assert_eq!(p.region_init(0x1000, 0x1000, PmpPriority::Any), Ok(0));
    // Any intersection with a live reservation is refused.
    assert_eq!(p.region_init(0x1800, 0x1000, PmpPriority::Any), Err(PmpError::Overlap));
    assert_eq!(p.region_init(0x0800, 0x1000, PmpPriority::Any), Err(PmpError::Overlap));
    // Adjacent ranges do not overlap.
    assert_eq!(p.region_init(0x2000, 0x1000, PmpPriority::Any), Ok(1));
    for i in 0..14 {
        assert!(p.region_init(0x10000 + i * 0x1000, 0x1000, PmpPriority::Any).is_ok());
    }
    assert_eq!(
        p.region_init(0x100000, 0x1000, PmpPriority::Any),
        Err(PmpError::NoFreeSlot)
    );
}

#[test]
fn overlap_detection() {
    let mut p = Pmp::new();
    assert!(p.region_init(0x4000, 0x2000, PmpPriority::Any).is_ok());
    assert!(p.detect_overlap(0x4000, 8));
    assert!(p.detect_overlap(0x3fff, 2));
    assert!(p.detect_overlap(0x5fff, 1));
    assert!(!p.detect_overlap(0x6000, 8));
    assert!(!p.detect_overlap(0x3000, 0x1000));
}

#[test]
fn set_global_needs_live_reservation() {
    let mut p = Pmp::new();
    assert!(p.set_global(0, 3).is_err());
    assert_eq!(p.region_init(0x1000, 0x1000, PmpPriority::Any), Ok(0));
    assert!(p.set_global(0, 3).is_ok());
    assert_eq!(p.slots[0].perm, 3);
    assert!(p.set_global(99, 3).is_err());
}
