use rv_emu::Fault;
use rv_emu::mmu::{Mmu, Perm, VirtAddr, PERM_EXEC, PERM_RAW, PERM_READ, PERM_WRITE};

fn setup() -> Mmu {
    Mmu::new(2 * 1024)
}

#[test]
fn write_from_base_state() {
    let mut mmu = setup();

    mmu.write_from(VirtAddr(0x0), b"hello").unwrap();
    assert_eq!(mmu.memory[0..5], [b'h', b'e', b'l', b'l', b'o']);
}

#[test]
fn raw_perms_after_write() {
    let mut mmu = setup();

    assert!(mmu.permissions[0..5]
        .iter()
        .all(|b| b.0 == PERM_RAW | PERM_WRITE));
    mmu.write_from(VirtAddr(0x0), b"hello").unwrap();
    assert!(mmu.permissions[0..5]
        .iter()
        .all(|b| b.0 == PERM_READ | PERM_WRITE));
}

#[test]
fn read_from_raw_memory() {
    let mut mmu = setup();

    let mut buff = vec![0u8; 5];
    match mmu.read_into(&mut buff, VirtAddr(0x0)) {
        Ok(_) => {
            assert!(false, "match should fail")
        }
        Err(_) => {
            assert!(true)
        }
    }
}

#[test]
fn fresh_memory_is_write_raw_everywhere() {
    let mmu = Mmu::new(64);
    assert_eq!(mmu.memory.len(), 64);
    assert_eq!(mmu.permissions.len(), 64);
    assert!(mmu.permissions.iter().all(|p| p.0 == (PERM_WRITE | PERM_RAW)));
    assert!(mmu.memory.iter().all(|b| *b == 0));
}

#[test]
fn fresh_read_fails_with_permission_fault() {
    let mmu = Mmu::new(64);
    assert_eq!(mmu.read(VirtAddr(10), 1), Err(Fault::Permission));
    assert_eq!(mmu.read(VirtAddr(0), 64), Err(Fault::Permission));
}

#[test]
fn write_then_read_round_trip() {
    let mut mmu = setup();
    mmu.write_from(VirtAddr(0x40), b"roundtrip").unwrap();
    let back = mmu.read(VirtAddr(0x40), 9).unwrap();
    assert_eq!(back, b"roundtrip".to_vec());
}

#[test]
fn raw_promotion_after_five_bytes_at_zero() {
    let mut mmu = setup();
    mmu.write_from(VirtAddr(0), &[1, 2, 3, 4, 5]).unwrap();
    assert!(mmu.permissions[0..5]
        .iter()
        .all(|p| p.0 == (PERM_READ | PERM_WRITE)));
    let back = mmu.read(VirtAddr(0), 5).unwrap();
    assert_eq!(back, vec![1, 2, 3, 4, 5]);
    // the sixth byte was not covered by the write and stays virgin
    assert_eq!(mmu.permissions[5].0, PERM_WRITE | PERM_RAW);
}

#[test]
fn write_gate_is_all_or_nothing() {
    let mut mmu = setup();
    mmu.write_from(VirtAddr(0), &[9, 9, 9, 9]).unwrap();
    // revoke WRITE on one byte in the middle of the target range
    mmu.set_perms(VirtAddr(2), 1, Perm(PERM_READ)).unwrap();
    let r = mmu.write_from(VirtAddr(0), &[7, 7, 7, 7]);
    assert_eq!(r, Err(Fault::Permission));
    // no partial write: the whole range still holds the first write
    assert_eq!(mmu.memory[0..4], [9, 9, 9, 9]);
}

#[test]
fn out_of_bounds_read_and_write_fault() {
    let mut mmu = Mmu::new(16);
    assert_eq!(mmu.read(VirtAddr(8), 9), Err(Fault::Bounds));
    assert_eq!(mmu.read(VirtAddr(16), 1), Err(Fault::Bounds));
    assert_eq!(mmu.write_from(VirtAddr(15), &[1, 2]), Err(Fault::Bounds));
    assert_eq!(mmu.write_from(VirtAddr(usize::MAX), &[1]), Err(Fault::Bounds));
    let mut buf = vec![0u8; 4];
    assert_eq!(mmu.read_into(&mut buf, VirtAddr(14)), Err(Fault::Bounds));
}

#[test]
fn zero_length_ranges_trivially_succeed() {
    let mut mmu = Mmu::new(8);
    assert_eq!(mmu.read(VirtAddr(3), 0).unwrap(), Vec::<u8>::new());
    assert_eq!(mmu.write_from(VirtAddr(3), &[]), Ok(()));
}

#[test]
fn set_perms_overwrites_exactly_the_range() {
    let mut mmu = Mmu::new(32);
    mmu.set_perms(VirtAddr(8), 4, Perm(PERM_READ | PERM_EXEC)).unwrap();
    assert!(mmu.permissions[8..12]
        .iter()
        .all(|p| p.0 == (PERM_READ | PERM_EXEC)));
    assert_eq!(mmu.permissions[7].0, PERM_WRITE | PERM_RAW);
    assert_eq!(mmu.permissions[12].0, PERM_WRITE | PERM_RAW);
}

#[test]
fn set_perms_out_of_bounds_faults() {
    let mut mmu = Mmu::new(32);
    assert_eq!(mmu.set_perms(VirtAddr(30), 4, Perm(PERM_READ)), Err(Fault::Bounds));
}

#[test]
fn write_without_raw_does_not_touch_permissions() {
    let mut mmu = Mmu::new(16);
    // make the range plainly writable, no RAW anywhere in it
    mmu.set_perms(VirtAddr(0), 4, Perm(PERM_WRITE)).unwrap();
    mmu.write_from(VirtAddr(0), &[1, 2, 3, 4]).unwrap();
    // no promotion happened: the bytes are writable but never readable
    assert!(mmu.permissions[0..4].iter().all(|p| p.0 == PERM_WRITE));
    assert_eq!(mmu.read(VirtAddr(0), 4), Err(Fault::Permission));
}
