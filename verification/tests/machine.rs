use rv64emu::exceptions::{handle_expection, Exceptions};
use rv64emu::memory::{Mmu, MmmuErr, DRAM_SIZE_INITIAL, DRAM_SIZE_MAX, PERM_R, PERM_W};

#[test]
fn perm_set_then_perm_get_returns_the_mask() {
    let mut mmu = Mmu::new();
    mmu.perm_set(0x3000, 5, PERM_R | PERM_W).unwrap();
    assert_eq!(mmu.perm_get(0x3000, 5).unwrap(), vec![PERM_R | PERM_W; 5]);
}

#[test]
fn dram_write_then_read_round_trips() {
    let mut mmu = Mmu::new();
    let data = [1u8, 2, 3, 4, 5];
    mmu.dram_write(0x4000, &data).unwrap();
    assert_eq!(mmu.dram_read(0x4000, 5).unwrap(), data.to_vec());
}

#[test]
fn dram_write_grows_up_to_the_cap_and_round_trips() {
    let mut mmu = Mmu::new();
    let data = [0xAAu8, 0xBB, 0xCC];
    // well past the initial 1 MiB: the region doubles until it fits
    let addr = 5 * 1024 * 1024;
    mmu.dram_write(addr, &data).unwrap();
    assert_eq!(mmu.dram_read(addr, 3).unwrap(), data.to_vec());
}

#[test]
fn growth_keeps_dram_and_permissions_the_same_length() {
    let mut mmu = Mmu::new();
    // force growth to 2 MiB through a DRAM write
    mmu.dram_write(DRAM_SIZE_INITIAL, &[1u8]).unwrap();
    // the permission vector must have grown with it
    assert!(mmu.perm_get(2 * DRAM_SIZE_INITIAL - 1, 1).is_ok());
    assert_eq!(
        mmu.perm_get(2 * DRAM_SIZE_INITIAL - 1, 1).unwrap(),
        vec![0u8]
    );
}

#[test]
fn write_past_the_cap_fails_with_the_end_offset() {
    let mut mmu = Mmu::new();
    let r = mmu.dram_set(0, DRAM_SIZE_MAX, 2);
    assert_eq!(r, Err(MmmuErr::IndexOutOfBounds(DRAM_SIZE_MAX + 2)));
    // the failed write touched nothing: reads past the initial length
    // still wrap rather than seeing grown memory
    assert!(mmu.dram_read(DRAM_SIZE_INITIAL, 1).is_err());
}

#[test]
fn circular_read_wraps_from_the_last_byte_to_address_zero() {
    let mut mmu = Mmu::new();
    mmu.dram_write(DRAM_SIZE_INITIAL - 1, &[0xAA]).unwrap();
    mmu.dram_write(0, &[0xBB]).unwrap();
    assert_eq!(
        mmu.dram_read(DRAM_SIZE_INITIAL - 1, 2).unwrap(),
        vec![0xAA, 0xBB]
    );
}

#[test]
fn read_too_large_for_dram_fails() {
    let mmu = Mmu::new();
    let r = mmu.dram_read(0, DRAM_SIZE_INITIAL + 1);
    assert_eq!(r, Err(MmmuErr::IndexOutOfBounds(DRAM_SIZE_INITIAL + 1)));
}

#[test]
fn read_starting_past_dram_fails() {
    let mmu = Mmu::new();
    let r = mmu.perm_get(DRAM_SIZE_INITIAL, 4);
    assert_eq!(r, Err(MmmuErr::IndexOutOfBounds(DRAM_SIZE_INITIAL + 4)));
}

#[test]
fn default_exception_policy_halts() {
    assert_eq!(
        handle_expection(Exceptions::ExceptionAccessFault(0x1234)),
        Ok(false)
    );
    assert_eq!(
        handle_expection(Exceptions::ExceptionInstructionAddressMisaligned(2)),
        Ok(false)
    );
    assert_eq!(
        handle_expection(Exceptions::ExceptionPageFault(0)),
        Ok(false)
    );
}
