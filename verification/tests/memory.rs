use psx_core::memory::{address_is_mapped, BusInterface, MemoryBus};

fn exe_with(pc: u32, gp: u32, dest: u32, text: &[u8], fill: u32, fill_len: u32, sp: u32, sp_off: u32) -> Vec<u8> {
    let mut exe = vec![0u8; 0x800];
    exe[0..8].copy_from_slice(b"PS-X EXE");
    exe[0x10..0x14].copy_from_slice(&pc.to_le_bytes());
    exe[0x14..0x18].copy_from_slice(&gp.to_le_bytes());
    exe[0x18..0x1c].copy_from_slice(&dest.to_le_bytes());
    exe[0x1c..0x20].copy_from_slice(&(text.len() as u32).to_le_bytes());
    exe[0x28..0x2c].copy_from_slice(&fill.to_le_bytes());
    exe[0x2c..0x30].copy_from_slice(&fill_len.to_le_bytes());
    exe[0x30..0x34].copy_from_slice(&sp.to_le_bytes());
    exe[0x34..0x38].copy_from_slice(&sp_off.to_le_bytes());
    exe.extend_from_slice(text);
    exe
}

#[test]
fn new_bus_reads_zero() {
    let bus = MemoryBus::new();
    assert_eq!(bus.read_word(0x8000_0000), 0);
    assert_eq!(bus.read_byte(0x1f00_0000), 0);
    assert_eq!(bus.read_byte(0xbfc0_0000), 0);
    assert_eq!(bus.read_byte(0x1f80_0000), 0);
}

#[test]
fn ram_byte_round_trip_and_mirrors() {
    let mut bus = MemoryBus::new();
    bus.write_byte(0x0000_1234, 0xab);
    assert_eq!(bus.read_byte(0x0000_1234), 0xab);
    assert_eq!(bus.read_byte(0x8000_1234), 0xab);
    assert_eq!(bus.read_byte(0xa000_1234), 0xab);
    assert_eq!(bus.read_byte(0x0020_1234), 0xab);
    assert_eq!(bus.read_byte(0x0060_1234), 0xab);
    assert_eq!(bus.read_byte(0x0000_1235), 0);
}

#[test]
fn words_are_little_endian() {
    let mut bus = MemoryBus::new();
    bus.write_word(0x8000_0100, 0x1234_5678);
    assert_eq!(bus.read_byte(0x8000_0100), 0x78);
    assert_eq!(bus.read_byte(0x8000_0101), 0x56);
    assert_eq!(bus.read_byte(0x8000_0102), 0x34);
    assert_eq!(bus.read_byte(0x8000_0103), 0x12);
    assert_eq!(bus.read_halfword(0x8000_0100), 0x5678);
    assert_eq!(bus.read_halfword(0x8000_0102), 0x1234);
    assert_eq!(bus.read_word(0x0000_0100), 0x1234_5678);
}

#[test]
fn halfword_round_trip() {
    let mut bus = MemoryBus::new();
    bus.write_halfword(0x1f80_0010, 0xbeef);
    assert_eq!(bus.read_halfword(0x1f80_0010), 0xbeef);
    assert_eq!(bus.read_byte(0x1f80_0010), 0xef);
    assert_eq!(bus.read_byte(0x1f80_0011), 0xbe);
}

#[test]
fn expansion_region_is_writable() {
    let mut bus = MemoryBus::new();
    bus.write_word(0x1f7f_fffc, 0xdead_beef);
    assert_eq!(bus.read_word(0x9f7f_fffc), 0xdead_beef);
}

#[test]
fn bios_is_read_only() {
    let mut bios = vec![0u8; 512 * 1024];
    bios[0] = 0x3c;
    bios[3] = 0x11;
    bios[512 * 1024 - 1] = 0x77;
    let mut bus = MemoryBus::with_bios(&bios);
    assert_eq!(bus.read_word(0xbfc0_0000), 0x1100_003c);
    assert_eq!(bus.read_byte(0x1fc7_ffff), 0x77);
    bus.write_word(0xbfc0_0000, 0);
    assert_eq!(bus.read_word(0xbfc0_0000), 0x1100_003c);
}

#[test]
fn io_ports_and_cache_control_read_ff() {
    let mut bus = MemoryBus::new();
    bus.write_byte(0x1f80_1000, 0x12);
    assert_eq!(bus.read_byte(0x1f80_1000), 0xff);
    assert_eq!(bus.read_word(0x1f80_2ffc), 0xffff_ffff);
    bus.write_word(0xfffe_0130, 0x1234);
    assert_eq!(bus.read_word(0xfffe_0130), 0xffff_ffff);
}

#[test]
fn scratchpad_round_trip() {
    let mut bus = MemoryBus::new();
    bus.write_word(0x9f80_03fc, 0x0102_0304);
    assert_eq!(bus.read_word(0x1f80_03fc), 0x0102_0304);
}

#[test]
fn mapped_addresses() {
    assert!(address_is_mapped(0x0000_0000));
    assert!(address_is_mapped(0x807f_ffff));
    assert!(!address_is_mapped(0x0080_0000));
    assert!(address_is_mapped(0xbfc7_ffff));
    assert!(!address_is_mapped(0xbfc8_0000));
    assert!(address_is_mapped(0x1f80_03ff));
    assert!(!address_is_mapped(0x1f80_0400));
    assert!(address_is_mapped(0x1f80_2fff));
    assert!(address_is_mapped(0xfffe_01ff));
    assert!(!address_is_mapped(0xfffe_0200));
    assert!(!address_is_mapped(0xc000_0000));
}

#[test]
fn load_psexe_copies_text_and_clears() {
    let mut bus = MemoryBus::new();
    bus.write_word(0x8002_0000, 0xffff_ffff);
    bus.write_word(0x8002_0004, 0xffff_ffff);
    let exe = exe_with(0x8001_0000, 0x1234, 0x8001_0000, &[1, 2, 3, 4, 5], 0x8002_0000, 4, 0x801f_ff00, 0x10);
    assert!(MemoryBus::can_load_psexe(&exe));
    let (pc, gp, sp) = bus.load_psexe(&exe);
    assert_eq!((pc, gp, sp), (0x8001_0000, 0x1234, 0x801f_ff10));
    assert_eq!(bus.read_word(0x8001_0000), 0x0403_0201);
    assert_eq!(bus.read_byte(0x8001_0004), 5);
    assert_eq!(bus.read_word(0x8002_0000), 0);
    assert_eq!(bus.read_word(0x8002_0004), 0xffff_ffff);
}

#[test]
fn load_psexe_stack_pointer_wraps() {
    let mut bus = MemoryBus::new();
    let exe = exe_with(0, 0, 0x8001_0000, &[], 0, 0, 0xffff_fff0, 0x20);
    let (_, _, sp) = bus.load_psexe(&exe);
    assert_eq!(sp, 0x10);
}

#[test]
fn executables_that_cannot_be_loaded() {
    assert!(!MemoryBus::can_load_psexe(&[0u8; 0x37]));
    let short = exe_with(0, 0, 0x8001_0000, &[1, 2, 3], 0, 0, 0, 0);
    let mut cut = short.clone();
    cut.pop();
    assert!(MemoryBus::can_load_psexe(&short));
    let mut lied = cut.clone();
    lied[0x1c] = 4;
    assert!(!MemoryBus::can_load_psexe(&lied));
    let unmapped = exe_with(0, 0, 0x807f_fffe, &[1, 2, 3], 0, 0, 0, 0);
    assert!(!MemoryBus::can_load_psexe(&unmapped));
    let bad_fill = exe_with(0, 0, 0x8001_0000, &[], 0x1f80_0400, 1, 0, 0);
    assert!(!MemoryBus::can_load_psexe(&bad_fill));
}
