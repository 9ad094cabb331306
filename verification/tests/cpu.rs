use psx_core::cpu::coprocessor::{Cop0, Coprocessor, Gte};
use psx_core::cpu::instrs::Instruction;
use psx_core::cpu::Cpu;
use psx_core::memory::{BusInterface, MemoryBus};

#[test]
fn new_cpu_registers() {
    let cpu = Cpu::new(0x8001_0000, 1, 2, 3);
    assert_eq!(cpu.pc(), 0x8001_0000);
    for i in 0..32u8 {
        let expected = match i {
            28 => 1,
            29 => 2,
            30 => 3,
            _ => 0,
        };
        assert_eq!(cpu.read_reg(i), expected);
    }
    assert_eq!(cpu.hi(), 0);
    assert_eq!(cpu.lo(), 0);
    assert_eq!(cpu.load_delay(), None);
    assert_eq!(cpu.taken_branch(), None);
}

#[test]
fn default_cpu_starts_at_reset_vector() {
    let cpu = Cpu::default();
    assert_eq!(cpu.pc(), 0xbfc0_0000);
    assert_eq!(cpu.read_reg(29), 0);
    assert_eq!(cpu.cop0().read_reg(12), 0);
    assert_eq!(cpu.gte().read_reg(63), 0);
}

#[test]
fn register_zero_ignores_writes() {
    let mut cpu = Cpu::default();
    cpu.write_reg(0, 0xdead_beef);
    assert_eq!(cpu.read_reg(0), 0);
    cpu.write_reg(5, 0xdead_beef);
    assert_eq!(cpu.read_reg(5), 0xdead_beef);
    assert_eq!(cpu.read_reg(4), 0);
}

#[test]
fn coprocessor_registers() {
    let mut cop0 = Cop0::new();
    cop0.write_reg(12, 0x1234);
    assert_eq!(cop0.read_reg(12), 0x1234);
    assert_eq!(cop0.read_reg(13), 0);
    assert_eq!(cop0.read_reg(64), u32::MAX);
    cop0.write_reg(200, 7);
    assert_eq!(cop0.read_reg(200), u32::MAX);
    cop0.exec(0x10);
    assert_eq!(cop0.read_reg(12), 0x1234);
    let mut gte = Gte::new();
    gte.write_reg(63, 9);
    assert_eq!(gte.read_reg(63), 9);
    assert_eq!(gte.read_reg(255), u32::MAX);
}

fn bus_with_code(words: &[u32]) -> MemoryBus {
    let mut bus = MemoryBus::new();
    for (i, w) in words.iter().enumerate() {
        bus.write_word(0x8001_0000 + 4 * i as u32, *w);
    }
    bus
}

#[test]
fn step_fetches_decodes_and_advances() {
    let bus = bus_with_code(&[0x3c08_0013]);
    let mut cpu = Cpu::new(0x8001_0000, 0, 0, 0);
    let (instr, ctx) = cpu.begin_step(&bus);
    assert_eq!(instr, Instruction::LUI { rt: 8, imm: 0x13 });
    cpu.finish_step(ctx);
    assert_eq!(cpu.pc(), 0x8001_0004);
}

#[test]
fn fetch_from_cache_control_reads_all_ones() {
    let bus = MemoryBus::new();
    let mut cpu = Cpu::new(0xfffe_01fc, 0, 0, 0);
    let (instr, ctx) = cpu.begin_step(&bus);
    assert_eq!(
        instr,
        Instruction::COP {
            n: 3,
            instr: psx_core::cpu::instrs::CopInstruction::SWC { rs: 31, rt: 31, imm: 0xffff }
        }
    );
    cpu.finish_step(ctx);
    assert_eq!(cpu.pc(), 0xfffe_0200);
}

#[test]
fn load_lands_after_delay_slot() {
    let bus = bus_with_code(&[0, 0, 0]);
    let mut cpu = Cpu::new(0x8001_0000, 0, 0, 0);
    // the first instruction issues a load into r8
    let (_, ctx) = cpu.begin_step(&bus);
    cpu.write_load_delay(8, 0x55);
    cpu.finish_step(ctx);
    assert_eq!(cpu.read_reg(8), 0);
    assert_eq!(cpu.load_delay(), Some((8, 0x55)));
    // the delay slot instruction
    let (_, ctx) = cpu.begin_step(&bus);
    assert_eq!(cpu.load_delay(), None);
    assert_eq!(cpu.read_reg(8), 0);
    cpu.finish_step(ctx);
    assert_eq!(cpu.read_reg(8), 0x55);
    assert_eq!(cpu.pc(), 0x8001_0008);
}

#[test]
fn delay_slot_write_cancels_load() {
    let bus = bus_with_code(&[0, 0]);
    let mut cpu = Cpu::new(0x8001_0000, 0, 0, 0);
    let (_, ctx) = cpu.begin_step(&bus);
    cpu.write_load_delay(9, 0x55);
    cpu.finish_step(ctx);
    let (_, ctx) = cpu.begin_step(&bus);
    cpu.write_reg(9, 0x77);
    cpu.finish_step(ctx);
    assert_eq!(cpu.read_reg(9), 0x77);
}

#[test]
fn load_into_r0_is_dropped() {
    let bus = bus_with_code(&[0, 0]);
    let mut cpu = Cpu::new(0x8001_0000, 0, 0, 0);
    let (_, ctx) = cpu.begin_step(&bus);
    cpu.write_load_delay(0, 0x55);
    cpu.finish_step(ctx);
    let (_, ctx) = cpu.begin_step(&bus);
    cpu.finish_step(ctx);
    assert_eq!(cpu.read_reg(0), 0);
}

#[test]
fn a_second_load_replaces_the_pending_one() {
    let bus = bus_with_code(&[0, 0, 0]);
    let mut cpu = Cpu::new(0x8001_0000, 0, 0, 0);
    let (_, ctx) = cpu.begin_step(&bus);
    cpu.write_load_delay(10, 1);
    cpu.finish_step(ctx);
    // the delay slot holds a load into the same register: the first is dropped
    let (_, ctx) = cpu.begin_step(&bus);
    cpu.write_load_delay(10, 2);
    cpu.finish_step(ctx);
    assert_eq!(cpu.read_reg(10), 0);
    let (_, ctx) = cpu.begin_step(&bus);
    cpu.finish_step(ctx);
    assert_eq!(cpu.read_reg(10), 2);
}

fn reference_dump(cpu: &Cpu) -> String {
    const REG_NAMES: [&str; 32] = [
        "zero", "at", "v0", "v1", "a0", "a1", "a2", "a3", "t0", "t1", "t2", "t3", "t4", "t5",
        "t6", "t7", "s0", "s1", "s2", "s3", "s4", "s5", "s6", "s7", "t8", "t9", "k0", "k1",
        "gp", "sp", "fp", "ra",
    ];
    let mut f = format!("PC: {:08X}   HI: {:08X}   LO: {:08X}\n", cpu.pc(), cpu.hi(), cpu.lo());
    for i in 0..32usize {
        f.push_str(&format!("R{:02}({:>4}): {:08X}   ", i, REG_NAMES[i], cpu.read_reg(i as u8)));
        if (i + 1) % 4 == 0 {
            f.push('\n');
        }
    }
    if let Some((reg, val)) = cpu.load_delay() {
        f.push_str(&format!("Load Delay Slot -> R{:02} = {:08X}\n", reg, val));
    }
    if let Some(pc) = cpu.taken_branch() {
        f.push_str(&format!("In branch delay -> PC = {:08X}\n", pc));
    }
    f
}

#[test]
fn register_dump_text() {
    let mut cpu = Cpu::new(0xbfc0_0180, 0x8001_2345, 0xdead_beef, 7);
    cpu.write_reg(31, 0x00ab_cdef);
    assert_eq!(cpu.to_string(), reference_dump(&cpu));
    assert!(cpu.to_string().starts_with("PC: BFC00180   HI: 00000000   LO: 00000000\n"));
    assert!(cpu.to_string().contains("R28(  gp): 80012345   R29(  sp): DEADBEEF   "));
    assert!(cpu.to_string().ends_with("R31(  ra): 00ABCDEF   \n"));
    cpu.write_load_delay(9, 0x1234);
    assert_eq!(cpu.to_string(), reference_dump(&cpu));
    assert!(cpu.to_string().ends_with("Load Delay Slot -> R09 = 00001234\n"));
    cpu.write_load_delay(200, 1);
    assert!(cpu.to_string().ends_with("Load Delay Slot -> R200 = 00000001\n"));
}

#[test]
fn out_of_range_load_is_accepted_but_cannot_land() {
    let bus = bus_with_code(&[0, 0, 0]);
    let mut cpu = Cpu::new(0x8001_0000, 0, 0, 0);
    let (_, ctx) = cpu.begin_step(&bus);
    cpu.write_load_delay(40, 0x55);
    assert_eq!(cpu.load_delay(), Some((40, 0x55)));
    assert!(cpu.can_finish_step());
    cpu.finish_step(ctx);
    let (_, ctx) = cpu.begin_step(&bus);
    assert_eq!(cpu.pending_load(), Some((40, 0x55)));
    assert!(!cpu.can_finish_step());
    // the delay slot instruction loads the same register: the first load is dropped
    cpu.write_load_delay(40, 0x66);
    assert!(cpu.can_finish_step());
    cpu.finish_step(ctx);
    assert_eq!(cpu.read_reg(8), 0);
}

#[test]
fn load_into_register_255_is_dropped_without_a_write() {
    let bus = bus_with_code(&[0, 0]);
    let mut cpu = Cpu::new(0x8001_0000, 0, 0, 0);
    let (_, ctx) = cpu.begin_step(&bus);
    cpu.write_load_delay(255, 1);
    cpu.finish_step(ctx);
    let (_, ctx) = cpu.begin_step(&bus);
    assert!(cpu.can_finish_step());
    cpu.finish_step(ctx);
    assert_eq!(cpu.pending_load(), None);
}
