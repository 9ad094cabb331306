# psx_core

Core of a PlayStation (MIPS R3000A) emulator, verified with Verus.

- `src/cpu/instrs.rs` — instruction decoding. `decode_spec` is the decoding
  table over the arithmetic bit fields of a word; `Instruction::decode` and
  `Instruction::try_decode` are proved to compute it.
- `src/cpu/text.rs` — the register dump (`Cpu::to_string`), proved equal to
  `dump_text`.
- `src/cpu/coprocessor.rs` — the COP0 and GTE register files.
- `src/cpu.rs` — the CPU state (`CpuState`) and the two halves of a step:
  `begin_step` fetches and decodes, `finish_step` resolves branch delay
  slots, exceptions and delayed loads. Executing the decoded instruction
  happens between them and is not part of this crate.
- `src/memory.rs` — the memory map (`locate`), the `BusInterface` trait, the
  `MemoryBus` and PS-X EXE loading.
- `app/main.rs` — the command-line front end: reads the BIOS and an
  executable, and drives the fetch/retire loop.
