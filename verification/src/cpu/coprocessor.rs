//! The register files of the system control coprocessor (COP0) and of the
//! geometry transformation engine (GTE, COP2).
use vstd::prelude::*;

verus! {

/// What reading register `reg` of a register file gives: the register where
/// it exists, all ones otherwise.
pub open spec fn cop_read(regs: Seq<u32>, reg: u8) -> u32 {
    if reg < 64 {
        regs[reg as int]
    } else {
        u32::MAX
    }
}

/// The register file after writing `val` to register `reg`; a write to a
/// register that does not exist changes nothing.
pub open spec fn cop_write(regs: Seq<u32>, reg: u8, val: u32) -> Seq<u32> {
    if reg < 64 {
        regs.update(reg as int, val)
    } else {
        regs
    }
}

/// A coprocessor seen from the CPU: a register file and a command port.
pub trait Coprocessor {
    fn read_reg(&self, reg: u8) -> u32;

    fn write_reg(&mut self, reg: u8, val: u32);

    fn exec(&mut self, cmd: u32);
}

/// The system control coprocessor.
pub struct Cop0 {
    regs: [u32; 64],
}

impl View for Cop0 {
    type V = Seq<u32>;

    /// The 64 registers.
    closed spec fn view(&self) -> Seq<u32> {
        self.regs@
    }
}

impl Cop0 {
    /// A register file always holds 64 registers.
    pub broadcast proof fn lemma_size(&self)
        ensures
            #[trigger] self@.len() == 64,
    {
    }

    /// A register file with every register zero.
    pub fn new() -> (r: Self)
        ensures
            r@ == Seq::new(64, |i: int| 0u32),
    {
        let r = Self { regs: [0u32; 64] };
        assert(r@ =~= Seq::new(64, |i: int| 0u32));
        r
    }
}

impl Coprocessor for Cop0 {
    fn read_reg(&self, reg: u8) -> (r: u32)
        ensures
            self@.len() == 64,
            r == cop_read(self@, reg),
    {
        match reg {
            0..=63 => self.regs[reg as usize],
            _ => u32::MAX,
        }
    }

    fn write_reg(&mut self, reg: u8, val: u32)
        ensures
            old(self)@.len() == 64,
            final(self)@.len() == 64,
            final(self)@ == cop_write(old(self)@, reg, val),
    {
        if let 0..=63 = reg {
            self.regs[reg as usize] = val
        }
    }

    fn exec(&mut self, cmd: u32)
        ensures
            final(self)@.len() == 64,
            final(self)@ == old(self)@,
    {
    }
}

/// The geometry transformation engine.
pub struct Gte {
    regs: [u32; 64],
}

impl View for Gte {
    type V = Seq<u32>;

    /// The 64 registers.
    closed spec fn view(&self) -> Seq<u32> {
        self.regs@
    }
}

impl Gte {
    /// A register file always holds 64 registers.
    pub broadcast proof fn lemma_size(&self)
        ensures
            #[trigger] self@.len() == 64,
    {
    }

    /// A register file with every register zero.
    pub fn new() -> (r: Self)
        ensures
            r@ == Seq::new(64, |i: int| 0u32),
    {
        let r = Self { regs: [0u32; 64] };
        assert(r@ =~= Seq::new(64, |i: int| 0u32));
        r
    }
}

impl Coprocessor for Gte {
    fn read_reg(&self, reg: u8) -> (r: u32)
        ensures
            self@.len() == 64,
            r == cop_read(self@, reg),
    {
        match reg {
            0..=63 => self.regs[reg as usize],
            _ => u32::MAX,
        }
    }

    fn write_reg(&mut self, reg: u8, val: u32)
        ensures
            old(self)@.len() == 64,
            final(self)@.len() == 64,
            final(self)@ == cop_write(old(self)@, reg, val),
    {
        if let 0..=63 = reg {
            self.regs[reg as usize] = val
        }
    }

    fn exec(&mut self, cmd: u32)
        ensures
            final(self)@.len() == 64,
            final(self)@ == old(self)@,
    {
    }
}

/// Reading a register gives back what was last written to it; a write leaves
/// every other register as it was; a register that does not exist reads as
/// all ones whatever was written.
pub proof fn lemma_cop_read_after_write(regs: Seq<u32>, reg: u8, val: u32, other: u8)
    requires
        regs.len() == 64,
    ensures
        reg < 64 ==> cop_read(cop_write(regs, reg, val), reg) == val,
        other != reg ==> cop_read(cop_write(regs, reg, val), other) == cop_read(regs, other),
        reg >= 64 ==> cop_read(cop_write(regs, reg, val), reg) == u32::MAX,
{
}

} // verus!
