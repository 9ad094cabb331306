//! The R3000A CPU state: general-purpose registers, program counter, HI/LO,
//! the coprocessors, and the bookkeeping of load- and branch-delay slots.
pub mod coprocessor;
pub mod instrs;
pub mod text;

use crate::memory::{addr_add, le32, BusInterface};
use coprocessor::{Cop0, Gte};
use instrs::{decode_spec, Instruction};
use vstd::prelude::*;

verus! {

/// The abstract state of the CPU.
pub struct CpuState {
    /// General-purpose registers r0..r31.
    pub gprs: Seq<u32>,
    pub pc: u32,
    pub hi: u32,
    pub lo: u32,
    /// Register file of the system control coprocessor.
    pub cop0: Seq<u32>,
    /// Register file of the geometry transformation engine.
    pub gte: Seq<u32>,
    /// The instruction word being executed.
    pub curr_opcode: u32,
    /// A load issued by the current instruction: register and value.
    pub load_delay: Option<(u8, u32)>,
    /// A load issued by the previous instruction, which lands when the current
    /// one completes.
    pub pending_load: Option<(u8, u32)>,
    /// The register that the current instruction wrote, if any.
    pub last_written_reg: Option<u8>,
    /// The target of a branch that was taken.
    pub taken_branch: Option<u32>,
    /// The CPU executes the instruction in a branch delay slot.
    pub in_branch_delay: bool,
    /// Where an exception raised by the current instruction continues.
    pub exception_pc: Option<u32>,
}

/// What the completion of a step needs to know of the state before the
/// instruction ran.
#[derive(Debug, Clone, Copy, PartialEq, Eq, Structural)]
pub struct StepContext {
    /// The branch target that was pending when the step began.
    pub pending_branch: Option<u32>,
    /// The step began in a branch delay slot.
    pub was_in_branch_delay: bool,
}

/// The initial register file: everything zero but r28, r29 and r30.
pub open spec fn initial_gprs(r28: u32, r29: u32, r30: u32) -> Seq<u32> {
    Seq::new(
        32,
        |i: int|
            if i == 28 {
                r28
            } else if i == 29 {
                r29
            } else if i == 30 {
                r30
            } else {
                0u32
            },
    )
}

/// The word at `addr` on a bus, little-endian.
pub open spec fn word_at<T: BusInterface>(mem: &T, addr: u32) -> u32 {
    le32(mem.peek(addr), mem.peek(addr_add(addr, 1)), mem.peek(addr_add(addr, 2)), mem.peek(addr_add(addr, 3)))
}

/// The four bytes of the word at `addr` are answered by the bus.
pub open spec fn word_accepted<T: BusInterface>(addr: u32) -> bool {
    &&& T::accepts(addr)
    &&& T::accepts(addr_add(addr, 1))
    &&& T::accepts(addr_add(addr, 2))
    &&& T::accepts(addr_add(addr, 3))
}

impl CpuState {
    /// The state after a reset with these initial values.
    pub open spec fn reset(pc: u32, r28: u32, r29: u32, r30: u32) -> CpuState {
        CpuState {
            gprs: initial_gprs(r28, r29, r30),
            pc,
            hi: 0,
            lo: 0,
            cop0: Seq::new(64, |i: int| 0u32),
            gte: Seq::new(64, |i: int| 0u32),
            curr_opcode: 0,
            load_delay: None,
            pending_load: None,
            last_written_reg: None,
            taken_branch: None,
            in_branch_delay: false,
            exception_pc: None,
        }
    }

    /// The invariant of every reachable state: 32 registers of which r0
    /// holds zero, and 64 registers per coprocessor.
    pub open spec fn wf(self) -> bool {
        &&& self.gprs.len() == 32
        &&& self.gprs[0] == 0
        &&& self.cop0.len() == 64
        &&& self.gte.len() == 64
    }

    /// The register that the pending load is compared with when it lands:
    /// the one the current instruction wrote, or 255 if it wrote none.
    pub open spec fn last_reg(self) -> u8 {
        match self.last_written_reg {
            Some(r) => r,
            None => 255,
        }
    }

    /// The pending load can land: it targets one of the 32 registers, or it
    /// is dropped because it targets the register compared with.
    pub open spec fn load_can_land(self) -> bool {
        match self.pending_load {
            Some((r, v)) => r < 32 || r == self.last_reg(),
            None => true,
        }
    }

    /// The state after the current instruction writes `val` to register
    /// `idx`; writes to r0 are discarded.
    pub open spec fn write_gpr(self, idx: u8, val: u32) -> CpuState {
        if idx != 0 {
            CpuState {
                gprs: self.gprs.update(idx as int, val),
                last_written_reg: Some(idx),
                ..self
            }
        } else {
            self
        }
    }

    /// The state after the current instruction issues a load of `val` into
    /// register `idx`.
    pub open spec fn issue_load(self, idx: u8, val: u32) -> CpuState {
        CpuState { load_delay: Some((idx, val)), last_written_reg: Some(idx), ..self }
    }

    /// The state after the word `opcode` is fetched: the load issued by the
    /// previous instruction becomes the pending one.
    pub open spec fn fetch(self, opcode: u32) -> CpuState {
        CpuState { curr_opcode: opcode, pending_load: self.load_delay, load_delay: None, ..self }
    }

    /// The context recorded when a step begins.
    pub open spec fn context(self) -> StepContext {
        StepContext { pending_branch: self.taken_branch, was_in_branch_delay: self.in_branch_delay }
    }

    /// The branch resolves at the end of this step: the step began in a
    /// delay slot and the instruction left the CPU in one.
    pub open spec fn branch_resolves(self, ctx: StepContext) -> bool {
        ctx.was_in_branch_delay && self.in_branch_delay
    }

    /// Where execution continues after this step: the exception handler if
    /// the instruction raised one, else the pending branch target once its
    /// delay slot has run, else the next word.
    pub open spec fn next_pc(self, ctx: StepContext) -> u32 {
        match self.exception_pc {
            Some(epc) => epc,
            None => if self.branch_resolves(ctx) && ctx.pending_branch is Some {
                ctx.pending_branch->0
            } else {
                addr_add(self.pc, 4)
            },
        }
    }

    /// The register file after the pending load lands. A load into r0, or
    /// into the register that the current instruction wrote, is dropped.
    pub open spec fn gprs_after_load(self) -> Seq<u32> {
        match self.pending_load {
            Some((r, v)) => if r != 0 && r != self.last_reg() {
                self.gprs.update(r as int, v)
            } else {
                self.gprs
            },
            None => self.gprs,
        }
    }

    /// The state after the current instruction completes.
    pub open spec fn retire(self, ctx: StepContext) -> CpuState {
        CpuState {
            gprs: self.gprs_after_load(),
            pc: self.next_pc(ctx),
            pending_load: None,
            last_written_reg: None,
            taken_branch: if self.branch_resolves(ctx) {
                None
            } else {
                self.taken_branch
            },
            in_branch_delay: if self.branch_resolves(ctx) || self.exception_pc is Some {
                false
            } else {
                self.in_branch_delay
            },
            exception_pc: None,
            ..self
        }
    }
}

/// The R3000A CPU.
pub struct Cpu {
    gprs: [u32; 32],
    pc: u32,
    hi: u32,
    lo: u32,
    cop0: Cop0,
    gte: Gte,
    curr_opcode: u32,
    load_delay: Option<(u8, u32)>,
    pending_load: Option<(u8, u32)>,
    last_written_reg: Option<u8>,
    taken_branch: Option<u32>,
    in_branch_delay: bool,  // necessary for cop0r13 bit 30
    exception_pc: Option<u32>,
}

impl View for Cpu {
    type V = CpuState;

    closed spec fn view(&self) -> CpuState {
        CpuState {
            gprs: self.gprs@,
            pc: self.pc,
            hi: self.hi,
            lo: self.lo,
            cop0: self.cop0@,
            gte: self.gte@,
            curr_opcode: self.curr_opcode,
            load_delay: self.load_delay,
            pending_load: self.pending_load,
            last_written_reg: self.last_written_reg,
            taken_branch: self.taken_branch,
            in_branch_delay: self.in_branch_delay,
            exception_pc: self.exception_pc,
        }
    }
}

impl Cpu {
    /// The CPU is in a reachable state (see [`CpuState::wf`]).
    pub open spec fn wf(&self) -> bool {
        self@.wf()
    }

    /// A CPU that starts at `pc` with r28, r29 and r30 set and everything
    /// else zero.
    pub fn new(pc: u32, r28: u32, r29: u32, r30: u32) -> (r: Self)
        ensures
            r.wf(),
            r@ == CpuState::reset(pc, r28, r29, r30),
    {
        let mut n = Self {
            gprs: [0u32; 32],
            pc,
            hi: 0,
            lo: 0,
            cop0: Cop0::new(),
            gte: Gte::new(),
            curr_opcode: 0,
            load_delay: None,
            pending_load: None,
            last_written_reg: None,
            taken_branch: None,
            in_branch_delay: false,
            exception_pc: None,
        };
        n.gprs[28] = r28;
        n.gprs[29] = r29;
        n.gprs[30] = r30;
        assert(n.gprs@ =~= initial_gprs(r28, r29, r30));
        n
    }

    /// Register `idx`.
    pub fn read_reg(&self, idx: u8) -> (r: u32)
        requires
            self.wf(),
            idx < 32,
        ensures
            r == self@.gprs[idx as int],
            idx == 0 ==> r == 0,
    {
        self.gprs[idx as usize]
    }

    /// The current instruction writes `val` to register `idx`.
    pub fn write_reg(&mut self, idx: u8, val: u32)
        requires
            old(self).wf(),
            idx < 32,
        ensures
            final(self).wf(),
            final(self)@ == old(self)@.write_gpr(idx, val),
    {
        if idx != 0 {
            self.gprs[idx as usize] = val;
            self.last_written_reg = Some(idx);
        }
    }

    /// The current instruction loads `val` into register `idx`; the value
    /// lands when the next instruction completes.
    pub fn write_load_delay(&mut self, idx: u8, val: u32)
        requires
            old(self).wf(),
        ensures
            final(self).wf(),
            final(self)@ == old(self)@.issue_load(idx, val),
    {
        self.load_delay = Some((idx, val));
        self.last_written_reg = Some(idx);
    }

    /// The first half of a step: fetches and decodes the word at the program
    /// counter, and moves the load issued by the previous instruction into
    /// the pending slot. Executing the instruction comes next, then
    /// [`Cpu::finish_step`] with the context returned here.
    pub fn begin_step<T: BusInterface>(&mut self, mem: &T) -> (r: (Instruction, StepContext))
        requires
            old(self).wf(),
            mem.wf(),
            old(self)@.pc % 4 == 0,
            word_accepted::<T>(old(self)@.pc),
            decode_spec(word_at(mem, old(self)@.pc)) is Some,
        ensures
            final(self).wf(),
            final(self)@ == old(self)@.fetch(word_at(mem, old(self)@.pc)),
            Some(r.0) == decode_spec(word_at(mem, old(self)@.pc)),
            r.1 == old(self)@.context(),
    {
        self.curr_opcode = mem.read_word(self.pc);
        let disasm = Instruction::decode(self.curr_opcode);
        self.pending_load = self.load_delay.take();
        let ctx = StepContext {
            pending_branch: self.taken_branch,
            was_in_branch_delay: self.in_branch_delay,
        };
        (disasm, ctx)
    }

    /// The second half of a step: resolves a branch whose delay slot has
    /// run, moves to the exception handler if the instruction raised an
    /// exception, and lands the pending load unless the instruction wrote
    /// the same register.
    pub fn finish_step(&mut self, ctx: StepContext)
        requires
            old(self).wf(),
            old(self)@.load_can_land(),
        ensures
            final(self).wf(),
            final(self)@ == old(self)@.retire(ctx),
    {
        let last_reg = match self.last_written_reg.take() {
            Some(r) => r,
            None => u8::MAX,
        };
        if ctx.was_in_branch_delay && self.in_branch_delay {
            self.in_branch_delay = false;
            self.taken_branch = None;
            if let Some(pc) = ctx.pending_branch {
                self.pc = pc;
            } else {
                self.pc = self.pc.wrapping_add(4);
            }
        } else {
            self.pc = self.pc.wrapping_add(4);
        }
        if let Some(epc) = self.exception_pc.take() {
            self.in_branch_delay = false;
            self.pc = epc;
        }
        if let Some((reg, val)) = self.pending_load.take() {
            if reg != last_reg && reg != 0 {
                self.gprs[reg as usize] = val;
            }
        }
        proof {
            assert(self@.gprs =~= old(self)@.retire(ctx).gprs);
        }
    }

    /// Whether [`Cpu::finish_step`] can land the pending load (see
    /// [`CpuState::load_can_land`]).
    pub fn can_finish_step(&self) -> (b: bool)
        ensures
            b == self@.load_can_land(),
    {
        let last_reg = match self.last_written_reg {
            Some(r) => r,
            None => u8::MAX,
        };
        match self.pending_load {
            Some((reg, _)) => reg < 32 || reg == last_reg,
            None => true,
        }
    }

    /// The program counter.
    pub fn pc(&self) -> (r: u32)
        ensures
            r == self@.pc,
    {
        self.pc
    }

    /// The HI register.
    pub fn hi(&self) -> (r: u32)
        ensures
            r == self@.hi,
    {
        self.hi
    }

    /// The LO register.
    pub fn lo(&self) -> (r: u32)
        ensures
            r == self@.lo,
    {
        self.lo
    }

    /// The load issued by the current instruction.
    pub fn load_delay(&self) -> (r: Option<(u8, u32)>)
        ensures
            r == self@.load_delay,
    {
        self.load_delay
    }

    /// The load issued by the previous instruction, which lands when the
    /// current one completes.
    pub fn pending_load(&self) -> (r: Option<(u8, u32)>)
        ensures
            r == self@.pending_load,
    {
        self.pending_load
    }

    /// The register that the current instruction wrote, if any.
    pub fn last_written_reg(&self) -> (r: Option<u8>)
        ensures
            r == self@.last_written_reg,
    {
        self.last_written_reg
    }

    /// The branch target that is waiting for its delay slot.
    pub fn taken_branch(&self) -> (r: Option<u32>)
        ensures
            r == self@.taken_branch,
    {
        self.taken_branch
    }

    /// Whether the CPU is in a branch delay slot.
    pub fn in_branch_delay(&self) -> (r: bool)
        ensures
            r == self@.in_branch_delay,
    {
        self.in_branch_delay
    }

    /// The system control coprocessor.
    pub fn cop0(&self) -> (r: &Cop0)
        ensures
            r@ == self@.cop0,
    {
        &self.cop0
    }

    /// The geometry transformation engine.
    pub fn gte(&self) -> (r: &Gte)
        ensures
            r@ == self@.gte,
    {
        &self.gte
    }
}

impl Default for Cpu {
    /// A CPU at the reset vector 0xBFC0_0000 with every register zero.
    fn default() -> (r: Self)
        ensures
            r.wf(),
            r@ == CpuState::reset(0xbfc0_0000, 0, 0, 0),
    {
        Self::new(0xbfc0_0000, 0, 0, 0)
    }
}


// ---------------------------------------------------------------------------
// Properties of the CPU state
// ---------------------------------------------------------------------------

/// Every operation keeps the state reachable, so r0 reads zero in every
/// reachable state.
pub proof fn lemma_operations_keep_wf(s: CpuState, idx: u8, val: u32, opcode: u32, ctx: StepContext)
    requires
        s.wf(),
        idx < 32,
    ensures
        CpuState::reset(s.pc, val, val, val).wf(),
        s.write_gpr(idx, val).wf(),
        s.issue_load(idx, val).wf(),
        s.fetch(opcode).wf(),
        s.load_can_land() ==> s.retire(ctx).wf(),
        s.gprs[0] == 0,
{
}

/// A register write is read back, except on r0, which stays zero; the other
/// registers keep their values.
pub proof fn lemma_write_then_read(s: CpuState, idx: u8, val: u32, other: u8)
    requires
        s.wf(),
        idx < 32,
        other < 32,
    ensures
        s.write_gpr(idx, val).gprs[idx as int] == if idx == 0 {
            0
        } else {
            val
        },
        other != idx ==> s.write_gpr(idx, val).gprs[other as int] == s.gprs[other as int],
{
}

/// The load delay slot: a value loaded into `r` is not visible when the
/// loading instruction completes, and is in `r` once the next instruction
/// (the one in the delay slot) has completed, whether that instruction writes
/// no register or another register `w`; the write to `w` is kept too.
pub proof fn lemma_load_lands_after_delay_slot(
    s: CpuState,
    r: u8,
    v: u32,
    ctx1: StepContext,
    next_opcode: u32,
    ctx2: StepContext,
    w: u8,
    x: u32,
)
    requires
        s.wf(),
        0 < r < 32,
        w < 32,
        w != r,
        s.issue_load(r, v).load_can_land(),
    ensures
        s.issue_load(r, v).retire(ctx1).gprs[r as int] == s.gprs[r as int],
        s.issue_load(r, v).retire(ctx1).fetch(next_opcode).retire(ctx2).gprs[r as int] == v,
        s.issue_load(r, v).retire(ctx1).fetch(next_opcode).write_gpr(w, x).retire(ctx2).gprs[r as int]
            == v,
        s.issue_load(r, v).retire(ctx1).fetch(next_opcode).write_gpr(w, x).retire(ctx2).gprs[w as int]
            == if w == 0 {
            0
        } else {
            x
        },
        s.issue_load(r, v).retire(ctx1).fetch(next_opcode).write_gpr(w, x).retire(ctx2).gprs.len()
            == 32,
{
}

/// An instruction in a load delay slot that writes the loaded register
/// wins: the delayed load into that register is dropped.
pub proof fn lemma_delay_slot_write_wins(s: CpuState, r: u8, v: u32, w: u32, ctx: StepContext)
    requires
        s.wf(),
        s.pending_load == Some((r, v)),
        r < 32,
    ensures
        s.write_gpr(r, w).retire(ctx).gprs[r as int] == if r == 0 {
            0
        } else {
            w
        },
{
}

/// A taken branch takes effect once its delay slot has run: the step that
/// completes the delay slot continues at the target. Without a branch or an
/// exception the program counter moves to the next word.
pub proof fn lemma_program_counter(s: CpuState, ctx: StepContext)
    requires
        s.wf(),
        s.exception_pc is None,
    ensures
        s.branch_resolves(ctx) && ctx.pending_branch is Some ==> s.retire(ctx).pc
            == ctx.pending_branch->0,
        !s.branch_resolves(ctx) ==> s.retire(ctx).pc == addr_add(s.pc, 4),
        !s.branch_resolves(ctx) ==> s.retire(ctx).pc == (s.pc + 4) % 0x1_0000_0000,
        s.branch_resolves(ctx) && ctx.pending_branch is None ==> s.retire(ctx).pc == (s.pc + 4)
            % 0x1_0000_0000,
        s.branch_resolves(ctx) ==> !s.retire(ctx).in_branch_delay && s.retire(ctx).taken_branch
            is None,
{
}

/// An exception raised by an instruction sends execution to its handler and
/// ends any branch delay slot.
pub proof fn lemma_exception_redirects(s: CpuState, ctx: StepContext)
    requires
        s.wf(),
        s.exception_pc is Some,
    ensures
        s.retire(ctx).pc == s.exception_pc->0,
        !s.retire(ctx).in_branch_delay,
        s.retire(ctx).exception_pc is None,
{
}


/// A load into a register that does not exist (32 to 254) cannot land:
/// the step after the one that issued it is refused, unless the delay slot
/// instruction issues a load into the same register.
pub proof fn lemma_out_of_range_load(s: CpuState, r: u8, v: u32, ctx: StepContext, opcode: u32)
    requires
        s.wf(),
        32 <= r < 255,
        s.issue_load(r, v).load_can_land(),
    ensures
        !s.issue_load(r, v).retire(ctx).fetch(opcode).load_can_land(),
        s.issue_load(r, v).retire(ctx).fetch(opcode).issue_load(r, v).load_can_land(),
{
}

} // verus!
