//! The text dump of the CPU registers printed while tracing execution.
use super::{Cpu, CpuState};
use vstd::prelude::*;
use vstd::string::StringExecFns;

verus! {

/// The hexadecimal digits, upper case.
pub open spec fn hex_digits() -> Seq<char> {
    seq!['0', '1', '2', '3', '4', '5', '6', '7', '8', '9', 'A', 'B', 'C', 'D', 'E', 'F']
}

/// A word as eight upper-case hexadecimal digits, most significant first.
pub open spec fn hex8(v: u32) -> Seq<char> {
    seq![
        hex_digits()[((v / 0x1000_0000) % 16) as int],
        hex_digits()[((v / 0x100_0000) % 16) as int],
        hex_digits()[((v / 0x10_0000) % 16) as int],
        hex_digits()[((v / 0x1_0000) % 16) as int],
        hex_digits()[((v / 0x1000) % 16) as int],
        hex_digits()[((v / 0x100) % 16) as int],
        hex_digits()[((v / 0x10) % 16) as int],
        hex_digits()[(v % 16) as int],
    ]
}

/// A register number in decimal with at least two digits.
pub open spec fn dec2(n: u8) -> Seq<char> {
    if n < 100 {
        seq![hex_digits()[(n / 10) as int], hex_digits()[(n % 10) as int]]
    } else {
        seq![hex_digits()[(n / 100) as int], hex_digits()[((n / 10) % 10) as int], hex_digits()[(n % 10) as int]]
    }
}

/// The conventional name of register `i`, right-aligned in four columns.
pub open spec fn reg_label(i: u8) -> Seq<char> {
    match i {
        0 => "zero"@,
        1 => "  at"@,
        2 => "  v0"@,
        3 => "  v1"@,
        4 => "  a0"@,
        5 => "  a1"@,
        6 => "  a2"@,
        7 => "  a3"@,
        8 => "  t0"@,
        9 => "  t1"@,
        10 => "  t2"@,
        11 => "  t3"@,
        12 => "  t4"@,
        13 => "  t5"@,
        14 => "  t6"@,
        15 => "  t7"@,
        16 => "  s0"@,
        17 => "  s1"@,
        18 => "  s2"@,
        19 => "  s3"@,
        20 => "  s4"@,
        21 => "  s5"@,
        22 => "  s6"@,
        23 => "  s7"@,
        24 => "  t8"@,
        25 => "  t9"@,
        26 => "  k0"@,
        27 => "  k1"@,
        28 => "  gp"@,
        29 => "  sp"@,
        30 => "  fp"@,
        _ => "  ra"@,
    }
}

/// The dump line of register `i`; every fourth one ends a row.
pub open spec fn reg_entry(gprs: Seq<u32>, i: int) -> Seq<char> {
    "R"@ + dec2(i as u8) + "("@ + reg_label(i as u8) + "): "@ + hex8(gprs[i]) + "   "@ + if (i + 1) % 4
        == 0 {
        "\n"@
    } else {
        Seq::empty()
    }
}

/// The dump lines of the first `n` registers.
pub open spec fn reg_entries(gprs: Seq<u32>, n: nat) -> Seq<char>
    decreases n,
{
    if n == 0 {
        Seq::empty()
    } else {
        reg_entries(gprs, (n - 1) as nat) + reg_entry(gprs, n - 1)
    }
}

/// The first row of the dump: PC, HI and LO.
pub open spec fn header_text(pc: u32, hi: u32, lo: u32) -> Seq<char> {
    "PC: "@ + hex8(pc) + "   HI: "@ + hex8(hi) + "   LO: "@ + hex8(lo) + "\n"@
}

/// The row that shows a load waiting for its delay slot.
pub open spec fn load_text(load: Option<(u8, u32)>) -> Seq<char> {
    match load {
        Some((r, v)) => "Load Delay Slot -> R"@ + dec2(r) + " = "@ + hex8(v) + "\n"@,
        None => Seq::empty(),
    }
}

/// The row that shows a branch waiting for its delay slot.
pub open spec fn branch_text(target: Option<u32>) -> Seq<char> {
    match target {
        Some(pc) => "In branch delay -> PC = "@ + hex8(pc) + "\n"@,
        None => Seq::empty(),
    }
}

/// The text dump of a CPU state: PC, HI and LO, the 32 registers four to a
/// row, then the load and the branch that are waiting, if any.
pub open spec fn dump_text(s: CpuState) -> Seq<char> {
    header_text(s.pc, s.hi, s.lo) + reg_entries(s.gprs, 32) + load_text(s.load_delay)
        + branch_text(s.taken_branch)
}

fn digit_str(d: u32) -> (r: &'static str)
    requires
        d < 16,
    ensures
        r@ == seq![hex_digits()[d as int]],
{
    proof {
        reveal_strlit("0");
        reveal_strlit("1");
        reveal_strlit("2");
        reveal_strlit("3");
        reveal_strlit("4");
        reveal_strlit("5");
        reveal_strlit("6");
        reveal_strlit("7");
        reveal_strlit("8");
        reveal_strlit("9");
        reveal_strlit("A");
        reveal_strlit("B");
        reveal_strlit("C");
        reveal_strlit("D");
        reveal_strlit("E");
        reveal_strlit("F");
    }
    match d {
        0 => "0",
        1 => "1",
        2 => "2",
        3 => "3",
        4 => "4",
        5 => "5",
        6 => "6",
        7 => "7",
        8 => "8",
        9 => "9",
        10 => "A",
        11 => "B",
        12 => "C",
        13 => "D",
        14 => "E",
        _ => "F",
    }
}

fn label_str(i: u8) -> (r: &'static str)
    ensures
        r@ == reg_label(i),
{
    match i {
        0 => "zero",
        1 => "  at",
        2 => "  v0",
        3 => "  v1",
        4 => "  a0",
        5 => "  a1",
        6 => "  a2",
        7 => "  a3",
        8 => "  t0",
        9 => "  t1",
        10 => "  t2",
        11 => "  t3",
        12 => "  t4",
        13 => "  t5",
        14 => "  t6",
        15 => "  t7",
        16 => "  s0",
        17 => "  s1",
        18 => "  s2",
        19 => "  s3",
        20 => "  s4",
        21 => "  s5",
        22 => "  s6",
        23 => "  s7",
        24 => "  t8",
        25 => "  t9",
        26 => "  k0",
        27 => "  k1",
        28 => "  gp",
        29 => "  sp",
        30 => "  fp",
        _ => "  ra",
    }
}

fn push_hex8(out: &mut String, v: u32)
    ensures
        final(out)@ == old(out)@ + hex8(v),
{
    assert(((v >> 28u32) & 0xf) == (v / 0x1000_0000) % 16 && ((v >> 24u32) & 0xf) == (v
        / 0x100_0000) % 16 && ((v >> 20u32) & 0xf) == (v / 0x10_0000) % 16 && ((v >> 16u32)
        & 0xf) == (v / 0x1_0000) % 16 && ((v >> 12u32) & 0xf) == (v / 0x1000) % 16 && ((v
        >> 8u32) & 0xf) == (v / 0x100) % 16 && ((v >> 4u32) & 0xf) == (v / 0x10) % 16 && (v
        & 0xf) == v % 16) by (bit_vector);
    out.append(digit_str((v >> 28u32) & 0xf));
    out.append(digit_str((v >> 24u32) & 0xf));
    out.append(digit_str((v >> 20u32) & 0xf));
    out.append(digit_str((v >> 16u32) & 0xf));
    out.append(digit_str((v >> 12u32) & 0xf));
    out.append(digit_str((v >> 8u32) & 0xf));
    out.append(digit_str((v >> 4u32) & 0xf));
    out.append(digit_str(v & 0xf));
    assert(final(out)@ =~= old(out)@ + hex8(v));
}

fn push_dec2(out: &mut String, n: u8)
    ensures
        final(out)@ == old(out)@ + dec2(n),
{
    let n32 = n as u32;
    if n < 100 {
        out.append(digit_str(n32 / 10));
        out.append(digit_str(n32 % 10));
    } else {
        out.append(digit_str(n32 / 100));
        out.append(digit_str((n32 / 10) % 10));
        out.append(digit_str(n32 % 10));
    }
    assert(final(out)@ =~= old(out)@ + dec2(n));
}

fn push_header(out: &mut String, pc: u32, hi: u32, lo: u32)
    ensures
        final(out)@ == old(out)@ + header_text(pc, hi, lo),
{
    out.append("PC: ");
    push_hex8(out, pc);
    out.append("   HI: ");
    push_hex8(out, hi);
    out.append("   LO: ");
    push_hex8(out, lo);
    out.append("\n");
    assert(final(out)@ =~= old(out)@ + header_text(pc, hi, lo));
}

fn push_reg_entry(out: &mut String, i: u8, val: u32, gprs: Ghost<Seq<u32>>)
    requires
        i < 32,
        gprs@.len() == 32,
        gprs@[i as int] == val,
    ensures
        final(out)@ == old(out)@ + reg_entry(gprs@, i as int),
{
    out.append("R");
    push_dec2(out, i);
    out.append("(");
    out.append(label_str(i));
    out.append("): ");
    push_hex8(out, val);
    out.append("   ");
    if (i + 1) % 4 == 0 {
        out.append("\n");
    }
    assert(final(out)@ =~= old(out)@ + reg_entry(gprs@, i as int));
}

fn push_load(out: &mut String, load: Option<(u8, u32)>)
    ensures
        final(out)@ == old(out)@ + load_text(load),
{
    if let Some((reg, val)) = load {
        out.append("Load Delay Slot -> R");
        push_dec2(out, reg);
        out.append(" = ");
        push_hex8(out, val);
        out.append("\n");
    }
    assert(final(out)@ =~= old(out)@ + load_text(load));
}

fn push_branch(out: &mut String, target: Option<u32>)
    ensures
        final(out)@ == old(out)@ + branch_text(target),
{
    if let Some(pc) = target {
        out.append("In branch delay -> PC = ");
        push_hex8(out, pc);
        out.append("\n");
    }
    assert(final(out)@ =~= old(out)@ + branch_text(target));
}

impl Cpu {
    /// The register dump printed while tracing execution (see [`dump_text`]).
    pub fn to_string(&self) -> (r: String)
        requires
            self.wf(),
        ensures
            r@ == dump_text(self@),
    {
        let mut out = String::new();
        push_header(&mut out, self.pc(), self.hi(), self.lo());
        let ghost head = out@;
        let mut i: u8 = 0;
        while i < 32
            invariant
                self.wf(),
                i <= 32,
                out@ == head + reg_entries(self@.gprs, i as nat),
            decreases 32 - i,
        {
            push_reg_entry(&mut out, i, self.read_reg(i), Ghost(self@.gprs));
            assert(out@ =~= head + reg_entries(self@.gprs, (i + 1) as nat));
            i = i + 1;
        }
        push_load(&mut out, self.load_delay());
        push_branch(&mut out, self.taken_branch());
        assert(out@ =~= dump_text(self@));
        out
    }
}


/// The value of an upper-case hexadecimal digit, by its character code.
pub open spec fn hex_value(c: char) -> int {
    if (c as int) <= 57 {
        c as int - 48
    } else {
        c as int - 55
    }
}

/// A digit is a character '0'..='9' or 'A'..='F'.
pub open spec fn is_hex_digit(c: char) -> bool {
    (48 <= (c as int) <= 57) || (65 <= (c as int) <= 70)
}

/// The digit for `d` is the character whose value is `d`.
pub proof fn lemma_hex_digit(d: int)
    requires
        0 <= d < 16,
    ensures
        is_hex_digit(hex_digits()[d]),
        hex_value(hex_digits()[d]) == d,
{
    assert(hex_digits()[0] == '0' && hex_digits()[1] == '1' && hex_digits()[2] == '2'
        && hex_digits()[3] == '3' && hex_digits()[4] == '4' && hex_digits()[5] == '5'
        && hex_digits()[6] == '6' && hex_digits()[7] == '7' && hex_digits()[8] == '8'
        && hex_digits()[9] == '9' && hex_digits()[10] == 'A' && hex_digits()[11] == 'B'
        && hex_digits()[12] == 'C' && hex_digits()[13] == 'D' && hex_digits()[14] == 'E'
        && hex_digits()[15] == 'F');
}

/// Eight hexadecimal digits, read back most significant first, give the
/// word; two or three decimal digits give the register number.
pub proof fn lemma_numbers_read_back(v: u32, n: u8)
    ensures
        hex8(v).len() == 8,
        forall|i: int| 0 <= i < 8 ==> is_hex_digit(#[trigger] hex8(v)[i]),
        hex_value(hex8(v)[0]) * 0x1000_0000 + hex_value(hex8(v)[1]) * 0x100_0000 + hex_value(
            hex8(v)[2],
        ) * 0x10_0000 + hex_value(hex8(v)[3]) * 0x1_0000 + hex_value(hex8(v)[4]) * 0x1000
            + hex_value(hex8(v)[5]) * 0x100 + hex_value(hex8(v)[6]) * 0x10 + hex_value(hex8(v)[7])
            == v,
        n < 100 ==> dec2(n).len() == 2 && hex_value(dec2(n)[0]) * 10 + hex_value(dec2(n)[1]) == n,
        n >= 100 ==> dec2(n).len() == 3 && hex_value(dec2(n)[0]) * 100 + hex_value(dec2(n)[1]) * 10
            + hex_value(dec2(n)[2]) == n,
        forall|i: int| 0 <= i < dec2(n).len() ==> 48 <= (#[trigger] dec2(n)[i]) as int <= 57,
{
    lemma_hex_digit(((v / 0x1000_0000) % 16) as int);
    lemma_hex_digit(((v / 0x100_0000) % 16) as int);
    lemma_hex_digit(((v / 0x10_0000) % 16) as int);
    lemma_hex_digit(((v / 0x1_0000) % 16) as int);
    lemma_hex_digit(((v / 0x1000) % 16) as int);
    lemma_hex_digit(((v / 0x100) % 16) as int);
    lemma_hex_digit(((v / 0x10) % 16) as int);
    lemma_hex_digit((v % 16) as int);
    assert(((v / 0x1000_0000) % 16) * 0x1000_0000 + ((v / 0x100_0000) % 16) * 0x100_0000 + ((v
        / 0x10_0000) % 16) * 0x10_0000 + ((v / 0x1_0000) % 16) * 0x1_0000 + ((v / 0x1000) % 16)
        * 0x1000 + ((v / 0x100) % 16) * 0x100 + ((v / 0x10) % 16) * 0x10 + v % 16 == v)
        by (bit_vector);
    lemma_hex_digit((n % 10) as int);
    if n < 100 {
        lemma_hex_digit((n / 10) as int);
    } else {
        lemma_hex_digit((n / 100) as int);
        lemma_hex_digit(((n / 10) % 10) as int);
    }
}

} // verus!
