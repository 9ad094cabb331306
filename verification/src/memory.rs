//! The physical memory map: main RAM (mirrored), expansion region 1, the
//! BIOS ROM, the scratchpad, the I/O ports and the cache control registers.
use vstd::prelude::*;

verus! {

pub const RAM_BEGIN: u32 = 0;

pub const RAM_SIZE: u32 = 2 * 1024 * 1024;

pub const RAM_END: u32 = RAM_BEGIN + RAM_SIZE - 1;

pub const RAM_MIRROR_MASK: u32 = RAM_SIZE - 1;

pub const RAM_MIRROR_END: u32 = (RAM_BEGIN + RAM_SIZE * 4) - 1;

pub const EXP1_BEGIN: u32 = 0x1F00_0000;

pub const EXP1_SIZE: u32 = 8 * 1024 * 1024;

pub const EXP1_END: u32 = EXP1_BEGIN + EXP1_SIZE - 1;

pub const BIOS_BEGIN: u32 = 0x1FC0_0000;

pub const BIOS_SIZE: u32 = 512 * 1024;

pub const BIOS_END: u32 = BIOS_BEGIN + BIOS_SIZE - 1;

pub const SCRATCH_BEGIN: u32 = 0x1F80_0000;

pub const SCRATCH_SIZE: u32 = 1024;

pub const SCRATCH_END: u32 = SCRATCH_BEGIN + SCRATCH_SIZE - 1;

pub const IOPORTS_BEGIN: u32 = 0x1F80_1000;

pub const IOPORTS_SIZE: u32 = 8 * 1024;

pub const IOPORTS_END: u32 = IOPORTS_BEGIN + IOPORTS_SIZE - 1;

pub const CACHECTL_BEGIN: u32 = 0xFFFE_0000;

pub const CACHECTL_SIZE: u32 = 512;

pub const CACHECTL_END: u32 = CACHECTL_BEGIN + CACHECTL_SIZE - 1;

// ---------------------------------------------------------------------------
// The memory map, stated over plain values
// ---------------------------------------------------------------------------

/// `a + k`, wrapping around the 32-bit address space.
pub open spec fn addr_add(a: u32, k: int) -> u32 {
    ((a + k) % 0x1_0000_0000) as u32
}

/// The little-endian value of two bytes.
pub open spec fn le16(b0: u8, b1: u8) -> u16 {
    (b0 + 0x100 * b1) as u16
}

/// The little-endian value of four bytes.
pub open spec fn le32(b0: u8, b1: u8, b2: u8, b3: u8) -> u32 {
    (b0 + 0x100 * b1 + 0x1_0000 * b2 + 0x100_0000 * b3) as u32
}

/// Byte `k` (0 is the least significant) of a word.
pub open spec fn byte_of(v: u32, k: int) -> u8 {
    if k == 0 {
        (v % 0x100) as u8
    } else if k == 1 {
        ((v / 0x100) % 0x100) as u8
    } else if k == 2 {
        ((v / 0x1_0000) % 0x100) as u8
    } else {
        (v / 0x100_0000) as u8
    }
}

/// The physical address of a virtual one: the segments KUSEG, KSEG0 and KSEG1
/// all map onto the low 512 MiB; KSEG2 is not translated.
pub open spec fn physical(addr: u32) -> u32 {
    if addr < 0xC000_0000 {
        addr % 0x2000_0000
    } else {
        addr
    }
}

/// Where a byte of the address space lives.
pub enum Location {
    /// Main RAM, at this offset.
    Ram(u32),
    /// Expansion region 1, at this offset.
    Exp1(u32),
    /// BIOS ROM, at this offset.
    Bios(u32),
    /// The scratchpad, at this offset.
    Scratchpad(u32),
    /// The I/O port range.
    IoPort,
    /// The cache control registers.
    CacheControl,
    /// Nothing is mapped here.
    Unmapped,
}

/// The location that an address reaches. Main RAM is mirrored four times in
/// its 8 MiB window.
pub open spec fn locate(addr: u32) -> Location {
    let p = physical(addr);
    if p <= RAM_MIRROR_END {
        Location::Ram(p % RAM_SIZE)
    } else if EXP1_BEGIN <= p <= EXP1_END {
        Location::Exp1((p - EXP1_BEGIN) as u32)
    } else if BIOS_BEGIN <= p <= BIOS_END {
        Location::Bios((p - BIOS_BEGIN) as u32)
    } else if SCRATCH_BEGIN <= p <= SCRATCH_END {
        Location::Scratchpad((p - SCRATCH_BEGIN) as u32)
    } else if IOPORTS_BEGIN <= p <= IOPORTS_END {
        Location::IoPort
    } else if CACHECTL_BEGIN <= p <= CACHECTL_END {
        Location::CacheControl
    } else {
        Location::Unmapped
    }
}

/// An address at which something is mapped.
pub open spec fn is_mapped(addr: u32) -> bool {
    !(locate(addr) is Unmapped)
}

/// An address whose byte a write changes: RAM, expansion region 1, scratchpad.
pub open spec fn is_writable(addr: u32) -> bool {
    locate(addr) is Ram || locate(addr) is Exp1 || locate(addr) is Scratchpad
}

/// The contents of the memory regions that hold bytes.
pub struct MemoryState {
    pub ram: Seq<u8>,
    pub exp1: Seq<u8>,
    pub bios: Seq<u8>,
    pub scratchpad: Seq<u8>,
}

/// `n` zero bytes.
pub open spec fn zeros(n: nat) -> Seq<u8> {
    Seq::new(n, |i: int| 0u8)
}

impl MemoryState {
    /// Every region has its size.
    pub open spec fn wf(self) -> bool {
        &&& self.ram.len() == RAM_SIZE
        &&& self.exp1.len() == EXP1_SIZE
        &&& self.bios.len() == BIOS_SIZE
        &&& self.scratchpad.len() == SCRATCH_SIZE
    }

    /// The byte that a read of `addr` gives. The I/O ports and the cache
    /// control registers read as 0xff.
    pub open spec fn byte_at(self, addr: u32) -> u8 {
        match locate(addr) {
            Location::Ram(i) => self.ram[i as int],
            Location::Exp1(i) => self.exp1[i as int],
            Location::Bios(i) => self.bios[i as int],
            Location::Scratchpad(i) => self.scratchpad[i as int],
            Location::IoPort => 0xff,
            Location::CacheControl => 0xff,
            Location::Unmapped => 0,
        }
    }

    /// The memory after writing byte `val` at `addr`. Writes to the BIOS ROM,
    /// the I/O ports and the cache control registers change nothing.
    pub open spec fn store_byte(self, addr: u32, val: u8) -> MemoryState {
        match locate(addr) {
            Location::Ram(i) => MemoryState { ram: self.ram.update(i as int, val), ..self },
            Location::Exp1(i) => MemoryState { exp1: self.exp1.update(i as int, val), ..self },
            Location::Scratchpad(i) => MemoryState {
                scratchpad: self.scratchpad.update(i as int, val),
                ..self
            },
            _ => self,
        }
    }

    /// The memory after writing a halfword, low byte first.
    pub open spec fn store_halfword(self, addr: u32, val: u16) -> MemoryState {
        self.store_byte(addr, (val % 0x100) as u8).store_byte(addr_add(addr, 1), (val / 0x100) as u8)
    }

    /// The memory after writing a word, least significant byte first.
    pub open spec fn store_word(self, addr: u32, val: u32) -> MemoryState {
        self.store_byte(addr, byte_of(val, 0)).store_byte(addr_add(addr, 1), byte_of(val, 1)).store_byte(
            addr_add(addr, 2),
            byte_of(val, 2),
        ).store_byte(addr_add(addr, 3), byte_of(val, 3))
    }

    /// Writing one more byte at the end of `data`.
    pub proof fn lemma_store_bytes_push(self, dest: u32, data: Seq<u8>, b: u8)
        ensures
            self.store_bytes(dest, data.push(b)) == self.store_bytes(dest, data).store_byte(
                addr_add(dest, data.len() as int),
                b,
            ),
    {
        assert(data.push(b).drop_last() =~= data);
    }

    /// The memory after writing `data` byte by byte from `dest` upwards.
    pub open spec fn store_bytes(self, dest: u32, data: Seq<u8>) -> MemoryState
        decreases data.len(),
    {
        if data.len() == 0 {
            self
        } else {
            self.store_bytes(dest, data.drop_last()).store_byte(
                addr_add(dest, data.len() - 1),
                data.last(),
            )
        }
    }
}


// ---------------------------------------------------------------------------
// PS-X EXE images
// ---------------------------------------------------------------------------

/// The little-endian word at offset `off` of a byte string.
pub open spec fn header_word(exe: Seq<u8>, off: int) -> u32 {
    le32(exe[off], exe[off + 1], exe[off + 2], exe[off + 3])
}

/// Length of the PS-X EXE header fields that are read.
pub const PSEXE_HEADER_LEN: usize = 0x38;

/// Offset of the program text in a PS-X EXE file.
pub const PSEXE_TEXT_OFFSET: usize = 0x800;

/// Initial program counter of an executable.
pub open spec fn psexe_pc(exe: Seq<u8>) -> u32 {
    header_word(exe, 0x10)
}

/// Initial value of the global pointer (r28).
pub open spec fn psexe_gp(exe: Seq<u8>) -> u32 {
    header_word(exe, 0x14)
}

/// Address where the program text goes.
pub open spec fn psexe_dest(exe: Seq<u8>) -> u32 {
    header_word(exe, 0x18)
}

/// Size of the program text.
pub open spec fn psexe_size(exe: Seq<u8>) -> u32 {
    header_word(exe, 0x1c)
}

/// Start of the region to clear.
pub open spec fn psexe_fill_start(exe: Seq<u8>) -> u32 {
    header_word(exe, 0x28)
}

/// Size of the region to clear.
pub open spec fn psexe_fill_size(exe: Seq<u8>) -> u32 {
    header_word(exe, 0x2c)
}

/// Initial stack and frame pointer (r29 and r30): base plus offset, wrapping.
pub open spec fn psexe_sp(exe: Seq<u8>) -> u32 {
    addr_add(header_word(exe, 0x30), header_word(exe, 0x34) as int)
}

/// The program text of an executable.
pub open spec fn psexe_text(exe: Seq<u8>) -> Seq<u8> {
    text_prefix(exe, psexe_size(exe) as nat)
}

/// The first `n` bytes of the program text of an executable.
pub open spec fn text_prefix(exe: Seq<u8>, n: nat) -> Seq<u8> {
    Seq::new(n, |i: int| exe[0x800 + i])
}

/// An executable that can be loaded: its header is there, its text is as
/// long as the header says, and both the text's destination and the region
/// to clear are mapped.
pub open spec fn psexe_loadable(exe: Seq<u8>) -> bool {
    &&& exe.len() >= 0x38
    &&& psexe_size(exe) > 0 ==> 0x800 + psexe_size(exe) <= exe.len()
    &&& forall|i: int| 0 <= i < psexe_size(exe) ==> is_mapped(#[trigger] addr_add(psexe_dest(exe), i))
    &&& forall|i: int|
        0 <= i < psexe_fill_size(exe) ==> is_mapped(#[trigger] addr_add(psexe_fill_start(exe), i))
}

/// The memory after loading an executable: its text at its destination,
/// then the region to clear zeroed.
pub open spec fn psexe_loaded(m: MemoryState, exe: Seq<u8>) -> MemoryState {
    m.store_bytes(psexe_dest(exe), psexe_text(exe)).store_bytes(
        psexe_fill_start(exe),
        zeros(psexe_fill_size(exe) as nat),
    )
}

// ---------------------------------------------------------------------------
// The bus interface
// ---------------------------------------------------------------------------

/// A byte-addressed bus that the CPU reads and writes. Halfwords and words are
/// little-endian and their bytes lie at consecutive addresses (wrapping).
pub trait BusInterface {
    /// Addresses at which an access is answered.
    spec fn accepts(addr: u32) -> bool;

    /// The byte that a read of `addr` gives.
    spec fn peek(&self, addr: u32) -> u8;

    /// The bus is in a consistent state.
    spec fn wf(&self) -> bool;

    fn read_byte(&self, addr: u32) -> (r: u8)
        requires
            self.wf(),
            Self::accepts(addr),
        ensures
            r == self.peek(addr),
    ;

    fn read_halfword(&self, addr: u32) -> (r: u16)
        requires
            self.wf(),
            Self::accepts(addr),
            Self::accepts(addr_add(addr, 1)),
        ensures
            r == le16(self.peek(addr), self.peek(addr_add(addr, 1))),
    ;

    fn read_word(&self, addr: u32) -> (r: u32)
        requires
            self.wf(),
            Self::accepts(addr),
            Self::accepts(addr_add(addr, 1)),
            Self::accepts(addr_add(addr, 2)),
            Self::accepts(addr_add(addr, 3)),
        ensures
            r == le32(
                self.peek(addr),
                self.peek(addr_add(addr, 1)),
                self.peek(addr_add(addr, 2)),
                self.peek(addr_add(addr, 3)),
            ),
    ;

    fn write_byte(&mut self, addr: u32, val: u8)
        requires
            old(self).wf(),
            Self::accepts(addr),
        ensures
            final(self).wf(),
    ;

    fn write_halfword(&mut self, addr: u32, val: u16)
        requires
            old(self).wf(),
            Self::accepts(addr),
            Self::accepts(addr_add(addr, 1)),
        ensures
            final(self).wf(),
    ;

    fn write_word(&mut self, addr: u32, val: u32)
        requires
            old(self).wf(),
            Self::accepts(addr),
            Self::accepts(addr_add(addr, 1)),
            Self::accepts(addr_add(addr, 2)),
            Self::accepts(addr_add(addr, 3)),
        ensures
            final(self).wf(),
    ;
}

fn next_addr(addr: u32, k: u32) -> (r: u32)
    ensures
        r == addr_add(addr, k as int),
{
    addr.wrapping_add(k)
}

fn from_le16(b0: u8, b1: u8) -> (r: u16)
    ensures
        r == le16(b0, b1),
{
    let x0 = b0 as u16;
    let x1 = b1 as u16;
    assert(x0 < 0x100 && x1 < 0x100 ==> x0 | (x1 << 8u16) == x0 + 0x100 * x1) by (bit_vector);
    x0 | (x1 << 8u16)
}

fn from_le32(b0: u8, b1: u8, b2: u8, b3: u8) -> (r: u32)
    ensures
        r == le32(b0, b1, b2, b3),
{
    let x0 = b0 as u32;
    let x1 = b1 as u32;
    let x2 = b2 as u32;
    let x3 = b3 as u32;
    assert(x0 < 0x100 && x1 < 0x100 && x2 < 0x100 && x3 < 0x100 ==> x0 | (x1 << 8u32) | (x2
        << 16u32) | (x3 << 24u32) == x0 + 0x100 * x1 + 0x1_0000 * x2 + 0x100_0000 * x3)
        by (bit_vector);
    x0 | (x1 << 8u32) | (x2 << 16u32) | (x3 << 24u32)
}

fn to_le_bytes(v: u32) -> (r: (u8, u8, u8, u8))
    ensures
        r == (byte_of(v, 0), byte_of(v, 1), byte_of(v, 2), byte_of(v, 3)),
{
    assert((v & 0xff) == v % 0x100 && ((v >> 8u32) & 0xff) == (v / 0x100) % 0x100 && ((v
        >> 16u32) & 0xff) == (v / 0x1_0000) % 0x100 && (v >> 24u32) == v / 0x100_0000 && v
        / 0x100_0000 < 0x100) by (bit_vector);
    (
        (v & 0xff) as u8,
        ((v >> 8u32) & 0xff) as u8,
        ((v >> 16u32) & 0xff) as u8,
        (v >> 24u32) as u8,
    )
}

/// The little-endian word at offset `off` of `bytes` (a PS-X EXE header field).
pub fn read_le32(bytes: &[u8], off: usize) -> (r: u32)
    requires
        off + 4 <= bytes@.len(),
    ensures
        r == header_word(bytes@, off as int),
{
    from_le32(bytes[off], bytes[off + 1], bytes[off + 2], bytes[off + 3])
}

/// Whether an address is mapped.
pub fn address_is_mapped(addr: u32) -> (b: bool)
    ensures
        b == is_mapped(addr),
{
    let addr = MemoryBus::mask_address(addr);
    match addr {
        RAM_BEGIN..=RAM_MIRROR_END => true,
        EXP1_BEGIN..=EXP1_END => true,
        BIOS_BEGIN..=BIOS_END => true,
        SCRATCH_BEGIN..=SCRATCH_END => true,
        IOPORTS_BEGIN..=IOPORTS_END => true,
        CACHECTL_BEGIN..=CACHECTL_END => true,
        _ => false,
    }
}

/// Whether one of the `len` addresses from `start` upwards (wrapping) is unmapped.
fn contains_unmapped(start: u32, len: u32) -> (b: bool)
    ensures
        b == !(forall|i: int| 0 <= i < len ==> is_mapped(#[trigger] addr_add(start, i))),
{
    let mut i: u32 = 0;
    while i < len
        invariant
            i <= len,
            forall|j: int| 0 <= j < i ==> is_mapped(#[trigger] addr_add(start, j)),
        decreases len - i,
    {
        if !address_is_mapped(next_addr(start, i)) {
            return true;
        }
        i = i + 1;
    }
    false
}

/// A vector of `n` zero bytes.
fn zeroed(n: usize) -> (r: Vec<u8>)
    ensures
        r@ == zeros(n as nat),
{
    let mut v: Vec<u8> = Vec::with_capacity(n);
    let mut i: usize = 0;
    while i < n
        invariant
            i <= n,
            v@ == zeros(i as nat),
        decreases n - i,
    {
        v.push(0u8);
        i = i + 1;
        assert(v@ =~= zeros(i as nat));
    }
    v
}

// ---------------------------------------------------------------------------
// The memory bus
// ---------------------------------------------------------------------------

/// The memory of the console as the CPU sees it.
pub struct MemoryBus {
    main_ram: Vec<u8>,
    exp1_ram: Vec<u8>,
    bios_rom: Vec<u8>,
    scratchpad: Vec<u8>,
}

impl View for MemoryBus {
    type V = MemoryState;

    closed spec fn view(&self) -> MemoryState {
        MemoryState {
            ram: self.main_ram@,
            exp1: self.exp1_ram@,
            bios: self.bios_rom@,
            scratchpad: self.scratchpad@,
        }
    }
}

impl MemoryBus {
    /// A bus whose every region holds zeros.
    pub fn new() -> (r: Self)
        ensures
            r.wf(),
            r@ == (MemoryState {
                ram: zeros(RAM_SIZE as nat),
                exp1: zeros(EXP1_SIZE as nat),
                bios: zeros(BIOS_SIZE as nat),
                scratchpad: zeros(SCRATCH_SIZE as nat),
            }),
    {
        let r = Self {
            main_ram: zeroed(RAM_SIZE as usize),
            exp1_ram: zeroed(EXP1_SIZE as usize),
            bios_rom: zeroed(BIOS_SIZE as usize),
            scratchpad: zeroed(SCRATCH_SIZE as usize),
        };
        r
    }

    /// A bus with zeroed RAM and this BIOS image, which must be 512 KiB long.
    pub fn with_bios(bios: &[u8]) -> (r: Self)
        requires
            bios@.len() == BIOS_SIZE,
        ensures
            r.wf(),
            r@ == (MemoryState {
                ram: zeros(RAM_SIZE as nat),
                exp1: zeros(EXP1_SIZE as nat),
                bios: bios@,
                scratchpad: zeros(SCRATCH_SIZE as nat),
            }),
    {
        let mut bus = Self::new();
        let mut i: usize = 0;
        while i < bios.len()
            invariant
                bios@.len() == BIOS_SIZE,
                i <= bios@.len(),
                bus.main_ram@ == zeros(RAM_SIZE as nat),
                bus.exp1_ram@ == zeros(EXP1_SIZE as nat),
                bus.scratchpad@ == zeros(SCRATCH_SIZE as nat),
                bus.bios_rom@.len() == BIOS_SIZE,
                forall|j: int| 0 <= j < i ==> bus.bios_rom@[j] == bios@[j],
            decreases bios@.len() - i,
        {
            bus.bios_rom.set(i, bios[i]);
            i = i + 1;
        }
        assert(bus.bios_rom@ =~= bios@);
        bus
    }

    /// Loads a PS-X EXE: copies its text to its destination, then clears
    /// the region that its header names, and returns the initial program
    /// counter, global pointer and stack pointer.
    pub fn load_psexe(&mut self, exe: &[u8]) -> (r: (u32, u32, u32))
        requires
            old(self).wf(),
            psexe_loadable(exe@),
        ensures
            final(self).wf(),
            r == (psexe_pc(exe@), psexe_gp(exe@), psexe_sp(exe@)),
            r.0 == le32(exe@[0x10], exe@[0x11], exe@[0x12], exe@[0x13]),
            r.1 == le32(exe@[0x14], exe@[0x15], exe@[0x16], exe@[0x17]),
            r.2 == (le32(exe@[0x30], exe@[0x31], exe@[0x32], exe@[0x33]) + le32(
                exe@[0x34],
                exe@[0x35],
                exe@[0x36],
                exe@[0x37],
            )) % 0x1_0000_0000,
            final(self)@ == psexe_loaded(old(self)@, exe@),
    {
        let initial_pc = read_le32(exe, 0x10);
        let initial_r28 = read_le32(exe, 0x14);
        let dest_addr = read_le32(exe, 0x18);
        let filesize = read_le32(exe, 0x1c);
        let memfill_start = read_le32(exe, 0x28);
        let memfill_size = read_le32(exe, 0x2c);
        let initial_r29_r30 = read_le32(exe, 0x30).wrapping_add(read_le32(exe, 0x34));
        let ghost start = self@;
        assert(dest_addr == psexe_dest(exe@) && filesize == psexe_size(exe@));
        assert(memfill_start == psexe_fill_start(exe@) && memfill_size == psexe_fill_size(exe@));
        let exe_len = exe.len();
        assert(text_prefix(exe@, 0) =~= Seq::empty());
        let mut byte: u32 = 0;
        while byte < filesize
            invariant
                self.wf(),
                exe_len == exe@.len(),
                filesize > 0 ==> 0x800 + filesize <= exe@.len(),
                forall|i: int| 0 <= i < filesize ==> is_mapped(#[trigger] addr_add(dest_addr, i)),
                byte <= filesize,
                self@ == start.store_bytes(dest_addr, text_prefix(exe@, byte as nat)),
            decreases filesize - byte,
        {
            let addr = dest_addr.wrapping_add(byte);
            assert(is_mapped(addr_add(dest_addr, byte as int)));
            self.write_byte(addr, exe[PSEXE_TEXT_OFFSET + byte as usize]);
            proof {
                assert(text_prefix(exe@, (byte + 1) as nat) =~= text_prefix(exe@, byte as nat).push(
                    exe@[0x800 + byte],
                ));
                MemoryState::lemma_store_bytes_push(
                    start,
                    dest_addr,
                    text_prefix(exe@, byte as nat),
                    exe@[0x800 + byte],
                );
            }
            byte = byte + 1;
        }
        let ghost loaded = self@;
        assert(zeros(0) =~= Seq::empty());
        let mut byte: u32 = 0;
        while byte < memfill_size
            invariant
                self.wf(),
                forall|i: int|
                    0 <= i < memfill_size ==> is_mapped(#[trigger] addr_add(memfill_start, i)),
                byte <= memfill_size,
                self@ == loaded.store_bytes(memfill_start, zeros(byte as nat)),
            decreases memfill_size - byte,
        {
            let addr = memfill_start.wrapping_add(byte);
            assert(is_mapped(addr_add(memfill_start, byte as int)));
            self.write_byte(addr, 0);
            proof {
                assert(zeros((byte + 1) as nat) =~= zeros(byte as nat).push(0u8));
                MemoryState::lemma_store_bytes_push(loaded, memfill_start, zeros(byte as nat), 0u8);
            }
            byte = byte + 1;
        }
        (initial_pc, initial_r28, initial_r29_r30)
    }

    /// Whether [`MemoryBus::load_psexe`] accepts this executable.
    pub fn can_load_psexe(exe: &[u8]) -> (b: bool)
        ensures
            b == psexe_loadable(exe@),
    {
        if exe.len() < PSEXE_HEADER_LEN {
            return false;
        }
        let dest_addr = read_le32(exe, 0x18);
        let filesize = read_le32(exe, 0x1c);
        let memfill_start = read_le32(exe, 0x28);
        let memfill_size = read_le32(exe, 0x2c);
        if filesize > 0 && (exe.len() < PSEXE_TEXT_OFFSET || exe.len() - PSEXE_TEXT_OFFSET
            < filesize as usize) {
            return false;
        }
        let text_unmapped = contains_unmapped(dest_addr, filesize);
        let fill_unmapped = contains_unmapped(memfill_start, memfill_size);
        assert(dest_addr == psexe_dest(exe@) && filesize == psexe_size(exe@));
        assert(memfill_start == psexe_fill_start(exe@) && memfill_size == psexe_fill_size(exe@));
        !text_unmapped && !fill_unmapped
    }

    /// The physical address of `addr` (see [`physical`]).
    fn mask_address(addr: u32) -> (r: u32)
        ensures
            r == physical(addr),
    {
        let region_mask: [u32; 8] = [
            0x1FFF_FFFF,
            0x1FFF_FFFF,
            0x1FFF_FFFF,
            0x1FFF_FFFF,
            0x1FFF_FFFF,
            0x1FFF_FFFF,
            0xFFFF_FFFF,
            0xFFFF_FFFF,
        ];
        assert((addr >> 29u32) < 8) by (bit_vector);
        assert(((addr >> 29u32) < 6 <==> addr < 0xC000_0000) && (addr & 0x1FFF_FFFF) == addr
            % 0x2000_0000 && (addr & 0xFFFF_FFFF) == addr) by (bit_vector);
        addr & region_mask[(addr >> 29u32) as usize]
    }
}

impl BusInterface for MemoryBus {
    open spec fn accepts(addr: u32) -> bool {
        is_mapped(addr)
    }

    open spec fn peek(&self, addr: u32) -> u8 {
        self@.byte_at(addr)
    }

    open spec fn wf(&self) -> bool {
        self@.wf()
    }

    fn read_byte(&self, addr: u32) -> (r: u8) {
        let addr = Self::mask_address(addr);
        assert((addr & RAM_MIRROR_MASK) == addr % RAM_SIZE) by (bit_vector);
        match addr {
            RAM_BEGIN..=RAM_MIRROR_END => self.main_ram[(addr & RAM_MIRROR_MASK) as usize],
            EXP1_BEGIN..=EXP1_END => self.exp1_ram[(addr - EXP1_BEGIN) as usize],
            BIOS_BEGIN..=BIOS_END => self.bios_rom[(addr - BIOS_BEGIN) as usize],
            SCRATCH_BEGIN..=SCRATCH_END => self.scratchpad[(addr - SCRATCH_BEGIN) as usize],
            IOPORTS_BEGIN..=IOPORTS_END => 0xff,
            CACHECTL_BEGIN..=CACHECTL_END => 0xff,
            _ => {
                proof {
                    assert(false);
                }
                0
            },
        }
    }

    fn read_halfword(&self, addr: u32) -> (r: u16) {
        from_le16(self.read_byte(addr), self.read_byte(next_addr(addr, 1)))
    }

    fn read_word(&self, addr: u32) -> (r: u32) {
        from_le32(
            self.read_byte(addr),
            self.read_byte(next_addr(addr, 1)),
            self.read_byte(next_addr(addr, 2)),
            self.read_byte(next_addr(addr, 3)),
        )
    }

    fn write_byte(&mut self, addr: u32, val: u8)
        ensures
            final(self)@ == old(self)@.store_byte(addr, val),
    {
        let addr = Self::mask_address(addr);
        assert((addr & RAM_MIRROR_MASK) == addr % RAM_SIZE) by (bit_vector);
        match addr {
            RAM_BEGIN..=RAM_MIRROR_END => self.main_ram.set((addr & RAM_MIRROR_MASK) as usize, val),
            BIOS_BEGIN..=BIOS_END => {},
            EXP1_BEGIN..=EXP1_END => self.exp1_ram.set((addr - EXP1_BEGIN) as usize, val),
            SCRATCH_BEGIN..=SCRATCH_END => self.scratchpad.set(
                (addr - SCRATCH_BEGIN) as usize,
                val,
            ),
            IOPORTS_BEGIN..=IOPORTS_END => {},
            CACHECTL_BEGIN..=CACHECTL_END => {},
            _ => {
                proof {
                    assert(false);
                }
            },
        }
    }

    fn write_halfword(&mut self, addr: u32, val: u16)
        ensures
            final(self)@ == old(self)@.store_halfword(addr, val),
    {
        assert((val & 0xff) == val % 0x100 && (val >> 8u16) == val / 0x100 && val / 0x100 < 0x100)
            by (bit_vector);
        let lo = (val & 0xff) as u8;
        let hi = (val >> 8u16) as u8;
        self.write_byte(addr, lo);
        self.write_byte(next_addr(addr, 1), hi);
    }

    fn write_word(&mut self, addr: u32, val: u32)
        ensures
            final(self)@ == old(self)@.store_word(addr, val),
    {
        let bytes = to_le_bytes(val);
        self.write_byte(addr, bytes.0);
        self.write_byte(next_addr(addr, 1), bytes.1);
        self.write_byte(next_addr(addr, 2), bytes.2);
        self.write_byte(next_addr(addr, 3), bytes.3);
    }
}


// ---------------------------------------------------------------------------
// Properties of the memory map
// ---------------------------------------------------------------------------

/// A byte written is read back at every address that reaches the same
/// location; the other locations keep their bytes; a write to a location that
/// holds no writable byte (BIOS ROM, I/O ports, cache control) changes nothing.
pub proof fn lemma_store_byte(m: MemoryState, addr: u32, val: u8, other: u32)
    requires
        m.wf(),
    ensures
        m.store_byte(addr, val).wf(),
        is_writable(addr) && locate(other) == locate(addr) ==> m.store_byte(addr, val).byte_at(other)
            == val,
        locate(other) != locate(addr) ==> m.store_byte(addr, val).byte_at(other) == m.byte_at(
            other,
        ),
        !is_writable(addr) ==> m.store_byte(addr, val) == m,
{
}

/// The segments KUSEG, KSEG0 (0x8000_0000) and KSEG1 (0xA000_0000) are three
/// views of the same 512 MiB.
pub proof fn lemma_segment_mirrors(addr: u32)
    requires
        addr < 0x2000_0000,
    ensures
        locate((addr + 0x8000_0000) as u32) == locate(addr),
        locate((addr + 0xA000_0000) as u32) == locate(addr),
{
}

/// Main RAM (2 MiB) repeats four times in the first 8 MiB.
pub proof fn lemma_ram_mirrors(addr: u32)
    requires
        addr < 0x0060_0000,
    ensures
        locate((addr + RAM_SIZE) as u32) == locate(addr),
        locate(addr) is Ram,
{
    vstd::arithmetic::div_mod::lemma_mod_add_multiples_vanish(addr as int, RAM_SIZE as int);
}

/// The BIOS image is what the CPU reads from 0xBFC0_0000 on, where it starts
/// after a reset.
pub proof fn lemma_bios_at_reset_vector(m: MemoryState, i: u32)
    requires
        m.wf(),
        i < BIOS_SIZE,
    ensures
        m.byte_at((0xBFC0_0000 + i) as u32) == m.bios[i as int],
        m.byte_at((0x1FC0_0000 + i) as u32) == m.bios[i as int],
{
}

/// The bytes of a word, reassembled little-endian, give the word.
pub proof fn lemma_word_bytes(v: u32)
    ensures
        le32(byte_of(v, 0), byte_of(v, 1), byte_of(v, 2), byte_of(v, 3)) == v,
        le16(byte_of(v, 0), byte_of(v, 1)) == v % 0x1_0000,
{
    assert((v % 0x100) + 0x100 * ((v / 0x100) % 0x100) + 0x1_0000 * ((v / 0x1_0000) % 0x100)
        + 0x100_0000 * (v / 0x100_0000) == v) by (bit_vector);
    assert((v % 0x100) + 0x100 * ((v / 0x100) % 0x100) == v % 0x1_0000) by (bit_vector);
}

/// Four addresses that reach four different writable locations.
pub open spec fn word_writable(addr: u32) -> bool {
    &&& forall|k: int| 0 <= k < 4 ==> is_writable(#[trigger] addr_add(addr, k))
    &&& forall|j: int, k: int|
        0 <= j < k < 4 ==> locate(#[trigger] addr_add(addr, j)) != locate(
            #[trigger] addr_add(addr, k),
        )
}

/// A word written to four distinct writable locations is read back.
pub proof fn lemma_word_round_trip(m: MemoryState, addr: u32, val: u32)
    requires
        m.wf(),
        word_writable(addr),
    ensures
        m.store_word(addr, val).wf(),
        le32(
            m.store_word(addr, val).byte_at(addr),
            m.store_word(addr, val).byte_at(addr_add(addr, 1)),
            m.store_word(addr, val).byte_at(addr_add(addr, 2)),
            m.store_word(addr, val).byte_at(addr_add(addr, 3)),
        ) == val,
{
    let a0 = addr;
    let a1 = addr_add(addr, 1);
    let a2 = addr_add(addr, 2);
    let a3 = addr_add(addr, 3);
    assert(a0 == addr_add(addr, 0));
    assert(is_writable(a0) && is_writable(a1) && is_writable(a2) && is_writable(a3));
    assert(locate(a0) != locate(a1) && locate(a0) != locate(a2) && locate(a0) != locate(a3));
    assert(locate(a1) != locate(a2) && locate(a1) != locate(a3) && locate(a2) != locate(a3));
    let m1 = m.store_byte(a0, byte_of(val, 0));
    let m2 = m1.store_byte(a1, byte_of(val, 1));
    let m3 = m2.store_byte(a2, byte_of(val, 2));
    let m4 = m3.store_byte(a3, byte_of(val, 3));
    lemma_store_byte(m, a0, byte_of(val, 0), a0);
    lemma_store_byte(m1, a1, byte_of(val, 1), a0);
    lemma_store_byte(m1, a1, byte_of(val, 1), a1);
    lemma_store_byte(m2, a2, byte_of(val, 2), a0);
    lemma_store_byte(m2, a2, byte_of(val, 2), a1);
    lemma_store_byte(m2, a2, byte_of(val, 2), a2);
    lemma_store_byte(m3, a3, byte_of(val, 3), a0);
    lemma_store_byte(m3, a3, byte_of(val, 3), a1);
    lemma_store_byte(m3, a3, byte_of(val, 3), a2);
    lemma_store_byte(m3, a3, byte_of(val, 3), a3);
    lemma_word_bytes(val);
}

/// A halfword written to two distinct writable locations is read back.
pub proof fn lemma_halfword_round_trip(m: MemoryState, addr: u32, val: u16)
    requires
        m.wf(),
        is_writable(addr),
        is_writable(addr_add(addr, 1)),
        locate(addr) != locate(addr_add(addr, 1)),
    ensures
        m.store_halfword(addr, val).wf(),
        le16(
            m.store_halfword(addr, val).byte_at(addr),
            m.store_halfword(addr, val).byte_at(addr_add(addr, 1)),
        ) == val,
{
    let a1 = addr_add(addr, 1);
    let lo = (val % 0x100) as u8;
    let hi = (val / 0x100) as u8;
    let m1 = m.store_byte(addr, lo);
    lemma_store_byte(m, addr, lo, addr);
    lemma_store_byte(m1, a1, hi, addr);
    lemma_store_byte(m1, a1, hi, a1);
}

/// Addresses `dest + i` for `i < n` all reach different writable locations.
pub open spec fn range_writable(dest: u32, n: int) -> bool {
    &&& forall|k: int| 0 <= k < n ==> is_writable(#[trigger] addr_add(dest, k))
    &&& forall|j: int, k: int|
        0 <= j < k < n ==> locate(#[trigger] addr_add(dest, j)) != locate(
            #[trigger] addr_add(dest, k),
        )
}

/// Writing a byte string to a range of distinct writable locations puts each
/// byte where a read of its address finds it, and leaves every location
/// outside the range as it was.
pub proof fn lemma_store_bytes(m: MemoryState, dest: u32, data: Seq<u8>, other: u32)
    requires
        m.wf(),
        range_writable(dest, data.len() as int),
    ensures
        m.store_bytes(dest, data).wf(),
        forall|i: int|
            0 <= i < data.len() ==> #[trigger] m.store_bytes(dest, data).byte_at(addr_add(dest, i))
                == data[i],
        (forall|i: int| 0 <= i < data.len() ==> locate(other) != locate(#[trigger] addr_add(dest, i)))
            ==> m.store_bytes(dest, data).byte_at(other) == m.byte_at(other),
    decreases data.len(),
{
    if data.len() > 0 {
        let n = data.len() - 1;
        let prev = data.drop_last();
        let last = addr_add(dest, n);
        lemma_store_bytes(m, dest, prev, other);
        let mp = m.store_bytes(dest, prev);
        lemma_store_byte(mp, last, data.last(), other);
        assert forall|i: int| 0 <= i < data.len() implies #[trigger] m.store_bytes(
            dest,
            data,
        ).byte_at(addr_add(dest, i)) == data[i] by {
            lemma_store_bytes(m, dest, prev, addr_add(dest, i));
            lemma_store_byte(mp, last, data.last(), addr_add(dest, i));
        }
    }
}


/// After an executable is loaded, each byte of its text can be read at its
/// destination address, unless the region to clear covers that location; and
/// the region to clear reads zero.
pub proof fn lemma_psexe_loaded(m: MemoryState, exe: Seq<u8>, i: int, j: int)
    requires
        m.wf(),
        psexe_loadable(exe),
        range_writable(psexe_dest(exe), psexe_size(exe) as int),
        range_writable(psexe_fill_start(exe), psexe_fill_size(exe) as int),
    ensures
        psexe_loaded(m, exe).wf(),
        0 <= i < psexe_size(exe) && (forall|k: int|
            0 <= k < psexe_fill_size(exe) ==> locate(#[trigger] addr_add(psexe_fill_start(exe), k))
                != locate(addr_add(psexe_dest(exe), i))) ==> psexe_loaded(m, exe).byte_at(
            addr_add(psexe_dest(exe), i),
        ) == exe[0x800 + i],
        0 <= j < psexe_fill_size(exe) ==> psexe_loaded(m, exe).byte_at(
            addr_add(psexe_fill_start(exe), j),
        ) == 0,
{
    let text = psexe_text(exe);
    let dest = psexe_dest(exe);
    let fill = psexe_fill_start(exe);
    let zs = zeros(psexe_fill_size(exe) as nat);
    lemma_store_bytes(m, dest, text, addr_add(dest, i));
    let mid = m.store_bytes(dest, text);
    lemma_store_bytes(mid, fill, zs, addr_add(dest, i));
    if 0 <= j < psexe_fill_size(exe) {
        assert(zs[j] == 0);
    }
}


/// The memory map, region by region, with the addresses written out: the
/// segment translation, the 2 MiB of RAM (2^21 distinct bytes, repeated four
/// times), the 8 MiB expansion region 1, the 512 KiB BIOS ROM, the 1 KiB
/// scratchpad, the I/O ports and the cache control registers. Every address
/// that reaches a region is mapped, and every other address is not.
pub proof fn lemma_memory_map(a: u32)
    ensures
        a < 0xC000_0000 ==> physical(a) == a % 0x2000_0000,
        a >= 0xC000_0000 ==> physical(a) == a,
        a < 0x20_0000 ==> locate(a) == Location::Ram(a),
        physical(a) < 0x80_0000 ==> locate(a) == Location::Ram(physical(a) % 0x20_0000),
        0x1F00_0000 <= physical(a) <= 0x1F7F_FFFF ==> locate(a) == Location::Exp1(
            (physical(a) - 0x1F00_0000) as u32,
        ),
        0x1F80_0000 <= physical(a) <= 0x1F80_03FF ==> locate(a) == Location::Scratchpad(
            (physical(a) - 0x1F80_0000) as u32,
        ),
        0x1F80_1000 <= physical(a) <= 0x1F80_2FFF ==> locate(a) == Location::IoPort,
        0x1FC0_0000 <= physical(a) <= 0x1FC7_FFFF ==> locate(a) == Location::Bios(
            (physical(a) - 0x1FC0_0000) as u32,
        ),
        0xFFFE_0000 <= physical(a) <= 0xFFFE_01FF ==> locate(a) == Location::CacheControl,
        is_mapped(a) <==> !(locate(a) is Unmapped),
        is_mapped(a) <==> (physical(a) < 0x80_0000 || 0x1F00_0000 <= physical(a) <= 0x1F7F_FFFF
            || 0x1F80_0000 <= physical(a) <= 0x1F80_03FF || 0x1F80_1000 <= physical(a)
            <= 0x1F80_2FFF || 0x1FC0_0000 <= physical(a) <= 0x1FC7_FFFF || 0xFFFE_0000
            <= physical(a) <= 0xFFFE_01FF),
        is_writable(a) <==> (physical(a) < 0x80_0000 || 0x1F00_0000 <= physical(a) <= 0x1F7F_FFFF
            || 0x1F80_0000 <= physical(a) <= 0x1F80_03FF),
{
}

/// Two RAM addresses below 2 MiB that differ reach different bytes: a byte
/// written at one is not read at the other.
pub proof fn lemma_ram_bytes_distinct(m: MemoryState, a: u32, b: u32, v: u8)
    requires
        m.wf(),
        a < 0x20_0000,
        b < 0x20_0000,
        a != b,
    ensures
        locate(a) != locate(b),
        m.store_byte(a, v).byte_at(b) == m.byte_at(b),
        m.store_byte(a, v).byte_at(a) == v,
        m.store_byte(a, v).byte_at((a + 0x8000_0000) as u32) == v,
{
    lemma_memory_map(a);
    lemma_memory_map(b);
    lemma_segment_mirrors(a);
    lemma_store_byte(m, a, v, b);
    lemma_store_byte(m, a, v, a);
    lemma_store_byte(m, a, v, (a + 0x8000_0000) as u32);
}

/// The fields of a PS-X EXE header, with their offsets written out: the
/// initial PC at 0x10, the global pointer at 0x14, the text's destination at
/// 0x18 and size at 0x1c, the region to clear at 0x28 (start) and 0x2c
/// (size), and the stack pointer as the sum (wrapping) of the words at 0x30
/// and 0x34. Each word is little-endian.
pub proof fn lemma_psexe_header(exe: Seq<u8>)
    requires
        exe.len() >= 0x38,
    ensures
        psexe_pc(exe) == exe[0x10] + 0x100 * exe[0x11] + 0x1_0000 * exe[0x12] + 0x100_0000 * exe[0x13],
        psexe_gp(exe) == exe[0x14] + 0x100 * exe[0x15] + 0x1_0000 * exe[0x16] + 0x100_0000 * exe[0x17],
        psexe_dest(exe) == exe[0x18] + 0x100 * exe[0x19] + 0x1_0000 * exe[0x1a] + 0x100_0000 * exe[0x1b],
        psexe_size(exe) == exe[0x1c] + 0x100 * exe[0x1d] + 0x1_0000 * exe[0x1e] + 0x100_0000 * exe[0x1f],
        psexe_fill_start(exe) == exe[0x28] + 0x100 * exe[0x29] + 0x1_0000 * exe[0x2a] + 0x100_0000
            * exe[0x2b],
        psexe_fill_size(exe) == exe[0x2c] + 0x100 * exe[0x2d] + 0x1_0000 * exe[0x2e] + 0x100_0000
            * exe[0x2f],
        psexe_sp(exe) == (exe[0x30] + 0x100 * exe[0x31] + 0x1_0000 * exe[0x32] + 0x100_0000 * exe[0x33]
            + exe[0x34] + 0x100 * exe[0x35] + 0x1_0000 * exe[0x36] + 0x100_0000 * exe[0x37])
            % 0x1_0000_0000,
        forall|i: int| 0 <= i < psexe_size(exe) ==> #[trigger] psexe_text(exe)[i] == exe[0x800 + i],
        psexe_text(exe).len() == psexe_size(exe),
{
}


/// Little-endian order: the first byte is the least significant.
pub proof fn lemma_little_endian(b0: u8, b1: u8, b2: u8, b3: u8)
    ensures
        le16(b0, b1) % 0x100 == b0,
        le16(b0, b1) / 0x100 == b1,
        le32(b0, b1, b2, b3) % 0x100 == b0,
        (le32(b0, b1, b2, b3) / 0x100) % 0x100 == b1,
        (le32(b0, b1, b2, b3) / 0x1_0000) % 0x100 == b2,
        le32(b0, b1, b2, b3) / 0x100_0000 == b3,
        le32(b0, b1, b2, b3) == le16(b0, b1) + 0x1_0000 * le16(b2, b3),
        byte_of(le32(b0, b1, b2, b3), 0) == b0,
        byte_of(le32(b0, b1, b2, b3), 1) == b1,
        byte_of(le32(b0, b1, b2, b3), 2) == b2,
        byte_of(le32(b0, b1, b2, b3), 3) == b3,
{
    let x0 = b0 as u32;
    let x1 = b1 as u32;
    let x2 = b2 as u32;
    let x3 = b3 as u32;
    let w = le32(b0, b1, b2, b3);
    let lo = le16(b0, b1) as u32;
    let hi = le16(b2, b3) as u32;
    assert(w == x0 + 0x100 * x1 + 0x1_0000 * x2 + 0x100_0000 * x3);
    assert(lo == x0 + 0x100 * x1 && hi == x2 + 0x100 * x3);
    assert(x0 < 0x100 && x1 < 0x100 && x2 < 0x100 && x3 < 0x100 && w == x0 + 0x100 * x1 + 0x1_0000
        * x2 + 0x100_0000 * x3 && lo == x0 + 0x100 * x1 && hi == x2 + 0x100 * x3 ==> w % 0x100 == x0
        && (w / 0x100) % 0x100 == x1 && (w / 0x1_0000) % 0x100 == x2 && w / 0x100_0000 == x3 && lo
        % 0x100 == x0 && lo / 0x100 == x1 && w == lo + 0x1_0000 * hi) by (bit_vector);
}

/// What a read gives where no byte is held: the I/O ports and the cache
/// control registers read 0xff, whatever was written there.
pub proof fn lemma_unbacked_reads(m: MemoryState, a: u32, v: u8)
    requires
        m.wf(),
        locate(a) is IoPort || locate(a) is CacheControl,
    ensures
        m.byte_at(a) == 0xff,
        m.store_byte(a, v).byte_at(a) == 0xff,
{
}

} // verus!
