//! The address space of the machine: 8 KiB of on-chip RAM, 128 KiB of flash
//! and 512 KiB of external RAM behind a chip select, each in a window that
//! the guest can move.

use rand::Rng;
use vstd::prelude::*;

verus! {

/// Bytes of flash.
pub const ROM_SIZE: usize = 0x20000;

/// Bytes of external RAM.
pub const EXTERNAL_RAM_SIZE: usize = 0x80000;

/// Bytes of on-chip RAM.
pub const ONCHIP_RAM_SIZE: u32 = 0x2000;

/// Where in its 64 KiB segment the on-chip RAM begins.
pub const ONCHIP_RAM_BASE: u32 = 0xe000;

/// What a read of an address that nothing claims gives.
pub const UNMAPPED_BYTE: u8 = 0xf5;

/// Where the random fill of RAM begins.
pub const RANDOM_FILL_START: u32 = 0x40000;

/// Where the random fill of RAM ends.
pub const RANDOM_FILL_END: u32 = 0xc0000;

/// The registers that place the three memories in the address space. The
/// guest changes them through port I/O only.
#[derive(Clone, Copy, Debug)]
pub struct MemoryRegisters {
    pub onchip_mem_enable: bool,
    pub onchip_mem_segment: u8,
    pub flash_addr_u: u8,
    pub cs0_lbr: u8,
    pub cs0_ubr: u8,
}

/// The memory that claims an address, with the place in it.
pub enum Region {
    Sram(int),
    Rom(int),
    Ram(int),
    Unmapped,
}

impl MemoryRegisters {
    /// The registers after reset.
    pub open spec fn reset() -> MemoryRegisters {
        MemoryRegisters {
            onchip_mem_enable: true,
            onchip_mem_segment: 0xff,
            flash_addr_u: 0,
            cs0_lbr: 0,
            cs0_ubr: 0xff,
        }
    }

    /// First address of the on-chip RAM window.
    pub open spec fn sram_base(self) -> int {
        self.onchip_mem_segment * 0x10000 + ONCHIP_RAM_BASE
    }

    /// First address of the flash window.
    pub open spec fn rom_base(self) -> int {
        self.flash_addr_u * 0x10000
    }

    /// The place in on-chip RAM that the address falls on, while that
    /// memory is switched on.
    pub open spec fn sram_offset(self, address: u32) -> Option<int> {
        if self.onchip_mem_enable && self.sram_base() <= address < self.sram_base()
            + ONCHIP_RAM_SIZE {
            Some(address - self.sram_base())
        } else {
            None
        }
    }

    /// The place in flash that the address falls on.
    pub open spec fn rom_offset(self, address: u32) -> Option<int> {
        if self.rom_base() <= address < self.rom_base() + ROM_SIZE {
            Some(address - self.rom_base())
        } else {
            None
        }
    }

    /// The address with its upper byte folded into the span of the chip
    /// select.
    pub open spec fn folded(self, address: u32) -> u32 {
        (address & 0xffff) | (((address >> 16) & ((self.cs0_ubr - self.cs0_lbr) as u32)) << 16)
    }

    /// The place in external RAM that the address falls on: its upper byte
    /// lies within the bounds of chip select 0, and the folded address
    /// within the memory.
    pub open spec fn ram_offset(self, address: u32) -> Option<int> {
        if self.cs0_lbr <= (address >> 16) <= self.cs0_ubr && self.folded(address)
            < EXTERNAL_RAM_SIZE {
            Some(self.folded(address) as int)
        } else {
            None
        }
    }

    /// The memory that answers for an address: on-chip RAM before flash,
    /// flash before external RAM.
    pub open spec fn decode(self, address: u32) -> Region {
        if self.sram_offset(address) is Some {
            Region::Sram(self.sram_offset(address)->0)
        } else if self.rom_offset(address) is Some {
            Region::Rom(self.rom_offset(address)->0)
        } else if self.ram_offset(address) is Some {
            Region::Ram(self.ram_offset(address)->0)
        } else {
            Region::Unmapped
        }
    }
}

/// The memories and what goes with each access, as contracts speak of it.
pub struct MemoryState {
    pub regs: MemoryRegisters,
    pub sram: Seq<u8>,
    pub rom: Seq<u8>,
    pub ram: Seq<u8>,
    /// The last address that was accessed and that nothing claimed.
    pub out_of_bounds: Option<u32>,
    /// Clock cycles charged since the count was last reset.
    pub cycles: u32,
}

/// A count of cycles with `n` more, held at the largest value.
pub open spec fn charged(cycles: u32, n: int) -> u32 {
    if cycles + n > u32::MAX {
        u32::MAX
    } else {
        (cycles + n) as u32
    }
}

impl MemoryState {
    /// Each memory has its size.
    pub open spec fn wf(self) -> bool {
        &&& self.sram.len() == ONCHIP_RAM_SIZE
        &&& self.rom.len() == ROM_SIZE
        &&& self.ram.len() == EXTERNAL_RAM_SIZE
    }

    /// The byte at an address.
    pub open spec fn read(self, address: u32) -> u8 {
        match self.regs.decode(address) {
            Region::Sram(at) => self.sram[at],
            Region::Rom(at) => self.rom[at],
            Region::Ram(at) => self.ram[at],
            Region::Unmapped => UNMAPPED_BYTE,
        }
    }

    /// Clock cycles that an access to the address takes.
    pub open spec fn cost(self, address: u32) -> int {
        match self.regs.decode(address) {
            Region::Rom(_) => 2,
            _ => 1,
        }
    }

    /// What every access does besides moving a byte: it charges its
    /// cycles, and remembers the address if nothing claims it.
    pub open spec fn accessed(self, address: u32) -> MemoryState {
        MemoryState {
            cycles: charged(self.cycles, self.cost(address)),
            out_of_bounds: if self.regs.decode(address) is Unmapped {
                Some(address)
            } else {
                self.out_of_bounds
            },
            ..self
        }
    }

    /// The memories with `value` stored at an address. A store to an
    /// address that nothing claims is lost.
    pub open spec fn written(self, address: u32, value: u8) -> MemoryState {
        match self.regs.decode(address) {
            Region::Sram(at) => MemoryState { sram: self.sram.update(at, value), ..self },
            Region::Rom(at) => MemoryState { rom: self.rom.update(at, value), ..self },
            Region::Ram(at) => MemoryState { ram: self.ram.update(at, value), ..self },
            Region::Unmapped => self,
        }
    }

    /// The state after a write access.
    pub open spec fn poke(self, address: u32, value: u8) -> MemoryState {
        self.written(address, value).accessed(address)
    }

    /// The state after the bytes of `data` were written one by one from
    /// `start` upwards.
    pub open spec fn poke_all(self, start: u32, data: Seq<u8>) -> MemoryState
        decreases data.len(),
    {
        if data.len() == 0 {
            self
        } else {
            self.poke_all(start, data.drop_last()).poke(
                address_at(start, data.len() - 1),
                data.last(),
            )
        }
    }

    /// The state after `count` read accesses from `start` upwards.
    pub open spec fn peek_all(self, start: u32, count: nat) -> MemoryState
        decreases count,
    {
        if count == 0 {
            self
        } else {
            self.peek_all(start, (count - 1) as nat).accessed(address_at(start, count - 1))
        }
    }

    /// The `count` bytes from `start` upwards.
    pub open spec fn read_all(self, start: u32, count: nat) -> Seq<u8> {
        Seq::new(count, |i: int| self.read(address_at(start, i)))
    }

    /// The number of bytes from `address` upwards that come before a byte
    /// that ends a path, or before the end of the address space.
    pub open spec fn path_len(self, address: u32) -> nat
        decreases u32::MAX - address,
    {
        if ends_path(self.read(address)) {
            0
        } else if address == u32::MAX {
            1
        } else {
            1 + self.path_len((address + 1) as u32)
        }
    }

    /// The path that the guest has put at `address`: the bytes up to the
    /// first NUL, line feed or carriage return.
    pub open spec fn path_at(self, address: u32) -> Seq<u8> {
        self.read_all(address, self.path_len(address))
    }

    /// The number of read accesses that taking the path at `address`
    /// makes: one more than its length, for the byte that ends it, unless
    /// the address space ended first.
    pub open spec fn path_reads(self, address: u32) -> nat {
        if address + self.path_len(address) > u32::MAX {
            self.path_len(address)
        } else {
            self.path_len(address) + 1
        }
    }
}

/// The address `i` places above `start`. Addresses count modulo 2^32.
#[verifier::opaque]
pub open spec fn address_at(start: u32, i: int) -> u32 {
    ((start + i) % 0x1_0000_0000) as u32
}

/// How addresses count upwards: the address no places above `start` is
/// `start`, and the address one place further is the next, with zero after
/// the last.
pub proof fn lemma_address_at(start: u32, i: int)
    requires
        i >= 0,
    ensures
        address_at(start, 0) == start,
        address_at(start, i + 1) == address_at(start, i).wrapping_add(1),
        start + i <= u32::MAX ==> address_at(start, i) == start + i,
{
    reveal(address_at);
}

/// The byte ends a path in guest memory: NUL, line feed or carriage return.
pub open spec fn ends_path(b: u8) -> bool {
    b == 0 || b == 10 || b == 13
}

/// The number that three bytes spell, lowest byte first.
pub open spec fn le24(bytes: Seq<u8>) -> u32 {
    (bytes[0] + bytes[1] * 0x100 + bytes[2] * 0x1_0000) as u32
}

/// The three low bytes of a number, lowest first.
pub open spec fn le24_bytes(value: u32) -> Seq<u8> {
    seq![(value % 0x100) as u8, (value / 0x100 % 0x100) as u8, (value / 0x1_0000 % 0x100) as u8]
}

/// The three memories, the registers that place them, the latch for
/// accesses that nothing claims, and the count of clock cycles.
pub struct Memory {
    mem_external: Vec<u8>,
    mem_rom: Vec<u8>,
    mem_internal: Vec<u8>,
    regs: MemoryRegisters,
    mem_out_of_bounds: Option<u32>,
    cycle_counter: u32,
}

impl View for Memory {
    type V = MemoryState;

    closed spec fn view(&self) -> MemoryState {
        MemoryState {
            regs: self.regs,
            sram: self.mem_internal@,
            rom: self.mem_rom@,
            ram: self.mem_external@,
            out_of_bounds: self.mem_out_of_bounds,
            cycles: self.cycle_counter,
        }
    }
}

/// One byte from `rand::thread_rng().gen_range(0..=255)`. Nothing is
/// claimed of it: any byte may come.
#[verifier::external_body]
fn random_byte() -> (b: u8) {
    rand::thread_rng().gen_range(0..=255)
}

impl Memory {
    /// Each memory has its size, always.
    #[verifier::type_invariant]
    pub open spec fn sized(&self) -> bool {
        self@.wf()
    }

    /// Memories full of zeroes, behind registers as reset leaves them.
    pub fn new() -> (r: Self)
        ensures
            r@.regs == MemoryRegisters::reset(),
            r@.sram == Seq::new(ONCHIP_RAM_SIZE as nat, |i: int| 0u8),
            r@.rom == Seq::new(ROM_SIZE as nat, |i: int| 0u8),
            r@.ram == Seq::new(EXTERNAL_RAM_SIZE as nat, |i: int| 0u8),
            r@.out_of_bounds is None,
            r@.cycles == 0,
            r@.wf(),
    {
        let mem_internal: Vec<u8> = vec![0u8; ONCHIP_RAM_SIZE as usize];
        let mem_rom: Vec<u8> = vec![0u8; ROM_SIZE];
        let mem_external: Vec<u8> = vec![0u8; EXTERNAL_RAM_SIZE];
        assert(mem_internal@ =~= Seq::new(ONCHIP_RAM_SIZE as nat, |i: int| 0u8));
        assert(mem_rom@ =~= Seq::new(ROM_SIZE as nat, |i: int| 0u8));
        assert(mem_external@ =~= Seq::new(EXTERNAL_RAM_SIZE as nat, |i: int| 0u8));
        Memory {
            mem_external,
            mem_rom,
            mem_internal,
            regs: MemoryRegisters {
                onchip_mem_enable: true,
                onchip_mem_segment: 0xff,
                flash_addr_u: 0,
                cs0_lbr: 0,
                cs0_ubr: 0xff,
            },
            mem_out_of_bounds: None,
            cycle_counter: 0,
        }
    }

    pub fn registers(&self) -> (r: MemoryRegisters)
        ensures
            r == self@.regs,
    {
        self.regs
    }

    pub fn set_registers(&mut self, regs: MemoryRegisters)
        ensures
            final(self)@ == (MemoryState { regs, ..old(self)@ }),
    {
        proof {
            use_type_invariant(&*self);
        }
        self.regs = regs;
    }

    /// The last address accessed that nothing claimed, if it was not
    /// cleared since.
    pub fn out_of_bounds(&self) -> (r: Option<u32>)
        ensures
            r == self@.out_of_bounds,
    {
        self.mem_out_of_bounds
    }

    pub fn set_out_of_bounds(&mut self, address: Option<u32>)
        ensures
            final(self)@ == (MemoryState { out_of_bounds: address, ..old(self)@ }),
    {
        proof {
            use_type_invariant(&*self);
        }
        self.mem_out_of_bounds = address;
    }

    /// Clock cycles charged since the count was last reset.
    pub fn cycles(&self) -> (r: u32)
        ensures
            r == self@.cycles,
    {
        self.cycle_counter
    }

    pub fn reset_cycles(&mut self)
        ensures
            final(self)@ == (MemoryState { cycles: 0, ..old(self)@ }),
    {
        proof {
            use_type_invariant(&*self);
        }
        self.cycle_counter = 0;
    }

    /// Charges `cycles` clock cycles. The count stops at its largest value.
    pub fn use_cycles(&mut self, cycles: u32)
        ensures
            final(self)@ == (MemoryState {
                cycles: charged(old(self)@.cycles, cycles as int),
                ..old(self)@
            }),
    {
        proof {
            use_type_invariant(&*self);
        }
        self.cycle_counter = if cycles > u32::MAX - self.cycle_counter {
            u32::MAX
        } else {
            self.cycle_counter + cycles
        };
    }

    pub fn get_rom_address(&self, address: u32) -> (r: Option<u32>)
        ensures
            r is Some == self@.regs.rom_offset(address) is Some,
            r is Some ==> r->0 == self@.regs.rom_offset(address)->0 && r->0 < ROM_SIZE,
    {
        let base: u32 = (self.regs.flash_addr_u as u32) * 0x10000;
        if address >= base && address - base < ROM_SIZE as u32 {
            Some(address - base)
        } else {
            None
        }
    }

    pub fn get_internal_ram_address(&self, address: u32) -> (r: Option<u32>)
        ensures
            r is Some == self@.regs.sram_offset(address) is Some,
            r is Some ==> r->0 == self@.regs.sram_offset(address)->0 && r->0 < ONCHIP_RAM_SIZE,
    {
        if !self.regs.onchip_mem_enable {
            return None;
        }
        let base: u32 = (self.regs.onchip_mem_segment as u32) * 0x10000 + ONCHIP_RAM_BASE;
        if address >= base && address - base < ONCHIP_RAM_SIZE {
            Some(address - base)
        } else {
            None
        }
    }

    pub fn get_external_ram_address(&self, address: u32) -> (r: Option<u32>)
        ensures
            r is Some == self@.regs.ram_offset(address) is Some,
            r is Some ==> r->0 == self@.regs.ram_offset(address)->0 && r->0 < EXTERNAL_RAM_SIZE,
    {
        let bank: u32 = address >> 16;
        if bank >= self.regs.cs0_lbr as u32 && bank <= self.regs.cs0_ubr as u32 {
            let span: u32 = (self.regs.cs0_ubr - self.regs.cs0_lbr) as u32;
            let offset: u32 = (address & 0xffff) | ((bank & span) << 16);
            if offset < EXTERNAL_RAM_SIZE as u32 {
                Some(offset)
            } else {
                None
            }
        } else {
            None
        }
    }

    /// Reads the byte at an address.
    pub fn peek(&mut self, address: u32) -> (value: u8)
        ensures
            value == old(self)@.read(address),
            final(self)@ == old(self)@.accessed(address),
            final(self)@.wf(),
    {
        proof {
            use_type_invariant(&*self);
        }
        if let Some(at) = self.get_internal_ram_address(address) {
            self.use_cycles(1);
            self.mem_internal[at as usize]
        } else if let Some(at) = self.get_rom_address(address) {
            self.use_cycles(2);
            self.mem_rom[at as usize]
        } else if let Some(at) = self.get_external_ram_address(address) {
            self.use_cycles(1);
            self.mem_external[at as usize]
        } else {
            self.use_cycles(1);
            self.mem_out_of_bounds = Some(address);
            UNMAPPED_BYTE
        }
    }

    /// Writes a byte to an address.
    pub fn poke(&mut self, address: u32, value: u8)
        ensures
            final(self)@ == old(self)@.poke(address, value),
            final(self)@.wf(),
    {
        proof {
            use_type_invariant(&*self);
        }
        if let Some(at) = self.get_internal_ram_address(address) {
            self.use_cycles(1);
            self.mem_internal[at as usize] = value;
        } else if let Some(at) = self.get_rom_address(address) {
            self.use_cycles(2);
            self.mem_rom[at as usize] = value;
        } else if let Some(at) = self.get_external_ram_address(address) {
            self.use_cycles(1);
            self.mem_external[at as usize] = value;
        } else {
            self.use_cycles(1);
            self.mem_out_of_bounds = Some(address);
        }
    }

    /// Reads three bytes as a number, lowest byte first.
    pub fn peek24(&mut self, address: u32) -> (value: u32)
        ensures
            value == le24(old(self)@.read_all(address, 3)),
            final(self)@ == old(self)@.peek_all(address, 3),
            final(self)@.wf(),
    {
        let b0: u8 = self.peek(address);
        let b1: u8 = self.peek(address.wrapping_add(1));
        let b2: u8 = self.peek(address.wrapping_add(2));
        proof {
            lemma_address_at(address, 0);
            lemma_address_at(address, 1);
            assert(address.wrapping_add(2) == address.wrapping_add(1).wrapping_add(1));
            reveal_with_fuel(MemoryState::peek_all, 4);
        }
        b0 as u32 + (b1 as u32) * 0x100 + (b2 as u32) * 0x1_0000
    }

    /// Writes the three low bytes of a number, lowest byte first.
    pub fn poke24(&mut self, address: u32, value: u32)
        ensures
            final(self)@ == old(self)@.poke_all(address, le24_bytes(value)),
            final(self)@.wf(),
    {
        self.poke(address, (value % 0x100) as u8);
        self.poke(address.wrapping_add(1), (value / 0x100 % 0x100) as u8);
        self.poke(address.wrapping_add(2), (value / 0x1_0000 % 0x100) as u8);
        proof {
            let d = le24_bytes(value);
            lemma_address_at(address, 0);
            lemma_address_at(address, 1);
            assert(address.wrapping_add(2) == address.wrapping_add(1).wrapping_add(1));
            assert(d.drop_last() =~= seq![d[0], d[1]]);
            assert(d.drop_last().drop_last() =~= seq![d[0]]);
            assert(d.drop_last().drop_last().drop_last() =~= Seq::<u8>::empty());
            reveal_with_fuel(MemoryState::poke_all, 4);
        }
    }

    /// Writes `data` from `start` upwards.
    pub fn memcpy(&mut self, start: u32, data: &[u8])
        ensures
            final(self)@ == old(self)@.poke_all(start, data@),
            final(self)@.wf(),
    {
        let ghost before = self@;
        let mut loc: u32 = start;
        let mut i: usize = 0;
        proof {
            use_type_invariant(&*self);
            lemma_address_at(start, 0);
        }
        while i < data.len()
            invariant
                i <= data@.len(),
                loc == address_at(start, i as int),
                self@ == before.poke_all(start, data@.subrange(0, i as int)),
                self@.wf(),
            decreases data@.len() - i,
        {
            self.poke(loc, data[i]);
            proof {
                lemma_address_at(start, i as int);
                let done = data@.subrange(0, i + 1);
                assert(done.drop_last() =~= data@.subrange(0, i as int));
                assert(done.last() == data@[i as int]);
            }
            loc = loc.wrapping_add(1);
            i = i + 1;
        }
        assert(data@.subrange(0, i as int) =~= data@);
    }

    /// Writes `count` bytes `fill` from `start` upwards.
    pub fn memset(&mut self, start: u32, fill: u8, count: u32)
        ensures
            final(self)@ == old(self)@.poke_all(start, Seq::new(count as nat, |i: int| fill)),
            final(self)@.wf(),
    {
        let ghost before = self@;
        let mut loc: u32 = start;
        let mut i: u32 = 0;
        proof {
            use_type_invariant(&*self);
            lemma_address_at(start, 0);
        }
        while i < count
            invariant
                i <= count,
                loc == address_at(start, i as int),
                self@ == before.poke_all(start, Seq::new(i as nat, |k: int| fill)),
                self@.wf(),
            decreases count - i,
        {
            self.poke(loc, fill);
            proof {
                lemma_address_at(start, i as int);
                let done = Seq::new((i + 1) as nat, |k: int| fill);
                assert(done.drop_last() =~= Seq::new(i as nat, |k: int| fill));
            }
            loc = loc.wrapping_add(1);
            i = i + 1;
        }
    }

    /// Reads `count` bytes from `start` upwards.
    pub fn read_bytes(&mut self, start: u32, count: u32) -> (data: Vec<u8>)
        ensures
            data@ == old(self)@.read_all(start, count as nat),
            final(self)@ == old(self)@.peek_all(start, count as nat),
            final(self)@.wf(),
    {
        let ghost before = self@;
        let mut data: Vec<u8> = Vec::new();
        let mut loc: u32 = start;
        let mut i: u32 = 0;
        proof {
            use_type_invariant(&*self);
            lemma_address_at(start, 0);
        }
        while i < count
            invariant
                i <= count,
                loc == address_at(start, i as int),
                data@ == before.read_all(start, i as nat),
                self@ == before.peek_all(start, i as nat),
                self@.wf(),
            decreases count - i,
        {
            proof {
                lemma_reads_keep_bytes(before, start, i as nat, loc);
                lemma_address_at(start, i as int);
            }
            let b: u8 = self.peek(loc);
            data.push(b);
            assert(data@ =~= before.read_all(start, (i + 1) as nat));
            loc = loc.wrapping_add(1);
            i = i + 1;
        }
        data
    }

    /// Takes the path that the guest has put at `address`.
    pub fn get_mos_path_string(&mut self, address: u32) -> (path: Vec<u8>)
        ensures
            path@ == old(self)@.path_at(address),
            final(self)@ == old(self)@.peek_all(address, old(self)@.path_reads(address)),
            final(self)@.wf(),
    {
        let ghost before = self@;
        let mut path: Vec<u8> = Vec::new();
        let mut ptr: u32 = address;
        proof {
            use_type_invariant(&*self);
        }
        loop
            invariant_except_break
                address <= ptr,
                path@ == before.read_all(address, (ptr - address) as nat),
                self@ == before.peek_all(address, (ptr - address) as nat),
                before.path_len(address) == (ptr - address) + before.path_len(ptr),
                self@.wf(),
            ensures
                path@ == before.path_at(address),
                self@ == before.peek_all(address, before.path_reads(address)),
                self@.wf(),
            decreases u32::MAX - ptr,
        {
            proof {
                lemma_reads_keep_bytes(before, address, (ptr - address) as nat, ptr);
                lemma_address_at(address, ptr - address);
            }
            let b: u8 = self.peek(ptr);
            if b == 0 || b == 10 || b == 13 {
                break ;
            }
            path.push(b);
            assert(path@ =~= before.read_all(address, (ptr - address + 1) as nat));
            if ptr == u32::MAX {
                break ;
            }
            ptr = ptr + 1;
        }
        path
    }

    /// Puts a firmware image at the start of flash.
    pub fn load_rom(&mut self, code: &[u8])
        requires
            code@.len() <= ROM_SIZE,
        ensures
            final(self)@ == (MemoryState {
                rom: code@ + old(self)@.rom.subrange(code@.len() as int, ROM_SIZE as int),
                ..old(self)@
            }),
            final(self)@.wf(),
    {
        let ghost before = self@;
        proof {
            use_type_invariant(&*self);
        }
        let mut i: usize = 0;
        assert(self.mem_rom@ =~= code@.subrange(0, 0) + before.rom.subrange(0, ROM_SIZE as int));
        while i < code.len()
            invariant
                i <= code@.len() <= ROM_SIZE,
                before.wf(),
                self@ == (MemoryState {
                    rom: code@.subrange(0, i as int) + before.rom.subrange(i as int, ROM_SIZE as int),
                    ..before
                }),
            decreases code@.len() - i,
        {
            proof {
                use_type_invariant(&*self);
            }
            self.mem_rom[i] = code[i];
            assert(self.mem_rom@ =~= code@.subrange(0, i + 1) + before.rom.subrange(
                i + 1,
                ROM_SIZE as int,
            ));
            i = i + 1;
        }
        assert(code@.subrange(0, i as int) =~= code@);
    }

    /// Fills the RAM with random bytes: one write to each address from
    /// 0x40000 up to 0xc0000, then every byte of the on-chip RAM.
    pub fn randomize(&mut self)
        ensures
            exists|ram_fill: Seq<u8>|
                ram_fill.len() == RANDOM_FILL_END - RANDOM_FILL_START && final(self)@ == (MemoryState {
                    sram: final(self)@.sram,
                    ..#[trigger] old(self)@.poke_all(RANDOM_FILL_START, ram_fill)
                }),
            final(self)@.regs == old(self)@.regs,
            final(self)@.wf(),
    {
        let ghost before = self@;
        let ghost mut ram_fill: Seq<u8> = Seq::empty();
        proof {
            use_type_invariant(&*self);
        }
        let mut address: u32 = RANDOM_FILL_START;
        while address < RANDOM_FILL_END
            invariant
                RANDOM_FILL_START <= address <= RANDOM_FILL_END,
                ram_fill.len() == address - RANDOM_FILL_START,
                self@ == before.poke_all(RANDOM_FILL_START, ram_fill),
                self@.wf(),
            decreases RANDOM_FILL_END - address,
        {
            let b: u8 = random_byte();
            self.poke(address, b);
            proof {
                let longer = ram_fill.push(b);
                assert(longer.drop_last() =~= ram_fill);
                lemma_address_at(RANDOM_FILL_START, ram_fill.len() as int);
                ram_fill = longer;
            }
            address = address + 1;
        }
        let ghost poked = self@;
        let mut i: usize = 0;
        while i < ONCHIP_RAM_SIZE as usize
            invariant
                i <= ONCHIP_RAM_SIZE,
                poked.wf(),
                self@ == (MemoryState { sram: self@.sram, ..poked }),
                self@.sram.len() == ONCHIP_RAM_SIZE,
            decreases ONCHIP_RAM_SIZE - i,
        {
            proof {
                use_type_invariant(&*self);
            }
            let b: u8 = random_byte();
            self.mem_internal[i] = b;
            i = i + 1;
        }
        proof {
            lemma_writes_keep_windows(before, RANDOM_FILL_START, ram_fill);
        }
        assert(self@ == (MemoryState {
            sram: self@.sram,
            ..before.poke_all(RANDOM_FILL_START, ram_fill)
        }));
    }
}

/// Read accesses change no byte and move no window: after any number of
/// them every address reads as before.
pub proof fn lemma_reads_keep_bytes(s: MemoryState, start: u32, count: nat, address: u32)
    ensures
        s.peek_all(start, count).read(address) == s.read(address),
        s.peek_all(start, count).regs == s.regs,
        s.peek_all(start, count).sram == s.sram,
        s.peek_all(start, count).rom == s.rom,
        s.peek_all(start, count).ram == s.ram,
    decreases count,
{
    if count > 0 {
        lemma_reads_keep_bytes(s, start, (count - 1) as nat, address);
    }
}

/// Writes move no window and change the size of no memory.
pub proof fn lemma_writes_keep_windows(s: MemoryState, start: u32, data: Seq<u8>)
    requires
        s.wf(),
    ensures
        s.poke_all(start, data).regs == s.regs,
        s.poke_all(start, data).wf(),
    decreases data.len(),
{
    if data.len() > 0 {
        lemma_writes_keep_windows(s, start, data.drop_last());
    }
}

/// No address belongs to two memories: the one that answers for it is
/// found in a fixed order, and an address that none claims is unmapped.
pub proof fn law_one_region_claims(regs: MemoryRegisters, address: u32)
    ensures
        (if regs.decode(address) is Sram { 1int } else { 0 }) + (if regs.decode(address) is Rom { 1int } else { 0 })
            + (if regs.decode(address) is Ram { 1int } else { 0 }) + (if regs.decode(address) is Unmapped {
            1int
        } else {
            0
        }) == 1,
        regs.decode(address) is Unmapped <==> regs.sram_offset(address) is None && regs.rom_offset(
            address,
        ) is None && regs.ram_offset(address) is None,
        regs.decode(address) matches Region::Sram(at) ==> 0 <= at < ONCHIP_RAM_SIZE,
        regs.decode(address) matches Region::Rom(at) ==> 0 <= at < ROM_SIZE,
        regs.decode(address) matches Region::Ram(at) ==> 0 <= at < EXTERNAL_RAM_SIZE,
{
}

/// On an address that a memory claims, a read gives back what was written
/// there last, whatever the byte.
pub proof fn law_poke_then_peek(s: MemoryState, address: u32, value: u8)
    requires
        s.wf(),
        !(s.regs.decode(address) is Unmapped),
    ensures
        s.poke(address, value).read(address) == value,
        s.poke(address, value).wf(),
        s.poke(address, value).regs == s.regs,
        s.poke(address, value).out_of_bounds == s.out_of_bounds,
{
}

/// Writing back what a read gave changes no byte of any memory.
pub proof fn law_peek_then_poke(s: MemoryState, address: u32)
    requires
        s.wf(),
    ensures
        s.poke(address, s.read(address)).sram == s.sram,
        s.poke(address, s.read(address)).rom == s.rom,
        s.poke(address, s.read(address)).ram == s.ram,
{
    let t = s.poke(address, s.read(address));
    assert(t.sram =~= s.sram);
    assert(t.rom =~= s.rom);
    assert(t.ram =~= s.ram);
}

/// A read of an address that nothing claims gives the filler byte and
/// leaves the address in the latch; a write there changes no memory.
pub proof fn law_unmapped_access(s: MemoryState, address: u32, value: u8)
    requires
        s.regs.decode(address) is Unmapped,
    ensures
        s.read(address) == UNMAPPED_BYTE,
        s.accessed(address).out_of_bounds == Some(address),
        s.poke(address, value).out_of_bounds == Some(address),
        s.poke(address, value).sram == s.sram,
        s.poke(address, value).rom == s.rom,
        s.poke(address, value).ram == s.ram,
{
}

/// The addresses of `count` bytes from `start` upwards are each claimed
/// by a memory, and no two of them fall on the same place.
pub open spec fn distinct_places(regs: MemoryRegisters, start: u32, count: nat) -> bool {
    &&& forall|i: int|
        0 <= i < count ==> !(#[trigger] regs.decode(address_at(start, i)) is Unmapped)
    &&& forall|i: int, j: int|
        0 <= i < j < count ==> #[trigger] regs.decode(address_at(start, i)) != #[trigger] regs.decode(
            address_at(start, j),
        )
}

/// Bytes that are written to places that are claimed and distinct are read
/// back as they were written: what a program hands over from its memory is
/// what it finds when the same bytes are put back.
pub proof fn law_bytes_written_are_read_back(s: MemoryState, start: u32, data: Seq<u8>)
    requires
        s.wf(),
        distinct_places(s.regs, start, data.len()),
    ensures
        s.poke_all(start, data).read_all(start, data.len()) == data,
        s.poke_all(start, data).regs == s.regs,
        s.poke_all(start, data).wf(),
    decreases data.len(),
{
    if data.len() > 0 {
        let head = data.drop_last();
        let last = (data.len() - 1) as int;
        assert(distinct_places(s.regs, start, head.len())) by {
            assert forall|i: int| 0 <= i < head.len() implies !(#[trigger] s.regs.decode(
                address_at(start, i),
            ) is Unmapped) by {}
        }
        law_bytes_written_are_read_back(s, start, head);
        let before = s.poke_all(start, head);
        let after = s.poke_all(start, data);
        assert(after == before.poke(address_at(start, last), data.last()));
        assert forall|i: int| 0 <= i < data.len() implies after.read(address_at(start, i)) == data[i] by {
            if i < last {
                assert(s.regs.decode(address_at(start, i)) != s.regs.decode(address_at(start, last)));
                assert(before.read_all(start, head.len())[i] == head[i]);
            } else {
                assert(!(s.regs.decode(address_at(start, last)) is Unmapped));
            }
        }
        assert(after.read_all(start, data.len()) =~= data);
    } else {
        assert(s.poke_all(start, data).read_all(start, 0) =~= data);
    }
}

/// A write leaves every byte as it was whose place is not written: what
/// is read at `address` is the same before and after bytes were written to
/// other places.
pub proof fn lemma_writes_elsewhere(s: MemoryState, start: u32, data: Seq<u8>, address: u32)
    requires
        s.wf(),
        forall|i: int|
            0 <= i < data.len() ==> #[trigger] s.regs.decode(address_at(start, i)) != s.regs.decode(
                address,
            ),
    ensures
        s.poke_all(start, data).read(address) == s.read(address),
        s.poke_all(start, data).regs == s.regs,
        s.poke_all(start, data).wf(),
    decreases data.len(),
{
    if data.len() > 0 {
        lemma_writes_elsewhere(s, start, data.drop_last(), address);
        assert(s.regs.decode(address_at(start, data.len() - 1)) != s.regs.decode(address));
    }
}

/// Going up from an address in two steps is going up by their sum.
pub proof fn lemma_address_at_adds(start: u32, a: int, b: int)
    requires
        a >= 0,
        b >= 0,
    ensures
        address_at(address_at(start, a), b) == address_at(start, a + b),
{
    reveal(address_at);
    vstd::arithmetic::div_mod::lemma_add_mod_noop(start + a, b, 0x1_0000_0000);
    vstd::arithmetic::div_mod::lemma_small_mod(
        (b % 0x1_0000_0000) as nat,
        0x1_0000_0000,
    );
    vstd::arithmetic::div_mod::lemma_add_mod_noop(
        (start + a) % 0x1_0000_0000,
        b,
        0x1_0000_0000,
    );
    vstd::arithmetic::div_mod::lemma_mod_twice(start + a, 0x1_0000_0000);
}

/// The `count` bytes from `start` upwards and the `other_count` bytes from
/// `other` upwards have no place in common.
pub open spec fn apart(regs: MemoryRegisters, start: u32, count: nat, other: u32, other_count: nat) -> bool {
    forall|i: int, k: int|
        0 <= i < count && 0 <= k < other_count ==> #[trigger] regs.decode(address_at(start, i))
            != #[trigger] regs.decode(address_at(other, k))
}

/// Bytes written to one range leave the bytes of a range apart from it as
/// they were.
pub proof fn law_writes_keep_what_is_apart(
    s: MemoryState,
    start: u32,
    data: Seq<u8>,
    other: u32,
    other_count: nat,
)
    requires
        s.wf(),
        apart(s.regs, start, data.len(), other, other_count),
    ensures
        s.poke_all(start, data).read_all(other, other_count) == s.read_all(other, other_count),
        s.poke_all(start, data).regs == s.regs,
        s.poke_all(start, data).wf(),
{
    let t = s.poke_all(start, data);
    assert forall|k: int| 0 <= k < other_count implies t.read(address_at(other, k)) == s.read(
        address_at(other, k),
    ) by {
        assert forall|i: int| 0 <= i < data.len() implies #[trigger] s.regs.decode(
            address_at(start, i),
        ) != s.regs.decode(address_at(other, k)) by {}
        lemma_writes_elsewhere(s, start, data, address_at(other, k));
    }
    assert(t.read_all(other, other_count) =~= s.read_all(other, other_count));
    lemma_writes_keep_windows(s, start, data);
}

/// A part of a range of claimed and distinct places is such a range, and
/// the parts of it that do not overlap are apart.
pub proof fn lemma_parts_of_a_range(regs: MemoryRegisters, start: u32, count: nat, offset: nat, len: nat)
    requires
        distinct_places(regs, start, count),
        offset + len <= count,
    ensures
        distinct_places(regs, address_at(start, offset as int), len),
        forall|at: nat, n: nat|
            at + n <= count && (at + n <= offset || offset + len <= at) ==> #[trigger] apart(
                regs,
                address_at(start, offset as int),
                len,
                address_at(start, at as int),
                n,
            ),
{
    let inner = address_at(start, offset as int);
    assert forall|i: int| 0 <= i < len implies address_at(inner, i) == address_at(start, offset + i) by {
        lemma_address_at_adds(start, offset as int, i);
    }
    assert(distinct_places(regs, inner, len)) by {
        assert forall|i: int| 0 <= i < len implies !(#[trigger] regs.decode(address_at(inner, i)) is Unmapped) by {
            assert(!(regs.decode(address_at(start, offset + i)) is Unmapped));
        }
        assert forall|i: int, j: int| 0 <= i < j < len implies #[trigger] regs.decode(
            address_at(inner, i),
        ) != #[trigger] regs.decode(address_at(inner, j)) by {
            assert(regs.decode(address_at(start, offset + i)) != regs.decode(
                address_at(start, offset + j),
            ));
        }
    }
    assert forall|at: nat, n: nat|
        at + n <= count && (at + n <= offset || offset + len <= at) implies #[trigger] apart(
            regs,
            inner,
            len,
            address_at(start, at as int),
            n,
        ) by {
        let outer = address_at(start, at as int);
        assert forall|i: int, k: int| 0 <= i < len && 0 <= k < n implies #[trigger] regs.decode(
            address_at(inner, i),
        ) != #[trigger] regs.decode(address_at(outer, k)) by {
            lemma_address_at_adds(start, at as int, k);
            if offset + i < at + k {
                assert(regs.decode(address_at(start, offset + i)) != regs.decode(
                    address_at(start, at + k),
                ));
            } else {
                assert(regs.decode(address_at(start, at + k)) != regs.decode(
                    address_at(start, offset + i),
                ));
            }
        }
    }
}

/// Bytes written inside a range of claimed and distinct places take their
/// places among the bytes of the range, and the others stay.
pub proof fn law_write_within_a_range(s: MemoryState, start: u32, count: nat, offset: nat, data: Seq<u8>)
    requires
        s.wf(),
        distinct_places(s.regs, start, count),
        offset + data.len() <= count,
    ensures
        s.poke_all(address_at(start, offset as int), data).read_all(start, count) == s.read_all(
            start,
            count,
        ).subrange(0, offset as int) + data + s.read_all(start, count).subrange(
            offset as int + data.len(),
            count as int,
        ),
        s.poke_all(address_at(start, offset as int), data).regs == s.regs,
        s.poke_all(address_at(start, offset as int), data).wf(),
{
    let inner = address_at(start, offset as int);
    let t = s.poke_all(inner, data);
    let was = s.read_all(start, count);
    let is = was.subrange(0, offset as int) + data + was.subrange(offset as int + data.len(), count as int);
    lemma_parts_of_a_range(s.regs, start, count, offset, data.len());
    law_bytes_written_are_read_back(s, inner, data);
    assert forall|i: int| 0 <= i < count implies t.read(address_at(start, i)) == is[i] by {
        if offset <= i < offset + data.len() {
            lemma_address_at_adds(start, offset as int, i - offset);
            assert(t.read_all(inner, data.len())[i - offset] == data[i - offset]);
        } else {
            assert(apart(s.regs, inner, data.len(), address_at(start, i as nat as int), 1));
            law_writes_keep_what_is_apart(s, inner, data, address_at(start, i), 1);
            lemma_address_at(address_at(start, i), 0);
            assert(t.read_all(address_at(start, i), 1)[0] == s.read_all(address_at(start, i), 1)[0]);
        }
    }
    assert(t.read_all(start, count) =~= is);
}

/// The three low bytes of a number give its value below 2^24 back.
pub proof fn lemma_le24_of_bytes(value: u32)
    ensures
        le24(le24_bytes(value)) == value % 0x100_0000,
        le24_bytes(value).len() == 3,
{
}

} // verus!
