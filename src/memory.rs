use vstd::prelude::*;

verus! {

// First and last address of each mapped region.
pub const BIOS_ADDRESS: u32 = 0x0000_0000;
pub const BIOS_END: u32 = 0x0000_3FFF;
pub const EWRAM_ADDRESS: u32 = 0x0200_0000;
pub const EWRAM_END: u32 = 0x0203_FFFF;
pub const IWRAM_ADDRESS: u32 = 0x0300_0000;
pub const IWRAM_END: u32 = 0x0300_7FFF;
pub const IO_REGISTERS: u32 = 0x0400_0000;
pub const IO_REGISTERS_END: u32 = 0x0400_03FF;
pub const PALLETE_RAM_ADDRESS: u32 = 0x0500_0000;
pub const PALLETE_RAM_END: u32 = 0x0500_03FF;
pub const VRAM_ADDRESS: u32 = 0x0600_0000;
pub const VRAM_END: u32 = 0x0601_7FFF;
pub const OAM_ADRESS: u32 = 0x0700_0000;
pub const OAM_END: u32 = 0x0700_03FF;
pub const ROM_ADDRESS: u32 = 0x0800_0000;
pub const ROM_END: u32 = 0x09FF_FFFF;

pub const BIOS_SIZE: usize = 0x4000;
pub const EWRAM_SIZE: usize = 0x4_0000;
pub const IWRAM_SIZE: usize = 0x8000;
pub const IO_SIZE: usize = 0x400;
pub const PALLETE_SIZE: usize = 0x400;
pub const VRAM_SIZE: usize = 0x1_8000;
pub const OAM_SIZE: usize = 0x400;

/// Offset of the wait-state control register in the I/O region.
pub const WAITCNT_OFFSET: usize = 0x204;

/// Width of a bus access: 0 for a byte, 1 for a halfword, 2 for a word.
pub type AccessWidth = usize;

/// Region index of an address (0 BIOS, 1 EWRAM, 2 IWRAM, 3 I/O, 4 palette,
/// 5 VRAM, 6 OAM, 7 ROM), or -1 where nothing is mapped.
pub open spec fn region_of(address: u32) -> int {
    if address <= BIOS_END {
        0
    } else if EWRAM_ADDRESS <= address <= EWRAM_END {
        1
    } else if IWRAM_ADDRESS <= address <= IWRAM_END {
        2
    } else if IO_REGISTERS <= address <= IO_REGISTERS_END {
        3
    } else if PALLETE_RAM_ADDRESS <= address <= PALLETE_RAM_END {
        4
    } else if VRAM_ADDRESS <= address <= VRAM_END {
        5
    } else if OAM_ADRESS <= address <= OAM_END {
        6
    } else if ROM_ADDRESS <= address <= ROM_END {
        7
    } else {
        -1
    }
}

pub open spec fn region_base(r: int) -> u32 {
    if r == 0 {
        BIOS_ADDRESS
    } else if r == 1 {
        EWRAM_ADDRESS
    } else if r == 2 {
        IWRAM_ADDRESS
    } else if r == 3 {
        IO_REGISTERS
    } else if r == 4 {
        PALLETE_RAM_ADDRESS
    } else if r == 5 {
        VRAM_ADDRESS
    } else if r == 6 {
        OAM_ADRESS
    } else {
        ROM_ADDRESS
    }
}

/// Little-endian halfword of two bytes.
pub open spec fn halfword_of(b0: u8, b1: u8) -> u16 {
    ((b0 as u16) | ((b1 as u16) << 8u16)) as u16
}

/// Little-endian word of four bytes.
pub open spec fn word_of(b0: u8, b1: u8, b2: u8, b3: u8) -> u32 {
    ((b0 as u32) | ((b1 as u32) << 8u32) | ((b2 as u32) << 16u32) | ((b3 as u32) << 24u32)) as u32
}

/// The addressable memory of the console: one byte vector per region and the
/// bus clock that accesses advance.
pub struct Memory {
    bios: Vec<u8>,
    ewram: Vec<u8>,
    iwram: Vec<u8>,
    io_registers: Vec<u8>,
    pallete_ram: Vec<u8>,
    vram: Vec<u8>,
    oam: Vec<u8>,
    rom: Vec<u8>,
    last_read: [u32; 3],
    clock: usize,
}

impl Memory {
    /// Every fixed-size region has its size; the cartridge ROM has any length.
    pub closed spec fn wf(&self) -> bool {
        &&& self.bios@.len() == BIOS_SIZE
        &&& self.ewram@.len() == EWRAM_SIZE
        &&& self.iwram@.len() == IWRAM_SIZE
        &&& self.io_registers@.len() == IO_SIZE
        &&& self.pallete_ram@.len() == PALLETE_SIZE
        &&& self.vram@.len() == VRAM_SIZE
        &&& self.oam@.len() == OAM_SIZE
    }

    pub closed spec fn region_data(&self, r: int) -> Seq<u8> {
        if r == 0 {
            self.bios@
        } else if r == 1 {
            self.ewram@
        } else if r == 2 {
            self.iwram@
        } else if r == 3 {
            self.io_registers@
        } else if r == 4 {
            self.pallete_ram@
        } else if r == 5 {
            self.vram@
        } else if r == 6 {
            self.oam@
        } else {
            self.rom@
        }
    }

    /// A byte is stored at the address.
    pub open spec fn mapped(&self, address: u32) -> bool {
        let r = region_of(address);
        r >= 0 && address - region_base(r) < self.region_data(r).len()
    }

    /// The byte at a mapped address.
    pub open spec fn byte(&self, address: u32) -> u8 {
        let r = region_of(address);
        self.region_data(r)[address - region_base(r)]
    }

    pub closed spec fn rom_bytes(&self) -> Seq<u8> {
        self.rom@
    }

    pub closed spec fn clock_cycles(&self) -> usize {
        self.clock
    }

    /// The three word addresses that count as sequential to the last access.
    pub closed spec fn last_reads(&self) -> Seq<u32> {
        self.last_read@
    }

    /// The two bytes of the halfword at the address, its lowest bit cleared, are mapped.
    pub open spec fn halfword_mapped(&self, address: u32) -> bool {
        let a = address & 0xFFFF_FFFE;
        self.mapped(a) && self.mapped((a + 1) as u32)
    }

    pub open spec fn halfword_at(&self, address: u32) -> u16 {
        let a = address & 0xFFFF_FFFE;
        halfword_of(self.byte(a), self.byte((a + 1) as u32))
    }

    /// The four bytes of the word at the address, its two lowest bits cleared, are mapped.
    pub open spec fn word_mapped(&self, address: u32) -> bool {
        let a = address & 0xFFFF_FFFC;
        &&& self.mapped(a)
        &&& self.mapped((a + 1) as u32)
        &&& self.mapped((a + 2) as u32)
        &&& self.mapped((a + 3) as u32)
    }

    pub open spec fn word_at(&self, address: u32) -> u32 {
        let a = address & 0xFFFF_FFFC;
        word_of(
            self.byte(a),
            self.byte((a + 1) as u32),
            self.byte((a + 2) as u32),
            self.byte((a + 3) as u32),
        )
    }

    /// Same mapping and same bytes everywhere but at the given addresses.
    pub open spec fn same_except(&self, other: &Memory, lo: u32, n: int) -> bool {
        &&& forall|a: u32| #[trigger] self.mapped(a) == other.mapped(a)
        &&& forall|a: u32|
            #![trigger self.byte(a)]
            self.mapped(a) && !(lo <= a < lo + n) ==> self.byte(a) == other.byte(a)
        &&& self.wf() == other.wf()
        &&& self.rom_bytes().len() == other.rom_bytes().len()
    }

    pub fn new() -> (r: Self)
        ensures
            r.wf(),
            r.rom_bytes().len() == 0,
            r.clock_cycles() == 0,
            forall|a: u32| #[trigger] r.mapped(a) ==> r.byte(a) == 0,
    {
        Self {
            bios: vec![0u8; BIOS_SIZE],
            ewram: vec![0u8; EWRAM_SIZE],
            iwram: vec![0u8; IWRAM_SIZE],
            io_registers: vec![0u8; IO_SIZE],
            pallete_ram: vec![0u8; PALLETE_SIZE],
            vram: vec![0u8; VRAM_SIZE],
            oam: vec![0u8; OAM_SIZE],
            rom: Vec::new(),
            last_read: [0xFFFF_FFFFu32; 3],
            clock: 0,
        }
    }

    /// Replaces the BIOS image, which must have the BIOS region's size.
    pub fn load_bios(&mut self, bios: Vec<u8>)
        requires
            old(self).wf(),
            bios@.len() == BIOS_SIZE,
        ensures
            final(self).wf(),
            final(self).rom_bytes() == old(self).rom_bytes(),
            final(self).clock_cycles() == old(self).clock_cycles(),
            forall|a: u32| #[trigger] final(self).mapped(a) == old(self).mapped(a),
            forall|a: u32| #![trigger final(self).byte(a)]
                final(self).mapped(a) && region_of(a) != 0 ==> final(self).byte(a) == old(self).byte(a),
            forall|a: u32| #![trigger final(self).byte(a)]
                final(self).mapped(a) && region_of(a) == 0 ==> final(self).byte(a) == bios@[a as int],
    {
        self.bios = bios;
    }

    /// Replaces the cartridge image.
    pub fn load_rom(&mut self, rom: Vec<u8>)
        requires
            old(self).wf(),
        ensures
            final(self).wf(),
            final(self).rom_bytes() == rom@,
            final(self).clock_cycles() == old(self).clock_cycles(),
            forall|a: u32| #![trigger final(self).byte(a)]
                region_of(a) != 7 && final(self).mapped(a) ==> old(self).mapped(a) && final(self).byte(a) == old(self).byte(a),
            forall|a: u32| #![trigger final(self).mapped(a)]
                region_of(a) != 7 ==> final(self).mapped(a) == old(self).mapped(a),
    {
        self.rom = rom;
    }

    /// Region and offset of a mapped address.
    fn locate(&self, address: u32) -> (r: Option<(u8, usize)>)
        requires
            self.wf(),
        ensures
            match r {
                Some((reg, off)) => {
                    &&& self.mapped(address)
                    &&& reg == region_of(address)
                    &&& off == address - region_base(reg as int)
                },
                None => !self.mapped(address),
            },
    {
        let (reg, base): (u8, u32) = if address <= BIOS_END {
            (0, BIOS_ADDRESS)
        } else if EWRAM_ADDRESS <= address && address <= EWRAM_END {
            (1, EWRAM_ADDRESS)
        } else if IWRAM_ADDRESS <= address && address <= IWRAM_END {
            (2, IWRAM_ADDRESS)
        } else if IO_REGISTERS <= address && address <= IO_REGISTERS_END {
            (3, IO_REGISTERS)
        } else if PALLETE_RAM_ADDRESS <= address && address <= PALLETE_RAM_END {
            (4, PALLETE_RAM_ADDRESS)
        } else if VRAM_ADDRESS <= address && address <= VRAM_END {
            (5, VRAM_ADDRESS)
        } else if OAM_ADRESS <= address && address <= OAM_END {
            (6, OAM_ADRESS)
        } else if ROM_ADDRESS <= address && address <= ROM_END {
            (7, ROM_ADDRESS)
        } else {
            return None;
        };
        let off = (address - base) as usize;
        let len = if reg == 7 { self.rom.len() } else { self.region_len(reg) };
        if off < len {
            Some((reg, off))
        } else {
            None
        }
    }

    fn region_len(&self, reg: u8) -> (r: usize)
        requires
            self.wf(),
            reg < 7,
        ensures
            r == self.region_data(reg as int).len(),
    {
        match reg {
            0 => BIOS_SIZE,
            1 => EWRAM_SIZE,
            2 => IWRAM_SIZE,
            3 => IO_SIZE,
            4 => PALLETE_SIZE,
            5 => VRAM_SIZE,
            _ => OAM_SIZE,
        }
    }

    /// The byte at an address, or `None` where nothing is mapped; the clock
    /// does not count it.
    pub fn read_byte(&self, address: u32) -> (r: Option<u8>)
        requires
            self.wf(),
        ensures
            r == (if self.mapped(address) { Some(self.byte(address)) } else { None }),
    {
        match self.locate(address) {
            None => None,
            Some((reg, off)) => Some(
                match reg {
                    0 => self.bios[off],
                    1 => self.ewram[off],
                    2 => self.iwram[off],
                    3 => self.io_registers[off],
                    4 => self.pallete_ram[off],
                    5 => self.vram[off],
                    6 => self.oam[off],
                    _ => self.rom[off],
                },
            ),
        }
    }

    /// Whether the four bytes of the word at the address, its two lowest bits
    /// cleared, are mapped; the clock does not count it.
    pub fn is_word_mapped(&self, address: u32) -> (r: bool)
        requires
            self.wf(),
        ensures
            r == self.word_mapped(address),
    {
        let a = address & 0xFFFF_FFFC;
        assert(a <= 0xFFFF_FFFC) by (bit_vector) requires a == address & 0xFFFF_FFFC;
        self.locate(a).is_some() && self.locate(a + 1).is_some() && self.locate(a + 2).is_some() && self.locate(
            a + 3,
        ).is_some()
    }

    /// Same mapping everywhere, and the same bytes at the addresses that lie
    /// `size` or more bytes past `lo`, counting modulo 2^32.
    pub open spec fn same_outside(&self, other: &Memory, lo: u32, size: int) -> bool {
        &&& forall|a: u32| #[trigger] self.mapped(a) == other.mapped(a)
        &&& forall|a: u32|
            #![trigger self.byte(a)]
            other.mapped(a) && (a - lo) % 0x1_0000_0000 >= size ==> self.byte(a) == other.byte(a)
        &&& self.wf() == other.wf()
        &&& self.rom_bytes().len() == other.rom_bytes().len()
    }

    /// Writes the byte at an address; returns `false`, changing nothing, where
    /// nothing is mapped.
    pub fn write_byte(&mut self, address: u32, value: u8) -> (r: bool)
        requires
            old(self).wf(),
        ensures
            r == old(self).mapped(address),
            final(self).clock_cycles() == old(self).clock_cycles(),
            final(self).last_reads() == old(self).last_reads(),
            final(self).same_except(old(self), address, 1),
            r ==> final(self).byte(address) == value,
    {
        match self.locate(address) {
            None => false,
            Some((reg, off)) => {
                match reg {
                    0 => self.bios.set(off, value),
                    1 => self.ewram.set(off, value),
                    2 => self.iwram.set(off, value),
                    3 => self.io_registers.set(off, value),
                    4 => self.pallete_ram.set(off, value),
                    5 => self.vram.set(off, value),
                    6 => self.oam.set(off, value),
                    _ => self.rom.set(off, value),
                }
                assert forall|a: u32| #![trigger self.byte(a)]
                    self.mapped(a) && a != address implies self.byte(a) == old(self).byte(a) by {
                    if region_of(a) == reg {
                        assert(a - region_base(reg as int) != off);
                    }
                }
                true
            },
        }
    }

    /// Same mapping and same bytes everywhere.
    pub open spec fn same_contents(&self, other: &Memory) -> bool {
        self.same_except(other, 0, 0)
    }

    /// The wait-state control halfword.
    pub open spec fn waitcnt(&self) -> u16 {
        halfword_of(self.byte(0x0400_0204), self.byte(0x0400_0205))
    }

    /// The access continues one of the last ones.
    pub open spec fn sequential(&self, address: u32) -> bool {
        self.last_reads().contains(address & 0xFFFF_FFFC)
    }

    /// Cycles that an access of the width (0 byte, 1 halfword, 2 word) costs.
    pub open spec fn access_cost(&self, address: u32, width: AccessWidth) -> usize {
        let page = (address >> 24u32) & 0xF;
        if page == 2 {
            if width == 2 { 6 } else { 3 }
        } else if page == 5 || page == 6 {
            if width == 2 { 2 } else { 1 }
        } else if 8 <= page <= 0xD {
            rom_cost((page - 8) as u32 / 2, self.waitcnt(), self.sequential(address), width)
        } else {
            1
        }
    }

    /// The bus clock after an access.
    pub open spec fn clock_after(&self, address: u32, width: AccessWidth) -> usize {
        if self.clock_cycles() + self.access_cost(address, width) > usize::MAX {
            usize::MAX
        } else {
            (self.clock_cycles() + self.access_cost(address, width)) as usize
        }
    }

    /// The word addresses that count as sequential after an access at the address.
    pub open spec fn reads_after(address: u32) -> Seq<u32> {
        let a = address & 0xFFFF_FFFC;
        seq![a, if a > 0xFFFF_FFFB { 0xFFFF_FFFFu32 } else { (a + 4) as u32 }, if a < 4 { 0u32 } else { (a - 4) as u32 }]
    }

    /// The clock and the sequential window after an access, when it is counted.
    pub open spec fn counted(&self, old: &Memory, address: u32, width: AccessWidth, clock_count: bool) -> bool {
        if clock_count {
            self.clock_cycles() == old.clock_after(address, width) && self.last_reads() == Memory::reads_after(address)
        } else {
            self.clock_cycles() == old.clock_cycles() && self.last_reads() == old.last_reads()
        }
    }

    fn waitcnt_exec(&self) -> (r: u16)
        requires
            self.wf(),
        ensures
            r == self.waitcnt(),
    {
        let lo = self.io_registers[WAITCNT_OFFSET];
        let hi = self.io_registers[WAITCNT_OFFSET + 1];
        (lo as u16) | ((hi as u16) << 8u16)
    }

    /// Advances the clock by the cost of an access and records it as the last one.
    fn update_clock_cycles(&mut self, address: u32, width: AccessWidth)
        requires
            old(self).wf(),
            width <= 2,
        ensures
            final(self).wf(),
            final(self).same_contents(old(self)),
            final(self).counted(old(self), address, width, true),
    {
        let page = (address >> 24u32) & 0xF;
        let cost: usize = if page == 2 {
            if width == 2 { 6 } else { 3 }
        } else if page == 5 || page == 6 {
            if width == 2 { 2 } else { 1 }
        } else if 8 <= page && page <= 0xD {
            let aligned = address & 0xFFFF_FFFC;
            let sequential = self.last_read[0] == aligned || self.last_read[1] == aligned || self.last_read[2] == aligned;
            proof {
                assert(self.last_reads().contains(aligned) <==> (self.last_read[0] == aligned || self.last_read[1] == aligned || self.last_read[2] == aligned)) by {
                    if self.last_reads().contains(aligned) {
                        let i = choose|i: int| 0 <= i < 3 && self.last_reads()[i] == aligned;
                    }
                    assert(self.last_reads()[0] == self.last_read[0]);
                    assert(self.last_reads()[1] == self.last_read[1]);
                    assert(self.last_reads()[2] == self.last_read[2]);
                }
            }
            rom_cost_exec((page - 8) / 2, self.waitcnt_exec(), sequential, width)
        } else {
            1
        };
        self.clock = self.clock.saturating_add(cost);
        let a = address & 0xFFFF_FFFC;
        self.last_read = [a, a.saturating_add(4), a.saturating_sub(4)];
        assert(self.last_reads() =~= Memory::reads_after(address));
    }

    /// Adds cycles spent outside bus accesses to the clock, saturating.
    pub fn add_clock_cycles(&mut self, cycles: usize)
        requires
            old(self).wf(),
        ensures
            final(self).wf(),
            final(self).same_contents(old(self)),
            final(self).last_reads() == old(self).last_reads(),
            final(self).clock_cycles() == (if old(self).clock_cycles() + cycles > usize::MAX {
                usize::MAX
            } else {
                (old(self).clock_cycles() + cycles) as usize
            }),
    {
        self.clock = self.clock.saturating_add(cycles);
    }

    pub fn get_clock_cycles(&self) -> (r: usize)
        ensures
            r == self.clock_cycles(),
    {
        self.clock
    }

    /// The byte at the address; `None` where nothing is mapped.
    pub fn get_byte(&mut self, address: u32, clock_count: bool) -> (r: Option<u8>)
        requires
            old(self).wf(),
        ensures
            final(self).wf(),
            final(self).same_contents(old(self)),
            final(self).counted(old(self), address, 0, clock_count),
            r == (if old(self).mapped(address) { Some(old(self).byte(address)) } else { None }),
    {
        if clock_count {
            self.update_clock_cycles(address, 0);
        }
        self.read_byte(address)
    }

    /// The halfword at the address with its lowest bit cleared; `None` where
    /// either byte is not mapped.
    pub fn get_halfword(&mut self, address: u32, clock_count: bool) -> (r: Option<u16>)
        requires
            old(self).wf(),
        ensures
            final(self).wf(),
            final(self).same_contents(old(self)),
            final(self).counted(old(self), address, 1, clock_count),
            r == (if old(self).halfword_mapped(address) { Some(old(self).halfword_at(address)) } else { None }),
    {
        if clock_count {
            self.update_clock_cycles(address, 1);
        }
        let a = address & 0xFFFF_FFFE;
        assert(a <= 0xFFFF_FFFE) by (bit_vector) requires a == address & 0xFFFF_FFFE;
        match (self.read_byte(a), self.read_byte(a + 1)) {
            (Some(b0), Some(b1)) => Some((b0 as u16) | ((b1 as u16) << 8u16)),
            _ => None,
        }
    }

    /// The word at the address with its two lowest bits cleared; `None` where
    /// any of its bytes is not mapped.
    pub fn get_word(&mut self, address: u32, clock_count: bool) -> (r: Option<u32>)
        requires
            old(self).wf(),
        ensures
            final(self).wf(),
            final(self).same_contents(old(self)),
            final(self).counted(old(self), address, 2, clock_count),
            r == (if old(self).word_mapped(address) { Some(old(self).word_at(address)) } else { None }),
    {
        if clock_count {
            self.update_clock_cycles(address, 2);
        }
        let a = address & 0xFFFF_FFFC;
        assert(a <= 0xFFFF_FFFC) by (bit_vector) requires a == address & 0xFFFF_FFFC;
        match (self.read_byte(a), self.read_byte(a + 1), self.read_byte(a + 2), self.read_byte(a + 3)) {
            (Some(b0), Some(b1), Some(b2), Some(b3)) => Some(
                (b0 as u32) | ((b1 as u32) << 8u32) | ((b2 as u32) << 16u32) | ((b3 as u32) << 24u32),
            ),
            _ => None,
        }
    }

    /// Stores the byte; returns `false`, storing nothing, where it is not mapped.
    pub fn store_byte(&mut self, address: u32, value: u8, clock_count: bool) -> (r: bool)
        requires
            old(self).wf(),
        ensures
            final(self).wf(),
            r == old(self).mapped(address),
            final(self).same_except(old(self), address, 1),
            r ==> final(self).byte(address) == value,
            !r ==> final(self).same_contents(old(self)),
            final(self).counted(old(self), address, 0, clock_count),
    {
        if clock_count {
            self.update_clock_cycles(address, 0);
        }
        self.write_byte(address, value)
    }

    /// Stores the halfword at the address with its lowest bit cleared; returns
    /// `false`, storing nothing, where either byte is not mapped.
    pub fn store_halfword(&mut self, address: u32, value: u16, clock_count: bool) -> (r: bool)
        requires
            old(self).wf(),
        ensures
            final(self).wf(),
            r == old(self).halfword_mapped(address),
            final(self).same_except(old(self), address & 0xFFFF_FFFE, 2),
            r ==> final(self).halfword_at(address) == value,
            !r ==> final(self).same_contents(old(self)),
            final(self).counted(old(self), address, 1, clock_count),
    {
        if clock_count {
            self.update_clock_cycles(address, 1);
        }
        let a = address & 0xFFFF_FFFE;
        assert(a <= 0xFFFF_FFFE) by (bit_vector) requires a == address & 0xFFFF_FFFE;
        if self.locate(a).is_none() || self.locate(a + 1).is_none() {
            return false;
        }
        self.write_byte(a, value as u8);
        self.write_byte(a + 1, (value >> 8u16) as u8);
        proof {
            lemma_halfword_bytes(value);
            assert(self.byte(a) == value as u8);
        }
        true
    }

    /// Stores the word at the address with its two lowest bits cleared; returns
    /// `false`, storing nothing, where any of its bytes is not mapped.
    pub fn store_word(&mut self, address: u32, value: u32, clock_count: bool) -> (r: bool)
        requires
            old(self).wf(),
        ensures
            final(self).wf(),
            r == old(self).word_mapped(address),
            final(self).same_except(old(self), address & 0xFFFF_FFFC, 4),
            r ==> final(self).word_at(address) == value,
            !r ==> final(self).same_contents(old(self)),
            final(self).counted(old(self), address, 2, clock_count),
    {
        if clock_count {
            self.update_clock_cycles(address, 2);
        }
        let a = address & 0xFFFF_FFFC;
        assert(a <= 0xFFFF_FFFC) by (bit_vector) requires a == address & 0xFFFF_FFFC;
        if self.locate(a).is_none() || self.locate(a + 1).is_none() || self.locate(a + 2).is_none()
            || self.locate(a + 3).is_none() {
            return false;
        }
        self.write_byte(a, value as u8);
        self.write_byte(a + 1, (value >> 8u32) as u8);
        self.write_byte(a + 2, (value >> 16u32) as u8);
        self.write_byte(a + 3, (value >> 24u32) as u8);
        proof {
            lemma_word_bytes(value);
        }
        true
    }
}

/// Cycles of a cartridge access in wait-state area `ws` (0, 1 or 2): the
/// non-sequential wait for the first access, the sequential wait for each other.
pub open spec fn rom_cost(ws: u32, waitcnt: u16, sequential: bool, width: AccessWidth) -> usize {
    let accesses: usize = if width == 2 { 2 } else { 1 };
    let seq_wait: usize = if (waitcnt >> (4 + 3 * ws) as u16) & 1 == 1 {
        1
    } else if ws == 0 {
        2
    } else if ws == 1 {
        4
    } else {
        8
    };
    let n = (waitcnt >> (2 + 3 * ws) as u16) & 3;
    let first_wait: usize = if n == 0 { 4 } else if n == 1 { 3 } else if n == 2 { 2 } else { 8 };
    if sequential {
        (accesses * seq_wait) as usize
    } else {
        (first_wait + (accesses - 1) * seq_wait) as usize
    }
}

fn rom_cost_exec(ws: u32, waitcnt: u16, sequential: bool, width: AccessWidth) -> (r: usize)
    requires
        ws <= 2,
    ensures
        r == rom_cost(ws, waitcnt, sequential, width),
{
    let accesses: usize = if width == 2 { 2 } else { 1 };
    let seq_wait: usize = if (waitcnt >> (4 + 3 * ws) as u16) & 1 == 1 {
        1
    } else if ws == 0 {
        2
    } else if ws == 1 {
        4
    } else {
        8
    };
    let n = (waitcnt >> (2 + 3 * ws) as u16) & 3;
    let first_wait: usize = if n == 0 { 4 } else if n == 1 { 3 } else if n == 2 { 2 } else { 8 };
    if sequential {
        accesses * seq_wait
    } else {
        first_wait + (accesses - 1) * seq_wait
    }
}

proof fn lemma_halfword_bytes(v: u16)
    ensures
        halfword_of(v as u8, (v >> 8u16) as u8) == v,
{
    assert(((v as u8) as u16 | ((((v >> 8u16) as u8) as u16) << 8u16)) == v) by (bit_vector);
}

proof fn lemma_word_bytes(v: u32)
    ensures
        word_of(v as u8, (v >> 8u32) as u8, (v >> 16u32) as u8, (v >> 24u32) as u8) == v,
{
    assert(((v as u8) as u32 | ((((v >> 8u32) as u8) as u32) << 8u32) | ((((v >> 16u32) as u8) as u32) << 16u32)
        | ((((v >> 24u32) as u8) as u32) << 24u32)) == v) by (bit_vector);
}

/// Every address of the fixed-size regions is mapped.
pub proof fn lemma_fixed_regions_mapped(m: &Memory, a: u32)
    requires
        m.wf(),
        0 <= region_of(a) < 7,
    ensures
        m.mapped(a),
{
}

} // verus!
