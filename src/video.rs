use vstd::prelude::*;

use crate::memory::{Memory, lemma_fixed_regions_mapped, region_of};
use crate::scheduler::{Event, EventType};

verus! {

pub const SCREEN_WIDTH: usize = 240;
pub const SCREEN_HEIGHT: usize = 160;
pub const FRAME_BUFFER_SIZE: usize = 76_800;
/// Bytes of one line of the frame buffer (two per pixel).
pub const LINE_BYTES: usize = 480;
/// Lines of a frame, the visible ones and those of the vertical blank.
pub const TOTAL_LINES: u16 = 228;

/// Cycles of the visible part of a line, of the horizontal blank, of the
/// visible lines of a frame and of the vertical blank.
pub const VISIBLE_H: usize = 960;
pub const H_BLANK: usize = 272;
pub const VISIBLE_V: usize = 197_120;
pub const V_BLANK: usize = 83_776;

pub const DISPCNT: u32 = 0x0400_0000;
pub const DISPSTAT: u32 = 0x0400_0004;
pub const VCOUNT: u32 = 0x0400_0006;
pub const VRAM_START: u32 = 0x0600_0000;
pub const PALETTE_START: u32 = 0x0500_0000;

/// The video unit: the display status registers' timing and the frame buffer
/// (BGR555, two bytes per pixel) that the bitmap modes fill line by line.
pub struct Video {
    pub frame_buffer: Vec<u8>,
}

/// The halfword that memory holds at an address.
pub open spec fn register(memory: &Memory, address: u32) -> u16 {
    memory.halfword_at(address)
}

impl Video {
    pub open spec fn wf(&self) -> bool {
        self.frame_buffer@.len() == FRAME_BUFFER_SIZE
    }

    pub fn new() -> (r: Self)
        ensures
            r.wf(),
            forall|i: int| 0 <= i < FRAME_BUFFER_SIZE ==> r.frame_buffer@[i] == 0,
    {
        Self { frame_buffer: vec![0u8; FRAME_BUFFER_SIZE] }
    }

    /// Rewrites a display register through `f`.
    fn update_register(memory: &mut Memory, address: u32, set: u16, clear: u16) -> (r: u16)
        requires
            old(memory).wf(),
            address == DISPSTAT || address == VCOUNT,
        ensures
            final(memory).wf(),
            r == old(memory).halfword_at(address),
            final(memory).halfword_at(address) == (r & !clear) | set,
            final(memory).same_except(old(memory), address, 2),
            final(memory).clock_cycles() == old(memory).clock_cycles(),
    {
        proof {
            lemma_fixed_regions_mapped(memory, address);
            lemma_fixed_regions_mapped(memory, (address + 1) as u32);
            assert(address & 0xFFFF_FFFE == address) by (bit_vector) requires address == 0x0400_0004u32 || address == 0x0400_0006u32;
        }
        let value = match memory.get_halfword(address, false) {
            Some(h) => h,
            None => 0,
        };
        memory.store_halfword(address, (value & !clear) | set, false);
        value
    }

    /// End of a line's visible part: sets the horizontal-blank flag.
    pub fn h_visible_end_handler(&mut self, memory: &mut Memory) -> (r: Event)
        requires
            old(memory).wf(),
        ensures
            final(self).frame_buffer@ == old(self).frame_buffer@,
            final(memory).wf(),
            r == Event::new_spec(H_BLANK, EventType::HBlankEnd),
            register(final(memory), DISPSTAT) == register(old(memory), DISPSTAT) | 0x2,
            final(memory).same_except(old(memory), DISPSTAT, 2),
    {
        Self::update_register(memory, DISPSTAT, 0x2, 0);
        proof {
            let d = register(old(memory), DISPSTAT);
            assert((d & !0u16) | 2 == d | 2) by (bit_vector);
        }
        Event::new(H_BLANK, EventType::HBlankEnd)
    }

    /// End of a horizontal blank: renders the line if it is visible, clears
    /// the horizontal-blank flag and moves the line counter on.
    pub fn h_blank_end_handler(&mut self, memory: &mut Memory) -> (r: Event)
        requires
            old(self).wf(),
            old(memory).wf(),
        ensures
            final(self).wf(),
            final(memory).wf(),
            r == Event::new_spec(VISIBLE_H, EventType::HVisibleEnd),
            register(final(memory), DISPSTAT) == register(old(memory), DISPSTAT) & !0x2u16,
            register(final(memory), VCOUNT) == (register(old(memory), VCOUNT) + 1) % (TOTAL_LINES as int),
            register(old(memory), VCOUNT) >= SCREEN_HEIGHT ==> final(self).frame_buffer@ == old(self).frame_buffer@,
    {
        proof {
            lemma_fixed_regions_mapped(memory, VCOUNT);
            lemma_fixed_regions_mapped(memory, (VCOUNT + 1) as u32);
        }
        let vcount = match memory.get_halfword(VCOUNT, false) {
            Some(h) => h,
            None => 0,
        };
        assert(VCOUNT & 0xFFFF_FFFE == VCOUNT) by (bit_vector);
        if (vcount as usize) < SCREEN_HEIGHT {
            self.render_line(memory);
        }
        let ghost m0 = *memory;
        Self::update_register(memory, DISPSTAT, 0, 0x2);
        let ghost m1 = *memory;
        let next_line = ((vcount as u32 + 1) % (TOTAL_LINES as u32)) as u16;
        let old_count = Self::update_register(memory, VCOUNT, next_line, 0xFFFF);
        proof {
            assert(DISPSTAT & 0xFFFF_FFFE == DISPSTAT) by (bit_vector);
            assert(m1.byte(DISPSTAT) == memory.byte(DISPSTAT));
            assert(m1.byte((DISPSTAT + 1) as u32) == memory.byte((DISPSTAT + 1) as u32));
            assert(register(&m1, DISPSTAT) == register(memory, DISPSTAT));
            let d = register(&m0, DISPSTAT);
            assert((d & !0x2u16) | 0 == d & !0x2u16) by (bit_vector);
            assert((old_count & !0xFFFFu16) | next_line == next_line) by (bit_vector);
            assert(register(&m0, DISPSTAT) == register(old(memory), DISPSTAT));
            assert(register(&m0, VCOUNT) == register(old(memory), VCOUNT));
        }
        Event::new(VISIBLE_H, EventType::HVisibleEnd)
    }

    /// End of the visible lines: sets the vertical-blank flag.
    pub fn v_visible_end_handler(&mut self, memory: &mut Memory) -> (r: Event)
        requires
            old(memory).wf(),
        ensures
            final(self).frame_buffer@ == old(self).frame_buffer@,
            final(memory).wf(),
            r == Event::new_spec(V_BLANK, EventType::VBlankEnd),
            register(final(memory), DISPSTAT) == register(old(memory), DISPSTAT) | 0x1,
            final(memory).same_except(old(memory), DISPSTAT, 2),
    {
        Self::update_register(memory, DISPSTAT, 0x1, 0);
        proof {
            let d = register(old(memory), DISPSTAT);
            assert((d & !0u16) | 1 == d | 1) by (bit_vector);
        }
        Event::new(V_BLANK, EventType::VBlankEnd)
    }

    /// End of the vertical blank: clears the vertical-blank flag.
    pub fn v_blank_end_handler(&mut self, memory: &mut Memory) -> (r: Event)
        requires
            old(memory).wf(),
        ensures
            final(self).frame_buffer@ == old(self).frame_buffer@,
            final(memory).wf(),
            r == Event::new_spec(VISIBLE_V, EventType::VVisibleEnd),
            register(final(memory), DISPSTAT) == register(old(memory), DISPSTAT) & !0x1u16,
            final(memory).same_except(old(memory), DISPSTAT, 2),
    {
        Self::update_register(memory, DISPSTAT, 0, 0x1);
        proof {
            let d = register(old(memory), DISPSTAT);
            assert((d & !0x1u16) | 0 == d & !0x1u16) by (bit_vector);
        }
        Event::new(VISIBLE_V, EventType::VVisibleEnd)
    }

    /// Renders the line that the line counter names, in the bitmap mode that
    /// the display control selects (3: direct colour, 4: palette indices);
    /// other modes draw nothing.
    pub fn render_line(&mut self, memory: &Memory)
        requires
            old(self).wf(),
            memory.wf(),
        ensures
            final(self).wf(),
            ({
                let line = register(memory, VCOUNT) as int;
                let mode = register(memory, DISPCNT) & 0x7;
                &&& line < SCREEN_HEIGHT && mode == 3 ==> forall|x: int| 0 <= x < LINE_BYTES ==>
                    #[trigger] final(self).frame_buffer@[line * LINE_BYTES + x] == memory.byte(
                        (VRAM_START + line * LINE_BYTES + x) as u32,
                    )
                &&& line < SCREEN_HEIGHT && mode == 4 ==> forall|x: int|
                    0 <= x < SCREEN_WIDTH ==> {
                        let page: int = if register(memory, DISPCNT) & 0x10 != 0 { 0xA000 } else { 0 };
                        let index = memory.byte((VRAM_START + page + line * SCREEN_WIDTH + x) as u32);
                        &&& #[trigger] final(self).frame_buffer@[line * LINE_BYTES + 2 * x] == memory.byte(
                            (PALETTE_START + 2 * index) as u32,
                        )
                        &&& final(self).frame_buffer@[line * LINE_BYTES + 2 * x + 1] == memory.byte(
                            (PALETTE_START + 2 * index + 1) as u32,
                        )
                    }
                &&& !(line < SCREEN_HEIGHT && (mode == 3 || mode == 4)) ==> final(self).frame_buffer@
                    == old(self).frame_buffer@
            }),
    {
        proof {
            lemma_fixed_regions_mapped(memory, VCOUNT);
            lemma_fixed_regions_mapped(memory, (VCOUNT + 1) as u32);
            lemma_fixed_regions_mapped(memory, DISPCNT);
            lemma_fixed_regions_mapped(memory, (DISPCNT + 1) as u32);
            assert(VCOUNT & 0xFFFF_FFFE == VCOUNT) by (bit_vector);
            assert(DISPCNT & 0xFFFF_FFFE == DISPCNT) by (bit_vector);
        }
        let line = match Self::read_register(memory, VCOUNT) {
            Some(v) => v as usize,
            None => return,
        };
        let control = match Self::read_register(memory, DISPCNT) {
            Some(v) => v,
            None => return,
        };
        if line >= SCREEN_HEIGHT {
            return;
        }
        match control & 0x7 {
            3 => self.video_mode_3(memory, line),
            4 => {
                let second_page = control & 0x10 != 0;
                self.video_mode_4(memory, line, second_page);
                assert forall|x: int| 0 <= x < SCREEN_WIDTH implies {
                    let page: int = if register(memory, DISPCNT) & 0x10 != 0 { 0xA000 } else { 0 };
                    let index = memory.byte((VRAM_START + page + line * SCREEN_WIDTH + x) as u32);
                    &&& #[trigger] self.frame_buffer@[line * LINE_BYTES + 2 * x] == memory.byte(
                        (PALETTE_START + 2 * index) as u32,
                    )
                    &&& self.frame_buffer@[line * LINE_BYTES + 2 * x + 1] == memory.byte(
                        (PALETTE_START + 2 * index + 1) as u32,
                    )
                } by {
                    assert(register(memory, DISPCNT) == control);
                }
            },
            _ => {},
        }
    }

    fn read_register(memory: &Memory, address: u32) -> (r: Option<u16>)
        requires
            memory.wf(),
        ensures
            memory.halfword_mapped(address) ==> r == Some(memory.halfword_at(address)),
    {
        let a = address & 0xFFFF_FFFE;
        assert(a <= 0xFFFF_FFFE) by (bit_vector) requires a == address & 0xFFFF_FFFE;
        match (memory.read_byte(a), memory.read_byte(a + 1)) {
            (Some(b0), Some(b1)) => Some((b0 as u16) | ((b1 as u16) << 8u16)),
            _ => None,
        }
    }

    /// Mode 3: the line's pixels are copied from video memory.
    fn video_mode_3(&mut self, memory: &Memory, line: usize)
        requires
            old(self).wf(),
            memory.wf(),
            line < SCREEN_HEIGHT,
        ensures
            final(self).wf(),
            forall|x: int| 0 <= x < LINE_BYTES ==> #[trigger] final(self).frame_buffer@[line * LINE_BYTES + x]
                == memory.byte((VRAM_START + line * LINE_BYTES + x) as u32),
    {
        let start = line * LINE_BYTES;
        let mut x: usize = 0;
        while x < LINE_BYTES
            invariant
                self.wf(),
                memory.wf(),
                line < SCREEN_HEIGHT,
                start == line * LINE_BYTES,
                x <= LINE_BYTES,
                forall|i: int| 0 <= i < x ==> #[trigger] self.frame_buffer@[start + i] == memory.byte(
                    (VRAM_START + start + i) as u32,
                ),
            decreases LINE_BYTES - x,
        {
            let address = VRAM_START + (start + x) as u32;
            proof {
                assert(region_of(address) == 5);
                lemma_fixed_regions_mapped(memory, address);
            }
            let b = match memory.read_byte(address) {
                Some(b) => b,
                None => 0,
            };
            self.frame_buffer.set(start + x, b);
            x += 1;
        }
    }

    /// Mode 4: each of the line's bytes in the selected page of video memory
    /// indexes a colour of the palette.
    fn video_mode_4(&mut self, memory: &Memory, line: usize, second_page: bool)
        requires
            old(self).wf(),
            memory.wf(),
            line < SCREEN_HEIGHT,
        ensures
            final(self).wf(),
            forall|x: int|
                0 <= x < SCREEN_WIDTH ==> {
                    let index = memory.byte(
                        (VRAM_START + (if second_page { 0xA000int } else { 0 }) + line * SCREEN_WIDTH + x) as u32,
                    );
                    &&& #[trigger] final(self).frame_buffer@[line * LINE_BYTES + 2 * x] == memory.byte(
                        (PALETTE_START + 2 * index) as u32,
                    )
                    &&& final(self).frame_buffer@[line * LINE_BYTES + 2 * x + 1] == memory.byte(
                        (PALETTE_START + 2 * index + 1) as u32,
                    )
                },
    {
        let page: u32 = if second_page { 0xA000 } else { 0 };
        let source = VRAM_START + page + (line * SCREEN_WIDTH) as u32;
        let start = line * LINE_BYTES;
        let mut x: usize = 0;
        while x < SCREEN_WIDTH
            invariant
                self.wf(),
                memory.wf(),
                line < SCREEN_HEIGHT,
                start == line * LINE_BYTES,
                source == VRAM_START + page + line * SCREEN_WIDTH,
                page == (if second_page { 0xA000u32 } else { 0u32 }),
                x <= SCREEN_WIDTH,
                forall|j: int|
                    0 <= j < x ==> {
                        let index = memory.byte((source + j) as u32);
                        &&& #[trigger] self.frame_buffer@[start + 2 * j] == memory.byte((PALETTE_START + 2 * index) as u32)
                        &&& self.frame_buffer@[start + 2 * j + 1] == memory.byte((PALETTE_START + 2 * index + 1) as u32)
                    },
            decreases SCREEN_WIDTH - x,
        {
            let address = source + x as u32;
            proof {
                assert(region_of(address) == 5);
                lemma_fixed_regions_mapped(memory, address);
            }
            let index = match memory.read_byte(address) {
                Some(b) => b as u32,
                None => 0,
            };
            proof {
                assert(region_of((PALETTE_START + 2 * index) as u32) == 4);
                assert(region_of((PALETTE_START + 2 * index + 1) as u32) == 4);
                lemma_fixed_regions_mapped(memory, (PALETTE_START + 2 * index) as u32);
                lemma_fixed_regions_mapped(memory, (PALETTE_START + 2 * index + 1) as u32);
            }
            let low = match memory.read_byte(PALETTE_START + 2 * index) {
                Some(b) => b,
                None => 0,
            };
            let high = match memory.read_byte(PALETTE_START + 2 * index + 1) {
                Some(b) => b,
                None => 0,
            };
            self.frame_buffer.set(start + 2 * x, low);
            self.frame_buffer.set(start + 2 * x + 1, high);
            x += 1;
        }
    }
}

} // verus!
