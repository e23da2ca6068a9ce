use vstd::prelude::*;

use crate::arm7::{Arm7, CpuFault};
use crate::memory::{BIOS_SIZE, Memory};
use crate::scheduler::{Event, EventType, Scheduler};
use crate::video::{VISIBLE_H, VISIBLE_V, V_BLANK, Video};

verus! {

/// The console: memory, processor, video unit and the scheduler that drives
/// the video timing, frame by frame.
pub struct Gba {
    pub memory: Memory,
    pub cpu: Arm7,
    pub video: Video,
    pub scheduler: Scheduler,
    pub frames: usize,
    pub overshot: usize,
}

impl Gba {
    pub open spec fn wf(&self) -> bool {
        &&& self.memory.wf()
        &&& self.cpu.wf()
        &&& self.video.wf()
        &&& self.scheduler.wf()
    }

    pub open spec fn frame_count(&self) -> usize {
        self.frames
    }

    /// The processor.
    pub open spec fn cpu(&self) -> Arm7 {
        self.cpu
    }

    /// The memory.
    pub open spec fn memory(&self) -> Memory {
        self.memory
    }

    pub fn new() -> (r: Gba)
        ensures
            r.wf(),
            r.frame_count() == 0,
    {
        let memory = Memory::new();
        let mut scheduler = Scheduler::new();
        scheduler.schedule_from_now(Event::new(VISIBLE_H, EventType::HVisibleEnd), &memory);
        Gba { memory, cpu: Arm7::new(), video: Video::new(), scheduler, frames: 0, overshot: 0 }
    }

    /// Installs a BIOS image of the BIOS region's size.
    pub fn load_bios(&mut self, bios: Vec<u8>)
        requires
            old(self).wf(),
            bios@.len() == BIOS_SIZE,
        ensures
            final(self).wf(),
    {
        self.memory.load_bios(bios);
    }

    pub fn load_rom(&mut self, rom: Vec<u8>)
        requires
            old(self).wf(),
        ensures
            final(self).wf(),
    {
        self.memory.load_rom(rom);
    }

    /// One pipeline step of the processor over the console's memory.
    pub fn next(&mut self) -> (r: Result<(), CpuFault>)
        requires
            old(self).wf(),
        ensures
            final(self).wf(),
            final(self).frame_count() == old(self).frame_count(),
            final(self).cpu().step_effect(&old(self).cpu(), &old(self).memory(), &final(self).memory(), r),
            r is Ok ==> !final(self).cpu().flush,
    {
        self.cpu.next(&mut self.memory)
    }

    pub fn get_frame_buffer(&self) -> (r: &Vec<u8>)
        requires
            self.wf(),
        ensures
            r@.len() == crate::video::FRAME_BUFFER_SIZE,
    {
        &self.video.frame_buffer
    }

    /// Handles the events that are due: the end of a frame counts it, a video
    /// event runs its handler and schedules the next one. Returns whether a
    /// frame ended.
    fn handle_events(&mut self) -> (ended: bool)
        requires
            old(self).wf(),
        ensures
            final(self).wf(),
            final(self).frames == (if ended && old(self).frames < usize::MAX {
                (old(self).frames + 1) as usize
            } else {
                old(self).frames
            }),
    {
        let pending = self.scheduler.events_len();
        let mut ended = false;
        let mut i: usize = 0;
        while i < pending
            invariant
                self.wf(),
                i <= pending,
                self.frames == (if ended && old(self).frames < usize::MAX {
                    (old(self).frames + 1) as usize
                } else {
                    old(self).frames
                }),
            decreases pending - i,
        {
            match self.scheduler.pop(&self.memory) {
                None => {
                    return ended;
                },
                Some(event) => {
                    let follow = match event.event_type {
                        EventType::EndFrame => {
                            if !ended {
                                self.frames = self.frames.saturating_add(1);
                            }
                            ended = true;
                            None
                        },
                        EventType::HVisibleEnd => Some(self.video.h_visible_end_handler(&mut self.memory)),
                        EventType::HBlankEnd => Some(self.video.h_blank_end_handler(&mut self.memory)),
                        EventType::VVisibleEnd => Some(self.video.v_visible_end_handler(&mut self.memory)),
                        EventType::VBlankEnd => Some(self.video.v_blank_end_handler(&mut self.memory)),
                    };
                    if let Some(e) = follow {
                        self.scheduler.schedule_from_now(e, &self.memory);
                    }
                },
            }
            i += 1;
        }
        ended
    }

    /// Runs the processor and the events for `cycles` bus cycles, up to the
    /// end of the frame. Each processor step costs at least one cycle, so the
    /// frame ends within the step budget; `Ok(false)` tells that it did not.
    fn run(&mut self, cycles: usize) -> (r: Result<bool, CpuFault>)
        requires
            old(self).wf(),
        ensures
            final(self).wf(),
    {
        let start_time = self.scheduler.timestamp(&self.memory);
        let frame_end = Event::new(cycles.saturating_sub(self.overshot), EventType::EndFrame);
        self.scheduler.schedule_from_now(frame_end, &self.memory);
        let mut budget: usize = cycles.saturating_add(cycles).saturating_add(16);
        while budget > 0
            invariant
                self.wf(),
            decreases budget,
        {
            budget -= 1;
            match self.scheduler.time_until_next_event(&self.memory) {
                Some(0) => {
                    if self.handle_events() {
                        let end_time = self.scheduler.timestamp(&self.memory);
                        self.overshot = end_time.saturating_sub(start_time).saturating_sub(cycles);
                        return Ok(true);
                    }
                },
                _ => {
                    if let Err(e) = self.cpu.next(&mut self.memory) {
                        return Err(e);
                    }
                },
            }
        }
        Ok(false)
    }

    /// Runs one frame: the visible lines and the vertical blank.
    pub fn frame(&mut self) -> (r: Result<bool, CpuFault>)
        requires
            old(self).wf(),
        ensures
            final(self).wf(),
    {
        self.run(VISIBLE_V + V_BLANK)
    }
}

} // verus!
