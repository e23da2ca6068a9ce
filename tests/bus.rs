use gba_core::memory::Memory;
use gba_core::scheduler::{Event, EventType, Scheduler};
use gba_core::video::{Video, DISPSTAT, H_BLANK, VCOUNT, VISIBLE_H, V_BLANK};

#[test]
fn memory_regions_and_little_endian_words() {
    let mut m = Memory::new();
    assert_eq!(m.get_byte(0x0200_0000, false), Some(0));
    assert_eq!(m.get_byte(0x0100_0000, false), None);
    assert_eq!(m.get_byte(0x0800_0000, false), None);
    assert!(m.store_word(0x0300_0007, 0x0102_0304, false));
    assert_eq!(m.get_byte(0x0300_0004, false), Some(0x04));
    assert_eq!(m.get_byte(0x0300_0007, false), Some(0x01));
    assert_eq!(m.get_halfword(0x0300_0007, false), Some(0x0102));
    assert!(!m.store_byte(0x0E00_0000, 1, false));
    m.load_rom(vec![1, 2, 3, 4, 5]);
    assert_eq!(m.get_word(0x0800_0000, false), Some(0x0403_0201));
    assert_eq!(m.get_word(0x0800_0004, false), None);
}

#[test]
fn clock_counts_accesses() {
    let mut m = Memory::new();
    m.get_word(0x0200_0000, true);
    assert_eq!(m.get_clock_cycles(), 6);
    m.get_byte(0x0300_0000, true);
    assert_eq!(m.get_clock_cycles(), 7);
    m.load_rom(vec![0; 16]);
    m.get_word(0x0800_0000, true);
    assert_eq!(m.get_clock_cycles(), 7 + 4 + 2);
    m.get_word(0x0800_0004, true);
    assert_eq!(m.get_clock_cycles(), 13 + 4);
    m.add_clock_cycles(3);
    assert_eq!(m.get_clock_cycles(), 20);
}

#[test]
fn load_bios_replaces_the_bios() {
    let mut m = Memory::new();
    let mut bios = vec![0u8; 0x4000];
    bios[0x10] = 0xAB;
    m.load_bios(bios);
    assert_eq!(m.get_byte(0x10, false), Some(0xAB));
}

#[test]
fn scheduler_orders_by_timestamp() {
    let m = Memory::new();
    let mut s = Scheduler::new();
    assert_eq!(s.time_until_next_event(&m), None);
    s.schedule(Event::new(30, EventType::HBlankEnd));
    s.schedule(Event::new(10, EventType::HVisibleEnd));
    s.schedule(Event::new(30, EventType::EndFrame));
    assert_eq!(s.time_until_next_event(&m), Some(10));
    assert_eq!(s.pop(&m), None);
    let mut m = Memory::new();
    m.add_clock_cycles(30);
    assert_eq!(s.timestamp(&m), 30);
    assert_eq!(s.pop(&m).map(|e| e.event_type), Some(EventType::HVisibleEnd));
    assert_eq!(s.pop(&m).map(|e| e.event_type), Some(EventType::HBlankEnd));
    assert_eq!(s.pop(&m).map(|e| e.event_type), Some(EventType::EndFrame));
    assert_eq!(s.pop(&m), None);
    s.schedule_from_now(Event::new(5, EventType::VBlankEnd), &m);
    assert_eq!(s.time_until_next_event(&m), Some(5));
}

#[test]
fn event_timestamps_saturate() {
    let mut e = Event::new(usize::MAX - 1, EventType::EndFrame);
    e.add_timestamp(5);
    assert_eq!(e.timestamp, usize::MAX);
}

#[test]
fn video_blank_flags_and_line_counter() {
    let mut m = Memory::new();
    let mut v = Video::new();
    assert_eq!(v.h_visible_end_handler(&mut m), Event::new(H_BLANK, EventType::HBlankEnd));
    assert_eq!(m.get_halfword(DISPSTAT, false), Some(0x2));
    assert_eq!(v.v_visible_end_handler(&mut m), Event::new(V_BLANK, EventType::VBlankEnd));
    assert_eq!(m.get_halfword(DISPSTAT, false), Some(0x3));
    assert_eq!(v.h_blank_end_handler(&mut m), Event::new(VISIBLE_H, EventType::HVisibleEnd));
    assert_eq!(m.get_halfword(DISPSTAT, false), Some(0x1));
    assert_eq!(m.get_halfword(VCOUNT, false), Some(1));
    assert!(m.store_halfword(VCOUNT, 227, false));
    v.h_blank_end_handler(&mut m);
    assert_eq!(m.get_halfword(VCOUNT, false), Some(0));
    v.v_blank_end_handler(&mut m);
    assert_eq!(m.get_halfword(DISPSTAT, false), Some(0x0));
}

#[test]
fn bitmap_modes_fill_a_line() {
    let mut m = Memory::new();
    let mut v = Video::new();
    assert!(m.store_halfword(0x0400_0000, 3, false));
    assert!(m.store_halfword(VCOUNT, 2, false));
    assert!(m.store_halfword(0x0600_0000 + 2 * 480, 0x7C1F, false));
    v.render_line(&m);
    assert_eq!(v.frame_buffer[960], 0x1F);
    assert_eq!(v.frame_buffer[961], 0x7C);
    assert!(m.store_halfword(0x0400_0000, 4, false));
    assert!(m.store_byte(0x0600_0000 + 2 * 240 + 1, 3, false));
    assert!(m.store_halfword(0x0500_0006, 0x03E0, false));
    v.render_line(&m);
    assert_eq!(v.frame_buffer[962], 0xE0);
    assert_eq!(v.frame_buffer[963], 0x03);
}
