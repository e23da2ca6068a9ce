use gba_core::arm7::CpuFault;
use gba_core::gba::Gba;

#[test]
fn frame_without_cartridge_faults_on_fetch() {
    let mut gba = Gba::new();
    assert_eq!(gba.frame(), Err(CpuFault::BusError { address: 0x0800_0000 }));
}

#[test]
fn frame_runs_a_looping_cartridge() {
    let mut gba = Gba::new();
    let mut rom = Vec::new();
    for w in [0xEAFF_FFFEu32, 0xE1A0_0000, 0xE1A0_0000, 0xE1A0_0000] {
        rom.extend_from_slice(&w.to_le_bytes());
    }
    gba.load_rom(rom);
    assert_eq!(gba.frame(), Ok(true));
    assert_eq!(gba.get_frame_buffer().len(), 240 * 160 * 2);
    assert_eq!(gba.next(), Ok(()));
}
