use rusticnes_core::apu::volume_envelope::VolumeEnvelopeState;
use rusticnes_core::mmc::mmc5::{
    banked_memory_index, period_with_high_bits, period_with_low_byte, ExpansionAudioWrite, Mirroring, Mmc5,
    PpuMode, PulseRegisterWrite,
};

/// 128K of PRG ROM whose every byte holds the number of its 8K bank.
fn prg_rom() -> Vec<u8> {
    (0..128 * 1024).map(|i| (i / 8192) as u8).collect()
}

/// 64K of CHR ROM whose every byte holds the number of its 1K bank.
fn chr_rom() -> Vec<u8> {
    (0..64 * 1024).map(|i| (i / 1024) as u8).collect()
}

fn mapper() -> Mmc5 {
    Mmc5::new(false, Mirroring::Vertical, &chr_rom(), &prg_rom())
}

fn read(m: &Mmc5, address: u16) -> Option<u8> {
    m.debug_read_cpu(address, 0, 0)
}

/// The PPU fetches of a scanline start as the mapper sees them: the same
/// nametable address three times, then a pattern fetch.
fn scanline(m: &mut Mmc5) {
    m.read_ppu(0x1000);
    m.read_ppu(0x2000);
    m.read_ppu(0x2000);
    m.read_ppu(0x2000);
    m.read_ppu(0x1000);
}

#[test]
fn banked_index_wraps_bank_and_address() {
    assert_eq!(banked_memory_index(0x4000, 0x2000, 3, 0x9234), 0x3234);
    assert_eq!(banked_memory_index(0x4000, 0x2000, 0, 0x9234), 0x1234);
    // A memory smaller than a bank: one bank, the address wraps in the memory.
    assert_eq!(banked_memory_index(0x1000, 0x2000, 5, 0x1234), 0x0234);
}

#[test]
fn period_bytes_are_replaced() {
    assert_eq!(period_with_low_byte(0x0712, 0x34), 0x0734);
    assert_eq!(period_with_high_bits(0x0734, 5), 0x0534);
}

#[test]
fn power_on_state() {
    let m = mapper();
    assert_eq!(m.prg_mode, 3);
    assert_eq!(m.prg_bank_d, 0x7F);
    assert_eq!(m.prg_ram.len(), 64 * 1024);
    assert_eq!(m.vram.len(), 0x1000);
    assert_eq!(m.extram.len(), 0x800);
    assert_eq!(m.chr_banks, vec![0usize; 8]);
    assert!(m.ppu_read_mode == PpuMode::PpuData);
    assert_eq!(m.multiplicand_a, 0xFF);
    assert!(!m.irq_flag());
    assert_eq!(m.mirroring(), Mirroring::Vertical);
}

#[test]
fn chr_ram_cartridge_gets_eight_k_of_ram() {
    let m = Mmc5::new(true, Mirroring::Horizontal, &[], &prg_rom());
    assert_eq!(m.chr_rom, vec![0u8; 8 * 1024]);
}

#[test]
fn boots_with_the_last_bank_at_the_vectors() {
    let m = mapper();
    assert_eq!(m.read_prg(0xFFFC), 15);
    assert_eq!(read(&m, 0xE000), Some(15));
    assert_eq!(read(&m, 0x8000), Some(0));
}

#[test]
fn prg_mode_0_maps_one_32k_bank() {
    let mut m = mapper();
    m.write_cpu(0x5100, 0);
    // Bank register 0x7F >> 2 = 31, wrapped to the 4 banks of 32K: bank 3.
    assert_eq!(m.read_prg(0x8000), 12);
    assert_eq!(m.read_prg(0xA000), 13);
    assert_eq!(m.read_prg_mode_0(0xFFFF), 15);
    assert_eq!(m.read_prg_mode_0(0x5000), 0);
}

#[test]
fn prg_mode_1_maps_two_16k_banks() {
    let mut m = mapper();
    m.write_cpu(0x5100, 1);
    m.write_cpu(0x5115, 0x80 | 4);
    assert_eq!(m.read_prg(0x8000), 4);
    assert_eq!(m.read_prg(0xA000), 5);
    assert_eq!(m.read_prg(0xC000), 14);
    assert_eq!(m.read_prg_mode_1(0xE000), 15);
}

#[test]
fn prg_mode_2_maps_16k_and_two_8k_banks() {
    let mut m = mapper();
    m.write_cpu(0x5100, 2);
    m.write_cpu(0x5115, 0x80 | 2);
    m.write_cpu(0x5116, 0x80 | 9);
    m.write_cpu(0x5117, 6);
    assert_eq!(m.read_prg(0x8000), 2);
    assert_eq!(m.read_prg(0xA000), 3);
    assert_eq!(m.read_prg(0xC000), 9);
    assert_eq!(m.read_prg_mode_2(0xE000), 6);
}

#[test]
fn prg_mode_3_maps_four_8k_banks() {
    let mut m = mapper();
    m.write_cpu(0x5114, 0x80 | 7);
    m.write_cpu(0x5115, 0x80 | 8);
    m.write_cpu(0x5116, 0x80 | 9);
    m.write_cpu(0x5117, 10);
    assert_eq!(m.read_prg_mode_3(0x8000), 7);
    assert_eq!(m.read_prg_mode_3(0xA000), 8);
    assert_eq!(m.read_prg_mode_3(0xC000), 9);
    assert_eq!(m.read_prg_mode_3(0xE000), 10);
}

#[test]
fn prg_ram_window_is_banked() {
    let mut m = mapper();
    m.write_cpu(0x5113, 1);
    m.write_cpu(0x6000, 0x42);
    assert_eq!(read(&m, 0x6000), Some(0x42));
    assert_eq!(m.prg_ram[8192], 0x42);
    m.write_cpu(0x5113, 0);
    assert_eq!(read(&m, 0x6000), Some(0));
}

#[test]
fn prg_ram_bank_in_rom_window() {
    let mut m = mapper();
    // Bit 7 clear: the $8000 bank is PRG RAM bank 2.
    m.write_cpu(0x5114, 2);
    m.write_cpu(0x8001, 0xAB);
    assert_eq!(read(&m, 0x8001), Some(0xAB));
    assert_eq!(m.prg_ram[2 * 8192 + 1], 0xAB);
    // ROM at $E000 ignores writes.
    m.write_cpu(0xE000, 0x99);
    assert_eq!(read(&m, 0xE000), Some(15));
}

#[test]
fn write_prg_modes_only_touch_ram() {
    let mut m = mapper();
    m.write_prg_mode_0(0x8000, 1);
    m.write_prg_mode_1(0xC000, 1);
    m.write_prg_mode_2(0xE000, 1);
    m.write_prg_mode_3(0xE000, 1);
    assert!(m.prg_ram.iter().all(|b| *b == 0));
    m.prg_bank_c_isram = true;
    m.write_prg_mode_2(0xC000, 5);
    assert_eq!(m.prg_ram[0], 5);
    m.write_prg(0x6001, 6);
    assert_eq!(m.prg_ram[1], 6);
}

#[test]
fn chr_banks_select_1k_pages() {
    let mut m = mapper();
    m.write_cpu(0x5101, 3);
    m.write_cpu(0x5123, 10);
    m.write_cpu(0x5127, 33);
    assert_eq!(m.read_banked_chr(0x0C00), 10);
    assert_eq!(m.read_banked_chr(0x1FFF), 33);
}

#[test]
fn chr_mode_0_uses_the_last_register() {
    let mut m = mapper();
    m.write_cpu(0x5127, 2);
    // One 8K bank, selected by the eighth register: 8K bank 2 is 1K page 16.
    assert_eq!(m.read_banked_chr(0x0000), 16);
    assert_eq!(m.read_banked_chr(0x0400), 17);
}

#[test]
fn chr_high_bits_are_added() {
    let mut m = mapper();
    m.write_cpu(0x5130, 1);
    assert_eq!(m.chr_bank_high_bits, 0x100);
    m.write_cpu(0x5120, 3);
    assert_eq!(m.chr_banks[0], 0x103);
}

#[test]
fn extended_chr_banks_with_large_sprites() {
    let mut m = mapper();
    m.write_cpu(0x5101, 3);
    m.write_cpu(0x5123, 10);
    m.write_cpu(0x512B, 5);
    assert!(m.chr_last_write_ext);
    // Without 8x16 sprites the standard set applies.
    assert_eq!(m.read_banked_chr(0x0C00), 10);
    m.write_cpu(0x2000, 0x20);
    m.write_cpu(0x2001, 0x18);
    assert!(m.large_sprites_active());
    assert_eq!(m.read_banked_chr(0x0C00), 5);
    m.write_cpu(0x5123, 10);
    assert_eq!(m.read_banked_chr(0x0C00), 10);
}

#[test]
fn nametable_quadrants() {
    let mut m = mapper();
    // All quadrants on the first VRAM page: $2400 mirrors $2000.
    m.write_ppu(0x2005, 0x77);
    assert_eq!(m.debug_read_ppu(0x2405), Some(0x77));
    assert_eq!(m.read_nametable(0x2C05), 0x77);
    m.write_cpu(0x5105, 0b11_10_01_00);
    m.write_ppu(0x2405, 0x09);
    assert_eq!(m.vram[0x405], 0x09);
    assert_eq!(m.nametable_vram_high(0x2405), 0x09);
    assert_eq!(m.debug_read_ppu(0x2005), Some(0x77));
    m.write_ppu(0x2800, 0x11);
    assert_eq!(m.extram[0], 0x11);
    assert_eq!(m.nametable_ext1(0x2800), 0x11);
    m.write_cpu(0x5106, 0x33);
    m.write_cpu(0x5107, 2);
    assert_eq!(m.fill_attr, 0xAA);
    assert_eq!(m.debug_read_ppu(0x2C00), Some(0x33));
    assert_eq!(m.nametable_fixed(0x2FC0), 0xAA);
    // Writes to the fill quadrant are ignored.
    m.write_nametable(0x2C00, 0x44);
    assert_eq!(m.read_nametable(0x2C00), 0x33);
    assert_eq!(m.nametable_vram_low(0x2C00), 0);
}

#[test]
fn extram_as_nametable_reads_zero_in_modes_2_and_3() {
    let mut m = mapper();
    m.write_cpu(0x5105, 0b10);
    m.write_ppu(0x2001, 0x5A);
    assert_eq!(m.read_nametable(0x2001), 0x5A);
    m.write_cpu(0x5104, 2);
    assert_eq!(m.read_nametable(0x2001), 0);
}

#[test]
fn extram_cpu_access() {
    let mut m = mapper();
    // Mode 0, outside the frame: the write stores 0, and the CPU cannot read.
    m.write_cpu(0x5C10, 0x66);
    assert_eq!(m.extram[0x10], 0);
    assert_eq!(read(&m, 0x5C10), None);
    m.write_cpu(0x5104, 2);
    m.write_cpu(0x5C10, 0x66);
    assert_eq!(read(&m, 0x5C10), Some(0x66));
    m.write_cpu(0x5104, 3);
    m.write_cpu(0x5C10, 0x01);
    assert_eq!(read(&m, 0x5C10), Some(0x66));
}

#[test]
fn multiplier() {
    let mut m = mapper();
    assert_eq!(read(&m, 0x5205), Some(0x01));
    assert_eq!(read(&m, 0x5206), Some(0xFE));
    m.write_cpu(0x5205, 200);
    m.write_cpu(0x5206, 100);
    assert_eq!(read(&m, 0x5205), Some(0x20));
    assert_eq!(read(&m, 0x5206), Some(0x4E));
}

#[test]
fn unmapped_cpu_reads() {
    let m = mapper();
    assert_eq!(read(&m, 0x4020), None);
    assert_eq!(read(&m, 0x5000), None);
}

#[test]
fn pcm_registers() {
    let mut m = mapper();
    m.write_cpu(0x5011, 0x40);
    assert_eq!(m.pcm_level, 0x40);
    m.write_cpu(0x5010, 0x81);
    assert!(m.pcm_read_mode && m.pcm_irq_enable);
    assert_eq!(read(&m, 0x5010), Some(0x01));
    // In read mode the level comes from reads of $8000-$BFFF.
    m.write_cpu(0x5011, 0x10);
    assert_eq!(m.pcm_level, 0x40);
    m.write_cpu(0x5114, 0x80 | 6);
    assert_eq!(m.read_cpu(0x8000, 0, 0), Some(6));
    assert_eq!(m.pcm_level, 6);
    m.pcm_irq_pending = true;
    assert_eq!(read(&m, 0x5010), Some(0x81));
    assert_eq!(m.read_cpu(0x5010, 0, 0), Some(0x01));
    assert!(!m.pcm_irq_pending);
}

#[test]
fn pulse_status_register() {
    let m = mapper();
    assert_eq!(m.debug_read_cpu(0x5015, 0, 0), Some(0));
    assert_eq!(m.debug_read_cpu(0x5015, 3, 0), Some(1));
    assert_eq!(m.debug_read_cpu(0x5015, 0, 9), Some(2));
    assert_eq!(m.debug_read_cpu(0x5015, 1, 1), Some(3));
}

#[test]
fn scanline_detection_and_irq() {
    let mut m = mapper();
    m.write_cpu(0x5203, 2);
    m.write_cpu(0x5204, 0x80);
    assert!(m.irq_enabled);
    scanline(&mut m);
    assert!(m.in_frame);
    assert_eq!(m.current_scanline, 0);
    assert_eq!(read(&m, 0x5204), Some(0x40));
    scanline(&mut m);
    assert_eq!(m.current_scanline, 1);
    assert!(!m.irq_flag());
    scanline(&mut m);
    assert_eq!(m.current_scanline, 2);
    assert!(m.irq_flag());
    assert_eq!(read(&m, 0x5204), Some(0xC0));
    // Reading the status acknowledges the IRQ before the value is formed.
    assert_eq!(m.read_cpu(0x5204, 0, 0), Some(0x40));
    assert!(!m.irq_flag());
}

#[test]
fn frame_ends_after_line_240() {
    let mut m = mapper();
    scanline(&mut m);
    for _ in 0..240 {
        scanline(&mut m);
    }
    assert_eq!(m.current_scanline, 240);
    assert!(m.in_frame);
    scanline(&mut m);
    assert_eq!(m.current_scanline, 0);
    assert!(!m.in_frame);
    assert!(m.ppu_read_mode == PpuMode::PpuData);
}

#[test]
fn cpu_reads_without_ppu_fetches_end_the_frame() {
    let mut m = mapper();
    scanline(&mut m);
    assert!(m.in_frame);
    for _ in 0..4 {
        m.read_cpu(0x0000, 0, 0);
    }
    assert!(!m.in_frame);
}

#[test]
fn nmi_vector_read_ends_the_frame() {
    let mut m = mapper();
    scanline(&mut m);
    scanline(&mut m);
    assert_eq!(m.read_cpu(0xFFFA, 0, 0), Some(15));
    assert!(!m.in_frame);
    assert_eq!(m.current_scanline, 0);
}

#[test]
fn sprite_and_background_fetch_phases() {
    let mut m = mapper();
    scanline(&mut m);
    assert!(m.ppu_read_mode == PpuMode::Backgrounds);
    while m.ppu_fetches_this_scanline < 127 {
        m.read_ppu(0x0000);
    }
    assert!(m.ppu_read_mode == PpuMode::Sprites);
    while m.ppu_fetches_this_scanline < 159 {
        m.read_ppu(0x0000);
    }
    assert!(m.ppu_read_mode == PpuMode::Backgrounds);
}

#[test]
fn extended_attributes_and_tiles() {
    let mut m = mapper();
    m.write_cpu(0x5104, 1);
    m.write_cpu(0x5130, 0);
    m.extram[0x21] = 0b10_000101;
    m.last_bg_tile_fetch = 0x2021;
    assert_eq!(m.read_extended_attribute(), 0b10_10_10_10);
    // 4K bank 5 is 1K pages 20 to 23.
    assert_eq!(m.read_extended_chr(0x0400), 21);
    m.ppu_read_mode = PpuMode::Backgrounds;
    m.ppu_fetches_this_scanline = 4;
    assert_eq!(m.debug_read_ppu(0x23C0), Some(0b10_10_10_10));
    m.ppu_fetches_this_scanline = 5;
    assert_eq!(m.debug_read_ppu(0x0000), Some(20));
    assert_eq!(m.debug_read_ppu(0x4000), None);
}

#[test]
fn pulse_register_writes_are_decoded() {
    let mut m = mapper();
    let control = m.write_cpu(0x5000, 0b10_1_1_0101);
    assert!(matches!(
        control,
        ExpansionAudioWrite::Pulse1(PulseRegisterWrite::Control {
            duty: 0b1111_0000,
            length_disable: true,
            constant_volume: true,
            volume: 5
        })
    ));
    let low = m.write_cpu(0x5006, 0x34);
    assert!(matches!(low, ExpansionAudioWrite::Pulse2(PulseRegisterWrite::PeriodLow { period_low: 0x34 })));
    let high = m.write_cpu(0x5003, 0b00011_101);
    assert!(matches!(
        high,
        ExpansionAudioWrite::Pulse1(PulseRegisterWrite::PeriodHighAndLength {
            period_high: 5,
            length_index: 3
        })
    ));
    let enable = m.write_cpu(0x4015, 0b10);
    assert!(matches!(enable, ExpansionAudioWrite::ChannelEnable { pulse_1: false, pulse_2: true }));
    assert!(matches!(m.write_cpu(0x5001, 0xFF), ExpansionAudioWrite::NoAudio));
    assert!(matches!(m.write_cpu(0x5105, 0xFF), ExpansionAudioWrite::NoAudio));
}

#[test]
fn audio_sequencer_clocks() {
    let mut m = mapper();
    let first = m.clock_cpu();
    assert!(!first.pulse_timers && !first.envelopes_and_lengths);
    let second = m.clock_cpu();
    assert!(second.pulse_timers && !second.envelopes_and_lengths);
    let mut frames = 0;
    for _ in 2..7446 {
        if m.clock_cpu().envelopes_and_lengths {
            frames += 1;
        }
    }
    assert_eq!(frames, 1);
    assert_eq!(m.audio_sequencer_counter, 0);
}

#[test]
fn ppu_monitor_and_ram_protect_registers() {
    let mut m = mapper();
    m.write_cpu(0x2000, 0x20);
    assert!(!m.large_sprites_active());
    m.write_cpu(0x5102, 0b10);
    m.write_cpu(0x5103, 0b01);
    assert!(m.prg_ram_write_enabled());
    m.write_cpu(0x5103, 0b11);
    assert!(!m.prg_ram_write_enabled());
}

#[test]
fn read_guards_for_empty_memories() {
    let m = Mmc5::new(false, Mirroring::FourScreen, &[], &[]);
    assert!(m.cpu_read_ok(0x6000));
    assert!(m.cpu_read_ok(0x5205));
    assert!(!m.cpu_read_ok(0xE000));
    assert!(!m.ppu_read_ok(0x0000));
    assert!(m.ppu_read_ok(0x2000));
    assert_eq!(m.debug_read_cpu(0x6000, 0, 0), Some(0));
    let full = mapper();
    assert!(full.cpu_read_ok(0xE000));
    assert!(full.ppu_read_ok(0x0000));
}

#[test]
fn pulse_writes_reach_the_envelope() {
    let mut m = mapper();
    let mut envelope = VolumeEnvelopeState::new();
    if let ExpansionAudioWrite::Pulse1(w) = m.write_cpu(0x5000, 0b00_1_0_1001) {
        w.apply_to_envelope(&mut envelope);
    } else {
        panic!("expected a pulse 1 write");
    }
    assert!(envelope.looping);
    assert!(envelope.enabled);
    assert_eq!(envelope.volume_register, 9);
    assert!(!envelope.start_flag);
    if let ExpansionAudioWrite::Pulse1(w) = m.write_cpu(0x5002, 0x10) {
        w.apply_to_envelope(&mut envelope);
    }
    assert!(!envelope.start_flag);
    if let ExpansionAudioWrite::Pulse1(w) = m.write_cpu(0x5003, 0x08) {
        w.apply_to_envelope(&mut envelope);
    }
    assert!(envelope.start_flag);
    assert_eq!(envelope.volume_register, 9);
}
