//! The MMC5, the most capable mapper Nintendo produced: PRG banking in four
//! modes with RAM or ROM in most windows, CHR banking with a separate bank set
//! for the background while 8x16 sprites are on, four freely mapped nametable
//! quadrants (two VRAM pages, the extended RAM, or a fill pattern), extended
//! RAM attributes and tiles, a scanline IRQ, a hardware multiplier, and two
//! extra pulse channels with a PCM channel.
//!
//! The mapper detects scanlines by watching the PPU's fetches: three fetches
//! of the same nametable address in a row mark the start of a scanline.
//!
//! The pulse channels belong to the APU model, which is not part of this
//! library: a register write to them is decoded here and handed back as an
//! `ExpansionAudioWrite`, and a CPU clock says which of their units to clock.
use vstd::prelude::*;
use crate::apu::volume_envelope::VolumeEnvelopeState;

verus! {

/// What the PPU is fetching at the moment, as far as the mapper can tell.
#[derive(Clone, Copy, PartialEq, Eq, Structural)]
pub enum PpuMode {
    Backgrounds,
    Sprites,
    PpuData,
}

/// How the cartridge wires the PPU's nametable address lines, as its header
/// gives it. The MMC5 maps its quadrants itself; the mirroring is kept and
/// reported for the rest of the emulator.
#[derive(Clone, Copy, Debug, PartialEq, Eq, Structural)]
pub enum Mirroring {
    Horizontal,
    Vertical,
    OneScreenLower,
    OneScreenUpper,
    FourScreen,
}

pub struct Mmc5 {
    pub prg_rom: Vec<u8>,
    pub prg_ram: Vec<u8>,
    pub chr_rom: Vec<u8>,
    pub mirroring: Mirroring,
    pub ppuctrl_monitor: u8,
    pub ppumask_monitor: u8,
    pub prg_mode: u8,
    pub chr_mode: u8,
    pub prg_ram_magic_low: u8,
    pub prg_ram_magic_high: u8,
    pub extended_ram_mode: u8,
    pub vram: Vec<u8>,
    pub extram: Vec<u8>,
    pub nametable_mapping: u8,
    pub fill_tile: u8,
    pub fill_attr: u8,
    pub prg_bank_a_isram: bool,
    pub prg_bank_b_isram: bool,
    pub prg_bank_c_isram: bool,
    pub prg_bank_a: u8,
    pub prg_bank_b: u8,
    pub prg_bank_c: u8,
    pub prg_bank_d: u8,
    pub prg_ram_bank: u8,
    pub chr_banks: Vec<usize>,
    pub chr_ext_banks: Vec<usize>,
    pub chr_last_write_ext: bool,
    pub ppu_read_mode: PpuMode,
    pub chr_bank_high_bits: usize,
    pub irq_scanline_compare: u8,
    pub irq_enabled: bool,
    pub irq_pending: bool,
    pub in_frame: bool,
    pub current_scanline: u8,
    pub last_ppu_fetch: u16,
    pub last_bg_tile_fetch: u16,
    pub consecutive_nametable_count: u8,
    pub cpu_cycles_since_last_ppu_read: u8,
    pub ppu_fetches_this_scanline: u16,
    pub multiplicand_a: u8,
    pub multiplicand_b: u8,
    pub pcm_level: u8,
    pub pcm_read_mode: bool,
    pub pcm_irq_enable: bool,
    pub pcm_irq_pending: bool,
    pub audio_sequencer_counter: u16,
}

/// The mapper's state with its memories as sequences.
pub struct Mmc5View {
    pub prg_rom: Seq<u8>,
    pub prg_ram: Seq<u8>,
    pub chr_rom: Seq<u8>,
    pub mirroring: Mirroring,
    pub ppuctrl_monitor: u8,
    pub ppumask_monitor: u8,
    pub prg_mode: u8,
    pub chr_mode: u8,
    pub prg_ram_magic_low: u8,
    pub prg_ram_magic_high: u8,
    pub extended_ram_mode: u8,
    pub vram: Seq<u8>,
    pub extram: Seq<u8>,
    pub nametable_mapping: u8,
    pub fill_tile: u8,
    pub fill_attr: u8,
    pub prg_bank_a_isram: bool,
    pub prg_bank_b_isram: bool,
    pub prg_bank_c_isram: bool,
    pub prg_bank_a: u8,
    pub prg_bank_b: u8,
    pub prg_bank_c: u8,
    pub prg_bank_d: u8,
    pub prg_ram_bank: u8,
    pub chr_banks: Seq<usize>,
    pub chr_ext_banks: Seq<usize>,
    pub chr_last_write_ext: bool,
    pub ppu_read_mode: PpuMode,
    pub chr_bank_high_bits: usize,
    pub irq_scanline_compare: u8,
    pub irq_enabled: bool,
    pub irq_pending: bool,
    pub in_frame: bool,
    pub current_scanline: u8,
    pub last_ppu_fetch: u16,
    pub last_bg_tile_fetch: u16,
    pub consecutive_nametable_count: u8,
    pub cpu_cycles_since_last_ppu_read: u8,
    pub ppu_fetches_this_scanline: u16,
    pub multiplicand_a: u8,
    pub multiplicand_b: u8,
    pub pcm_level: u8,
    pub pcm_read_mode: bool,
    pub pcm_irq_enable: bool,
    pub pcm_irq_pending: bool,
    pub audio_sequencer_counter: u16,
}

impl View for Mmc5 {
    type V = Mmc5View;

    open spec fn view(&self) -> Mmc5View {
        Mmc5View {
            prg_rom: self.prg_rom@,
            prg_ram: self.prg_ram@,
            chr_rom: self.chr_rom@,
            mirroring: self.mirroring,
            ppuctrl_monitor: self.ppuctrl_monitor,
            ppumask_monitor: self.ppumask_monitor,
            prg_mode: self.prg_mode,
            chr_mode: self.chr_mode,
            prg_ram_magic_low: self.prg_ram_magic_low,
            prg_ram_magic_high: self.prg_ram_magic_high,
            extended_ram_mode: self.extended_ram_mode,
            vram: self.vram@,
            extram: self.extram@,
            nametable_mapping: self.nametable_mapping,
            fill_tile: self.fill_tile,
            fill_attr: self.fill_attr,
            prg_bank_a_isram: self.prg_bank_a_isram,
            prg_bank_b_isram: self.prg_bank_b_isram,
            prg_bank_c_isram: self.prg_bank_c_isram,
            prg_bank_a: self.prg_bank_a,
            prg_bank_b: self.prg_bank_b,
            prg_bank_c: self.prg_bank_c,
            prg_bank_d: self.prg_bank_d,
            prg_ram_bank: self.prg_ram_bank,
            chr_banks: self.chr_banks@,
            chr_ext_banks: self.chr_ext_banks@,
            chr_last_write_ext: self.chr_last_write_ext,
            ppu_read_mode: self.ppu_read_mode,
            chr_bank_high_bits: self.chr_bank_high_bits,
            irq_scanline_compare: self.irq_scanline_compare,
            irq_enabled: self.irq_enabled,
            irq_pending: self.irq_pending,
            in_frame: self.in_frame,
            current_scanline: self.current_scanline,
            last_ppu_fetch: self.last_ppu_fetch,
            last_bg_tile_fetch: self.last_bg_tile_fetch,
            consecutive_nametable_count: self.consecutive_nametable_count,
            cpu_cycles_since_last_ppu_read: self.cpu_cycles_since_last_ppu_read,
            ppu_fetches_this_scanline: self.ppu_fetches_this_scanline,
            multiplicand_a: self.multiplicand_a,
            multiplicand_b: self.multiplicand_b,
            pcm_level: self.pcm_level,
            pcm_read_mode: self.pcm_read_mode,
            pcm_irq_enable: self.pcm_irq_enable,
            pcm_irq_pending: self.pcm_irq_pending,
            audio_sequencer_counter: self.audio_sequencer_counter,
        }
    }
}

/// The index into a memory of `len` bytes that `raw` selects in bank `bank`
/// of `bank_size` bytes: the bank number wraps around the number of whole
/// banks the memory holds (at least one), and the address wraps within the
/// bank (or within the memory, when it is smaller than one bank).
pub open spec fn banked_index(len: int, bank_size: int, bank: int, raw: int) -> int {
    let total_banks: int = if len / bank_size > 1 {
        len / bank_size
    } else {
        1
    };
    let window: int = if bank_size < len {
        bank_size
    } else {
        len
    };
    bank_size * (bank % total_banks) + raw % window
}

/// Where a PPU fetch falls in the four fetches of a background tile
/// (nametable byte, attribute byte, two pattern bytes), counted from the
/// start of the scanline.
pub open spec fn fetch_phase(fetches: u16) -> int {
    fetches as int % 4
}

/// The bytes of one CHR bank in each CHR mode.
pub open spec fn chr_bank_size(mode: u8) -> int {
    if mode == 0 {
        8192
    } else if mode == 1 {
        4096
    } else if mode == 2 {
        2048
    } else {
        1024
    }
}

/// How many of the eight CHR bank registers each bank of a CHR mode spans.
pub open spec fn chr_registers_per_bank(mode: u8) -> int {
    if mode == 0 {
        8
    } else if mode == 1 {
        4
    } else if mode == 2 {
        2
    } else {
        1
    }
}

/// The CHR bank register that selects the bank for `address`: the last of
/// the registers that its bank spans.
pub open spec fn chr_register_index(mode: u8, address: u16) -> int {
    (address as int / chr_bank_size(mode) + 1) * chr_registers_per_bank(mode) - 1
}

/// The pulse duty patterns, by the two duty bits of a control register.
pub open spec fn duty_pattern(index: u8) -> u8 {
    if index == 0 {
        0b1000_0000
    } else if index == 1 {
        0b1100_0000
    } else if index == 2 {
        0b1111_0000
    } else {
        0b0011_1111
    }
}

/// A write to one of the registers of an MMC5 pulse channel, decoded.
pub enum PulseRegisterWrite {
    /// `$5000`/`$5004`: the duty pattern; the flag that halts the length
    /// counter and makes the envelope loop; whether the volume is constant;
    /// and the 4-bit volume (or envelope period).
    Control { duty: u8, length_disable: bool, constant_volume: bool, volume: u8 },
    /// `$5002`/`$5006`: the low byte of the timer period.
    PeriodLow { period_low: u8 },
    /// `$5003`/`$5007`: the high three bits of the timer period and the
    /// length table index; the write also restarts the note.
    PeriodHighAndLength { period_high: u8, length_index: u8 },
}

/// What a CPU write does to the expansion audio channels.
pub enum ExpansionAudioWrite {
    NoAudio,
    Pulse1(PulseRegisterWrite),
    Pulse2(PulseRegisterWrite),
    /// `$5015`-style enable bits written at `$4015`: a disabled channel's
    /// length counter is cleared.
    ChannelEnable { pulse_1: bool, pulse_2: bool },
}

/// Which audio units a CPU clock clocks.
pub struct AudioClocks {
    /// The pulse timers, every other CPU clock.
    pub pulse_timers: bool,
    /// The envelopes and length counters, once every 7446 CPU clocks.
    pub envelopes_and_lengths: bool,
}

/// The CPU clocks in one period of the audio frame sequencer.
pub const AUDIO_FRAME_PERIOD: u16 = 7446;

/// The decoded write of `data` to the pulse register at `offset` (0 to 3)
/// of a channel.
pub open spec fn pulse_register_write(offset: u16, data: u8) -> Option<PulseRegisterWrite> {
    if offset == 0 {
        Some(
            PulseRegisterWrite::Control {
                duty: duty_pattern((data & 0b1100_0000) >> 6u8),
                length_disable: (data & 0b0010_0000) != 0,
                constant_volume: (data & 0b0001_0000) != 0,
                volume: data & 0b0000_1111,
            },
        )
    } else if offset == 2 {
        Some(PulseRegisterWrite::PeriodLow { period_low: data })
    } else if offset == 3 {
        Some(
            PulseRegisterWrite::PeriodHighAndLength {
                period_high: data & 0b0000_0111,
                length_index: (data & 0b1111_1000) >> 3u8,
            },
        )
    } else {
        None
    }
}

/// What a CPU write of `data` at `address` does to the expansion audio.
pub open spec fn audio_write(address: u16, data: u8) -> ExpansionAudioWrite {
    if 0x5000 <= address <= 0x5003 && pulse_register_write(
        (address - 0x5000) as u16,
        data,
    ) is Some {
        ExpansionAudioWrite::Pulse1(pulse_register_write((address - 0x5000) as u16, data)->0)
    } else if 0x5004 <= address <= 0x5007 && pulse_register_write(
        (address - 0x5004) as u16,
        data,
    ) is Some {
        ExpansionAudioWrite::Pulse2(pulse_register_write((address - 0x5004) as u16, data)->0)
    } else if address == 0x4015 {
        ExpansionAudioWrite::ChannelEnable {
            pulse_1: (data & 0b0001) != 0,
            pulse_2: (data & 0b0010) != 0,
        }
    } else {
        ExpansionAudioWrite::NoAudio
    }
}

impl Mmc5View {
    /// The invariant of a mapper built by `Mmc5::new`: the memories the
    /// mapper owns have their fixed sizes, the CHR high bits fit in two bits
    /// at bit 8, the scanline counter has not passed the last visible line,
    /// and the audio sequencer is within its period.
    pub open spec fn wf(self) -> bool {
        &&& self.prg_ram.len() == 0x10000
        &&& self.vram.len() == 0x1000
        &&& self.extram.len() == 0x800
        &&& self.chr_banks.len() == 8
        &&& self.chr_ext_banks.len() == 8
        &&& self.chr_bank_high_bits <= 0x300
        &&& self.current_scanline <= 240
        &&& self.audio_sequencer_counter < AUDIO_FRAME_PERIOD
    }

    /// The state at power-on.
    pub open spec fn power_on(
        has_chr_ram: bool,
        mirroring: Mirroring,
        chr: Seq<u8>,
        prg: Seq<u8>,
    ) -> Mmc5View {
        Mmc5View {
            prg_rom: prg,
            prg_ram: Seq::new(0x10000, |i: int| 0u8),
            chr_rom: if has_chr_ram {
                Seq::new(0x2000, |i: int| 0u8)
            } else {
                chr
            },
            mirroring,
            ppuctrl_monitor: 0,
            ppumask_monitor: 0,
            prg_mode: 3,
            chr_mode: 0,
            prg_ram_magic_low: 0,
            prg_ram_magic_high: 0,
            extended_ram_mode: 0,
            vram: Seq::new(0x1000, |i: int| 0u8),
            extram: Seq::new(0x800, |i: int| 0u8),
            nametable_mapping: 0,
            fill_tile: 0,
            fill_attr: 0,
            prg_bank_a_isram: false,
            prg_bank_b_isram: false,
            prg_bank_c_isram: false,
            prg_bank_a: 0,
            prg_bank_b: 0,
            prg_bank_c: 0,
            prg_bank_d: 0x7F,
            prg_ram_bank: 0,
            chr_banks: Seq::new(8, |i: int| 0usize),
            chr_ext_banks: Seq::new(8, |i: int| 0usize),
            chr_last_write_ext: false,
            ppu_read_mode: PpuMode::PpuData,
            chr_bank_high_bits: 0,
            irq_scanline_compare: 0,
            irq_enabled: false,
            irq_pending: false,
            in_frame: false,
            current_scanline: 0,
            last_ppu_fetch: 0,
            last_bg_tile_fetch: 0,
            consecutive_nametable_count: 0,
            cpu_cycles_since_last_ppu_read: 0,
            ppu_fetches_this_scanline: 0,
            multiplicand_a: 0xFF,
            multiplicand_b: 0xFF,
            pcm_level: 0,
            pcm_read_mode: false,
            pcm_irq_enable: false,
            pcm_irq_pending: false,
            audio_sequencer_counter: 0,
        }
    }

    // ---- Nametables ----
    /// The two-bit source of the nametable quadrant that `address` falls in:
    /// 0 and 1 the VRAM pages, 2 the extended RAM, 3 the fill pattern.
    pub open spec fn nametable_source(self, address: u16) -> u8 {
        let quadrant: u16 = (address & 0xFFF) / 0x400;
        (self.nametable_mapping >> ((quadrant * 2) as u16)) & 0b11
    }

    /// The offset of `address` within its nametable quadrant.
    pub open spec fn quadrant_offset(address: u16) -> int {
        (address & 0x3FF) as int
    }

    /// The byte of the fill pattern at `address`: the fill tile in the tile
    /// area of a nametable, the fill attribute in its attribute area.
    pub open spec fn fill_byte(self, address: u16) -> u8 {
        if Self::quadrant_offset(address) < 0x3C0 {
            self.fill_tile
        } else {
            self.fill_attr
        }
    }

    /// The byte the extended RAM shows as a nametable: its contents in
    /// extended RAM modes 0 and 1, zero otherwise.
    pub open spec fn extram_nametable_byte(self, address: u16) -> u8 {
        if self.extended_ram_mode <= 1 {
            self.extram[Self::quadrant_offset(address)]
        } else {
            0
        }
    }

    pub open spec fn nametable_read(self, address: u16) -> u8 {
        let source = self.nametable_source(address);
        let offset: int = Self::quadrant_offset(address);
        if source == 0 {
            self.vram[offset]
        } else if source == 1 {
            self.vram[offset + 0x400]
        } else if source == 2 {
            self.extram_nametable_byte(address)
        } else {
            self.fill_byte(address)
        }
    }

    /// Whether a nametable write at `address` lands in memory: in the VRAM
    /// pages always, in the extended RAM only in modes 0 and 1, in the fill
    /// pattern never.
    pub open spec fn nametable_writable(self, address: u16) -> bool {
        let source = self.nametable_source(address);
        source == 0 || source == 1 || (source == 2 && self.extended_ram_mode <= 1)
    }

    pub open spec fn nametable_written(self, address: u16, data: u8) -> Mmc5View {
        let source = self.nametable_source(address);
        let offset: int = Self::quadrant_offset(address);
        Mmc5View {
            vram: if source == 0 {
                self.vram.update(offset, data)
            } else if source == 1 {
                self.vram.update(offset + 0x400, data)
            } else {
                self.vram
            },
            extram: if source == 2 && self.extended_ram_mode <= 1 {
                self.extram.update(offset, data)
            } else {
                self.extram
            },
            ..self
        }
    }

    // ---- PRG ----
    /// Where PRG mode `mode` maps `address`: `(in_ram, bank, bank_size)`,
    /// or `None` where nothing is mapped.
    pub open spec fn prg_source(self, mode: u8, address: u16) -> Option<(bool, int, int)> {
        if 0x6000 <= address <= 0x7FFF && mode <= 3 {
            Some((true, self.prg_ram_bank as int, 0x2000int))
        } else if mode == 0 && 0x8000 <= address {
            Some((false, (self.prg_bank_d >> 2u8) as int, 0x8000int))
        } else if (mode == 1 || mode == 2) && 0x8000 <= address <= 0xBFFF {
            Some((self.prg_bank_b_isram, (self.prg_bank_b >> 1u8) as int, 0x4000int))
        } else if mode == 1 && 0xC000 <= address {
            Some((false, (self.prg_bank_d >> 1u8) as int, 0x4000int))
        } else if mode == 3 && 0x8000 <= address <= 0x9FFF {
            Some((self.prg_bank_a_isram, self.prg_bank_a as int, 0x2000int))
        } else if mode == 3 && 0xA000 <= address <= 0xBFFF {
            Some((self.prg_bank_b_isram, self.prg_bank_b as int, 0x2000int))
        } else if (mode == 2 || mode == 3) && 0xC000 <= address <= 0xDFFF {
            Some((self.prg_bank_c_isram, self.prg_bank_c as int, 0x2000int))
        } else if (mode == 2 || mode == 3) && 0xE000 <= address {
            Some((false, self.prg_bank_d as int, 0x2000int))
        } else {
            None
        }
    }

    /// The byte that a banked PRG source shows at `address`.
    pub open spec fn prg_source_byte(self, in_ram: bool, bank: int, bank_size: int, address: u16) -> u8 {
        let store = if in_ram {
            self.prg_ram
        } else {
            self.prg_rom
        };
        store[banked_index(store.len() as int, bank_size, bank, address as int)]
    }

    /// What PRG mode `mode` reads at `address`; 0 where nothing is mapped.
    pub open spec fn prg_read_in_mode(self, mode: u8, address: u16) -> u8 {
        match self.prg_source(mode, address) {
            Some((in_ram, bank, bank_size)) => self.prg_source_byte(
                in_ram,
                bank,
                bank_size,
                address,
            ),
            None => 0,
        }
    }

    pub open spec fn prg_read(self, address: u16) -> u8 {
        self.prg_read_in_mode(self.prg_mode, address)
    }

    /// A PRG read in mode `mode` at `address` does not fault: when it reads
    /// the ROM, the ROM is not empty.
    pub open spec fn prg_readable_in_mode(self, mode: u8, address: u16) -> bool {
        match self.prg_source(mode, address) {
            Some((in_ram, _, _)) => in_ram || self.prg_rom.len() > 0,
            None => true,
        }
    }

    pub open spec fn prg_readable(self, address: u16) -> bool {
        self.prg_readable_in_mode(self.prg_mode, address)
    }

    /// A PRG write in mode `mode` stores `data` where a read of the same
    /// address finds it, when that is PRG RAM; writes to ROM windows and to
    /// unmapped addresses are ignored.
    pub open spec fn prg_written_in_mode(self, mode: u8, address: u16, data: u8) -> Mmc5View {
        match self.prg_source(mode, address) {
            Some((in_ram, bank, bank_size)) => if in_ram {
                Mmc5View {
                    prg_ram: self.prg_ram.update(
                        banked_index(self.prg_ram.len() as int, bank_size, bank, address as int),
                        data,
                    ),
                    ..self
                }
            } else {
                self
            },
            None => self,
        }
    }

    pub open spec fn prg_written(self, address: u16, data: u8) -> Mmc5View {
        self.prg_written_in_mode(self.prg_mode, address, data)
    }

    // ---- CHR ----
    /// The background uses the extended CHR bank set: while 8x16 sprites are
    /// on, when the PPU fetches backgrounds, or when it is idle and the last
    /// CHR bank write went to the extended set.
    pub open spec fn uses_ext_chr_banks(self) -> bool {
        &&& (self.ppuctrl_monitor & 0b0010_0000) != 0
        &&& (self.ppu_read_mode == PpuMode::Backgrounds || (self.ppu_read_mode
            == PpuMode::PpuData && self.chr_last_write_ext))
    }

    /// The CHR bank number that `address` reads from through the bank
    /// registers.
    pub open spec fn chr_bank_for(self, address: u16) -> int {
        let index: int = chr_register_index(self.chr_mode, address);
        if self.uses_ext_chr_banks() {
            self.chr_ext_banks[index % 4] as int
        } else {
            self.chr_banks[index] as int
        }
    }

    pub open spec fn banked_chr_read(self, address: u16) -> u8 {
        if self.chr_mode > 3 {
            0
        } else {
            self.chr_rom[banked_index(
                self.chr_rom.len() as int,
                chr_bank_size(self.chr_mode),
                self.chr_bank_for(address),
                address as int,
            )]
        }
    }

    /// A banked CHR read does not fault: the CHR memory is not empty and the
    /// address selects one of the eight bank registers.
    pub open spec fn banked_chr_readable(self, address: u16) -> bool {
        self.chr_mode > 3 || (self.chr_rom.len() > 0 && (self.uses_ext_chr_banks() || address
            < 0x2000))
    }

    /// The extended RAM byte of the background tile fetched last.
    pub open spec fn exram_tile_byte(self) -> u8 {
        self.extram[(self.last_bg_tile_fetch & 0x3FF) as int]
    }

    /// The 4K CHR bank of an extended-RAM tile: the CHR high bits above the
    /// low six bits of the tile's extended RAM byte.
    pub open spec fn extended_chr_bank(self) -> usize {
        (self.chr_bank_high_bits << 6usize) | ((self.exram_tile_byte() as usize) & 0b0011_1111)
    }

    pub open spec fn extended_chr_read(self, address: u16) -> u8 {
        self.chr_rom[banked_index(
            self.chr_rom.len() as int,
            4096,
            self.extended_chr_bank() as int,
            address as int,
        )]
    }

    /// The attribute byte of an extended-RAM tile: the palette in the top two
    /// bits of the tile's extended RAM byte, repeated in all four fields.
    pub open spec fn extended_attribute(self) -> u8 {
        ((self.exram_tile_byte() / 64) * 0x55) as u8
    }

    pub open spec fn is_extended_attribute(self) -> bool {
        &&& self.ppu_read_mode == PpuMode::Backgrounds
        &&& self.extended_ram_mode == 1
        &&& self.ppu_fetches_this_scanline % 4 == 0
    }

    pub open spec fn is_extended_pattern(self) -> bool {
        &&& self.ppu_read_mode == PpuMode::Backgrounds
        &&& self.extended_ram_mode == 1
        &&& (self.ppu_fetches_this_scanline % 4 == 1 || self.ppu_fetches_this_scanline % 4 == 2)
    }

    /// What the mapper answers to a PPU read (without the read's side
    /// effects).
    pub open spec fn ppu_read(self, address: u16) -> Option<u8> {
        if address <= 0x1FFF {
            Some(
                if self.is_extended_pattern() {
                    self.extended_chr_read(address)
                } else {
                    self.banked_chr_read(address)
                },
            )
        } else if address <= 0x3FFF {
            Some(
                if self.is_extended_attribute() {
                    self.extended_attribute()
                } else {
                    self.nametable_read(address)
                },
            )
        } else {
            None
        }
    }

    pub open spec fn ppu_readable(self, address: u16) -> bool {
        address <= 0x1FFF ==> if self.is_extended_pattern() {
            self.chr_rom.len() > 0
        } else {
            self.banked_chr_readable(address)
        }
    }

    // ---- Scanline detection ----
    /// The state after the mapper has seen the start of a scanline: the
    /// first one starts the frame, each later one counts up and raises the
    /// IRQ when the count reaches the compare value, and line 241 ends the
    /// frame.
    pub open spec fn scanline_detected(self) -> Mmc5View {
        let line: u8 = if self.in_frame {
            (self.current_scanline + 1) as u8
        } else {
            0
        };
        let frame_over = line == 241;
        Mmc5View {
            ppu_fetches_this_scanline: 0,
            ppu_read_mode: if frame_over {
                PpuMode::PpuData
            } else {
                PpuMode::Backgrounds
            },
            in_frame: !frame_over,
            current_scanline: if frame_over {
                0
            } else {
                line
            },
            irq_pending: if frame_over || !self.in_frame {
                false
            } else {
                line == self.irq_scanline_compare || self.irq_pending
            },
            ..self
        }
    }

    /// A PPU fetch of `address` can be counted: the fetch counter and, when
    /// it goes up, the repeated-nametable counter have room.
    pub open spec fn ppu_snoop_ok(self, address: u16) -> bool {
        &&& self.ppu_fetches_this_scanline < 0xFFFF
        &&& (address == self.last_ppu_fetch && 0x2000 <= address <= 0x2FFF)
            ==> self.consecutive_nametable_count < 0xFF
    }

    /// The first part of watching a PPU fetch: the fetch is counted, and
    /// the count tells sprite fetches (from fetch 127) from background
    /// fetches (from fetch 159, the next line's first tiles) during a frame.
    pub open spec fn ppu_fetch_counted(self) -> Mmc5View {
        let fetches: u16 = (self.ppu_fetches_this_scanline + 1) as u16;
        Mmc5View {
            cpu_cycles_since_last_ppu_read: 0,
            ppu_fetches_this_scanline: fetches,
            ppu_read_mode: if self.in_frame && fetches >= 159 {
                PpuMode::Backgrounds
            } else if self.in_frame && fetches >= 127 {
                PpuMode::Sprites
            } else {
                self.ppu_read_mode
            },
            ..self
        }
    }

    /// The last part of watching a PPU fetch of `address`: repeated fetches
    /// of one nametable address are counted, and the address of a tile's
    /// nametable fetch is kept for the extended attributes.
    pub open spec fn nametable_fetch_tracked(self, address: u16) -> Mmc5View {
        Mmc5View {
            consecutive_nametable_count: if address == self.last_ppu_fetch && 0x2000 <= address
                <= 0x2FFF {
                (self.consecutive_nametable_count + 1) as u8
            } else {
                0
            },
            last_bg_tile_fetch: if fetch_phase(self.ppu_fetches_this_scanline) == 0 {
                self.last_ppu_fetch
            } else {
                self.last_bg_tile_fetch
            },
            last_ppu_fetch: address,
            ..self
        }
    }

    /// The state after the mapper has watched the PPU fetch `address`; the
    /// third fetch of one nametable address in a row starts a scanline.
    pub open spec fn ppu_snooped(self, address: u16) -> Mmc5View {
        let counted = self.ppu_fetch_counted();
        let detected = if counted.consecutive_nametable_count == 2 {
            counted.scanline_detected()
        } else {
            counted
        };
        detected.nametable_fetch_tracked(address)
    }

    // ---- CPU side ----
    /// The state after the mapper has watched the CPU read `address`: the
    /// PPU counts as idle after four CPU reads without a PPU fetch, reading
    /// the NMI vector ends the frame, a read in `$8000-$BFFF` loads a PCM
    /// sample in PCM read mode, and reading a status register acknowledges
    /// its IRQ.
    pub open spec fn cpu_snooped(self, address: u16) -> Mmc5View {
        let watched = self.cpu_read_watched(address);
        Mmc5View {
            pcm_level: if self.pcm_read_mode && 0x8000 <= address <= 0xBFFF {
                self.prg_read(address)
            } else {
                self.pcm_level
            },
            pcm_irq_pending: if address == 0x5010 {
                false
            } else {
                self.pcm_irq_pending
            },
            irq_pending: if address == 0x5204 {
                false
            } else {
                watched.irq_pending
            },
            ..watched
        }
    }

    /// The first part of watching a CPU read: the count of CPU reads since
    /// the last PPU fetch, and the end of the frame that four of them, or a
    /// read of the NMI vector, mark.
    pub open spec fn cpu_read_watched(self, address: u16) -> Mmc5View {
        let cycles: u8 = if self.cpu_cycles_since_last_ppu_read < 255 {
            (self.cpu_cycles_since_last_ppu_read + 1) as u8
        } else {
            self.cpu_cycles_since_last_ppu_read
        };
        let vector_read = address == 0xFFFA || address == 0xFFFB;
        let frame_over = cycles == 4 || vector_read;
        Mmc5View {
            cpu_cycles_since_last_ppu_read: cycles,
            in_frame: if frame_over {
                false
            } else {
                self.in_frame
            },
            ppu_read_mode: if frame_over {
                PpuMode::PpuData
            } else {
                self.ppu_read_mode
            },
            irq_pending: if vector_read {
                false
            } else {
                self.irq_pending
            },
            current_scanline: if vector_read {
                0
            } else {
                self.current_scanline
            },
            ..self
        }
    }

    /// What the mapper answers to a CPU read of `address` (without the
    /// read's side effects), given the length counters of its two pulse
    /// channels.
    pub open spec fn cpu_read(self, address: u16, pulse_1_length: u8, pulse_2_length: u8) -> Option<u8> {
        if address == 0x5010 {
            Some(
                ((if self.pcm_read_mode {
                    1int
                } else {
                    0
                }) + (if self.pcm_irq_pending {
                    0x80int
                } else {
                    0
                })) as u8,
            )
        } else if address == 0x5015 {
            Some(
                ((if pulse_1_length > 0 {
                    1int
                } else {
                    0
                }) + (if pulse_2_length > 0 {
                    2int
                } else {
                    0
                })) as u8,
            )
        } else if address == 0x5204 {
            Some(
                ((if self.irq_pending {
                    0x80int
                } else {
                    0
                }) + (if self.in_frame {
                    0x40int
                } else {
                    0
                })) as u8,
            )
        } else if 0x5C00 <= address <= 0x5FFF {
            if 2 <= self.extended_ram_mode <= 3 {
                Some(self.extram[address - 0x5C00])
            } else {
                None
            }
        } else if address == 0x5205 {
            Some(((self.multiplicand_a as int * self.multiplicand_b as int) % 256) as u8)
        } else if address == 0x5206 {
            Some(((self.multiplicand_a as int * self.multiplicand_b as int) / 256) as u8)
        } else if 0x6000 <= address {
            Some(self.prg_read(address))
        } else {
            None
        }
    }

    /// The state after a CPU write of `data` to `address` (the pulse
    /// channels' registers aside, which `audio_write` decodes).
    pub open spec fn cpu_written(self, address: u16, data: u8) -> Mmc5View {
        if address == 0x2000 || address == 0x2001 {
            self.ppu_monitor_written(address, data)
        } else if address == 0x5010 || address == 0x5011 {
            self.pcm_register_written(address, data)
        } else if 0x5100 <= address <= 0x5107 {
            self.mode_register_written(address, data)
        } else if 0x5113 <= address <= 0x5117 {
            self.prg_bank_register_written(address, data)
        } else if 0x5C00 <= address <= 0x5FFF {
            self.extram_cpu_written(address, data)
        } else if 0x5120 <= address <= 0x5130 {
            self.chr_bank_register_written(address, data)
        } else if 0x5203 <= address <= 0x5206 {
            self.irq_multiplier_register_written(address, data)
        } else if 0x6000 <= address {
            self.prg_written(address, data)
        } else {
            self
        }
    }

    /// `$2000`/`$2001`: copies of PPUCTRL and PPUMASK.
    pub open spec fn ppu_monitor_written(self, address: u16, data: u8) -> Mmc5View {
        if address == 0x2000 {
            Mmc5View { ppuctrl_monitor: data, ..self }
        } else {
            Mmc5View { ppumask_monitor: data, ..self }
        }
    }

    /// `$5010`: PCM read mode and IRQ enable; `$5011`: the PCM level, unless
    /// the PCM channel is in read mode.
    pub open spec fn pcm_register_written(self, address: u16, data: u8) -> Mmc5View {
        if address == 0x5010 {
            Mmc5View {
                pcm_read_mode: (data & 0b0000_0001) != 0,
                pcm_irq_enable: (data & 0b1000_0000) != 0,
                ..self
            }
        } else if !self.pcm_read_mode {
            Mmc5View { pcm_level: data, ..self }
        } else {
            self
        }
    }

    /// `$5100-$5107`: PRG and CHR modes, PRG RAM protection, extended RAM
    /// mode, nametable mapping, fill tile and fill color.
    pub open spec fn mode_register_written(self, address: u16, data: u8) -> Mmc5View {
        if address == 0x5100 {
            Mmc5View { prg_mode: data & 0b0000_0011, ..self }
        } else if address == 0x5101 {
            Mmc5View { chr_mode: data & 0b0000_0011, ..self }
        } else if address == 0x5102 {
            Mmc5View { prg_ram_magic_low: data & 0b0000_0011, ..self }
        } else if address == 0x5103 {
            Mmc5View { prg_ram_magic_high: data & 0b0000_0011, ..self }
        } else if address == 0x5104 {
            Mmc5View { extended_ram_mode: data & 0b0000_0011, ..self }
        } else if address == 0x5105 {
            Mmc5View { nametable_mapping: data, ..self }
        } else if address == 0x5106 {
            Mmc5View { fill_tile: data, ..self }
        } else {
            Mmc5View { fill_attr: ((data % 4) * 0x55) as u8, ..self }
        }
    }

    /// `$5113-$5117`: the PRG bank registers; bit 7 clear selects RAM.
    pub open spec fn prg_bank_register_written(self, address: u16, data: u8) -> Mmc5View {
        let bank = data & 0b0111_1111;
        let is_ram = (data & 0b1000_0000) == 0;
        Mmc5View {
            prg_ram_bank: if address == 0x5113 {
                bank
            } else {
                self.prg_ram_bank
            },
            prg_bank_a: if address == 0x5114 {
                bank
            } else {
                self.prg_bank_a
            },
            prg_bank_a_isram: if address == 0x5114 {
                is_ram
            } else {
                self.prg_bank_a_isram
            },
            prg_bank_b: if address == 0x5115 {
                bank
            } else {
                self.prg_bank_b
            },
            prg_bank_b_isram: if address == 0x5115 {
                is_ram
            } else {
                self.prg_bank_b_isram
            },
            prg_bank_c: if address == 0x5116 {
                bank
            } else {
                self.prg_bank_c
            },
            prg_bank_c_isram: if address == 0x5116 {
                is_ram
            } else {
                self.prg_bank_c_isram
            },
            prg_bank_d: if address == 0x5117 {
                bank
            } else {
                self.prg_bank_d
            },
            ..self
        }
    }

    /// `$5C00-$5FFF`: the extended RAM. In modes 0 and 1 (nametable or
    /// extended attributes) it takes writes only while the PPU renders, and
    /// 0 otherwise; in mode 2 it is plain RAM; in mode 3 it is read-only.
    pub open spec fn extram_cpu_written(self, address: u16, data: u8) -> Mmc5View {
        if self.extended_ram_mode <= 2 {
            Mmc5View {
                extram: self.extram.update(
                    address - 0x5C00,
                    if self.extended_ram_mode == 2 || self.in_frame {
                        data
                    } else {
                        0
                    },
                ),
                ..self
            }
        } else {
            self
        }
    }

    /// `$5120-$5127`: the CHR bank registers; `$5128-$512B`: the extended
    /// CHR bank registers (both plus the CHR high bits); `$5130`: the CHR
    /// high bits.
    pub open spec fn chr_bank_register_written(self, address: u16, data: u8) -> Mmc5View {
        if address <= 0x5127 {
            Mmc5View {
                chr_banks: self.chr_banks.update(
                    address - 0x5120,
                    (data + self.chr_bank_high_bits) as usize,
                ),
                chr_last_write_ext: false,
                ..self
            }
        } else if address <= 0x512B {
            Mmc5View {
                chr_ext_banks: self.chr_ext_banks.update(
                    address - 0x5128,
                    (data + self.chr_bank_high_bits) as usize,
                ),
                chr_last_write_ext: true,
                ..self
            }
        } else if address == 0x5130 {
            Mmc5View { chr_bank_high_bits: ((data % 4) * 0x100) as usize, ..self }
        } else {
            self
        }
    }

    /// `$5203`: the IRQ scanline; `$5204`: IRQ enable; `$5205`/`$5206`: the
    /// multiplier's operands.
    pub open spec fn irq_multiplier_register_written(self, address: u16, data: u8) -> Mmc5View {
        if address == 0x5203 {
            Mmc5View { irq_scanline_compare: data, ..self }
        } else if address == 0x5204 {
            Mmc5View { irq_enabled: (data & 0b1000_0000) != 0, ..self }
        } else if address == 0x5205 {
            Mmc5View { multiplicand_a: data, ..self }
        } else {
            Mmc5View { multiplicand_b: data, ..self }
        }
    }

    /// The state after one CPU clock: the audio sequencer counts up and
    /// wraps to 0 at the end of its period.
    pub open spec fn cpu_clocked(self) -> Mmc5View {
        let count: int = self.audio_sequencer_counter + 1;
        Mmc5View {
            audio_sequencer_counter: if count >= AUDIO_FRAME_PERIOD {
                0
            } else {
                count as u16
            },
            ..self
        }
    }
}

/// The banked index lies inside the memory, and the bank it starts in ends
/// inside the memory too.
pub proof fn lemma_banked_index_in_bounds(len: int, bank_size: int, bank: int, raw: int)
    requires
        len > 0,
        bank_size > 0,
        bank >= 0,
        raw >= 0,
    ensures
        0 <= banked_index(len, bank_size, bank, raw) < len,
{
    let total_banks: int = if len / bank_size > 1 {
        len / bank_size
    } else {
        1
    };
    let window: int = if bank_size < len {
        bank_size
    } else {
        len
    };
    let selected: int = bank % total_banks;
    assert(0 <= selected < total_banks);
    assert(0 <= raw % window < window);
    assert(banked_index(len, bank_size, bank, raw) == bank_size * selected + raw % window);
    if len / bank_size > 1 {
        assert(bank_size * selected + bank_size <= len) by (nonlinear_arith)
            requires
                0 <= selected < total_banks,
                total_banks == len / bank_size,
                bank_size > 0,
                len > 0,
        {
            assert(bank_size * (len / bank_size) <= len);
            assert(bank_size * selected <= bank_size * (total_banks - 1));
        }
        assert(window == bank_size);
        assert(bank_size * selected + raw % window < len);
    } else {
        assert(selected == 0);
        assert(bank_size * selected == 0) by (nonlinear_arith)
            requires
                selected == 0,
        ;
        assert(raw % window < len);
    }
    assert(0 <= bank_size * selected) by (nonlinear_arith)
        requires
            bank_size > 0,
            selected >= 0,
    ;
}

/// Picks the byte of a banked memory that an address reads: see
/// `banked_index`.
pub fn banked_memory_index(
    data_store_length: usize,
    bank_size: usize,
    bank_number: usize,
    raw_address: usize,
) -> (index: usize)
    requires
        data_store_length > 0,
        bank_size > 0,
    ensures
        index == banked_index(
            data_store_length as int,
            bank_size as int,
            bank_number as int,
            raw_address as int,
        ),
        index < data_store_length,
{
    proof {
        lemma_banked_index_in_bounds(
            data_store_length as int,
            bank_size as int,
            bank_number as int,
            raw_address as int,
        );
    }
    let whole_banks: usize = data_store_length / bank_size;
    let total_banks: usize = if whole_banks > 1 {
        whole_banks
    } else {
        1
    };
    let selected_bank: usize = bank_number % total_banks;
    let window: usize = if bank_size < data_store_length {
        bank_size
    } else {
        data_store_length
    };
    let offset_within_bank: usize = raw_address % window;
    assert(bank_size * selected_bank <= data_store_length) by (nonlinear_arith)
        requires
            bank_size * selected_bank + offset_within_bank < data_store_length,
            offset_within_bank >= 0,
    ;
    let bank_start_offset: usize = bank_size * selected_bank;
    bank_start_offset + offset_within_bank
}

/// A period with its low byte replaced by `low`.
pub fn period_with_low_byte(period: u16, low: u8) -> (result: u16)
    ensures
        result % 256 == low,
        result / 256 == period / 256,
{
    let result: u16 = (period & 0xFF00) | (low as u16);
    assert(result % 256 == low && result / 256 == period / 256) by (bit_vector)
        requires
            result == (period & 0xFF00) | (low as u16),
    ;
    result
}

/// A period with its high bits (above the low byte) replaced by `high`.
pub fn period_with_high_bits(period: u16, high: u8) -> (result: u16)
    requires
        high <= 0b111,
    ensures
        result % 256 == period % 256,
        result / 256 == high,
{
    let result: u16 = (period & 0x00FF) | ((high as u16) << 8u16);
    assert(result % 256 == period % 256 && result / 256 == high) by (bit_vector)
        requires
            result == (period & 0x00FF) | ((high as u16) << 8u16),
            high <= 7,
    ;
    result
}

fn zeroed_bytes(n: usize) -> (v: Vec<u8>)
    ensures
        v@ == Seq::new(n as nat, |i: int| 0u8),
{
    let mut v: Vec<u8> = Vec::new();
    let mut i: usize = 0;
    while i < n
        invariant
            i <= n,
            v@ == Seq::new(i as nat, |j: int| 0u8),
        decreases n - i,
    {
        v.push(0u8);
        i = i + 1;
        assert(v@ =~= Seq::new(i as nat, |j: int| 0u8));
    }
    v
}

fn zeroed_banks(n: usize) -> (v: Vec<usize>)
    ensures
        v@ == Seq::new(n as nat, |i: int| 0usize),
{
    let mut v: Vec<usize> = Vec::new();
    let mut i: usize = 0;
    while i < n
        invariant
            i <= n,
            v@ == Seq::new(i as nat, |j: int| 0usize),
        decreases n - i,
    {
        v.push(0usize);
        i = i + 1;
        assert(v@ =~= Seq::new(i as nat, |j: int| 0usize));
    }
    v
}

proof fn lemma_nametable_masks(address: u16)
    ensures
        (address & 0x3FF) < 0x400,
        (address & 0xFFF) / 0x400 <= 3,
        ((address & 0xFFF) & 0x3FF) == (address & 0x3FF),
        ((address & 0xFFF) & 0xFFF) == (address & 0xFFF),
{
    assert((address & 0x3FF) < 0x400) by (bit_vector);
    assert((address & 0xFFF) / 0x400 <= 3) by (bit_vector);
    assert(((address & 0xFFF) & 0x3FF) == (address & 0x3FF)) by (bit_vector);
    assert(((address & 0xFFF) & 0xFFF) == (address & 0xFFF)) by (bit_vector);
}

impl Mmc5 {
    /// A mapper at power-on. A cartridge with CHR RAM gets 8K of it, cleared;
    /// otherwise the CHR ROM is `chr`. PRG RAM is 64K, cleared. The mapper
    /// keeps the header's nametable mirroring.
    pub fn new(has_chr_ram: bool, mirroring: Mirroring, chr: &[u8], prg: &[u8]) -> (mapper: Mmc5)
        ensures
            mapper@ == Mmc5View::power_on(has_chr_ram, mirroring, chr@, prg@),
            mapper@.wf(),
    {
        let chr_rom = if has_chr_ram {
            zeroed_bytes(8 * 1024)
        } else {
            vstd::slice::slice_to_vec(chr)
        };
        Mmc5 {
            prg_rom: vstd::slice::slice_to_vec(prg),
            prg_ram: zeroed_bytes(64 * 1024),
            chr_rom: chr_rom,
            mirroring: mirroring,
            ppuctrl_monitor: 0,
            ppumask_monitor: 0,
            prg_mode: 3,  // Koei games require MMC5 to boot into PRG mode 3
            chr_mode: 0,
            prg_ram_magic_low: 0,
            prg_ram_magic_high: 0,
            extended_ram_mode: 0,
            vram: zeroed_bytes(0x1000),
            extram: zeroed_bytes(0x800),
            nametable_mapping: 0,
            fill_tile: 0,
            fill_attr: 0,
            prg_bank_a: 0,
            prg_bank_b: 0,
            prg_bank_c: 0,
            prg_bank_d: 0x7F,  // so that the interrupt vectors are mapped at boot
            prg_ram_bank: 0,
            prg_bank_a_isram: false,
            prg_bank_b_isram: false,
            prg_bank_c_isram: false,
            chr_banks: zeroed_banks(8),
            chr_ext_banks: zeroed_banks(8),
            chr_last_write_ext: false,
            ppu_read_mode: PpuMode::PpuData,
            chr_bank_high_bits: 0,
            irq_scanline_compare: 0,
            irq_enabled: false,
            irq_pending: false,
            in_frame: false,
            current_scanline: 0,
            last_ppu_fetch: 0,
            last_bg_tile_fetch: 0,
            consecutive_nametable_count: 0,
            cpu_cycles_since_last_ppu_read: 0,
            ppu_fetches_this_scanline: 0,
            multiplicand_a: 0xFF,
            multiplicand_b: 0xFF,
            pcm_level: 0,
            pcm_read_mode: false,
            pcm_irq_enable: false,
            pcm_irq_pending: false,
            audio_sequencer_counter: 0,
        }
    }

    /// 8x16 sprites are on (PPUCTRL bit 5) and rendering is on (PPUMASK
    /// bits 3 and 4).
    pub fn large_sprites_active(&self) -> (active: bool)
        ensures
            active == ((self.ppuctrl_monitor & 0b0010_0000) != 0 && (self.ppumask_monitor
                & 0b0001_1000) != 0),
    {
        ((self.ppuctrl_monitor & 0b0010_0000) != 0) && ((self.ppumask_monitor & 0b0001_1000) != 0)
    }

    /// The two PRG RAM protect registers hold the unlocking values.
    pub fn prg_ram_write_enabled(&self) -> (enabled: bool)
        ensures
            enabled == (self.prg_ram_magic_low == 0b10 && self.prg_ram_magic_high == 0b01),
    {
        (self.prg_ram_magic_low == 0b10) && (self.prg_ram_magic_high == 0b01)
    }

    /// The first VRAM page, at the offset of `address` within its quadrant.
    pub fn nametable_vram_low(&self, address: u16) -> (byte: u8)
        requires
            self@.wf(),
        ensures
            byte == self@.vram[Mmc5View::quadrant_offset(address)],
    {
        proof {
            lemma_nametable_masks(address);
        }
        let masked_address: u16 = address & 0x3FF;
        self.vram[masked_address as usize]
    }

    /// The second VRAM page, at the offset of `address` within its quadrant.
    pub fn nametable_vram_high(&self, address: u16) -> (byte: u8)
        requires
            self@.wf(),
        ensures
            byte == self@.vram[Mmc5View::quadrant_offset(address) + 0x400],
    {
        proof {
            lemma_nametable_masks(address);
        }
        let masked_address: u16 = address & 0x3FF;
        self.vram[masked_address as usize + 0x400]
    }

    /// The extended RAM as a nametable.
    pub fn nametable_ext1(&self, address: u16) -> (byte: u8)
        requires
            self@.wf(),
        ensures
            byte == self@.extram_nametable_byte(address),
    {
        proof {
            lemma_nametable_masks(address);
        }
        if self.extended_ram_mode == 0 || self.extended_ram_mode == 1 {
            let masked_address: u16 = address & 0x3FF;
            self.extram[masked_address as usize]
        } else {
            0
        }
    }

    /// The fill pattern as a nametable.
    pub fn nametable_fixed(&self, address: u16) -> (byte: u8)
        ensures
            byte == self@.fill_byte(address),
    {
        let masked_address: u16 = address & 0x3FF;
        if masked_address < 0x3C0 {
            self.fill_tile
        } else {
            self.fill_attr
        }
    }

    /// A nametable read through the quadrant mapping.
    pub fn read_nametable(&self, address: u16) -> (byte: u8)
        requires
            self@.wf(),
        ensures
            byte == self@.nametable_read(address),
    {
        proof {
            lemma_nametable_masks(address);
        }
        let masked_address: u16 = address & 0xFFF;
        let quadrant: u16 = masked_address / 0x400;
        let nametable_select: u8 = (self.nametable_mapping >> (quadrant * 2)) & 0b11;
        match nametable_select {
            0 => self.nametable_vram_low(masked_address),
            1 => self.nametable_vram_high(masked_address),
            2 => self.nametable_ext1(masked_address),
            _ => self.nametable_fixed(masked_address),
        }
    }

    /// A nametable write through the quadrant mapping.
    #[verifier::spinoff_prover]
    #[verifier::rlimit(40)]
    pub fn write_nametable(&mut self, address: u16, data: u8)
        requires
            old(self)@.wf(),
        ensures
            final(self)@ == old(self)@.nametable_written(address, data),
            final(self)@.wf(),
    {
        proof {
            lemma_nametable_masks(address);
        }
        let address_within_nametables: u16 = address & 0xFFF;
        let address_within_quadrant: u16 = address & 0x3FF;
        let quadrant: u16 = address_within_nametables / 0x400;
        let nametable_select: u8 = (self.nametable_mapping >> (quadrant * 2)) & 0b11;
        match nametable_select {
            0 => {
                self.vram.set(address_within_quadrant as usize, data);
            },
            1 => {
                self.vram.set(address_within_quadrant as usize + 0x400, data);
            },
            2 => {
                if self.extended_ram_mode == 0 || self.extended_ram_mode == 1 {
                    self.extram.set(address_within_quadrant as usize, data);
                }
            },
            _ => {},
        }
    }

    /// The byte of a banked PRG memory (RAM or ROM) at `address`.
    fn read_prg_store(&self, in_ram: bool, bank_number: u8, bank_size: usize, address: u16) -> (byte: u8)
        requires
            self@.wf(),
            bank_size > 0,
            in_ram || self.prg_rom@.len() > 0,
        ensures
            byte == self@.prg_source_byte(in_ram, bank_number as int, bank_size as int, address),
    {
        if in_ram {
            let offset: usize = banked_memory_index(
                self.prg_ram.len(),
                bank_size,
                bank_number as usize,
                address as usize,
            );
            self.prg_ram[offset]
        } else {
            let offset: usize = banked_memory_index(
                self.prg_rom.len(),
                bank_size,
                bank_number as usize,
                address as usize,
            );
            self.prg_rom[offset]
        }
    }

    /// PRG mode 0: one 32K ROM bank at `$8000`.
    pub fn read_prg_mode_0(&self, address: u16) -> (byte: u8)
        requires
            self@.wf(),
            self@.prg_readable_in_mode(0, address),
        ensures
            byte == self@.prg_read_in_mode(0, address),
    {
        match address {
            0x6000..=0x7FFF => self.read_prg_store(true, self.prg_ram_bank, 8 * 1024, address),
            0x8000..=0xFFFF => self.read_prg_store(false, self.prg_bank_d >> 2, 32 * 1024, address),
            _ => 0,
        }
    }

    /// PRG mode 1: a 16K bank at `$8000` (RAM or ROM) and a 16K ROM bank at
    /// `$C000`.
    pub fn read_prg_mode_1(&self, address: u16) -> (byte: u8)
        requires
            self@.wf(),
            self@.prg_readable_in_mode(1, address),
        ensures
            byte == self@.prg_read_in_mode(1, address),
    {
        match address {
            0x6000..=0x7FFF => self.read_prg_store(true, self.prg_ram_bank, 8 * 1024, address),
            0x8000..=0xBFFF => self.read_prg_store(
                self.prg_bank_b_isram,
                self.prg_bank_b >> 1,
                16 * 1024,
                address,
            ),
            0xC000..=0xFFFF => self.read_prg_store(false, self.prg_bank_d >> 1, 16 * 1024, address),
            _ => 0,
        }
    }

    /// PRG mode 2: a 16K bank at `$8000` and an 8K bank at `$C000` (each RAM
    /// or ROM), and an 8K ROM bank at `$E000`.
    pub fn read_prg_mode_2(&self, address: u16) -> (byte: u8)
        requires
            self@.wf(),
            self@.prg_readable_in_mode(2, address),
        ensures
            byte == self@.prg_read_in_mode(2, address),
    {
        match address {
            0x6000..=0x7FFF => self.read_prg_store(true, self.prg_ram_bank, 8 * 1024, address),
            0x8000..=0xBFFF => self.read_prg_store(
                self.prg_bank_b_isram,
                self.prg_bank_b >> 1,
                16 * 1024,
                address,
            ),
            0xC000..=0xDFFF => self.read_prg_store(
                self.prg_bank_c_isram,
                self.prg_bank_c,
                8 * 1024,
                address,
            ),
            0xE000..=0xFFFF => self.read_prg_store(false, self.prg_bank_d, 8 * 1024, address),
            _ => 0,
        }
    }

    /// PRG mode 3: three 8K banks at `$8000`, `$A000` and `$C000` (each RAM
    /// or ROM), and an 8K ROM bank at `$E000`.
    pub fn read_prg_mode_3(&self, address: u16) -> (byte: u8)
        requires
            self@.wf(),
            self@.prg_readable_in_mode(3, address),
        ensures
            byte == self@.prg_read_in_mode(3, address),
    {
        match address {
            0x6000..=0x7FFF => self.read_prg_store(true, self.prg_ram_bank, 8 * 1024, address),
            0x8000..=0x9FFF => self.read_prg_store(
                self.prg_bank_a_isram,
                self.prg_bank_a,
                8 * 1024,
                address,
            ),
            0xA000..=0xBFFF => self.read_prg_store(
                self.prg_bank_b_isram,
                self.prg_bank_b,
                8 * 1024,
                address,
            ),
            0xC000..=0xDFFF => self.read_prg_store(
                self.prg_bank_c_isram,
                self.prg_bank_c,
                8 * 1024,
                address,
            ),
            0xE000..=0xFFFF => self.read_prg_store(false, self.prg_bank_d, 8 * 1024, address),
            _ => 0,
        }
    }

    /// A PRG read in the current PRG mode.
    pub fn read_prg(&self, address: u16) -> (byte: u8)
        requires
            self@.wf(),
            self@.prg_readable(address),
        ensures
            byte == self@.prg_read(address),
    {
        match self.prg_mode {
            0 => self.read_prg_mode_0(address),
            1 => self.read_prg_mode_1(address),
            2 => self.read_prg_mode_2(address),
            3 => self.read_prg_mode_3(address),
            _ => 0,
        }
    }

    /// Stores `data` in a PRG RAM bank.
    #[verifier::spinoff_prover]
    fn write_prg_ram(&mut self, bank_number: u8, bank_size: usize, address: u16, data: u8)
        requires
            old(self)@.wf(),
            bank_size > 0,
        ensures
            final(self)@ == (Mmc5View {
                prg_ram: old(self)@.prg_ram.update(
                    banked_index(
                        old(self)@.prg_ram.len() as int,
                        bank_size as int,
                        bank_number as int,
                        address as int,
                    ),
                    data,
                ),
                ..old(self)@
            }),
    {
        let offset: usize = banked_memory_index(
            self.prg_ram.len(),
            bank_size,
            bank_number as usize,
            address as usize,
        );
        self.prg_ram.set(offset, data);
    }

    /// PRG mode 0 writes: only the RAM window at `$6000`.
    #[verifier::spinoff_prover]
    pub fn write_prg_mode_0(&mut self, address: u16, data: u8)
        requires
            old(self)@.wf(),
        ensures
            final(self)@ == old(self)@.prg_written_in_mode(0, address, data),
    {
        match address {
            0x6000..=0x7FFF => self.write_prg_ram(self.prg_ram_bank, 8 * 1024, address, data),
            _ => {},
        }
    }

    /// PRG mode 1 writes: the RAM window, and the `$8000` bank when it is RAM.
    #[verifier::spinoff_prover]
    pub fn write_prg_mode_1(&mut self, address: u16, data: u8)
        requires
            old(self)@.wf(),
        ensures
            final(self)@ == old(self)@.prg_written_in_mode(1, address, data),
    {
        match address {
            0x6000..=0x7FFF => self.write_prg_ram(self.prg_ram_bank, 8 * 1024, address, data),
            0x8000..=0xBFFF => {
                if self.prg_bank_b_isram {
                    self.write_prg_ram(self.prg_bank_b >> 1, 16 * 1024, address, data);
                }
            },
            _ => {},
        }
    }

    /// PRG mode 2 writes: the RAM window, and the `$8000` and `$C000` banks
    /// when they are RAM.
    #[verifier::spinoff_prover]
    pub fn write_prg_mode_2(&mut self, address: u16, data: u8)
        requires
            old(self)@.wf(),
        ensures
            final(self)@ == old(self)@.prg_written_in_mode(2, address, data),
    {
        match address {
            0x6000..=0x7FFF => self.write_prg_ram(self.prg_ram_bank, 8 * 1024, address, data),
            0x8000..=0xBFFF => {
                if self.prg_bank_b_isram {
                    self.write_prg_ram(self.prg_bank_b >> 1, 16 * 1024, address, data);
                }
            },
            0xC000..=0xDFFF => {
                if self.prg_bank_c_isram {
                    self.write_prg_ram(self.prg_bank_c, 8 * 1024, address, data);
                }
            },
            _ => {},
        }
    }

    /// PRG mode 3 writes: the RAM window, and the `$8000`, `$A000` and
    /// `$C000` banks when they are RAM.
    #[verifier::rlimit(40)]
    #[verifier::spinoff_prover]
    pub fn write_prg_mode_3(&mut self, address: u16, data: u8)
        requires
            old(self)@.wf(),
        ensures
            final(self)@ == old(self)@.prg_written_in_mode(3, address, data),
    {
        match address {
            0x6000..=0x7FFF => self.write_prg_ram(self.prg_ram_bank, 8 * 1024, address, data),
            0x8000..=0x9FFF => {
                if self.prg_bank_a_isram {
                    self.write_prg_ram(self.prg_bank_a, 8 * 1024, address, data);
                }
            },
            0xA000..=0xBFFF => {
                if self.prg_bank_b_isram {
                    self.write_prg_ram(self.prg_bank_b, 8 * 1024, address, data);
                }
            },
            0xC000..=0xDFFF => {
                if self.prg_bank_c_isram {
                    self.write_prg_ram(self.prg_bank_c, 8 * 1024, address, data);
                }
            },
            _ => {},
        }
    }

    /// A PRG write in the current PRG mode.
    #[verifier::spinoff_prover]
    pub fn write_prg(&mut self, address: u16, data: u8)
        requires
            old(self)@.wf(),
        ensures
            final(self)@ == old(self)@.prg_written(address, data),
    {
        match self.prg_mode {
            0 => self.write_prg_mode_0(address, data),
            1 => self.write_prg_mode_1(address, data),
            2 => self.write_prg_mode_2(address, data),
            3 => self.write_prg_mode_3(address, data),
            _ => {},
        }
    }
}

/// PRG reads depend only on the PRG memories, mode and bank registers.
pub proof fn lemma_prg_depends_on_prg_state(a: Mmc5View, b: Mmc5View, address: u16)
    requires
        a.prg_rom == b.prg_rom,
        a.prg_ram == b.prg_ram,
        a.prg_mode == b.prg_mode,
        a.prg_bank_a == b.prg_bank_a,
        a.prg_bank_b == b.prg_bank_b,
        a.prg_bank_c == b.prg_bank_c,
        a.prg_bank_d == b.prg_bank_d,
        a.prg_ram_bank == b.prg_ram_bank,
        a.prg_bank_a_isram == b.prg_bank_a_isram,
        a.prg_bank_b_isram == b.prg_bank_b_isram,
        a.prg_bank_c_isram == b.prg_bank_c_isram,
    ensures
        a.prg_read(address) == b.prg_read(address),
        a.prg_readable(address) == b.prg_readable(address),
{
}

/// The CHR bank register arithmetic of `read_banked_chr`, for each CHR mode:
/// the shift gives the registers per bank, the index stays in 16 bits, and
/// it names one of the eight registers for a pattern-table address.
proof fn lemma_chr_register_index(mode: u8, address: u16, size: u16, region: u16)
    requires
        mode <= 3,
        size as int == chr_bank_size(mode),
        region == address / size,
    ensures
        8u16 >> mode == chr_registers_per_bank(mode),
        1 <= (region + 1) * chr_registers_per_bank(mode) <= 64,
        chr_register_index(mode, address) == (region + 1) * chr_registers_per_bank(mode) - 1,
        address < 0x2000 ==> chr_register_index(mode, address) < 8,
{
    assert(mode == 0u8 ==> 8u16 >> mode == 8u16) by (bit_vector);
    assert(mode == 1u8 ==> 8u16 >> mode == 4u16) by (bit_vector);
    assert(mode == 2u8 ==> 8u16 >> mode == 2u16) by (bit_vector);
    assert(mode == 3u8 ==> 8u16 >> mode == 1u16) by (bit_vector);
}

impl Mmc5 {
    /// A pattern-table read through the CHR bank registers. While 8x16
    /// sprites are on, background fetches (and reads while the PPU is idle,
    /// if the extended bank set was written last) use the extended set.
    pub fn read_banked_chr(&self, address: u16) -> (byte: u8)
        requires
            self@.wf(),
            self@.banked_chr_readable(address),
        ensures
            byte == self@.banked_chr_read(address),
    {
        let chr_bank_size: u16 = match self.chr_mode {
            0 => 8192,
            1 => 4096,
            2 => 2048,
            3 => 1024,
            _ => {
                return 0;
            },
        };
        let chr_region: u16 = address / chr_bank_size;
        proof {
            lemma_chr_register_index(self.chr_mode, address, chr_bank_size, chr_region);
        }
        let standard_bank_index: u16 = (chr_region + 1) * (8u16 >> self.chr_mode) - 1;
        let extended_bank_index: u16 = standard_bank_index & 0x3;
        assert(extended_bank_index == standard_bank_index % 4) by (bit_vector)
            requires
                extended_bank_index == standard_bank_index & 0x3,
        ;
        let large_sprites_enabled = (self.ppuctrl_monitor & 0b0010_0000) != 0;
        let currently_reading_backgrounds = self.ppu_read_mode == PpuMode::Backgrounds;
        let ppu_inactive = self.ppu_read_mode == PpuMode::PpuData;
        let wrote_ext_register_last = self.chr_last_write_ext;
        if large_sprites_enabled && (currently_reading_backgrounds || (ppu_inactive
            && wrote_ext_register_last)) {
            let chr_bank: usize = self.chr_ext_banks[extended_bank_index as usize];
            let chr_address: usize = banked_memory_index(
                self.chr_rom.len(),
                chr_bank_size as usize,
                chr_bank,
                address as usize,
            );
            self.chr_rom[chr_address]
        } else {
            let chr_bank: usize = self.chr_banks[standard_bank_index as usize];
            let chr_address: usize = banked_memory_index(
                self.chr_rom.len(),
                chr_bank_size as usize,
                chr_bank,
                address as usize,
            );
            self.chr_rom[chr_address]
        }
    }

    /// A pattern-table read for an extended-RAM tile: 4K banks, the bank
    /// number from the tile's extended RAM byte.
    pub fn read_extended_chr(&self, address: u16) -> (byte: u8)
        requires
            self@.wf(),
            self.chr_rom@.len() > 0,
        ensures
            byte == self@.extended_chr_read(address),
    {
        proof {
            lemma_nametable_masks(self.last_bg_tile_fetch);
        }
        let chr_bank_size: usize = 4096;
        let nametable_index: u16 = self.last_bg_tile_fetch & 0x3FF;
        let extended_tile_attributes: u8 = self.extram[nametable_index as usize];
        let chr_bank: usize = (self.chr_bank_high_bits << 6usize) | ((extended_tile_attributes as usize)
            & 0b0011_1111);
        let chr_address: usize = banked_memory_index(
            self.chr_rom.len(),
            chr_bank_size,
            chr_bank,
            address as usize,
        );
        self.chr_rom[chr_address]
    }

    /// The attribute byte for an extended-RAM tile.
    pub fn read_extended_attribute(&self) -> (attribute: u8)
        requires
            self@.wf(),
        ensures
            attribute == self@.extended_attribute(),
    {
        proof {
            lemma_nametable_masks(self.last_bg_tile_fetch);
        }
        let nametable_index: u16 = self.last_bg_tile_fetch & 0x3FF;
        let extended_tile_attributes: u8 = self.extram[nametable_index as usize];
        let palette_index: u8 = (extended_tile_attributes & 0b1100_0000) >> 6u8;
        // The palette goes into all four fields: the PPU may read any of them.
        let combined_attribute: u8 = palette_index << 6u8 | palette_index << 4u8 | palette_index << 2u8
            | palette_index;
        assert(combined_attribute == ((extended_tile_attributes / 64) * 0x55) as u8) by (bit_vector)
            requires
                palette_index == (extended_tile_attributes & 0b1100_0000) >> 6u8,
                combined_attribute == palette_index << 6u8 | palette_index << 4u8 | palette_index
                    << 2u8 | palette_index,
        ;
        combined_attribute
    }

    /// In PCM read mode, a CPU read in `$8000-$BFFF` also loads the byte
    /// read as the PCM level.
    #[verifier::spinoff_prover]
    fn read_pcm_sample(&mut self, address: u16)
        requires
            old(self)@.wf(),
            old(self)@.prg_readable(address),
        ensures
            final(self)@ == (if old(self).pcm_read_mode && 0x8000 <= address <= 0xBFFF {
                Mmc5View { pcm_level: old(self)@.prg_read(address), ..old(self)@ }
            } else {
                old(self)@
            }),
    {
        if self.pcm_read_mode {
            match address {
                0x8000..=0xBFFF => {
                    self.pcm_level = self.read_prg(address);
                },
                _ => {},
            }
        }
    }

    /// What a CPU read of `address` returns, without the read's side
    /// effects; `None` where the mapper does not answer.
    fn _read_cpu(&self, address: u16, pulse_1_length: u8, pulse_2_length: u8) -> (value: Option<u8>)
        requires
            self@.wf(),
            self@.prg_readable(address),
        ensures
            value == self@.cpu_read(address, pulse_1_length, pulse_2_length),
    {
        match address {
            0x5010 => {
                let mut pcm_status: u8 = 0;
                if self.pcm_read_mode {
                    pcm_status += 0b0000_0001;
                }
                if self.pcm_irq_pending {
                    pcm_status += 0b1000_0000;
                }
                Some(pcm_status)
            },
            0x5015 => {
                let mut pulse_status: u8 = 0;
                if pulse_1_length > 0 {
                    pulse_status += 0b0000_0001;
                }
                if pulse_2_length > 0 {
                    pulse_status += 0b0000_0010;
                }
                Some(pulse_status)
            },
            0x5204 => {
                let mut status: u8 = 0;
                if self.irq_pending {
                    status += 0b1000_0000;
                }
                if self.in_frame {
                    status += 0b0100_0000;
                }
                Some(status)
            },
            0x5C00..=0x5FFF => {
                match self.extended_ram_mode {
                    2..=3 => Some(self.extram[address as usize - 0x5C00]),
                    _ => None,
                }
            },
            0x5205 => {
                assert(self.multiplicand_a as int * self.multiplicand_b as int <= 255 * 255)
                    by (nonlinear_arith);
                let result: u16 = self.multiplicand_a as u16 * self.multiplicand_b as u16;
                assert((result & 0xFF) == result % 256) by (bit_vector);
                Some((result & 0xFF) as u8)
            },
            0x5206 => {
                assert(self.multiplicand_a as int * self.multiplicand_b as int <= 255 * 255)
                    by (nonlinear_arith);
                let result: u16 = self.multiplicand_a as u16 * self.multiplicand_b as u16;
                assert(((result & 0xFF00) >> 8u16) == result / 256) by (bit_vector);
                Some(((result & 0xFF00) >> 8u16) as u8)
            },
            0x6000..=0xFFFF => Some(self.read_prg(address)),
            _ => None,
        }
    }

    /// The start of a scanline, seen in the PPU's fetches.
    #[verifier::spinoff_prover]
    fn detect_scanline(&mut self)
        requires
            old(self)@.wf(),
        ensures
            final(self)@ == old(self)@.scanline_detected(),
            final(self)@.wf(),
    {
        // This is fetch 1 of the scanline, which does not count as passed yet.
        self.ppu_fetches_this_scanline = 0;
        self.ppu_read_mode = PpuMode::Backgrounds;
        if self.in_frame {
            self.current_scanline += 1;
            if self.current_scanline == self.irq_scanline_compare {
                self.irq_pending = true;
            }
        } else {
            self.in_frame = true;
            self.current_scanline = 0;
            self.irq_pending = false;
        }
        if self.current_scanline == 241 {
            self.in_frame = false;
            self.irq_pending = false;
            self.current_scanline = 0;
            self.ppu_read_mode = PpuMode::PpuData;
        }
    }

    /// Counts a PPU fetch and follows whether the PPU fetches sprites or
    /// backgrounds.
    #[verifier::spinoff_prover]
    fn count_ppu_fetch(&mut self)
        requires
            old(self)@.wf(),
            old(self).ppu_fetches_this_scanline < 0xFFFF,
        ensures
            final(self)@ == old(self)@.ppu_fetch_counted(),
    {
        self.cpu_cycles_since_last_ppu_read = 0;
        self.ppu_fetches_this_scanline += 1;
        if self.in_frame && self.ppu_fetches_this_scanline >= 127 {
            self.ppu_read_mode = PpuMode::Sprites;
        }
        if self.in_frame && self.ppu_fetches_this_scanline >= 159 {
            self.ppu_read_mode = PpuMode::Backgrounds;
        }
    }

    /// Counts repeated fetches of one nametable address and keeps the
    /// address of each tile's nametable fetch.
    #[verifier::spinoff_prover]
    fn track_nametable_fetch(&mut self, address: u16)
        requires
            (address == old(self).last_ppu_fetch && 0x2000 <= address <= 0x2FFF)
                ==> old(self).consecutive_nametable_count < 0xFF,
        ensures
            final(self)@ == old(self)@.nametable_fetch_tracked(address),
    {
        let repeated = address == self.last_ppu_fetch && address >= 0x2000 && address <= 0x2FFF;
        let count: u8 = if repeated {
            self.consecutive_nametable_count + 1
        } else {
            0
        };
        // Every fourth fetch, the fetch before was the nametable byte of a
        // tile; the extended attributes need its address.
        let tile_fetch = self.ppu_fetches_this_scanline % 4 == 0;
        let bg_tile_fetch: u16 = if tile_fetch {
            self.last_ppu_fetch
        } else {
            self.last_bg_tile_fetch
        };
        self.consecutive_nametable_count = count;
        self.last_bg_tile_fetch = bg_tile_fetch;
        self.last_ppu_fetch = address;
    }

    /// Watches a PPU fetch: counts the fetches of the scanline, follows
    /// whether the PPU fetches sprites or backgrounds, and detects a new
    /// scanline after the same nametable address was fetched three times.
    #[verifier::spinoff_prover]
    fn snoop_ppu_read(&mut self, address: u16)
        requires
            old(self)@.wf(),
            old(self)@.ppu_snoop_ok(address),
        ensures
            final(self)@ == old(self)@.ppu_snooped(address),
            final(self)@.wf(),
    {
        self.count_ppu_fetch();
        if self.consecutive_nametable_count == 2 {
            self.detect_scanline();
        }
        self.track_nametable_fetch(address);
    }

    /// Counts a CPU read since the last PPU fetch and ends the frame after
    /// four of them or on a read of the NMI vector.
    #[verifier::spinoff_prover]
    fn watch_cpu_read(&mut self, address: u16)
        requires
            old(self)@.wf(),
        ensures
            final(self)@ == old(self)@.cpu_read_watched(address),
    {
        let cycles: u8 = if self.cpu_cycles_since_last_ppu_read < 255 {
            self.cpu_cycles_since_last_ppu_read + 1
        } else {
            self.cpu_cycles_since_last_ppu_read
        };
        // Four CPU reads without a PPU fetch: the PPU is not rendering.
        let idle = cycles == 4;
        // A read of the NMI vector: the frame is over.
        let vector_read = address == 0xFFFA || address == 0xFFFB;
        let frame_over = idle || vector_read;
        let in_frame = if frame_over {
            false
        } else {
            self.in_frame
        };
        let ppu_read_mode = if frame_over {
            PpuMode::PpuData
        } else {
            self.ppu_read_mode
        };
        let irq_pending = if vector_read {
            false
        } else {
            self.irq_pending
        };
        let current_scanline: u8 = if vector_read {
            0
        } else {
            self.current_scanline
        };
        self.cpu_cycles_since_last_ppu_read = cycles;
        self.in_frame = in_frame;
        self.ppu_read_mode = ppu_read_mode;
        self.irq_pending = irq_pending;
        self.current_scanline = current_scanline;
    }

    /// Watches a CPU read: see `Mmc5View::cpu_snooped`.
    #[verifier::spinoff_prover]
    fn snoop_cpu_read(&mut self, address: u16)
        requires
            old(self)@.wf(),
            old(self)@.prg_readable(address),
        ensures
            final(self)@ == old(self)@.cpu_snooped(address),
            final(self)@.wf(),
    {
        let ghost s0 = self@;
        self.watch_cpu_read(address);
        proof {
            lemma_prg_depends_on_prg_state(self@, s0, address);
        }
        self.read_pcm_sample(address);
        match address {
            0x5010 => {
                self.pcm_irq_pending = false;
            },
            0x5204 => {
                self.irq_pending = false;
            },
            _ => {},
        }
    }

    fn is_extended_attribute(&self) -> (extended: bool)
        ensures
            extended == self@.is_extended_attribute(),
    {
        let ppu_rendering_backgrounds = self.ppu_read_mode == PpuMode::Backgrounds;
        let extended_attributes_enabled = self.extended_ram_mode == 1;
        let reading_attribute_byte = (self.ppu_fetches_this_scanline % 4) == 0;
        ppu_rendering_backgrounds && extended_attributes_enabled && reading_attribute_byte
    }

    fn is_extended_pattern(&self) -> (extended: bool)
        ensures
            extended == self@.is_extended_pattern(),
    {
        let ppu_rendering_backgrounds = self.ppu_read_mode == PpuMode::Backgrounds;
        let extended_attributes_enabled = self.extended_ram_mode == 1;
        let tile_sub_cycle: u16 = self.ppu_fetches_this_scanline % 4;
        let reading_pattern_byte = (tile_sub_cycle == 1) || (tile_sub_cycle == 2);
        ppu_rendering_backgrounds && extended_attributes_enabled && reading_pattern_byte
    }

    /// What a PPU read of `address` returns, without the read's side
    /// effects.
    fn _read_ppu(&self, address: u16) -> (value: Option<u8>)
        requires
            self@.wf(),
            self@.ppu_readable(address),
        ensures
            value == self@.ppu_read(address),
    {
        match address {
            0x0000..=0x1FFF => {
                if self.is_extended_pattern() {
                    Some(self.read_extended_chr(address))
                } else {
                    Some(self.read_banked_chr(address))
                }
            },
            0x2000..=0x3FFF => {
                if self.is_extended_attribute() {
                    Some(self.read_extended_attribute())
                } else {
                    Some(self.read_nametable(address))
                }
            },
            _ => None,
        }
    }

    /// The IRQ line: the scanline IRQ is pending and enabled.
    pub fn irq_flag(&self) -> (asserted: bool)
        ensures
            asserted == (self.irq_enabled && self.irq_pending),
    {
        self.irq_enabled && self.irq_pending
    }

    /// The cartridge's nametable mirroring.
    pub fn mirroring(&self) -> (mirroring: Mirroring)
        ensures
            mirroring == self.mirroring,
    {
        self.mirroring
    }

    /// A CPU read, with its side effects (see `Mmc5View::cpu_snooped`). The
    /// pulse channels' length counters are given for the `$5015` status.
    #[verifier::spinoff_prover]
    pub fn read_cpu(&mut self, address: u16, pulse_1_length: u8, pulse_2_length: u8) -> (value: Option<u8>)
        requires
            old(self)@.wf(),
            old(self)@.prg_readable(address),
        ensures
            final(self)@ == old(self)@.cpu_snooped(address),
            value == final(self)@.cpu_read(address, pulse_1_length, pulse_2_length),
            final(self)@.wf(),
    {
        self.snoop_cpu_read(address);
        self._read_cpu(address, pulse_1_length, pulse_2_length)
    }

    /// A CPU read without side effects, for debuggers.
    pub fn debug_read_cpu(&self, address: u16, pulse_1_length: u8, pulse_2_length: u8) -> (value: Option<u8>)
        requires
            self@.wf(),
            self@.prg_readable(address),
        ensures
            value == self@.cpu_read(address, pulse_1_length, pulse_2_length),
    {
        self._read_cpu(address, pulse_1_length, pulse_2_length)
    }

    /// A PPU read without side effects, for debuggers.
    pub fn debug_read_ppu(&self, address: u16) -> (value: Option<u8>)
        requires
            self@.wf(),
            self@.ppu_readable(address),
        ensures
            value == self@.ppu_read(address),
    {
        self._read_ppu(address)
    }

    /// A PPU read, with its side effects (see `Mmc5View::ppu_snooped`).
    #[verifier::spinoff_prover]
    pub fn read_ppu(&mut self, address: u16) -> (value: Option<u8>)
        requires
            old(self)@.wf(),
            old(self)@.ppu_snoop_ok(address),
            old(self)@.ppu_snooped(address).ppu_readable(address),
        ensures
            final(self)@ == old(self)@.ppu_snooped(address),
            value == final(self)@.ppu_read(address),
            final(self)@.wf(),
    {
        self.snoop_ppu_read(address);
        self._read_ppu(address)
    }

    /// A PPU write: the nametables at `$2000-$3FFF`, nothing elsewhere.
    #[verifier::spinoff_prover]
    pub fn write_ppu(&mut self, address: u16, data: u8)
        requires
            old(self)@.wf(),
        ensures
            final(self)@ == (if 0x2000 <= address <= 0x3FFF {
                old(self)@.nametable_written(address, data)
            } else {
                old(self)@
            }),
            final(self)@.wf(),
    {
        match address {
            0x2000..=0x3FFF => {
                self.write_nametable(address, data);
            },
            _ => {},
        }
    }

    /// One CPU clock of the expansion audio sequencer: the pulse timers are
    /// clocked every other CPU clock, the envelopes and length counters once
    /// per 7446 CPU clocks (the MMC5 pulses have no sweep units).
    #[verifier::spinoff_prover]
    pub fn clock_cpu(&mut self) -> (clocks: AudioClocks)
        requires
            old(self)@.wf(),
        ensures
            final(self)@ == old(self)@.cpu_clocked(),
            clocks.pulse_timers == ((old(self).audio_sequencer_counter + 1) % 2 == 0),
            clocks.envelopes_and_lengths == (old(self).audio_sequencer_counter + 1
                == AUDIO_FRAME_PERIOD),
            final(self)@.wf(),
    {
        self.audio_sequencer_counter += 1;
        let counter: u16 = self.audio_sequencer_counter;
        let pulse_timers = (counter & 0b1) == 0;
        assert(pulse_timers == (counter % 2 == 0)) by (bit_vector)
            requires
                pulse_timers == ((counter & 0b1) == 0),
        ;
        let envelopes_and_lengths = self.audio_sequencer_counter >= AUDIO_FRAME_PERIOD;
        if envelopes_and_lengths {
            self.audio_sequencer_counter = 0;
        }
        AudioClocks { pulse_timers, envelopes_and_lengths }
    }
}

/// Decodes a write to a pulse channel's control register.
fn pulse_control_write(data: u8) -> (write: PulseRegisterWrite)
    ensures
        pulse_register_write(0, data) == Some(write),
{
    let duty_table: [u8; 4] = [0b1000_0000, 0b1100_0000, 0b1111_0000, 0b0011_1111];
    let duty_index: u8 = (data & 0b1100_0000) >> 6u8;
    assert(duty_index < 4) by (bit_vector)
        requires
            duty_index == (data & 0b1100_0000) >> 6u8,
    ;
    let length_disable = (data & 0b0010_0000) != 0;
    let constant_volume = (data & 0b0001_0000) != 0;
    let duty: u8 = duty_table[duty_index as usize];
    assert(duty == duty_pattern(duty_index));
    PulseRegisterWrite::Control { duty, length_disable, constant_volume, volume: data & 0b0000_1111 }
}

/// Decodes a write to a pulse channel's period-high and length register.
fn pulse_period_high_write(data: u8) -> (write: PulseRegisterWrite)
    ensures
        pulse_register_write(3, data) == Some(write),
{
    PulseRegisterWrite::PeriodHighAndLength {
        period_high: data & 0b0000_0111,
        length_index: (data & 0b1111_1000) >> 3u8,
    }
}

/// Decodes what a CPU write does to the expansion audio channels.
fn expansion_audio_write(address: u16, data: u8) -> (audio: ExpansionAudioWrite)
    ensures
        audio == audio_write(address, data),
{
    match address {
        0x5000 => ExpansionAudioWrite::Pulse1(pulse_control_write(data)),
        0x5002 => ExpansionAudioWrite::Pulse1(PulseRegisterWrite::PeriodLow { period_low: data }),
        0x5003 => ExpansionAudioWrite::Pulse1(pulse_period_high_write(data)),
        0x5004 => ExpansionAudioWrite::Pulse2(pulse_control_write(data)),
        0x5006 => ExpansionAudioWrite::Pulse2(PulseRegisterWrite::PeriodLow { period_low: data }),
        0x5007 => ExpansionAudioWrite::Pulse2(pulse_period_high_write(data)),
        0x4015 => ExpansionAudioWrite::ChannelEnable {
            pulse_1: (data & 0b0001) != 0,
            pulse_2: (data & 0b0010) != 0,
        },
        _ => ExpansionAudioWrite::NoAudio,
    }
}

impl Mmc5 {
    #[verifier::spinoff_prover]
    fn write_ppu_monitor(&mut self, address: u16, data: u8)
        requires
            address == 0x2000 || address == 0x2001,
        ensures
            final(self)@ == old(self)@.ppu_monitor_written(address, data),
    {
        if address == 0x2000 {
            self.ppuctrl_monitor = data;
        } else {
            self.ppumask_monitor = data;
        }
    }

    #[verifier::spinoff_prover]
    fn write_pcm_register(&mut self, address: u16, data: u8)
        requires
            address == 0x5010 || address == 0x5011,
        ensures
            final(self)@ == old(self)@.pcm_register_written(address, data),
    {
        if address == 0x5010 {
            self.pcm_read_mode = (data & 0b0000_0001) != 0;
            self.pcm_irq_enable = (data & 0b1000_0000) != 0;
        } else if !(self.pcm_read_mode) {
            self.pcm_level = data;
        }
    }

    #[verifier::spinoff_prover]
    fn write_mode_register(&mut self, address: u16, data: u8)
        requires
            0x5100 <= address <= 0x5107,
        ensures
            final(self)@ == old(self)@.mode_register_written(address, data),
    {
        match address {
            0x5100 => {
                self.prg_mode = data & 0b0000_0011;
            },
            0x5101 => {
                self.chr_mode = data & 0b0000_0011;
            },
            0x5102 => {
                self.prg_ram_magic_low = data & 0b0000_0011;
            },
            0x5103 => {
                self.prg_ram_magic_high = data & 0b0000_0011;
            },
            0x5104 => {
                self.extended_ram_mode = data & 0b0000_0011;
            },
            0x5105 => {
                self.nametable_mapping = data;
            },
            0x5106 => {
                self.fill_tile = data;
            },
            _ => {
                let fill_color: u8 = data & 0b0000_0011;
                // The whole attribute byte, with the color in all four fields.
                let fill_attr: u8 = (fill_color << 6u8) | (fill_color << 2u8) | (fill_color << 4u8)
                    | (fill_color);
                assert(fill_attr == ((data % 4) * 0x55) as u8) by (bit_vector)
                    requires
                        fill_color == data & 0b0000_0011,
                        fill_attr == (fill_color << 6u8) | (fill_color << 2u8) | (fill_color
                            << 4u8) | (fill_color),
                ;
                self.fill_attr = fill_attr;
            },
        }
    }

    #[verifier::spinoff_prover]
    fn write_prg_bank_register(&mut self, address: u16, data: u8)
        requires
            0x5113 <= address <= 0x5117,
        ensures
            final(self)@ == old(self)@.prg_bank_register_written(address, data),
    {
        // Bits 0-6 select the bank; bit 7 clear selects RAM.
        let bank: u8 = data & 0b0111_1111;
        let is_ram: bool = (data & 0b1000_0000) == 0;
        let prg_ram_bank: u8 = if address == 0x5113 {
            bank
        } else {
            self.prg_ram_bank
        };
        let (prg_bank_a, prg_bank_a_isram) = if address == 0x5114 {
            (bank, is_ram)
        } else {
            (self.prg_bank_a, self.prg_bank_a_isram)
        };
        let (prg_bank_b, prg_bank_b_isram) = if address == 0x5115 {
            (bank, is_ram)
        } else {
            (self.prg_bank_b, self.prg_bank_b_isram)
        };
        let (prg_bank_c, prg_bank_c_isram) = if address == 0x5116 {
            (bank, is_ram)
        } else {
            (self.prg_bank_c, self.prg_bank_c_isram)
        };
        let prg_bank_d: u8 = if address == 0x5117 {
            bank
        } else {
            self.prg_bank_d
        };
        self.prg_ram_bank = prg_ram_bank;
        self.prg_bank_a = prg_bank_a;
        self.prg_bank_a_isram = prg_bank_a_isram;
        self.prg_bank_b = prg_bank_b;
        self.prg_bank_b_isram = prg_bank_b_isram;
        self.prg_bank_c = prg_bank_c;
        self.prg_bank_c_isram = prg_bank_c_isram;
        self.prg_bank_d = prg_bank_d;
    }

    #[verifier::spinoff_prover]
    fn write_extram_from_cpu(&mut self, address: u16, data: u8)
        requires
            old(self)@.wf(),
            0x5C00 <= address <= 0x5FFF,
        ensures
            final(self)@ == old(self)@.extram_cpu_written(address, data),
    {
        let index: usize = address as usize - 0x5C00;
        if self.extended_ram_mode == 0 || self.extended_ram_mode == 1 {
            // Mapped as a nametable or as extended attributes: writable only
            // while the PPU renders, otherwise 0 is written.
            let value: u8 = if self.in_frame {
                data
            } else {
                0
            };
            self.extram.set(index, value);
        } else if self.extended_ram_mode == 2 {
            // Mapped as plain RAM.
            self.extram.set(index, data);
        }
    }

    #[verifier::spinoff_prover]
    fn write_chr_bank_register(&mut self, address: u16, data: u8)
        requires
            old(self)@.wf(),
            0x5120 <= address <= 0x5130,
        ensures
            final(self)@ == old(self)@.chr_bank_register_written(address, data),
    {
        match address {
            0x5120..=0x5127 => {
                self.chr_banks.set(address as usize - 0x5120, data as usize + self.chr_bank_high_bits);
                self.chr_last_write_ext = false;
            },
            0x5128..=0x512B => {
                self.chr_ext_banks.set(
                    address as usize - 0x5128,
                    data as usize + self.chr_bank_high_bits,
                );
                self.chr_last_write_ext = true;
            },
            0x5130 => {
                let high_bits: usize = ((data & 0b0000_0011) as usize) << 8usize;
                assert(high_bits == ((data % 4) * 0x100) as usize) by (bit_vector)
                    requires
                        high_bits == ((data & 0b0000_0011) as usize) << 8usize,
                ;
                self.chr_bank_high_bits = high_bits;
            },
            _ => {},
        }
    }

    #[verifier::spinoff_prover]
    fn write_irq_multiplier_register(&mut self, address: u16, data: u8)
        requires
            0x5203 <= address <= 0x5206,
        ensures
            final(self)@ == old(self)@.irq_multiplier_register_written(address, data),
    {
        match address {
            0x5203 => {
                self.irq_scanline_compare = data;
            },
            0x5204 => {
                self.irq_enabled = (data & 0b1000_0000) != 0;
            },
            0x5205 => {
                self.multiplicand_a = data;
            },
            _ => {
                self.multiplicand_b = data;
            },
        }
    }

    /// A CPU write: the mapper's registers, the extended RAM, PRG RAM, and
    /// the PPU registers it monitors. Writes to the pulse channels are
    /// decoded and returned for the audio unit to apply.
    #[verifier::spinoff_prover]
    pub fn write_cpu(&mut self, address: u16, data: u8) -> (audio: ExpansionAudioWrite)
        requires
            old(self)@.wf(),
        ensures
            final(self)@ == old(self)@.cpu_written(address, data),
            audio == audio_write(address, data),
            final(self)@.wf(),
    {
        proof {
            crate::mmc::mmc5_laws::lemma_transitions_keep_wf(self@, address, data);
        }
        match address {
            0x2000..=0x2001 => self.write_ppu_monitor(address, data),
            0x5010..=0x5011 => self.write_pcm_register(address, data),
            0x5100..=0x5107 => self.write_mode_register(address, data),
            0x5113..=0x5117 => self.write_prg_bank_register(address, data),
            0x5C00..=0x5FFF => self.write_extram_from_cpu(address, data),
            0x5120..=0x5130 => self.write_chr_bank_register(address, data),
            0x5203..=0x5206 => self.write_irq_multiplier_register(address, data),
            0x6000..=0xFFFF => self.write_prg(address, data),
            _ => {},
        }
        expansion_audio_write(address, data)
    }
}

impl Mmc5 {
    /// Whether the current PRG mode maps `address` to PRG ROM.
    fn prg_maps_rom(&self, address: u16) -> (rom: bool)
        ensures
            rom == (self@.prg_source(self.prg_mode, address) matches Some((in_ram, _, _))
                && !in_ram),
    {
        let mode: u8 = self.prg_mode;
        if address < 0x8000 || mode > 3 {
            false
        } else if mode == 0 {
            true
        } else if mode == 1 {
            if address <= 0xBFFF {
                !self.prg_bank_b_isram
            } else {
                true
            }
        } else if mode == 2 {
            if address <= 0xBFFF {
                !self.prg_bank_b_isram
            } else if address <= 0xDFFF {
                !self.prg_bank_c_isram
            } else {
                true
            }
        } else {
            if address <= 0x9FFF {
                !self.prg_bank_a_isram
            } else if address <= 0xBFFF {
                !self.prg_bank_b_isram
            } else if address <= 0xDFFF {
                !self.prg_bank_c_isram
            } else {
                true
            }
        }
    }

    /// Whether a CPU read of `address` can be served: it does not read an
    /// empty PRG ROM.
    pub fn cpu_read_ok(&self, address: u16) -> (ok: bool)
        ensures
            ok == self@.prg_readable(address),
    {
        !self.prg_maps_rom(address) || self.prg_rom.len() > 0
    }

    /// Whether a PPU read of `address` can be served: the fetch counters
    /// have room, and a pattern-table read does not read an empty CHR
    /// memory.
    pub fn ppu_read_ok(&self, address: u16) -> (ok: bool)
        ensures
            ok == (self@.ppu_snoop_ok(address) && (address > 0x1FFF || self.chr_rom@.len() > 0)),
            ok ==> self@.ppu_snooped(address).ppu_readable(address) && self@.ppu_readable(address),
    {
        let repeated = address == self.last_ppu_fetch && address >= 0x2000 && address <= 0x2FFF;
        let countable = self.ppu_fetches_this_scanline < 0xFFFF && (!repeated
            || self.consecutive_nametable_count < 0xFF);
        countable && (address > 0x1FFF || self.chr_rom.len() > 0)
    }
}

impl PulseRegisterWrite {
    /// The envelope after this write: a control write sets the envelope's
    /// loop flag (shared with the length counter halt), its enable (the
    /// inverse of constant volume) and its volume register; a write of the
    /// period's high bits starts a note, which restarts the envelope.
    pub open spec fn envelope_after(self, envelope: VolumeEnvelopeState) -> VolumeEnvelopeState {
        match self {
            PulseRegisterWrite::Control { length_disable, constant_volume, volume, .. } => {
                VolumeEnvelopeState {
                    looping: length_disable,
                    enabled: !constant_volume,
                    volume_register: volume,
                    ..envelope
                }
            },
            PulseRegisterWrite::PeriodLow { .. } => envelope,
            PulseRegisterWrite::PeriodHighAndLength { .. } => VolumeEnvelopeState {
                start_flag: true,
                ..envelope
            },
        }
    }

    /// Applies this write to the channel's volume envelope.
    pub fn apply_to_envelope(&self, envelope: &mut VolumeEnvelopeState)
        ensures
            *final(envelope) == self.envelope_after(*old(envelope)),
    {
        match self {
            PulseRegisterWrite::Control { length_disable, constant_volume, volume, .. } => {
                envelope.looping = *length_disable;
                envelope.enabled = !*constant_volume;
                envelope.volume_register = *volume;
            },
            PulseRegisterWrite::PeriodLow { .. } => {},
            PulseRegisterWrite::PeriodHighAndLength { .. } => {
                envelope.start_flag = true;
            },
        }
    }
}

} // verus!
