//! Properties of the MMC5 model that relate several of its operations.
use vstd::prelude::*;
use crate::mmc::mmc5::{
    audio_write, banked_index, ExpansionAudioWrite, Mirroring, Mmc5View, PpuMode,
    PulseRegisterWrite, AUDIO_FRAME_PERIOD,
};

verus! {

/// The memory cell a nametable address reaches: the quadrant's source and
/// the offset within the quadrant.
pub open spec fn nametable_cell(v: Mmc5View, address: u16) -> (u8, int) {
    (v.nametable_source(address), Mmc5View::quadrant_offset(address))
}

proof fn lemma_quadrant_offset_bound(address: u16)
    ensures
        0 <= Mmc5View::quadrant_offset(address) < 0x400,
{
    assert((address & 0x3FF) < 0x400) by (bit_vector);
}

/// A nametable read gives back what a nametable write stored: at the written
/// address, and at every address that reaches the same cell through the
/// quadrant mapping; reads of other cells are unchanged.
pub proof fn lemma_nametable_write_then_read(v: Mmc5View, a: u16, data: u8, b: u16)
    requires
        v.wf(),
        v.nametable_writable(a),
    ensures
        v.nametable_written(a, data).nametable_read(b) == if nametable_cell(v, a) == nametable_cell(
            v,
            b,
        ) {
            data
        } else {
            v.nametable_read(b)
        },
{
    lemma_quadrant_offset_bound(a);
    lemma_quadrant_offset_bound(b);
}

/// A nametable write where the quadrant shows the fill pattern, or the
/// extended RAM in a mode that does not take nametable writes, changes
/// nothing.
pub proof fn lemma_nametable_write_ignored(v: Mmc5View, a: u16, data: u8)
    requires
        !v.nametable_writable(a),
    ensures
        v.nametable_written(a, data) == v,
{
}

/// A PRG read gives back what a PRG write stored, wherever the current PRG
/// mode maps the address to PRG RAM.
pub proof fn lemma_prg_write_then_read(v: Mmc5View, address: u16, data: u8)
    requires
        v.wf(),
        v.prg_source(v.prg_mode, address) matches Some((in_ram, _, _)) && in_ram,
    ensures
        v.prg_written(address, data).prg_read(address) == data,
{
    let (in_ram, bank, bank_size) = v.prg_source(v.prg_mode, address)->0;
    crate::mmc::mmc5::lemma_banked_index_in_bounds(
        v.prg_ram.len() as int,
        bank_size,
        bank,
        address as int,
    );
}

/// A PRG write to a ROM window, or to an unmapped address, changes nothing.
pub proof fn lemma_prg_write_to_rom_ignored(v: Mmc5View, address: u16, data: u8)
    requires
        !(v.prg_source(v.prg_mode, address) matches Some((in_ram, _, _)) && in_ram),
    ensures
        v.prg_written(address, data) == v,
{
}

/// Through the CPU bus: a read of `$6000-$FFFF` gives back what a write
/// stored there, where that address is mapped to PRG RAM.
pub proof fn lemma_cpu_prg_write_then_read(
    v: Mmc5View,
    address: u16,
    data: u8,
    pulse_1_length: u8,
    pulse_2_length: u8,
)
    requires
        v.wf(),
        0x6000 <= address,
        v.prg_source(v.prg_mode, address) matches Some((in_ram, _, _)) && in_ram,
    ensures
        v.cpu_written(address, data).cpu_read(address, pulse_1_length, pulse_2_length) == Some(
            data,
        ),
{
    lemma_prg_write_then_read(v, address, data);
}

/// Through the CPU bus, with the extended RAM in mode 2 (plain RAM): a read
/// of `$5C00-$5FFF` gives back what a write stored there.
pub proof fn lemma_cpu_extram_write_then_read(
    v: Mmc5View,
    address: u16,
    data: u8,
    pulse_1_length: u8,
    pulse_2_length: u8,
)
    requires
        v.wf(),
        v.extended_ram_mode == 2,
        0x5C00 <= address <= 0x5FFF,
    ensures
        v.cpu_written(address, data).cpu_read(address, pulse_1_length, pulse_2_length) == Some(
            data,
        ),
{
}

/// The hardware multiplier: after the two operands are written to `$5205`
/// and `$5206`, reading `$5205` and `$5206` gives the low and high bytes of
/// their 16-bit product.
pub proof fn lemma_multiplier(
    v: Mmc5View,
    a: u8,
    b: u8,
    pulse_1_length: u8,
    pulse_2_length: u8,
)
    requires
        v.wf(),
    ensures
        ({
            let w = v.cpu_written(0x5205, a).cpu_written(0x5206, b);
            let low = w.cpu_read(0x5205, pulse_1_length, pulse_2_length);
            let high = w.cpu_read(0x5206, pulse_1_length, pulse_2_length);
            &&& low is Some
            &&& high is Some
            &&& low->0 as int + 256 * high->0 as int == a as int * b as int
        }),
{
    let p: int = a as int * b as int;
    assert(0 <= p <= 255 * 255) by (nonlinear_arith)
        requires
            p == a as int * b as int,
    ;
    assert(p % 256 + 256 * (p / 256) == p);
}

/// At power-on both multiplier operands are 0xFF: the product reads as
/// 0x01 at `$5205` and 0xFE at `$5206`.
pub proof fn lemma_multiplier_at_power_on(
    has_chr_ram: bool,
    mirroring: Mirroring,
    chr: Seq<u8>,
    prg: Seq<u8>,
    pulse_1_length: u8,
    pulse_2_length: u8,
)
    ensures
        Mmc5View::power_on(has_chr_ram, mirroring, chr, prg).cpu_read(
            0x5205,
            pulse_1_length,
            pulse_2_length,
        ) == Some(0x01u8),
        Mmc5View::power_on(has_chr_ram, mirroring, chr, prg).cpu_read(
            0x5206,
            pulse_1_length,
            pulse_2_length,
        ) == Some(0xFEu8),
{
    assert(0xFFint * 0xFFint == 0xFE01);
}

/// The scanline IRQ: the scanline on which the count reaches the compare
/// value raises the IRQ (unless that is line 241, which ends the frame).
pub proof fn lemma_scanline_irq(v: Mmc5View)
    requires
        v.wf(),
        v.in_frame,
        v.current_scanline + 1 == v.irq_scanline_compare,
        v.irq_scanline_compare != 241,
    ensures
        v.scanline_detected().irq_pending,
        v.scanline_detected().current_scanline == v.irq_scanline_compare,
{
}

/// The frame ends after line 240: the line after it takes the mapper out of
/// the frame, back to line 0, with no IRQ pending.
pub proof fn lemma_frame_end(v: Mmc5View)
    requires
        v.in_frame,
        v.current_scanline == 240,
    ensures
        !v.scanline_detected().in_frame,
        v.scanline_detected().current_scanline == 0,
        !v.scanline_detected().irq_pending,
        v.scanline_detected().ppu_read_mode == PpuMode::PpuData,
{
}

/// The frame starts at the first scanline seen outside a frame: line 0,
/// no IRQ pending, background fetches, fetch count 0.
pub proof fn lemma_frame_start(v: Mmc5View)
    requires
        !v.in_frame,
    ensures
        v.scanline_detected().in_frame,
        v.scanline_detected().current_scanline == 0,
        !v.scanline_detected().irq_pending,
        v.scanline_detected().ppu_read_mode == PpuMode::Backgrounds,
        v.scanline_detected().ppu_fetches_this_scanline == 0,
{
}

/// The scanline counter never passes line 240: a detected scanline keeps it
/// within the frame's lines.
pub proof fn lemma_scanline_bounded(v: Mmc5View)
    requires
        v.current_scanline <= 240,
    ensures
        v.scanline_detected().current_scanline <= 240,
{
}

/// The audio frame sequencer counts CPU clocks modulo its period, so the
/// envelopes and length counters are clocked once per 7446 CPU clocks.
pub proof fn lemma_audio_sequencer_period(v: Mmc5View)
    requires
        v.wf(),
    ensures
        v.cpu_clocked().audio_sequencer_counter == (v.audio_sequencer_counter + 1)
            % (AUDIO_FRAME_PERIOD as int),
{
}

/// Every transition of the mapper keeps its invariant.
pub proof fn lemma_transitions_keep_wf(v: Mmc5View, address: u16, data: u8)
    requires
        v.wf(),
    ensures
        v.cpu_written(address, data).wf(),
        v.nametable_written(address, data).wf(),
        v.scanline_detected().wf(),
        v.cpu_clocked().wf(),
        v.ppu_snoop_ok(address) ==> v.ppu_snooped(address).wf(),
        v.cpu_snooped(address).wf(),
{
    assert(((data % 4) * 0x100) as usize <= 0x300);
    lemma_quadrant_offset_bound(address);
}

/// The fill color written at `$5107` fills all four fields of the fill
/// attribute byte.
pub proof fn lemma_fill_color(v: Mmc5View, data: u8)
    ensures
        ({
            let attr = v.cpu_written(0x5107, data).fill_attr;
            &&& attr % 4 == data % 4
            &&& (attr / 4) % 4 == data % 4
            &&& (attr / 16) % 4 == data % 4
            &&& attr / 64 == data % 4
        }),
{
}

/// At power-on the interrupt vectors are mapped: with a PRG ROM of `n` 8K
/// banks, `n` dividing 128, the PRG mode 3 window at `$E000-$FFFF` shows the
/// ROM's last bank.
pub proof fn lemma_boot_maps_last_bank(
    has_chr_ram: bool,
    mirroring: Mirroring,
    chr: Seq<u8>,
    prg: Seq<u8>,
    n: int,
    address: u16,
)
    requires
        n > 0,
        128int % n == 0,
        prg.len() == 8192 * n,
        0xE000 <= address,
    ensures
        Mmc5View::power_on(has_chr_ram, mirroring, chr, prg).prg_read(address) == prg[8192 * (n - 1) + (
        address - 0xE000)],
{
    let v = Mmc5View::power_on(has_chr_ram, mirroring, chr, prg);
    assert(v.prg_source(3, address) == Some((false, 0x7Fint, 0x2000int)));
    assert(prg.len() as int / 8192 == n) by (nonlinear_arith)
        requires
            prg.len() == 8192 * n,
    ;
    let k: int = 128int / n;
    vstd::arithmetic::div_mod::lemma_fundamental_div_mod(128, n);
    assert(127int == (k - 1) * n + (n - 1)) by (nonlinear_arith)
        requires
            128int == n * k + 128int % n,
            128int % n == 0,
    ;
    vstd::arithmetic::div_mod::lemma_fundamental_div_mod_converse(127, n, k - 1, n - 1);
    assert(0x7Fint % n == n - 1);
    assert(address as int % 0x2000 == address - 0xE000);
    if n == 1 {
        assert(banked_index(prg.len() as int, 0x2000, 0x7F, address as int) == address - 0xE000);
    }
}

/// Scanline detection: after the PPU fetched the same nametable address
/// three times in a row, its next fetch is seen as the start of a
/// scanline; outside a frame that starts the frame at line 0.
pub proof fn lemma_scanline_detection(v: Mmc5View, a: u16, b: u16)
    requires
        v.wf(),
        !v.in_frame,
        0x2000 <= a <= 0x2FFF,
        v.last_ppu_fetch != a,
        v.consecutive_nametable_count != 2,
        v.ppu_fetches_this_scanline < 0xFFF0,
    ensures
        ({
            let w = v.ppu_snooped(a).ppu_snooped(a).ppu_snooped(a);
            &&& w.consecutive_nametable_count == 2
            &&& w.ppu_snooped(b).in_frame
            &&& w.ppu_snooped(b).current_scanline == 0
            &&& !w.ppu_snooped(b).irq_pending
            &&& w.ppu_snooped(b).ppu_fetches_this_scanline == 0
            &&& w.ppu_snooped(b).ppu_read_mode == PpuMode::Backgrounds
        }),
{
    let w1 = v.ppu_snooped(a);
    let w2 = w1.ppu_snooped(a);
    let w3 = w2.ppu_snooped(a);
    assert(w1.consecutive_nametable_count == 0 && !w1.in_frame);
    assert(w2.consecutive_nametable_count == 1 && !w2.in_frame);
    assert(w3.consecutive_nametable_count == 2 && !w3.in_frame);
    assert(w3.ppu_fetch_counted().consecutive_nametable_count == 2);
    assert(!w3.ppu_fetch_counted().in_frame);
}

/// Byte `offset` of bank `bank` of a memory cut into banks of `size` bytes,
/// the bank number wrapped to the banks the memory holds.
pub open spec fn window_byte(memory: Seq<u8>, size: int, bank: int, offset: int) -> u8 {
    memory[size * (bank % (memory.len() as int / size)) + offset]
}

/// Banked indexing in a memory made of whole banks.
proof fn lemma_whole_banks(len: int, size: int, bank: int, raw: int)
    requires
        size > 0,
        len >= size,
        len % size == 0,
        bank >= 0,
        raw >= 0,
    ensures
        banked_index(len, size, bank, raw) == size * (bank % (len / size)) + raw % size,
{
    assert(len / size >= 1) by (nonlinear_arith)
        requires
            len >= size,
            size > 0,
    ;
    if len / size == 1 {
        assert(bank % 1 == 0);
        assert(len == size) by (nonlinear_arith)
            requires
                len / size == 1,
                len % size == 0,
                size > 0,
        {
            vstd::arithmetic::div_mod::lemma_fundamental_div_mod(len, size);
        }
    }
}

proof fn lemma_bank_shifts(x: u8)
    ensures
        (x >> 1u8) as int == x as int / 2,
        (x >> 2u8) as int == x as int / 4,
{
    assert((x >> 1u8) == x / 2) by (bit_vector);
    assert((x >> 2u8) == x / 4) by (bit_vector);
}

/// PRG RAM at `$6000-$7FFF` in every PRG mode: 8K bank `$5113` of the 64K.
pub proof fn lemma_prg_ram_window(v: Mmc5View, address: u16)
    requires
        v.wf(),
        v.prg_mode <= 3,
        0x6000 <= address <= 0x7FFF,
    ensures
        v.prg_read(address) == window_byte(
            v.prg_ram,
            0x2000,
            v.prg_ram_bank as int,
            address - 0x6000,
        ),
{
    lemma_whole_banks(0x10000, 0x2000, v.prg_ram_bank as int, address as int);
}

/// PRG mode 0: one 32K ROM bank at `$8000`, selected by `$5117` without its
/// two low bits.
pub proof fn lemma_prg_mode_0(v: Mmc5View, address: u16)
    requires
        v.wf(),
        v.prg_mode == 0,
        v.prg_rom.len() > 0,
        v.prg_rom.len() % 0x8000 == 0,
        0x8000 <= address,
    ensures
        v.prg_read(address) == window_byte(
            v.prg_rom,
            0x8000,
            v.prg_bank_d as int / 4,
            address - 0x8000,
        ),
{
    lemma_bank_shifts(v.prg_bank_d);
    lemma_whole_banks(v.prg_rom.len() as int, 0x8000, v.prg_bank_d as int / 4, address as int);
}

/// PRG mode 1: a 16K bank at `$8000` (RAM or ROM by bit 7 of `$5115`), and a
/// 16K ROM bank at `$C000`; both registers without their low bit.
pub proof fn lemma_prg_mode_1(v: Mmc5View, address: u16)
    requires
        v.wf(),
        v.prg_mode == 1,
        v.prg_rom.len() > 0,
        v.prg_rom.len() % 0x4000 == 0,
        0x8000 <= address,
    ensures
        address <= 0xBFFF ==> v.prg_read(address) == window_byte(
            if v.prg_bank_b_isram {
                v.prg_ram
            } else {
                v.prg_rom
            },
            0x4000,
            v.prg_bank_b as int / 2,
            address - 0x8000,
        ),
        0xC000 <= address ==> v.prg_read(address) == window_byte(
            v.prg_rom,
            0x4000,
            v.prg_bank_d as int / 2,
            address - 0xC000,
        ),
{
    lemma_bank_shifts(v.prg_bank_b);
    lemma_bank_shifts(v.prg_bank_d);
    lemma_whole_banks(v.prg_rom.len() as int, 0x4000, v.prg_bank_b as int / 2, address as int);
    lemma_whole_banks(0x10000, 0x4000, v.prg_bank_b as int / 2, address as int);
    lemma_whole_banks(v.prg_rom.len() as int, 0x4000, v.prg_bank_d as int / 2, address as int);
}

/// PRG mode 2: a 16K bank at `$8000` and an 8K bank at `$C000` (RAM or ROM
/// each), and an 8K ROM bank at `$E000`.
pub proof fn lemma_prg_mode_2(v: Mmc5View, address: u16)
    requires
        v.wf(),
        v.prg_mode == 2,
        v.prg_rom.len() > 0,
        v.prg_rom.len() % 0x4000 == 0,
        0x8000 <= address,
    ensures
        address <= 0xBFFF ==> v.prg_read(address) == window_byte(
            if v.prg_bank_b_isram {
                v.prg_ram
            } else {
                v.prg_rom
            },
            0x4000,
            v.prg_bank_b as int / 2,
            address - 0x8000,
        ),
        0xC000 <= address <= 0xDFFF ==> v.prg_read(address) == window_byte(
            if v.prg_bank_c_isram {
                v.prg_ram
            } else {
                v.prg_rom
            },
            0x2000,
            v.prg_bank_c as int,
            address - 0xC000,
        ),
        0xE000 <= address ==> v.prg_read(address) == window_byte(
            v.prg_rom,
            0x2000,
            v.prg_bank_d as int,
            address - 0xE000,
        ),
{
    let len = v.prg_rom.len() as int;
    assert(len % 0x2000 == 0) by {
        vstd::arithmetic::div_mod::lemma_fundamental_div_mod(len, 0x4000);
    }
    lemma_bank_shifts(v.prg_bank_b);
    lemma_whole_banks(len, 0x4000, v.prg_bank_b as int / 2, address as int);
    lemma_whole_banks(0x10000, 0x4000, v.prg_bank_b as int / 2, address as int);
    lemma_whole_banks(len, 0x2000, v.prg_bank_c as int, address as int);
    lemma_whole_banks(0x10000, 0x2000, v.prg_bank_c as int, address as int);
    lemma_whole_banks(len, 0x2000, v.prg_bank_d as int, address as int);
}

/// PRG mode 3: 8K banks at `$8000`, `$A000`, `$C000` (RAM or ROM each) and
/// an 8K ROM bank at `$E000`.
pub proof fn lemma_prg_mode_3(v: Mmc5View, address: u16)
    requires
        v.wf(),
        v.prg_mode == 3,
        v.prg_rom.len() > 0,
        v.prg_rom.len() % 0x2000 == 0,
        0x8000 <= address,
    ensures
        address <= 0x9FFF ==> v.prg_read(address) == window_byte(
            if v.prg_bank_a_isram {
                v.prg_ram
            } else {
                v.prg_rom
            },
            0x2000,
            v.prg_bank_a as int,
            address - 0x8000,
        ),
        0xA000 <= address <= 0xBFFF ==> v.prg_read(address) == window_byte(
            if v.prg_bank_b_isram {
                v.prg_ram
            } else {
                v.prg_rom
            },
            0x2000,
            v.prg_bank_b as int,
            address - 0xA000,
        ),
        0xC000 <= address <= 0xDFFF ==> v.prg_read(address) == window_byte(
            if v.prg_bank_c_isram {
                v.prg_ram
            } else {
                v.prg_rom
            },
            0x2000,
            v.prg_bank_c as int,
            address - 0xC000,
        ),
        0xE000 <= address ==> v.prg_read(address) == window_byte(
            v.prg_rom,
            0x2000,
            v.prg_bank_d as int,
            address - 0xE000,
        ),
{
    let len = v.prg_rom.len() as int;
    lemma_whole_banks(len, 0x2000, v.prg_bank_a as int, address as int);
    lemma_whole_banks(0x10000, 0x2000, v.prg_bank_a as int, address as int);
    lemma_whole_banks(len, 0x2000, v.prg_bank_b as int, address as int);
    lemma_whole_banks(0x10000, 0x2000, v.prg_bank_b as int, address as int);
    lemma_whole_banks(len, 0x2000, v.prg_bank_c as int, address as int);
    lemma_whole_banks(0x10000, 0x2000, v.prg_bank_c as int, address as int);
    lemma_whole_banks(len, 0x2000, v.prg_bank_d as int, address as int);
}

/// CHR banking of pattern-table reads. Banks are 8K, 4K, 2K or 1K in CHR
/// modes 0-3; the bank at `address` is selected by the last of the 1K-slot
/// registers it covers. With 8x16 sprites on (PPUCTRL bit 5), background
/// fetches use the extended set `$5128-$512B` (register number mod 4) and
/// sprite fetches the standard set `$5120-$5127`; without 8x16 sprites every
/// fetch uses the standard set.
pub proof fn lemma_chr_banking(v: Mmc5View, address: u16)
    requires
        v.wf(),
        v.chr_mode <= 3,
        address < 0x2000,
        v.chr_rom.len() > 0,
        v.chr_rom.len() % 0x2000 == 0,
    ensures
        ({
            let size: int = if v.chr_mode == 0 {
                0x2000
            } else if v.chr_mode == 1 {
                0x1000
            } else if v.chr_mode == 2 {
                0x800
            } else {
                0x400
            };
            let register = (address as int / size + 1) * (size / 0x400) - 1;
            let offset = address as int % size;
            &&& 0 <= register < 8
            &&& ((v.ppuctrl_monitor & 0b0010_0000) != 0 && v.ppu_read_mode == PpuMode::Backgrounds)
                ==> v.banked_chr_read(address) == window_byte(
                v.chr_rom,
                size,
                v.chr_ext_banks[register % 4] as int,
                offset,
            )
            &&& (v.ppu_read_mode == PpuMode::Sprites || (v.ppuctrl_monitor & 0b0010_0000) == 0)
                ==> v.banked_chr_read(address) == window_byte(
                v.chr_rom,
                size,
                v.chr_banks[register] as int,
                offset,
            )
        }),
{
    let len = v.chr_rom.len() as int;
    let size: int = if v.chr_mode == 0 {
        0x2000
    } else if v.chr_mode == 1 {
        0x1000
    } else if v.chr_mode == 2 {
        0x800
    } else {
        0x400
    };
    assert(len % size == 0) by {
        vstd::arithmetic::div_mod::lemma_fundamental_div_mod(len, 0x2000);
    }
    let register = (address as int / size + 1) * (size / 0x400) - 1;
    if v.chr_mode == 0 {
        assert(register == 7);
    } else if v.chr_mode == 1 {
        assert(register == (address as int / 0x1000 + 1) * 4 - 1);
    } else if v.chr_mode == 2 {
        assert(register == (address as int / 0x800 + 1) * 2 - 1);
    } else {
        assert(register == address as int / 0x400);
    }
    assert(0 <= register < 8);
    assert(crate::mmc::mmc5::chr_bank_size(v.chr_mode) == size);
    assert(crate::mmc::mmc5::chr_register_index(v.chr_mode, address) == register);
    lemma_whole_banks(len, size, v.chr_ext_banks[register % 4] as int, address as int);
    lemma_whole_banks(len, size, v.chr_banks[register] as int, address as int);
}

/// The scanline IRQ stays pending: within a frame, a scanline that does not
/// end the frame keeps a pending IRQ, and raises one when the new line number
/// equals the compare value; nothing else raises it.
pub proof fn lemma_scanline_irq_pending(v: Mmc5View)
    requires
        v.wf(),
        v.in_frame,
        v.current_scanline + 1 != 241,
    ensures
        v.scanline_detected().irq_pending == (v.irq_pending || v.current_scanline + 1
            == v.irq_scanline_compare),
        v.scanline_detected().in_frame,
        v.scanline_detected().current_scanline == v.current_scanline + 1,
{
}

/// CPU writes to the extended RAM at `$5C00-$5FFF`: in modes 0 and 1 the
/// byte is stored while the PPU renders and 0 is stored otherwise; in mode 2
/// the byte is stored; in mode 3 nothing changes. No other byte changes.
pub proof fn lemma_extram_cpu_write(v: Mmc5View, address: u16, data: u8, other: int)
    requires
        v.wf(),
        0x5C00 <= address <= 0x5FFF,
        0 <= other < 0x800,
        other != address - 0x5C00,
    ensures
        v.extended_ram_mode <= 1 && v.in_frame ==> v.cpu_written(address, data).extram[address
            - 0x5C00] == data,
        v.extended_ram_mode <= 1 && !v.in_frame ==> v.cpu_written(address, data).extram[address
            - 0x5C00] == 0,
        v.extended_ram_mode == 2 ==> v.cpu_written(address, data).extram[address - 0x5C00]
            == data,
        v.extended_ram_mode == 3 ==> v.cpu_written(address, data).extram == v.extram,
        v.cpu_written(address, data).extram[other] == v.extram[other],
        v.cpu_written(address, data).extram.len() == 0x800,
{
}

/// The duty of a pulse control write (`$5000`, `$5004`), by its top two
/// bits: 12.5%, 25%, 50% and 25% negated.
pub proof fn lemma_pulse_duty(address: u16, data: u8)
    requires
        address == 0x5000 || address == 0x5004,
    ensures
        ({
            let duty: u8 = if data / 64 == 0 {
                0b1000_0000
            } else if data / 64 == 1 {
                0b1100_0000
            } else if data / 64 == 2 {
                0b1111_0000
            } else {
                0b0011_1111
            };
            let control = PulseRegisterWrite::Control {
                duty,
                length_disable: data & 0b0010_0000 != 0,
                constant_volume: data & 0b0001_0000 != 0,
                volume: data % 16,
            };
            &&& address == 0x5000 ==> audio_write(address, data) == ExpansionAudioWrite::Pulse1(
                control,
            )
            &&& address == 0x5004 ==> audio_write(address, data) == ExpansionAudioWrite::Pulse2(
                control,
            )
        }),
{
    assert((data & 0b1100_0000) >> 6u8 == data / 64) by (bit_vector);
    assert(data & 0b0000_1111 == data % 16) by (bit_vector);
}

/// Nametable reads through the quadrant mapping: the 1K quadrant of
/// `address` (bits 10-11) selects a two-bit field of `$5105`, low quadrant
/// in the low bits; 0 and 1 read the two VRAM pages, 2 the extended RAM (0
/// in extended RAM modes 2 and 3), 3 the fill tile in the tile area and the
/// fill attribute in the attribute area (from offset `$3C0`).
pub proof fn lemma_nametable_quadrants(v: Mmc5View, address: u16)
    requires
        v.wf(),
    ensures
        ({
            let quadrant = (address as int % 0x1000) / 0x400;
            let offset = address as int % 0x400;
            let field = if quadrant == 0 {
                v.nametable_mapping as int % 4
            } else if quadrant == 1 {
                (v.nametable_mapping as int / 4) % 4
            } else if quadrant == 2 {
                (v.nametable_mapping as int / 16) % 4
            } else {
                v.nametable_mapping as int / 64
            };
            &&& field == 0 ==> v.nametable_read(address) == v.vram[offset]
            &&& field == 1 ==> v.nametable_read(address) == v.vram[0x400 + offset]
            &&& field == 2 ==> v.nametable_read(address) == if v.extended_ram_mode <= 1 {
                v.extram[offset]
            } else {
                0
            }
            &&& field == 3 ==> v.nametable_read(address) == if offset < 0x3C0 {
                v.fill_tile
            } else {
                v.fill_attr
            }
        }),
{
    let m = v.nametable_mapping;
    assert((address & 0x3FF) == address % 0x400) by (bit_vector);
    assert((address & 0xFFF) / 0x400 == (address % 0x1000) / 0x400) by (bit_vector);
    assert((m >> 0u16) & 3 == m % 4) by (bit_vector);
    assert((m >> 2u16) & 3 == (m / 4) % 4) by (bit_vector);
    assert((m >> 4u16) & 3 == (m / 16) % 4) by (bit_vector);
    assert((m >> 6u16) & 3 == m / 64) by (bit_vector);
    let q: u16 = (address & 0xFFF) / 0x400;
    assert(q <= 3) by (bit_vector)
        requires
            q == (address & 0xFFF) / 0x400,
    ;
    assert(q == 0 ==> ((q * 2) as u16) == 0u16);
    assert(q == 1 ==> ((q * 2) as u16) == 2u16);
    assert(q == 2 ==> ((q * 2) as u16) == 4u16);
    assert(q == 3 ==> ((q * 2) as u16) == 6u16);
}

/// An extended-RAM tile's CHR bank: the CHR high bits (`$5130`, in units of
/// 256 banks) plus the low six bits of the tile's extended RAM byte.
pub proof fn lemma_extended_chr_bank(v: Mmc5View)
    requires
        v.wf(),
        v.chr_bank_high_bits % 0x100 == 0,
    ensures
        v.extended_chr_bank() as int == v.chr_bank_high_bits as int * 64 + v.exram_tile_byte()
            as int % 64,
{
    let h = v.chr_bank_high_bits;
    let e = v.exram_tile_byte() as usize;
    assert((h << 6usize) | (e & 0b0011_1111) == h * 64 + e % 64) by (bit_vector)
        requires
            h <= 0x300,
            h % 0x100 == 0,
            e < 256,
    ;
}

} // verus!
