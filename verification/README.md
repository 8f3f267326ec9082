# rusticnes-core (verified parts)

Verus-verified models of three parts of a NES emulator core:

- `save_load`: the save-state byte stack (values appended little-endian,
  loaded back off the end), with round-trip laws.
- `apu::volume_envelope`: the volume envelope of the APU channels, with its
  decay period and save/load round trip proved.
- `mmc::mmc5`: the MMC5 mapper (PRG/CHR banking, nametable quadrants,
  extended RAM, scanline IRQ, multiplier, expansion audio register decoding);
  `mmc::mmc5_laws` states what reads give back of writes and the other
  properties that relate its operations.

`app/` connects the mapper to the emulator's `Mapper` trait, APU pulse
channels and cartridge header, which are not part of this crate.
