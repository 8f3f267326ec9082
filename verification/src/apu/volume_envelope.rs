//! The volume envelope of a pulse or noise channel: a 4-bit volume that
//! either stays constant or decays from 15 towards 0, one step every
//! `volume_register + 1` clocks, optionally looping back to 15.
use vstd::prelude::*;
use crate::save_load::{
    bool_byte, load_bool, load_u8, save_bool, save_u8, top_bytes, without_top,
};

verus! {

/// The loudest volume an envelope decays from.
pub const MAX_DECAY: u8 = 15;

/// The number of bytes that `save_state` appends.
pub const SAVED_LEN: usize = 6;

pub struct VolumeEnvelopeState {
    pub volume_register: u8,
    pub decay: u8,
    pub divider: u8,
    pub enabled: bool,
    pub looping: bool,
    pub start_flag: bool,
}

impl VolumeEnvelopeState {
    /// The state after one envelope clock.
    pub open spec fn clocked(self) -> VolumeEnvelopeState {
        if self.start_flag {
            VolumeEnvelopeState {
                decay: 15,
                start_flag: false,
                divider: self.volume_register,
                ..self
            }
        } else if self.divider == 0 {
            VolumeEnvelopeState {
                divider: self.volume_register,
                decay: if self.decay > 0 {
                    (self.decay - 1) as u8
                } else if self.looping {
                    15
                } else {
                    self.decay
                },
                ..self
            }
        } else {
            VolumeEnvelopeState { divider: (self.divider - 1) as u8, ..self }
        }
    }

    /// The state after `k` envelope clocks.
    pub open spec fn clocked_times(self, k: nat) -> VolumeEnvelopeState
        decreases k,
    {
        if k == 0 {
            self
        } else {
            self.clocked().clocked_times((k - 1) as nat)
        }
    }

    /// The volume the envelope outputs: the decay level when the envelope is
    /// enabled, the constant volume register otherwise.
    pub open spec fn volume(self) -> u8 {
        if self.enabled {
            self.decay
        } else {
            self.volume_register
        }
    }

    /// The bytes that `save_state` appends, in the order it appends them.
    pub open spec fn saved_bytes(self) -> Seq<u8> {
        seq![
            self.volume_register,
            self.decay,
            self.divider,
            bool_byte(self.enabled),
            bool_byte(self.looping),
            bool_byte(self.start_flag),
        ]
    }

    /// The state that `load_state` reads from the last six bytes of a buffer.
    pub open spec fn from_saved_bytes(bytes: Seq<u8>) -> VolumeEnvelopeState {
        VolumeEnvelopeState {
            volume_register: bytes[0],
            decay: bytes[1],
            divider: bytes[2],
            enabled: bytes[3] != 0,
            looping: bytes[4] != 0,
            start_flag: bytes[5] != 0,
        }
    }

    pub fn new() -> (state: VolumeEnvelopeState)
        ensures
            state.volume_register == 0,
            state.decay == 0,
            state.divider == 0,
            !state.enabled,
            !state.looping,
            !state.start_flag,
    {
        VolumeEnvelopeState {
            volume_register: 0,
            decay: 0,
            divider: 0,
            enabled: false,
            looping: false,
            start_flag: false,
        }
    }

    pub fn current_volume(&self) -> (volume: u8)
        ensures
            volume == self.volume(),
    {
        if self.enabled {
            self.decay
        } else {
            self.volume_register
        }
    }

    /// One clock of the envelope: a pending start reloads the decay level
    /// to 15 and the divider to the volume register; otherwise the divider
    /// counts down, and when it has reached 0 it is reloaded and the decay
    /// level steps down by one (or loops back to 15 from 0).
    pub fn clock(&mut self)
        ensures
            *final(self) == old(self).clocked(),
    {
        if self.start_flag {
            self.decay = MAX_DECAY;
            self.start_flag = false;
            self.divider = self.volume_register;
        } else {
            if self.divider == 0 {
                self.divider = self.volume_register;
                if self.decay > 0 {
                    self.decay -= 1;
                } else {
                    if self.looping {
                        self.decay = MAX_DECAY;
                    }
                }
            } else {
                self.divider = self.divider - 1;
            }
        }
    }

    /// Appends the six state bytes; `load_state` takes them back off.
    pub fn save_state(&self, buff: &mut Vec<u8>)
        ensures
            final(buff)@ == old(buff)@ + self.saved_bytes(),
    {
        save_u8(buff, self.volume_register);
        save_u8(buff, self.decay);
        save_u8(buff, self.divider);
        save_bool(buff, self.enabled);
        save_bool(buff, self.looping);
        save_bool(buff, self.start_flag);
        assert(buff@ =~= old(buff)@ + self.saved_bytes());
    }

    /// Takes the six state bytes off the end of the buffer, in the reverse of
    /// the order in which `save_state` appended them.
    pub fn load_state(&mut self, buff: &mut Vec<u8>)
        requires
            old(buff)@.len() >= SAVED_LEN,
        ensures
            final(buff)@ == without_top(old(buff)@, SAVED_LEN as nat),
            *final(self) == Self::from_saved_bytes(top_bytes(old(buff)@, SAVED_LEN as nat)),
    {
        let ghost b = old(buff)@;
        let ghost n = b.len();
        load_bool(buff, &mut self.start_flag);
        load_bool(buff, &mut self.looping);
        load_bool(buff, &mut self.enabled);
        load_u8(buff, &mut self.divider);
        load_u8(buff, &mut self.decay);
        load_u8(buff, &mut self.volume_register);
        proof {
            let top = top_bytes(b, 6);
            assert(top[5] == b[n - 1]);
            assert(buff@ =~= without_top(b, 6));
        }
    }
}

/// Saving an envelope and loading it again gives the same envelope back and
/// leaves the buffer as it was before the save.
pub proof fn lemma_save_load_envelope(state: VolumeEnvelopeState, buff: Seq<u8>)
    ensures
        without_top(buff + state.saved_bytes(), SAVED_LEN as nat) == buff,
        VolumeEnvelopeState::from_saved_bytes(
            top_bytes(buff + state.saved_bytes(), SAVED_LEN as nat),
        ) == state,
{
    let all = buff + state.saved_bytes();
    assert(without_top(all, 6) =~= buff);
    assert(top_bytes(all, 6) =~= state.saved_bytes());
}

/// A clock never raises the decay level above 15.
pub proof fn lemma_clock_keeps_decay_bounded(state: VolumeEnvelopeState)
    requires
        state.decay <= MAX_DECAY,
    ensures
        state.clocked().decay <= MAX_DECAY,
{
}

/// A clock changes only the decay level, the divider and the start flag.
pub proof fn lemma_clock_keeps_registers(state: VolumeEnvelopeState)
    ensures
        state.clocked().volume_register == state.volume_register,
        state.clocked().enabled == state.enabled,
        state.clocked().looping == state.looping,
        !state.clocked().start_flag,
{
}

/// A silent envelope that does not loop stays silent.
pub proof fn lemma_clock_silent_stays_silent(state: VolumeEnvelopeState)
    requires
        !state.start_flag,
        !state.looping,
        state.decay == 0,
    ensures
        state.clocked().decay == 0,
{
}

/// While the divider counts down, `k` clocks take `k` off it and leave the
/// decay level alone.
proof fn lemma_divider_countdown(state: VolumeEnvelopeState, k: nat)
    requires
        !state.start_flag,
        k <= state.divider,
    ensures
        state.clocked_times(k) == (VolumeEnvelopeState {
            divider: (state.divider - k) as u8,
            ..state
        }),
    decreases k,
{
    if k > 0 {
        let next = state.clocked();
        lemma_divider_countdown(next, (k - 1) as nat);
    }
}

/// The decay period: from a divider at 0, `volume_register + 1` clocks take
/// the decay level down by exactly one step and bring the divider back to 0.
pub proof fn lemma_decay_period(state: VolumeEnvelopeState)
    requires
        !state.start_flag,
        state.divider == 0,
        state.decay > 0,
    ensures
        state.clocked_times(state.volume_register as nat + 1) == (VolumeEnvelopeState {
            decay: (state.decay - 1) as u8,
            ..state
        }),
{
    let next = state.clocked();
    lemma_divider_countdown(next, next.divider as nat);
    assert(state.clocked_times(state.volume_register as nat + 1) == next.clocked_times(
        state.volume_register as nat,
    ));
}

/// Restarting: a clock with the start flag set puts the decay level at 15 and
/// reloads the divider, whatever the state was.
pub proof fn lemma_clock_restart(state: VolumeEnvelopeState)
    requires
        state.start_flag,
    ensures
        state.clocked().decay == MAX_DECAY,
        state.clocked().divider == state.volume_register,
        !state.clocked().start_flag,
{
}

} // verus!
