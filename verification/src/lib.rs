//! Emulation of the Game Boy audio processing unit: four sound channels, the
//! frame sequencer that clocks them, the register file at `0xFF10..=0xFF3F`,
//! and the stereo mixer, with every state transition stated as a contract.
//!
//! The CPU drives the unit through [`Sound::rb`], [`Sound::wb`] and
//! [`Sound::do_cycle`]. Time is counted in clocks of
//! [`CLOCKS_PER_SECOND`]; the unit never looks at a clock of its own. The
//! channels hand every change of their amplitude to a band-limited buffer
//! of the `blip_buf` crate, and `do_cycle` hands out the mix of what the
//! buffers make of them, one [`StereoFrame`] per output sample.
//!
//! Each type has a model in plain numbers: [`envelope::EnvelopeModel`],
//! [`square::SquareModel`], [`wave::WaveModel`], [`noise::NoiseModel`],
//! [`buffer::BlipModel`] and, for the unit as a whole, [`sound::ApuModel`].
//! The contracts of the executable functions say which function of the model
//! each of them computes, and the laws of the unit are proved of the models:
//!
//! - registers and wave RAM read back what was written
//!   ([`sound::lemma_register_round_trip`],
//!   [`sound::lemma_wave_ram_round_trip`]), and a unit that is off ignores
//!   writes ([`sound::lemma_off_ignores_writes`]);
//! - a channel whose length has run out goes silent and stays so
//!   (`lemma_expired_length_silences`), and a length of `l` runs out in `l`
//!   ticks (`lemma_length_countdown`), for each kind of channel;
//! - the envelope keeps its volume in range and ramps at its period
//!   ([`envelope::lemma_envelope_ramp`],
//!   [`envelope::lemma_envelope_reaches_top`]);
//! - a sweep that overflows silences channel 1
//!   ([`square::lemma_sweep_overflow`]);
//! - the shift register of the noise channel, tapped at bit 14, repeats
//!   after 32767 shifts and after no fewer, and puts out a 1 in 16384 of
//!   them ([`lfsr::lemma_wide_register_repeats`],
//!   [`lfsr::lemma_wide_register_least_period`],
//!   [`lfsr::lemma_wide_register_balance`]);
//! - what comes out depends on the writes and on the passing of the clocks
//!   alone: a channel can be run piece by piece (`lemma_ran_composes`), and
//!   reads are not heard ([`sound::lemma_reads_are_not_heard`]).
//!
//! What is assumed of the outside buffer, without proof, is gathered in
//! [`blip`].

pub mod blip;
pub mod buffer;
pub mod envelope;
pub mod lfsr;
pub mod mixer;
pub mod noise;
pub mod regs;
pub mod sound;
pub mod square;
pub mod wave;

pub use buffer::{CLOCKS_PER_SECOND, MIN_SAMPLE_RATE};
pub use envelope::VolumeEnvelope;
pub use mixer::{StereoFrame, MIX_SCALE};
pub use sound::{Sound, OUTPUT_SAMPLE_COUNT, SEQUENCER_PERIOD};
