//! The noise channel 4: a shift register with feedback, clocked at a
//! divided and shifted rate, whose output bit swings the envelope's volume
//! above and below zero.

use crate::blip::BlipOp;
use crate::buffer::{
    blip_model, close_frame, flush, lemma_delay_after, lemma_level_after_flush,
    lemma_level_after_frame, lemma_level_after_steps, lemma_level_changes_concat,
    lemma_next_step, lemma_no_step_yet, lemma_paced_steps, lemma_step_is_counted,
    lemma_steps_before, lemma_steps_split, lemma_takes_earlier, lemma_takes_with_ops,
    lemma_tame_delta, lemma_tame_steps, lemma_with_ops_twice, level_before, level_changes,
    set_level, steps_before, BlipModel, Step,
};
use crate::envelope::{EnvelopeModel, VolumeEnvelope};
use crate::regs::{lemma_byte_fields, NR41, NR43, NR44};
use blip_buf::BlipBuf;
use vstd::arithmetic::power2::{lemma2_to64, pow2};
use vstd::prelude::*;

verus! {

/// Bit `width` of the shift register, as 0 or 1: the bit that a shift puts
/// out. The register is tapped at bit 6 or at bit 14.
pub open spec fn tap(state: int, width: int) -> int {
    if width == 6 {
        (state / 64) % 2
    } else {
        (state / 16384) % 2
    }
}

/// The bit below the tap, as 0 or 1.
pub open spec fn tap_below(state: int, width: int) -> int {
    if width == 6 {
        (state / 32) % 2
    } else {
        (state / 8192) % 2
    }
}

/// The sixteen-bit shift register one shift on: every bit moves up one
/// place, the top bit is lost, and the bottom bit is set where the tap and
/// the bit below it differ.
pub open spec fn lfsr_next(state: int, width: int) -> int {
    (state % 0x8000) * 2 + if tap(state, width) != tap_below(state, width) {
        1int
    } else {
        0int
    }
}

/// The shift register `k` shifts on.
pub open spec fn lfsr_after(state: int, width: int, k: nat) -> int
    decreases k,
{
    if k == 0 {
        state
    } else {
        lfsr_next(lfsr_after(state, width, (k - 1) as nat), width)
    }
}

/// The clocks between two shifts that a byte written to `NR43` asks for: a
/// divider of 8, or of 16 times one more than the low three bits where
/// these are not 0, shifted left by the high nibble.
pub open spec fn noise_period(v: int) -> int {
    (if v % 8 == 0 {
        8
    } else {
        (v % 8 + 1) * 16
    }) * pow2((v / 16) as nat)
}

/// The amplitude that the register puts out at `volume`: above zero where
/// its next shift puts out a 1, below zero where it puts out a 0.
pub open spec fn noise_level(state: int, width: int, volume: int) -> int {
    if tap(state, width) == 1 {
        volume
    } else {
        -volume
    }
}

/// `count` steps of noise at `volume`: the first at clock `first` with the
/// register at `state`, then one in every `period` clocks, each a shift on.
#[verifier::opaque]
pub open spec fn noise_steps(
    first: int,
    count: int,
    period: int,
    state: int,
    width: int,
    volume: int,
) -> Seq<Step> {
    Seq::new(
        count as nat,
        |k: int|
            Step {
                time: first + k * period,
                level: noise_level(lfsr_after(state, width, k as nat), width, volume),
            },
    )
}

/// The state of the noise channel, as numbers.
pub struct NoiseModel {
    /// Whether the channel has been triggered.
    pub enabled: bool,
    /// Length ticks left, `0..=64`.
    pub length: int,
    /// The length that a trigger loads.
    pub new_length: int,
    /// Whether length ticks count.
    pub length_enabled: bool,
    /// The volume envelope.
    pub envelope: EnvelopeModel,
    /// Clocks per shift.
    pub period: int,
    /// The bit that is tapped, 6 or 14.
    pub shift_width: int,
    /// The shift register, sixteen bits.
    pub state: int,
    /// Clocks from the end of the last run to the next shift.
    pub delay: int,
    /// The amplitude that the buffer was last brought to.
    pub last_amp: int,
    /// The band-limited buffer.
    pub buffer: BlipModel,
}

impl NoiseModel {
    /// Every field is in its range, and the buffer stands at the amplitude
    /// that the channel remembers, with a history that keeps its sums in
    /// range.
    pub open spec fn wf(self) -> bool {
        &&& 0 <= self.length <= 64
        &&& 0 <= self.new_length <= 64
        &&& self.envelope.wf()
        &&& 8 <= self.period <= 0x40_0000
        &&& (self.shift_width == 6 || self.shift_width == 14)
        &&& 0 <= self.state <= 0xFFFF
        &&& 0 <= self.delay <= 0x40_0000
        &&& -15 <= self.last_amp <= 15
        &&& self.buffer.level() == self.last_amp
        &&& self.buffer.tame()
    }

    /// A channel that has not been written to, on `buffer`.
    pub open spec fn initial(buffer: BlipModel) -> NoiseModel {
        NoiseModel {
            enabled: false,
            length: 0,
            new_length: 0,
            length_enabled: false,
            envelope: EnvelopeModel::initial(),
            period: 2048,
            shift_width: 14,
            state: 1,
            delay: 0,
            last_amp: 0,
            buffer,
        }
    }

    /// What the channel reports of itself in the status register: it has
    /// been triggered, and its length has not run out.
    pub open spec fn on(self) -> bool {
        self.enabled && (self.length_enabled ==> self.length > 0)
    }

    /// Whether the channel puts out nothing: it is not enabled, its length
    /// has run out, or its volume is 0.
    pub open spec fn silent(self) -> bool {
        !self.enabled || (self.length_enabled && self.length == 0) || self.envelope.volume == 0
    }

    /// The channel after the byte `v` has been written to address `a`, before
    /// the envelope has seen the write.
    pub open spec fn registers_written(self, a: int, v: int) -> NoiseModel {
        if a == NR41 {
            NoiseModel { new_length: 64 - v % 64, ..self }
        } else if a == NR43 {
            NoiseModel {
                shift_width: if (v / 8) % 2 == 1 {
                    6
                } else {
                    14
                },
                period: noise_period(v),
                ..self
            }
        } else if a == NR44 && v >= 128 {
            NoiseModel { enabled: true, length: self.new_length, state: 0xFF, delay: 0, ..self }
        } else {
            self
        }
    }

    /// The channel after the byte `v` has been written to address `a`.
    pub open spec fn written(self, a: int, v: int) -> NoiseModel {
        let set = self.registers_written(a, v);
        NoiseModel { envelope: set.envelope.written(a, v), ..set }
    }

    /// The channel after one length tick.
    pub open spec fn length_stepped(self) -> NoiseModel {
        if self.length_enabled && self.length > 0 {
            NoiseModel { length: self.length - 1, ..self }
        } else {
            self
        }
    }

    /// The channel after `n` length ticks.
    pub open spec fn length_stepped_by(self, n: nat) -> NoiseModel
        decreases n,
    {
        if n == 0 {
            self
        } else {
            self.length_stepped_by((n - 1) as nat).length_stepped()
        }
    }

    /// The channel after one envelope tick.
    pub open spec fn envelope_stepped(self) -> NoiseModel {
        NoiseModel { envelope: self.envelope.stepped(), ..self }
    }

    /// The steps that the noise takes in a run from clock `start` to clock
    /// `end`: the first when the delay has passed, then one in every period,
    /// as long as they lie before `end`.
    pub open spec fn steps(self, start: int, end: int) -> Seq<Step> {
        noise_steps(
            start + self.delay,
            steps_before(start + self.delay, end, self.period),
            self.period,
            self.state,
            self.shift_width,
            self.envelope.volume,
        )
    }

    /// The deltas that a run from clock `start` to clock `end` of the frame
    /// hands to the buffer: from a silent channel the one that takes the
    /// buffer to zero at `start`, if it is not there yet; from another one
    /// for every step at which the amplitude changes.
    pub open spec fn emitted(self, start: int, end: int) -> Seq<BlipOp> {
        if self.silent() {
            if self.last_amp != 0 {
                seq![BlipOp::Delta { time: start, delta: -self.last_amp }]
            } else {
                Seq::empty()
            }
        } else {
            level_changes(self.last_amp, self.steps(start, end))
        }
    }

    /// The channel after it has run from clock `start` to clock `end` of the
    /// frame. A silent channel brings its buffer to zero at `start`, if it
    /// is not there yet, and forgets its delay. Another shifts its register
    /// once in every period, hands the buffer a delta wherever the
    /// amplitude changes, and keeps as delay the clocks from `end` to its
    /// next shift.
    #[verifier::opaque]
    pub open spec fn ran(self, start: int, end: int) -> NoiseModel {
        let buffer = self.buffer.with_ops(self.emitted(start, end));
        if self.silent() {
            if self.last_amp != 0 {
                NoiseModel { last_amp: 0, delay: 0, buffer, ..self }
            } else {
                NoiseModel { buffer, ..self }
            }
        } else {
            let steps = self.steps(start, end);
            NoiseModel {
                state: lfsr_after(self.state, self.shift_width, steps.len()),
                last_amp: level_before(self.last_amp, steps, steps.len() as int),
                delay: start + self.delay + steps.len() * self.period - end,
                buffer,
                ..self
            }
        }
    }

    /// The channel after the frame has ended at clock `t` and its samples
    /// have been taken.
    pub open spec fn frame_closed(self, t: int) -> NoiseModel {
        NoiseModel { buffer: self.buffer.next_frame(t), ..self }
    }
}

/// The noise channel.
pub struct NoiseChannel {
    enabled: bool,
    length: u8,
    new_length: u8,
    length_enabled: bool,
    volume_envelope: VolumeEnvelope,
    period: u32,
    shift_width: u8,
    state: u16,
    delay: u32,
    last_amp: i32,
    blip: BlipBuf,
}

impl View for NoiseChannel {
    type V = NoiseModel;

    closed spec fn view(&self) -> NoiseModel {
        NoiseModel {
            enabled: self.enabled,
            length: self.length as int,
            new_length: self.new_length as int,
            length_enabled: self.length_enabled,
            envelope: self.volume_envelope@,
            period: self.period as int,
            shift_width: self.shift_width as int,
            state: self.state as int,
            delay: self.delay as int,
            last_amp: self.last_amp as int,
            buffer: blip_model(self.blip),
        }
    }
}

/// One shift of the register, in bits: the shifted register with the
/// feedback bit in its lowest place, and the bit that the shift puts out.
proof fn lemma_shift_bits(state: u16, width: u16)
    by (bit_vector)
    requires
        width == 6 || width == 14,
    ensures
        width == 6 ==> (state >> width) & 1 == (state / 64) % 2,
        width == 14 ==> (state >> width) & 1 == (state / 16384) % 2,
        width == 6 ==> ((state << 1u16) >> width) & 1 == (state / 32) % 2,
        width == 14 ==> ((state << 1u16) >> width) & 1 == (state / 8192) % 2,
        (((state >> width) ^ ((state << 1u16) >> width)) & 1 == 1) == (((state >> width) & 1) != (((
        state << 1u16) >> width) & 1)),
        (((state >> width) ^ ((state << 1u16) >> width)) & 1 == 0) == (((state >> width) & 1) == (((
        state << 1u16) >> width) & 1)),
        (state << 1u16) | 1 == (state % 0x8000) * 2 + 1,
        (state << 1u16) | 0 == (state % 0x8000) * 2,
{
}

/// Shifts the register once: the register after the shift, and whether the
/// shift puts out a 1.
pub fn lfsr_shift(state: u16, shift_width: u8) -> (shifted: (u16, bool))
    requires
        shift_width == 6 || shift_width == 14,
    ensures
        shifted.0 == lfsr_next(state as int, shift_width as int),
        shifted.1 == (tap(state as int, shift_width as int) == 1),
{
    let width = shift_width as u16;
    proof {
        lemma_shift_bits(state, width);
    }
    let moved = state << 1u16;
    let bit = ((state >> width) ^ (moved >> width)) & 1;
    let out = (state >> width) & 1;
    (moved | bit, out != 0)
}

/// Plays noise into `blip`, from clock `start_time` to clock `end_time` of
/// the frame: the first shift when `delay` has passed, then one in every
/// `period` clocks, with a delta wherever the amplitude changes. Hands back
/// the register and the amplitude that the noise has come to, and the
/// clocks from `end_time` to its next shift.
fn play(
    blip: &mut BlipBuf,
    start_time: u32,
    end_time: u32,
    shift_width: u8,
    state: u16,
    vol: i32,
    last_amp: i32,
    period: u32,
    delay: u32,
) -> (after: (u16, i32, u32))
    requires
        blip_model(*old(blip)).takes(end_time as int),
        blip_model(*old(blip)).tame(),
        blip_model(*old(blip)).reach() <= start_time,
        blip_model(*old(blip)).level() == last_amp,
        start_time <= end_time,
        shift_width == 6 || shift_width == 14,
        0 <= vol <= 15,
        -15 <= last_amp <= 15,
        0 < period,
    ensures
        ({
            let count = steps_before(start_time + delay, end_time as int, period as int);
            let steps = noise_steps(
                start_time + delay,
                count,
                period as int,
                state as int,
                shift_width as int,
                vol as int,
            );
            &&& blip_model(*final(blip)) == blip_model(*old(blip)).with_ops(
                level_changes(last_amp as int, steps),
            )
            &&& after.0 == lfsr_after(state as int, shift_width as int, count as nat)
            &&& after.1 == level_before(last_amp as int, steps, count)
            &&& after.2 == start_time + delay + count * period - end_time
        }),
        blip_model(*final(blip)).tame(),
        blip_model(*final(blip)).level() == after.1,
        start_time < end_time ==> blip_model(*final(blip)).reach() <= end_time,
{
    let ghost buffer = blip_model(*blip);
    let ghost first = start_time as int + delay;
    let ghost count = steps_before(first, end_time as int, period as int);
    let ghost steps = noise_steps(
        first,
        count,
        period as int,
        state as int,
        shift_width as int,
        vol as int,
    );
    let ghost k: int = 0;
    let mut now = state;
    let mut amp = last_amp;
    let mut time: u64 = start_time as u64 + delay as u64;
    proof {
        reveal(noise_steps);
        lemma_no_step_yet(buffer, last_amp as int, steps);
        lemma_delay_after(first, end_time as int, period as int);
    }
    while time < end_time as u64
        invariant
            buffer.takes(end_time as int),
            0 < period,
            0 <= vol <= 15,
            shift_width == 6 || shift_width == 14,
            first == start_time + delay,
            count == steps_before(first, end_time as int, period as int),
            steps == noise_steps(
                first,
                count,
                period as int,
                state as int,
                shift_width as int,
                vol as int,
            ),
            0 <= k <= count,
            time == first + k * period,
            k > 0 ==> first + (k - 1) * period < end_time,
            now == lfsr_after(state as int, shift_width as int, k as nat),
            amp == level_before(last_amp as int, steps, k),
            -15 <= amp <= 15,
            blip_model(*blip) == buffer.with_ops(level_changes(last_amp as int, steps.take(k))),
            blip_model(*blip).tame(),
            blip_model(*blip).level() == amp,
            blip_model(*blip).reach() <= time,
            k > 0 ==> blip_model(*blip).reach() <= time - period + 1,
            k == 0 ==> blip_model(*blip).reach() <= start_time,
        decreases end_time + period - time,
    {
        proof {
            reveal(noise_steps);
            lemma_step_is_counted(first, end_time as int, period as int, k);
            lemma_next_step(buffer, last_amp as int, steps, k);
            lemma_takes_earlier(buffer, time as int, end_time as int);
            lemma_takes_with_ops(
                buffer,
                level_changes(last_amp as int, steps.take(k)),
                time as int,
            );
            assert((k + 1) * period == k * period + period) by (nonlinear_arith);
            assert(lfsr_after(state as int, shift_width as int, (k + 1) as nat) == lfsr_next(
                lfsr_after(state as int, shift_width as int, k as nat),
                shift_width as int,
            ));
        }
        let (shifted, high) = lfsr_shift(now, shift_width);
        let next = if high {
            vol
        } else {
            -vol
        };
        set_level(blip, amp, time as u32, next);
        amp = next;
        time += period as u64;
        now = shifted;
        proof {
            k = k + 1;
        }
    }
    proof {
        reveal(noise_steps);
        lemma_steps_before(first, end_time as int, period as int, k);
        assert(steps.take(k) =~= steps);
    }
    (now, amp, (time - end_time as u64) as u32)
}

impl NoiseChannel {
    /// A channel that has not been written to, on a buffer that has not been
    /// used.
    pub(crate) fn new(blip: BlipBuf) -> (c: NoiseChannel)
        requires
            blip_model(blip).history.len() == 0,
        ensures
            c@ == NoiseModel::initial(blip_model(blip)),
            c@.wf(),
    {
        NoiseChannel {
            enabled: false,
            length: 0,
            new_length: 0,
            length_enabled: false,
            volume_envelope: VolumeEnvelope::new(),
            period: 2048,
            shift_width: 14,
            state: 1,
            delay: 0,
            last_amp: 0,
            blip,
        }
    }

    /// Takes the write of `v` to address `a`.
    pub fn wb(&mut self, a: u16, v: u8)
        requires
            old(self)@.wf(),
        ensures
            final(self)@ == old(self)@.written(a as int, v as int),
            final(self)@.wf(),
    {
        proof {
            lemma_byte_fields(v);
            lemma_written_wf(self@, a as int, v as int);
        }
        if a == NR41 {
            self.new_length = 64 - (v & 0x3F);
        } else if a == NR43 {
            self.shift_width = if v & 8 == 8 {
                6
            } else {
                14
            };
            let freq_div: u32 = if v & 7 == 0 {
                8
            } else {
                ((v & 7) as u32 + 1) * 16
            };
            let shift = (v >> 4) as u32;
            proof {
                lemma_noise_period(v as int);
                vstd::bits::lemma_u32_shl_is_mul(freq_div, shift);
            }
            self.period = freq_div << shift;
        } else if a == NR44 {
            if v & 0x80 == 0x80 {
                self.enabled = true;
                self.length = self.new_length;
                self.state = 0xFF;
                self.delay = 0;
            }
        }
        self.volume_envelope.wb(a, v);
    }

    /// Whether the channel reports itself as on.
    pub fn on(&self) -> (on: bool)
        ensures
            on == self@.on(),
    {
        self.enabled && (!self.length_enabled || self.length != 0)
    }

    /// Runs the channel from clock `start_time` to clock `end_time` of the
    /// frame. No envelope or length tick falls in between. The frame has
    /// been handed no delta at `start_time` or later. A channel whose
    /// length has run out takes its buffer to zero and keeps its place.
    pub fn run(&mut self, start_time: u32, end_time: u32)
        requires
            old(self)@.wf(),
            start_time <= end_time,
            old(self)@.buffer.takes(end_time as int),
            old(self)@.buffer.reach() <= start_time,
        ensures
            final(self)@ == old(self)@.ran(start_time as int, end_time as int),
            final(self)@.wf(),
            start_time < end_time ==> final(self)@.buffer.reach() <= end_time,
            old(self)@.length_enabled && old(self)@.length == 0 ==> {
                &&& final(self)@.last_amp == 0
                &&& final(self)@.state == old(self)@.state
                &&& final(self)@.buffer.history == old(self)@.buffer.history + flush(
                    old(self)@.last_amp,
                    start_time as int,
                )
            },
    {
        let ghost before = self@;
        proof {
            reveal(NoiseModel::ran);
            reveal(noise_steps);
            lemma_takes_earlier(before.buffer, start_time as int, end_time as int);
            lemma_ran_wf(before, start_time as int, end_time as int);
            lemma_tame_delta(before.buffer, start_time as int, -before.last_amp);
        }
        let vol: i32 = self.volume_envelope.volume() as i32;
        if !self.enabled || (self.length_enabled && self.length == 0) || vol == 0 {
            set_level(&mut self.blip, self.last_amp, start_time, 0);
            if self.last_amp != 0 {
                self.last_amp = 0;
                self.delay = 0;
            }
        } else {
            let (state, last_amp, delay) = play(
                &mut self.blip,
                start_time,
                end_time,
                self.shift_width,
                self.state,
                vol,
                self.last_amp,
                self.period,
                self.delay,
            );
            self.state = state;
            self.last_amp = last_amp;
            self.delay = delay;
        }
    }

    /// Takes one length tick.
    pub fn step_length(&mut self)
        requires
            old(self)@.wf(),
        ensures
            final(self)@ == old(self)@.length_stepped(),
            final(self)@.wf(),
    {
        if self.length_enabled && self.length != 0 {
            self.length -= 1;
        }
    }

    /// Takes one envelope tick.
    pub fn step_envelope(&mut self)
        requires
            old(self)@.wf(),
        ensures
            final(self)@ == old(self)@.envelope_stepped(),
            final(self)@.wf(),
    {
        self.volume_envelope.step();
    }

    /// Ends the frame at clock `t` and hands out its samples.
    pub(crate) fn end_frame(&mut self, t: u32) -> (samples: Vec<i16>)
        requires
            old(self)@.wf(),
            old(self)@.buffer.takes(t as int),
            old(self)@.buffer.ready.len() == 0,
            old(self)@.buffer.reach() <= t,
        ensures
            samples@ == old(self)@.buffer.frame_samples(t as int),
            samples@.len() == old(self)@.buffer.position(t as int),
            final(self)@ == old(self)@.frame_closed(t as int),
            final(self)@.wf(),
    {
        proof {
            lemma_frame_closed_wf(self@, t as int);
        }
        close_frame(&mut self.blip, t)
    }
}

/// The period that a byte asks for lies between 8 clocks and `2^22`.
pub proof fn lemma_noise_period(v: int)
    requires
        0 <= v <= 255,
    ensures
        8 <= noise_period(v) <= 0x40_0000,
        pow2((v / 16) as nat) <= 0x8000,
{
    lemma2_to64();
    let s = v / 16;
    assert(s == 0 || s == 1 || s == 2 || s == 3 || s == 4 || s == 5 || s == 6 || s == 7 || s == 8
        || s == 9 || s == 10 || s == 11 || s == 12 || s == 13 || s == 14 || s == 15);
    let d = if v % 8 == 0 {
        8
    } else {
        (v % 8 + 1) * 16
    };
    assert(8 <= d <= 128);
    assert(8 <= d * pow2(s as nat) <= 0x40_0000) by (nonlinear_arith)
        requires
            8 <= d <= 128,
            1 <= pow2(s as nat) <= 0x8000,
    ;
}

/// The shift register stays within sixteen bits.
pub proof fn lemma_lfsr_in_range(state: int, width: int, k: nat)
    requires
        0 <= state <= 0xFFFF,
    ensures
        0 <= lfsr_after(state, width, k) <= 0xFFFF,
    decreases k,
{
    if k > 0 {
        lemma_lfsr_in_range(state, width, (k - 1) as nat);
    }
}

/// A write leaves every field in its range.
pub proof fn lemma_written_wf(m: NoiseModel, a: int, v: int)
    requires
        m.wf(),
        0 <= v <= 255,
    ensures
        m.written(a, v).wf(),
{
    lemma_noise_period(v);
}

/// A run leaves every field in its range, the buffer at the amplitude that
/// the channel remembers, and the buffer's history tame; a run that ends
/// after it begins hands the buffer no delta at its end or later. The
/// frame has reached no further than the clock at which the run begins.
pub proof fn lemma_ran_wf(m: NoiseModel, start: int, end: int)
    requires
        m.wf(),
        0 <= start <= end,
        m.buffer.reach() <= start,
    ensures
        m.ran(start, end).wf(),
        start < end ==> m.ran(start, end).buffer.reach() <= end,
{
    reveal(NoiseModel::ran);
    reveal(noise_steps);
    if m.silent() {
        lemma_level_after_flush(m.buffer, m.last_amp, start);
        lemma_tame_delta(m.buffer, start, -m.last_amp);
    } else {
        let steps = m.steps(start, end);
        let first = start + m.delay;
        lemma_level_after_steps(m.buffer, m.last_amp, steps);
        lemma_delay_after(first, end, m.period);
        lemma_paced_steps(steps, first, end, m.period);
        lemma_lfsr_in_range(m.state, m.shift_width, steps.len());
        assert forall|j: int| 0 <= j < steps.len() implies -15 <= (#[trigger] steps[j]).level
            <= 15 by {}
        lemma_tame_steps(m.buffer, m.last_amp, steps, end);
    }
}

/// Nothing but a run and the end of a frame touches the buffer, and a run
/// does no more to it than to add to its history.
pub proof fn lemma_buffer_kept(m: NoiseModel, a: int, v: int, start: int, end: int)
    ensures
        m.written(a, v).buffer == m.buffer,
        m.length_stepped().buffer == m.buffer,
        m.envelope_stepped().buffer == m.buffer,
        m.ran(start, end).buffer == m.buffer.with_ops(m.emitted(start, end)),
        m.ran(start, end).buffer.same_clock(m.buffer),
{
    reveal(NoiseModel::ran);
}

/// Shifts add up: `a` shifts and then `b` more are `a + b` shifts.
pub proof fn lemma_lfsr_after_sum(state: int, width: int, a: nat, b: nat)
    ensures
        lfsr_after(lfsr_after(state, width, a), width, b) == lfsr_after(state, width, a + b),
    decreases b,
{
    if b > 0 {
        lemma_lfsr_after_sum(state, width, a, (b - 1) as nat);
    }
}

/// The steps of noise in two parts: the first `early` of them, and the rest
/// from the clock and the register that follow.
pub proof fn lemma_noise_steps_split(
    first: int,
    early: int,
    late: int,
    period: int,
    state: int,
    width: int,
    volume: int,
)
    requires
        0 <= early,
        0 <= late,
    ensures
        noise_steps(first, early + late, period, state, width, volume) == noise_steps(
            first,
            early,
            period,
            state,
            width,
            volume,
        ) + noise_steps(
            first + early * period,
            late,
            period,
            lfsr_after(state, width, early as nat),
            width,
            volume,
        ),
{
    reveal(noise_steps);
    let all = noise_steps(first, early + late, period, state, width, volume);
    let head = noise_steps(first, early, period, state, width, volume);
    let tail = noise_steps(
        first + early * period,
        late,
        period,
        lfsr_after(state, width, early as nat),
        width,
        volume,
    );
    assert forall|k: int| 0 <= k < early + late implies all[k] == (head + tail)[k] by {
        if k >= early {
            assert((early + (k - early)) * period == early * period + (k - early) * period)
                by (nonlinear_arith);
            lemma_lfsr_after_sum(state, width, early as nat, (k - early) as nat);
        }
    }
    assert(all =~= head + tail);
}

/// What a run does to a channel that is silent.
proof fn lemma_ran_silent(m: NoiseModel, start: int, end: int)
    requires
        m.silent(),
    ensures
        m.ran(start, end) == (NoiseModel {
            last_amp: 0,
            delay: if m.last_amp != 0 {
                0
            } else {
                m.delay
            },
            buffer: m.buffer.with_ops(m.emitted(start, end)),
            ..m
        }),
        m.ran(start, end).silent(),
        m.emitted(start, end) == m.emitted(start, start),
        m.last_amp == 0 ==> m.emitted(start, end) == Seq::<BlipOp>::empty(),
{
    reveal(NoiseModel::ran);
}

/// What a run does to a channel that sounds.
proof fn lemma_ran_sounding(m: NoiseModel, start: int, end: int)
    requires
        m.period > 0,
        !m.silent(),
    ensures
        m.ran(start, end) == (NoiseModel {
            state: lfsr_after(
                m.state,
                m.shift_width,
                steps_before(start + m.delay, end, m.period) as nat,
            ),
            last_amp: level_before(
                m.last_amp,
                m.steps(start, end),
                steps_before(start + m.delay, end, m.period),
            ),
            delay: start + m.delay + steps_before(start + m.delay, end, m.period) * m.period
                - end,
            buffer: m.buffer.with_ops(level_changes(m.last_amp, m.steps(start, end))),
            ..m
        }),
        !m.ran(start, end).silent(),
        m.steps(start, end).len() == steps_before(start + m.delay, end, m.period),
{
    reveal(NoiseModel::ran);
    reveal(noise_steps);
    lemma_delay_after(start + m.delay, end, m.period);
}

/// The run of a silent channel in two parts is the run in one.
proof fn lemma_silent_run_composes(m: NoiseModel, start: int, middle: int, end: int)
    requires
        m.silent(),
    ensures
        m.ran(start, middle).ran(middle, end) == m.ran(start, end),
{
    let half = m.ran(start, middle);
    lemma_ran_silent(m, start, middle);
    lemma_ran_silent(m, start, end);
    lemma_ran_silent(half, middle, end);
    lemma_with_ops_twice(m.buffer, m.emitted(start, middle), half.emitted(middle, end));
    assert(m.emitted(start, middle) + Seq::<BlipOp>::empty() =~= m.emitted(start, middle));
}

/// The run of a channel that sounds in two parts is the run in one.
proof fn lemma_sounding_run_composes(m: NoiseModel, start: int, middle: int, end: int)
    requires
        m.period > 0,
        !m.silent(),
        start <= middle <= end,
    ensures
        m.ran(start, middle).ran(middle, end) == m.ran(start, end),
{
    let half = m.ran(start, middle);
    lemma_ran_sounding(m, start, middle);
    lemma_ran_sounding(m, start, end);
    lemma_ran_sounding(half, middle, end);
    let first = start + m.delay;
    let early = steps_before(first, middle, m.period);
    let late = steps_before(first + early * m.period, end, m.period);
    lemma_steps_split(first, middle, end, m.period);
    lemma_noise_steps_split(
        first,
        early,
        late,
        m.period,
        m.state,
        m.shift_width,
        m.envelope.volume,
    );
    lemma_level_changes_concat(m.last_amp, m.steps(start, middle), half.steps(middle, end));
    lemma_with_ops_twice(
        m.buffer,
        level_changes(m.last_amp, m.steps(start, middle)),
        level_changes(half.last_amp, half.steps(middle, end)),
    );
    assert((early + late) * m.period == early * m.period + late * m.period)
        by (nonlinear_arith);
    lemma_lfsr_after_sum(m.state, m.shift_width, early as nat, late as nat);
}

/// A run in two parts leaves the channel and its buffer as the run in one
/// does: the channel can be brought up to the clock at any time in between
/// without a change to what it puts out.
pub proof fn lemma_ran_composes(m: NoiseModel, start: int, middle: int, end: int)
    requires
        m.wf(),
        0 <= start <= middle <= end,
    ensures
        m.ran(start, middle).ran(middle, end) == m.ran(start, end),
{
    if m.silent() {
        lemma_silent_run_composes(m, start, middle, end);
    } else {
        lemma_sounding_run_composes(m, start, middle, end);
    }
}

/// Closing a frame changes no amplitude.
pub proof fn lemma_frame_closed_wf(m: NoiseModel, t: int)
    requires
        m.wf(),
        m.buffer.reach() <= t,
    ensures
        m.frame_closed(t).wf(),
        m.frame_closed(t).buffer.reach() == 0,
{
    lemma_level_after_frame(m.buffer, t);
}

/// A channel whose length has run out puts out the one delta that takes its
/// buffer to zero, unless it stands there already, and nothing after that:
/// a further run finds nothing to do. It keeps its place in its waveform.
pub proof fn lemma_expired_length_silences(
    m: NoiseModel,
    start: int,
    end: int,
    next_start: int,
    next_end: int,
)
    requires
        m.wf(),
        m.length_enabled,
        m.length == 0,
    ensures
        m.emitted(start, end) == flush(m.last_amp, start),
        m.ran(start, end).buffer.history == m.buffer.history + flush(m.last_amp, start),
        m.ran(start, end).buffer.level() == 0,
        m.ran(start, end).last_amp == 0,
        m.ran(start, end).state == m.state,
        m.ran(start, end).emitted(next_start, next_end) == Seq::<BlipOp>::empty(),
        m.ran(start, end).ran(next_start, next_end) == m.ran(start, end),
{
    let once = m.ran(start, end);
    lemma_ran_silent(m, start, end);
    lemma_ran_silent(once, next_start, next_end);
    lemma_level_after_flush(m.buffer, m.last_amp, start);
    assert(once.buffer.history + Seq::<BlipOp>::empty() =~= once.buffer.history);
}

/// With its length counter on, a channel of length `l` above 0 reports
/// itself on, if it is enabled, through `l - 1` length ticks, and off from
/// tick `l` on.
pub proof fn lemma_length_countdown(m: NoiseModel, n: nat)
    requires
        m.length_enabled,
        m.length >= 1,
    ensures
        m.length_stepped_by(n) == (NoiseModel {
            length: if n < m.length {
                m.length - n
            } else {
                0
            },
            ..m
        }),
        n < m.length ==> m.length_stepped_by(n).on() == m.enabled,
        n >= m.length ==> !m.length_stepped_by(n).on(),
    decreases n,
{
    if n > 0 {
        lemma_length_countdown(m, (n - 1) as nat);
    }
}

} // verus!
