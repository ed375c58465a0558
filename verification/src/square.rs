//! The square channels 1 and 2: an eight-step duty waveform at an
//! eleven-bit frequency, with a length counter, a volume envelope and, on
//! channel 1, a frequency sweep.

use crate::blip::BlipOp;
use crate::buffer::{
    blip_model, close_frame, flush, lemma_delay_after, lemma_level_after_flush,
    lemma_level_after_frame, lemma_level_after_steps, lemma_level_changes_concat,
    lemma_next_step, lemma_no_step_yet, lemma_paced_steps, lemma_step_is_counted,
    lemma_steps_before, lemma_steps_split, lemma_takes_earlier, lemma_takes_with_ops,
    lemma_tame_delta, lemma_tame_steps, lemma_with_ops_twice, level_before, level_changes,
    set_level, steps_before, BlipModel, Step,
};
use crate::envelope::{EnvelopeModel, VolumeEnvelope};
use crate::regs::{
    lemma_byte_fields, lemma_frequency_fields, lemma_shift_right, shifted_right, NR10, NR11, NR13,
    NR14, NR21, NR23, NR24,
};
use blip_buf::BlipBuf;
use vstd::prelude::*;

verus! {

/// Whether the waveform of `duty` is high in `phase`: one, two, four or six
/// of the eight phases, for a duty of 12.5, 25, 50 or 75 percent.
#[verifier::opaque]
pub open spec fn duty_high(duty: int, phase: int) -> bool {
    if duty == 0 {
        phase == 4
    } else if duty == 1 {
        4 <= phase <= 5
    } else if duty == 2 {
        2 <= phase <= 5
    } else {
        !(4 <= phase <= 5)
    }
}

/// The clocks between two steps of a square wave of `frequency`; 0 for a
/// frequency out of range, which silences the channel.
pub open spec fn square_period(frequency: int) -> int {
    if frequency >= 2048 {
        0
    } else {
        (2048 - frequency) * 4
    }
}

/// The amplitude of a square wave of `duty` at `volume`, `phase` phases on
/// from the first of its eight.
pub open spec fn square_level(duty: int, phase: int, volume: int) -> int {
    if duty_high(duty, phase % 8) {
        volume
    } else {
        -volume
    }
}

/// `count` steps of a square wave of `duty` at `volume`: the first at clock
/// `first` and in `phase`, then one in every `period` clocks, each a phase
/// on.
#[verifier::opaque]
pub open spec fn square_steps(
    first: int,
    count: int,
    period: int,
    duty: int,
    phase: int,
    volume: int,
) -> Seq<Step> {
    Seq::new(
        count as nat,
        |k: int| Step { time: first + k * period, level: square_level(duty, phase + k, volume) },
    )
}

/// The state of a square channel, as numbers.
pub struct SquareModel {
    /// Whether the channel has been triggered.
    pub enabled: bool,
    /// The waveform, `0..=3`.
    pub duty: int,
    /// The step of the waveform that comes next, `0..=7`.
    pub phase: int,
    /// Length ticks left, `0..=64`.
    pub length: int,
    /// The length that a trigger or a write of the low frequency byte loads.
    pub new_length: int,
    /// Whether length ticks count.
    pub length_enabled: bool,
    /// The frequency, `0..=2047`, or 2048 after a sweep has overflowed.
    pub frequency: int,
    /// Clocks per step of the waveform; 0 silences the channel.
    pub period: int,
    /// The amplitude that the buffer was last brought to.
    pub last_amp: int,
    /// Clocks from the end of the last run to the next step.
    pub delay: int,
    /// Whether this is channel 1, which sweeps.
    pub has_sweep: bool,
    /// The frequency that the next sweep step loads.
    pub sweep_frequency: int,
    /// Sweep ticks until the next sweep step.
    pub sweep_delay: int,
    /// Sweep ticks per sweep step, `0..=7`; 0 stops the sweep.
    pub sweep_period: int,
    /// The sweep moves the frequency by itself shifted right this far.
    pub sweep_shift: int,
    /// Whether the sweep raises the frequency.
    pub sweep_by_adding: bool,
    /// The volume envelope.
    pub envelope: EnvelopeModel,
    /// The band-limited buffer.
    pub buffer: BlipModel,
}

impl SquareModel {
    /// Every field is in its range, an enabled channel has the period of its
    /// frequency, and the buffer stands at the amplitude that the channel
    /// remembers, with a history that keeps its sums in range.
    pub open spec fn wf(self) -> bool {
        &&& self.enabled ==> self.period == square_period(self.frequency)
        &&& 0 <= self.duty <= 3
        &&& 0 <= self.phase <= 7
        &&& 0 <= self.length <= 64
        &&& 0 <= self.new_length <= 64
        &&& 0 <= self.frequency <= 2048
        &&& 0 <= self.period <= 8192
        &&& -15 <= self.last_amp <= 15
        &&& 0 <= self.delay <= 8192
        &&& 0 <= self.sweep_frequency <= 2048
        &&& 0 <= self.sweep_delay <= 7
        &&& 0 <= self.sweep_period <= 7
        &&& 0 <= self.sweep_shift <= 7
        &&& self.envelope.wf()
        &&& self.buffer.level() == self.last_amp
        &&& self.buffer.tame()
    }

    /// A channel that has not been written to, on `buffer`.
    pub open spec fn initial(with_sweep: bool, buffer: BlipModel) -> SquareModel {
        SquareModel {
            enabled: false,
            duty: 1,
            phase: 1,
            length: 0,
            new_length: 0,
            length_enabled: false,
            frequency: 0,
            period: 2048,
            last_amp: 0,
            delay: 0,
            has_sweep: with_sweep,
            sweep_frequency: 0,
            sweep_delay: 0,
            sweep_period: 0,
            sweep_shift: 0,
            sweep_by_adding: false,
            envelope: EnvelopeModel::initial(),
            buffer,
        }
    }

    /// What the channel reports of itself in the status register: it has
    /// been triggered, and its length has not run out.
    pub open spec fn on(self) -> bool {
        self.enabled && (self.length_enabled ==> self.length > 0)
    }

    /// Whether the channel puts out nothing: it is not enabled, its length
    /// has run out, or its frequency is out of range.
    pub open spec fn silent(self) -> bool {
        !self.enabled || (self.length == 0 && self.length_enabled) || self.period == 0
    }

    /// The channel with `frequency`, and the period that goes with it.
    pub open spec fn tuned_to(self, frequency: int) -> SquareModel {
        SquareModel { frequency, period: square_period(frequency), ..self }
    }

    /// The channel after one sweep tick. Without a sweep, or with a sweep
    /// period of 0, nothing happens. Else the sweep delay counts down; where
    /// it runs out it starts again from the sweep period, the channel takes
    /// the sweep frequency, and the sweep frequency moves by itself shifted
    /// right: down and no lower than 0, or up, where reaching 2048 stops
    /// the sweep delay and leaves 2048 to be loaded by the next step.
    pub open spec fn sweep_stepped(self) -> SquareModel {
        if !self.has_sweep || self.sweep_period == 0 {
            self
        } else if self.sweep_delay > 1 {
            SquareModel { sweep_delay: self.sweep_delay - 1, ..self }
        } else {
            let offset = shifted_right(self.sweep_frequency, self.sweep_shift);
            let loaded = SquareModel { sweep_delay: self.sweep_period, ..self }.tuned_to(
                self.sweep_frequency,
            );
            if self.sweep_by_adding {
                if self.sweep_frequency + offset >= 2048 {
                    SquareModel { sweep_delay: 0, sweep_frequency: 2048, ..loaded }
                } else {
                    SquareModel { sweep_frequency: self.sweep_frequency + offset, ..loaded }
                }
            } else {
                if self.sweep_frequency <= offset {
                    SquareModel { sweep_frequency: 0, ..loaded }
                } else {
                    SquareModel { sweep_frequency: self.sweep_frequency - offset, ..loaded }
                }
            }
        }
    }

    /// The channel after the trigger bit has been written: enabled, with its
    /// length reloaded and the sweep started from the channel's frequency;
    /// a sweep with a period and a shift above 0 takes its first step at
    /// once.
    pub open spec fn triggered(self) -> SquareModel {
        let started = SquareModel {
            enabled: true,
            length: self.new_length,
            sweep_frequency: self.frequency,
            ..self
        };
        if self.has_sweep && self.sweep_period > 0 && self.sweep_shift > 0 {
            SquareModel { sweep_delay: 1, ..started }.sweep_stepped()
        } else {
            started
        }
    }

    /// The channel after the byte `v` has been written to address `a`, before
    /// the envelope has seen the write.
    pub open spec fn registers_written(self, a: int, v: int) -> SquareModel {
        if a == NR10 && self.has_sweep {
            SquareModel {
                sweep_period: (v / 16) % 8,
                sweep_shift: v % 8,
                sweep_by_adding: (v / 8) % 2 == 1,
                ..self
            }
        } else if a == NR11 || a == NR21 {
            SquareModel { duty: v / 64, new_length: 64 - v % 64, ..self }
        } else if a == NR13 || a == NR23 {
            SquareModel { length: self.new_length, ..self }.tuned_to(
                ((self.frequency / 256) % 8) * 256 + v,
            )
        } else if a == NR14 || a == NR24 {
            let set = SquareModel { length_enabled: (v / 64) % 2 == 1, ..self }.tuned_to(
                self.frequency % 256 + (v % 8) * 256,
            );
            if v >= 128 {
                set.triggered()
            } else {
                set
            }
        } else {
            self
        }
    }

    /// The channel after the byte `v` has been written to address `a`.
    pub open spec fn written(self, a: int, v: int) -> SquareModel {
        let set = self.registers_written(a, v);
        SquareModel { envelope: set.envelope.written(a, v), ..set }
    }

    /// The channel after one length tick.
    pub open spec fn length_stepped(self) -> SquareModel {
        if self.length_enabled && self.length > 0 {
            SquareModel { length: self.length - 1, ..self }
        } else {
            self
        }
    }

    /// The channel after `n` length ticks.
    pub open spec fn length_stepped_by(self, n: nat) -> SquareModel
        decreases n,
    {
        if n == 0 {
            self
        } else {
            self.length_stepped_by((n - 1) as nat).length_stepped()
        }
    }

    /// The channel after one envelope tick.
    pub open spec fn envelope_stepped(self) -> SquareModel {
        SquareModel { envelope: self.envelope.stepped(), ..self }
    }

    /// The steps that the waveform takes in a run from clock `start` to clock
    /// `end`: the first when the delay has passed, then one in every period,
    /// as long as they lie before `end`.
    pub open spec fn steps(self, start: int, end: int) -> Seq<Step> {
        square_steps(
            start + self.delay,
            steps_before(start + self.delay, end, self.period),
            self.period,
            self.duty,
            self.phase,
            self.envelope.volume,
        )
    }

    /// The deltas that a run from clock `start` to clock `end` of the frame
    /// hands to the buffer: from a silent channel the one that takes the
    /// buffer to zero at `start`, if it is not there yet; from another one
    /// for every step at which the amplitude changes.
    pub open spec fn emitted(self, start: int, end: int) -> Seq<BlipOp> {
        if self.silent() {
            if self.last_amp != 0 {
                seq![BlipOp::Delta { time: start, delta: -self.last_amp }]
            } else {
                Seq::empty()
            }
        } else {
            level_changes(self.last_amp, self.steps(start, end))
        }
    }

    /// The channel after it has run from clock `start` to clock `end` of the
    /// frame. A silent channel brings its buffer to zero at `start`, if it
    /// is not there yet, and forgets its delay. Another takes the steps of
    /// its waveform, hands the buffer a delta wherever the amplitude
    /// changes, and keeps as delay the clocks from `end` to its next step.
    #[verifier::opaque]
    pub open spec fn ran(self, start: int, end: int) -> SquareModel {
        let buffer = self.buffer.with_ops(self.emitted(start, end));
        if self.silent() {
            if self.last_amp != 0 {
                SquareModel { last_amp: 0, delay: 0, buffer, ..self }
            } else {
                SquareModel { buffer, ..self }
            }
        } else {
            let steps = self.steps(start, end);
            SquareModel {
                phase: (self.phase + steps.len()) % 8,
                last_amp: level_before(self.last_amp, steps, steps.len() as int),
                delay: start + self.delay + steps.len() * self.period - end,
                buffer,
                ..self
            }
        }
    }

    /// The channel after the frame has ended at clock `t` and its samples
    /// have been taken.
    pub open spec fn frame_closed(self, t: int) -> SquareModel {
        SquareModel { buffer: self.buffer.next_frame(t), ..self }
    }
}

/// A square channel.
pub struct SquareChannel {
    enabled: bool,
    duty: u8,
    phase: u8,
    length: u8,
    new_length: u8,
    length_enabled: bool,
    frequency: u16,
    period: u32,
    last_amp: i32,
    delay: u32,
    has_sweep: bool,
    sweep_frequency: u16,
    sweep_delay: u8,
    sweep_period: u8,
    sweep_shift: u8,
    sweep_by_adding: bool,
    volume_envelope: VolumeEnvelope,
    blip: BlipBuf,
}

impl View for SquareChannel {
    type V = SquareModel;

    closed spec fn view(&self) -> SquareModel {
        SquareModel {
            enabled: self.enabled,
            duty: self.duty as int,
            phase: self.phase as int,
            length: self.length as int,
            new_length: self.new_length as int,
            length_enabled: self.length_enabled,
            frequency: self.frequency as int,
            period: self.period as int,
            last_amp: self.last_amp as int,
            delay: self.delay as int,
            has_sweep: self.has_sweep,
            sweep_frequency: self.sweep_frequency as int,
            sweep_delay: self.sweep_delay as int,
            sweep_period: self.sweep_period as int,
            sweep_shift: self.sweep_shift as int,
            sweep_by_adding: self.sweep_by_adding,
            envelope: self.volume_envelope@,
            buffer: blip_model(self.blip),
        }
    }
}

/// The sign of the duty waveform: 1 where it is high, -1 where it is low.
pub fn duty_sign(duty: u8, phase: u8) -> (sign: i32)
    ensures
        sign == if duty_high(duty as int, phase as int) {
            1i32
        } else {
            -1i32
        },
{
    proof {
        reveal(duty_high);
    }
    let high = if duty == 0 {
        phase == 4
    } else if duty == 1 {
        4 <= phase && phase <= 5
    } else if duty == 2 {
        2 <= phase && phase <= 5
    } else {
        !(4 <= phase && phase <= 5)
    };
    if high {
        1
    } else {
        -1
    }
}

/// Plays a square wave into `blip`, from clock `start_time` to clock
/// `end_time` of the frame: the first step when `delay` has passed, then
/// one in every `period` clocks, with a delta wherever the amplitude
/// changes. Hands back the phase and the amplitude that the wave has come
/// to, and the clocks from `end_time` to its next step.
fn play(
    blip: &mut BlipBuf,
    start_time: u32,
    end_time: u32,
    duty: u8,
    phase: u8,
    vol: i32,
    last_amp: i32,
    period: u32,
    delay: u32,
) -> (after: (u8, i32, u32))
    requires
        blip_model(*old(blip)).takes(end_time as int),
        blip_model(*old(blip)).tame(),
        blip_model(*old(blip)).reach() <= start_time,
        blip_model(*old(blip)).level() == last_amp,
        start_time <= end_time,
        phase <= 7,
        0 <= vol <= 15,
        -15 <= last_amp <= 15,
        0 < period,
    ensures
        ({
            let count = steps_before(start_time + delay, end_time as int, period as int);
            let steps = square_steps(
                start_time + delay,
                count,
                period as int,
                duty as int,
                phase as int,
                vol as int,
            );
            &&& blip_model(*final(blip)) == blip_model(*old(blip)).with_ops(
                level_changes(last_amp as int, steps),
            )
            &&& after.0 == (phase + count) % 8
            &&& after.1 == level_before(last_amp as int, steps, count)
            &&& after.2 == start_time + delay + count * period - end_time
        }),
        blip_model(*final(blip)).tame(),
        blip_model(*final(blip)).level() == after.1,
        start_time < end_time ==> blip_model(*final(blip)).reach() <= end_time,
{
    let ghost buffer = blip_model(*blip);
    let ghost first = start_time as int + delay;
    let ghost count = steps_before(first, end_time as int, period as int);
    let ghost steps = square_steps(
        first,
        count,
        period as int,
        duty as int,
        phase as int,
        vol as int,
    );
    let ghost k: int = 0;
    let mut now = phase;
    let mut amp = last_amp;
    let mut time: u64 = start_time as u64 + delay as u64;
    proof {
        reveal(square_steps);
        lemma_no_step_yet(buffer, last_amp as int, steps);
        lemma_delay_after(first, end_time as int, period as int);
    }
    while time < end_time as u64
        invariant
            buffer.takes(end_time as int),
            0 < period,
            0 <= vol <= 15,
            first == start_time + delay,
            count == steps_before(first, end_time as int, period as int),
            steps == square_steps(
                first,
                count,
                period as int,
                duty as int,
                phase as int,
                vol as int,
            ),
            0 <= k <= count,
            time == first + k * period,
            k > 0 ==> first + (k - 1) * period < end_time,
            now == (phase + k) % 8,
            amp == level_before(last_amp as int, steps, k),
            -15 <= amp <= 15,
            blip_model(*blip) == buffer.with_ops(level_changes(last_amp as int, steps.take(k))),
            blip_model(*blip).tame(),
            blip_model(*blip).level() == amp,
            blip_model(*blip).reach() <= time,
            k > 0 ==> blip_model(*blip).reach() <= time - period + 1,
            k == 0 ==> blip_model(*blip).reach() <= start_time,
        decreases end_time + period - time,
    {
        proof {
            reveal(square_steps);
            lemma_step_is_counted(first, end_time as int, period as int, k);
            lemma_next_step(buffer, last_amp as int, steps, k);
            lemma_takes_earlier(buffer, time as int, end_time as int);
            lemma_takes_with_ops(
                buffer,
                level_changes(last_amp as int, steps.take(k)),
                time as int,
            );
            assert((k + 1) * period == k * period + period) by (nonlinear_arith);
        }
        let next = if duty_sign(duty, now) == 1 {
            vol
        } else {
            -vol
        };
        set_level(blip, amp, time as u32, next);
        amp = next;
        time += period as u64;
        now = (now + 1) % 8;
        proof {
            k = k + 1;
        }
    }
    proof {
        reveal(square_steps);
        lemma_steps_before(first, end_time as int, period as int, k);
        assert(steps.take(k) =~= steps);
    }
    (now, amp, (time - end_time as u64) as u32)
}

impl SquareChannel {
    /// A channel that has not been written to, on a buffer that has not been
    /// used.
    pub(crate) fn new(blip: BlipBuf, with_sweep: bool) -> (c: SquareChannel)
        requires
            blip_model(blip).history.len() == 0,
        ensures
            c@ == SquareModel::initial(with_sweep, blip_model(blip)),
            c@.wf(),
    {
        SquareChannel {
            enabled: false,
            duty: 1,
            phase: 1,
            length: 0,
            new_length: 0,
            length_enabled: false,
            frequency: 0,
            period: 2048,
            last_amp: 0,
            delay: 0,
            has_sweep: with_sweep,
            sweep_frequency: 0,
            sweep_delay: 0,
            sweep_period: 0,
            sweep_shift: 0,
            sweep_by_adding: false,
            volume_envelope: VolumeEnvelope::new(),
            blip,
        }
    }

    /// Whether the channel reports itself as on.
    pub fn on(&self) -> (on: bool)
        ensures
            on == self@.on(),
    {
        self.enabled && (!self.length_enabled || self.length != 0)
    }

    /// Takes the write of `v` to address `a`.
    pub fn wb(&mut self, a: u16, v: u8)
        requires
            old(self)@.wf(),
        ensures
            final(self)@ == old(self)@.written(a as int, v as int),
            final(self)@.wf(),
    {
        proof {
            lemma_byte_fields(v);
            lemma_frequency_fields(self.frequency, v as u16);
            lemma_written_wf(self@, a as int, v as int);
        }
        let w = v as u16;
        if a == NR10 && self.has_sweep {
            self.sweep_period = (v >> 4) & 0x7;
            self.sweep_shift = v & 0x7;
            self.sweep_by_adding = v & 0x8 == 0x8;
        } else if a == NR11 || a == NR21 {
            self.duty = v >> 6;
            self.new_length = 64 - (v & 0x3F);
        } else if a == NR13 || a == NR23 {
            self.frequency = (self.frequency & 0x0700) | w;
            self.length = self.new_length;
            self.calculate_period();
        } else if a == NR14 || a == NR24 {
            self.frequency = (self.frequency & 0x00FF) | ((w & 0x7) << 8u16);
            self.calculate_period();
            self.length_enabled = v & 0x40 == 0x40;
            if v & 0x80 == 0x80 {
                self.enabled = true;
                self.length = self.new_length;
                self.sweep_frequency = self.frequency;
                if self.has_sweep && self.sweep_period > 0 && self.sweep_shift > 0 {
                    self.sweep_delay = 1;
                    self.step_sweep();
                }
            }
        }
        self.volume_envelope.wb(a, v);
    }

    /// Sets the period that goes with the frequency.
    fn calculate_period(&mut self)
        requires
            old(self).frequency <= 2048,
        ensures
            final(self)@ == old(self)@.tuned_to(old(self)@.frequency),
    {
        if self.frequency >= 2048 {
            self.period = 0;
        } else {
            self.period = (2048 - self.frequency as u32) * 4;
        }
    }

    /// Runs the channel from clock `start_time` to clock `end_time` of the
    /// frame. No envelope, length or sweep tick falls in between. The frame has
    /// been handed no delta at `start_time` or later. A channel whose
    /// length has run out takes its buffer to zero and keeps its place.
    pub fn run(&mut self, start_time: u32, end_time: u32)
        requires
            old(self)@.wf(),
            start_time <= end_time,
            old(self)@.buffer.takes(end_time as int),
            old(self)@.buffer.reach() <= start_time,
        ensures
            final(self)@ == old(self)@.ran(start_time as int, end_time as int),
            final(self)@.wf(),
            start_time < end_time ==> final(self)@.buffer.reach() <= end_time,
            old(self)@.length_enabled && old(self)@.length == 0 ==> {
                &&& final(self)@.last_amp == 0
                &&& final(self)@.phase == old(self)@.phase
                &&& final(self)@.buffer.history == old(self)@.buffer.history + flush(
                    old(self)@.last_amp,
                    start_time as int,
                )
            },
    {
        let ghost before = self@;
        proof {
            reveal(SquareModel::ran);
            reveal(square_steps);
            lemma_takes_earlier(before.buffer, start_time as int, end_time as int);
            lemma_ran_wf(before, start_time as int, end_time as int);
            lemma_tame_delta(before.buffer, start_time as int, -before.last_amp);
        }
        if !self.enabled || (self.length == 0 && self.length_enabled) || self.period == 0 {
            set_level(&mut self.blip, self.last_amp, start_time, 0);
            if self.last_amp != 0 {
                self.last_amp = 0;
                self.delay = 0;
            }
        } else {
            let vol: i32 = self.volume_envelope.volume() as i32;
            let (phase, last_amp, delay) = play(
                &mut self.blip,
                start_time,
                end_time,
                self.duty,
                self.phase,
                vol,
                self.last_amp,
                self.period,
                self.delay,
            );
            self.phase = phase;
            self.last_amp = last_amp;
            self.delay = delay;
        }
    }

    /// Takes one length tick.
    pub fn step_length(&mut self)
        requires
            old(self)@.wf(),
        ensures
            final(self)@ == old(self)@.length_stepped(),
            final(self)@.wf(),
    {
        if self.length_enabled && self.length != 0 {
            self.length -= 1;
        }
    }

    /// Takes one envelope tick.
    pub fn step_envelope(&mut self)
        requires
            old(self)@.wf(),
        ensures
            final(self)@ == old(self)@.envelope_stepped(),
            final(self)@.wf(),
    {
        self.volume_envelope.step();
    }

    /// Takes one sweep tick.
    pub fn step_sweep(&mut self)
        requires
            old(self)@.wf(),
        ensures
            final(self)@ == old(self)@.sweep_stepped(),
            final(self)@.wf(),
    {
        if !self.has_sweep || self.sweep_period == 0 {
            return ;
        }
        if self.sweep_delay > 1 {
            self.sweep_delay -= 1;
        } else {
            self.sweep_delay = self.sweep_period;
            self.frequency = self.sweep_frequency;
            self.calculate_period();
            proof {
                lemma_shift_right(self.sweep_frequency, self.sweep_shift as u16);
            }
            let offset = self.sweep_frequency >> (self.sweep_shift as u16);
            if self.sweep_by_adding {
                if self.sweep_frequency >= 2048 - offset {
                    self.sweep_delay = 0;
                    self.sweep_frequency = 2048;
                } else {
                    self.sweep_frequency += offset;
                }
            } else {
                if self.sweep_frequency <= offset {
                    self.sweep_frequency = 0;
                } else {
                    self.sweep_frequency -= offset;
                }
            }
        }
    }

    /// Ends the frame at clock `t` and hands out its samples.
    pub(crate) fn end_frame(&mut self, t: u32) -> (samples: Vec<i16>)
        requires
            old(self)@.wf(),
            old(self)@.buffer.takes(t as int),
            old(self)@.buffer.ready.len() == 0,
            old(self)@.buffer.reach() <= t,
        ensures
            samples@ == old(self)@.buffer.frame_samples(t as int),
            samples@.len() == old(self)@.buffer.position(t as int),
            final(self)@ == old(self)@.frame_closed(t as int),
            final(self)@.wf(),
    {
        proof {
            lemma_frame_closed_wf(self@, t as int);
        }
        close_frame(&mut self.blip, t)
    }
}

/// A write leaves every field in its range.
pub proof fn lemma_written_wf(m: SquareModel, a: int, v: int)
    requires
        m.wf(),
        0 <= v <= 255,
    ensures
        m.written(a, v).wf(),
        m.sweep_stepped().wf(),
{
}

/// A run leaves every field in its range, the buffer at the amplitude that
/// the channel remembers, and the buffer's history tame; a run that ends
/// after it begins hands the buffer no delta at its end or later. The
/// frame has reached no further than the clock at which the run begins.
pub proof fn lemma_ran_wf(m: SquareModel, start: int, end: int)
    requires
        m.wf(),
        0 <= start <= end,
        m.buffer.reach() <= start,
    ensures
        m.ran(start, end).wf(),
        start < end ==> m.ran(start, end).buffer.reach() <= end,
{
    reveal(SquareModel::ran);
    reveal(square_steps);
    if m.silent() {
        lemma_level_after_flush(m.buffer, m.last_amp, start);
        lemma_tame_delta(m.buffer, start, -m.last_amp);
    } else {
        let steps = m.steps(start, end);
        let first = start + m.delay;
        lemma_level_after_steps(m.buffer, m.last_amp, steps);
        lemma_delay_after(first, end, m.period);
        lemma_paced_steps(steps, first, end, m.period);
        assert forall|j: int| 0 <= j < steps.len() implies -15 <= (#[trigger] steps[j]).level
            <= 15 by {}
        lemma_tame_steps(m.buffer, m.last_amp, steps, end);
    }
}

/// Nothing but a run and the end of a frame touches the buffer, and a run
/// does no more to it than to add to its history. No write or tick turns a
/// channel with a sweep into one without.
pub proof fn lemma_buffer_kept(m: SquareModel, a: int, v: int, start: int, end: int)
    ensures
        m.written(a, v).buffer == m.buffer,
        m.written(a, v).has_sweep == m.has_sweep,
        m.length_stepped().buffer == m.buffer,
        m.length_stepped().has_sweep == m.has_sweep,
        m.envelope_stepped().buffer == m.buffer,
        m.envelope_stepped().has_sweep == m.has_sweep,
        m.sweep_stepped().buffer == m.buffer,
        m.sweep_stepped().has_sweep == m.has_sweep,
        m.ran(start, end).buffer == m.buffer.with_ops(m.emitted(start, end)),
        m.ran(start, end).buffer.same_clock(m.buffer),
        m.ran(start, end).has_sweep == m.has_sweep,
{
    reveal(SquareModel::ran);
}

/// The steps of a square wave in two parts: the first `early` of them, and
/// the rest from the clock and the phase that follow.
pub proof fn lemma_square_steps_split(
    first: int,
    early: int,
    late: int,
    period: int,
    duty: int,
    phase: int,
    volume: int,
)
    requires
        0 <= early,
        0 <= late,
    ensures
        square_steps(first, early + late, period, duty, phase, volume) == square_steps(
            first,
            early,
            period,
            duty,
            phase,
            volume,
        ) + square_steps(
            first + early * period,
            late,
            period,
            duty,
            (phase + early) % 8,
            volume,
        ),
{
    reveal(square_steps);
    let all = square_steps(first, early + late, period, duty, phase, volume);
    let head = square_steps(first, early, period, duty, phase, volume);
    let tail = square_steps(
        first + early * period,
        late,
        period,
        duty,
        (phase + early) % 8,
        volume,
    );
    assert forall|k: int| 0 <= k < early + late implies all[k] == (head + tail)[k] by {
        if k >= early {
            assert((early + (k - early)) * period == early * period + (k - early) * period)
                by (nonlinear_arith);
            assert(((phase + early) % 8 + (k - early)) % 8 == (phase + k) % 8);
        }
    }
    assert(all =~= head + tail);
}

/// What a run does to a channel that is silent.
proof fn lemma_ran_silent(m: SquareModel, start: int, end: int)
    requires
        m.silent(),
    ensures
        m.ran(start, end) == (SquareModel {
            last_amp: 0,
            delay: if m.last_amp != 0 {
                0
            } else {
                m.delay
            },
            buffer: m.buffer.with_ops(m.emitted(start, end)),
            ..m
        }),
        m.ran(start, end).silent(),
        m.emitted(start, end) == m.emitted(start, start),
        m.last_amp == 0 ==> m.emitted(start, end) == Seq::<BlipOp>::empty(),
{
    reveal(SquareModel::ran);
}

/// What a run does to a channel that sounds.
proof fn lemma_ran_sounding(m: SquareModel, start: int, end: int)
    requires
        m.period > 0,
        !m.silent(),
    ensures
        m.ran(start, end) == (SquareModel {
            phase: (m.phase + steps_before(start + m.delay, end, m.period)) % 8,
            last_amp: level_before(
                m.last_amp,
                m.steps(start, end),
                steps_before(start + m.delay, end, m.period),
            ),
            delay: start + m.delay + steps_before(start + m.delay, end, m.period) * m.period
                - end,
            buffer: m.buffer.with_ops(level_changes(m.last_amp, m.steps(start, end))),
            ..m
        }),
        !m.ran(start, end).silent(),
        m.steps(start, end).len() == steps_before(start + m.delay, end, m.period),
{
    reveal(SquareModel::ran);
    reveal(square_steps);
    lemma_delay_after(start + m.delay, end, m.period);
}

/// The run of a silent channel in two parts is the run in one.
proof fn lemma_silent_run_composes(m: SquareModel, start: int, middle: int, end: int)
    requires
        m.silent(),
    ensures
        m.ran(start, middle).ran(middle, end) == m.ran(start, end),
{
    let half = m.ran(start, middle);
    lemma_ran_silent(m, start, middle);
    lemma_ran_silent(m, start, end);
    lemma_ran_silent(half, middle, end);
    lemma_with_ops_twice(m.buffer, m.emitted(start, middle), half.emitted(middle, end));
    assert(m.emitted(start, middle) + Seq::<BlipOp>::empty() =~= m.emitted(start, middle));
}

/// The run of a channel that sounds in two parts is the run in one.
proof fn lemma_sounding_run_composes(m: SquareModel, start: int, middle: int, end: int)
    requires
        m.period > 0,
        !m.silent(),
        start <= middle <= end,
    ensures
        m.ran(start, middle).ran(middle, end) == m.ran(start, end),
{
    let half = m.ran(start, middle);
    lemma_ran_sounding(m, start, middle);
    lemma_ran_sounding(m, start, end);
    lemma_ran_sounding(half, middle, end);
    let first = start + m.delay;
    let early = steps_before(first, middle, m.period);
    let late = steps_before(first + early * m.period, end, m.period);
    lemma_steps_split(first, middle, end, m.period);
    lemma_square_steps_split(first, early, late, m.period, m.duty, m.phase, m.envelope.volume);
    lemma_level_changes_concat(m.last_amp, m.steps(start, middle), half.steps(middle, end));
    lemma_with_ops_twice(
        m.buffer,
        level_changes(m.last_amp, m.steps(start, middle)),
        level_changes(half.last_amp, half.steps(middle, end)),
    );
    assert((early + late) * m.period == early * m.period + late * m.period)
        by (nonlinear_arith);
    assert(((m.phase + early) % 8 + late) % 8 == (m.phase + early + late) % 8);
}

/// A run in two parts leaves the channel and its buffer as the run in one
/// does: the channel can be brought up to the clock at any time in between
/// without a change to what it puts out.
pub proof fn lemma_ran_composes(m: SquareModel, start: int, middle: int, end: int)
    requires
        m.wf(),
        0 <= start <= middle <= end,
    ensures
        m.ran(start, middle).ran(middle, end) == m.ran(start, end),
{
    if m.silent() {
        lemma_silent_run_composes(m, start, middle, end);
    } else {
        lemma_sounding_run_composes(m, start, middle, end);
    }
}

/// Closing a frame changes no amplitude.
pub proof fn lemma_frame_closed_wf(m: SquareModel, t: int)
    requires
        m.wf(),
        m.buffer.reach() <= t,
    ensures
        m.frame_closed(t).wf(),
        m.frame_closed(t).buffer.reach() == 0,
{
    lemma_level_after_frame(m.buffer, t);
}

/// A channel whose length has run out puts out the one delta that takes its
/// buffer to zero, unless it stands there already, and nothing after that:
/// a further run finds nothing to do. It keeps its place in its waveform.
pub proof fn lemma_expired_length_silences(
    m: SquareModel,
    start: int,
    end: int,
    next_start: int,
    next_end: int,
)
    requires
        m.wf(),
        m.length_enabled,
        m.length == 0,
    ensures
        m.emitted(start, end) == flush(m.last_amp, start),
        m.ran(start, end).buffer.history == m.buffer.history + flush(m.last_amp, start),
        m.ran(start, end).buffer.level() == 0,
        m.ran(start, end).last_amp == 0,
        m.ran(start, end).phase == m.phase,
        m.ran(start, end).emitted(next_start, next_end) == Seq::<BlipOp>::empty(),
        m.ran(start, end).ran(next_start, next_end) == m.ran(start, end),
{
    let once = m.ran(start, end);
    lemma_ran_silent(m, start, end);
    lemma_ran_silent(once, next_start, next_end);
    lemma_level_after_flush(m.buffer, m.last_amp, start);
    assert(once.buffer.history + Seq::<BlipOp>::empty() =~= once.buffer.history);
}

/// With its length counter on, a channel of length `l` above 0 reports
/// itself on, if it is enabled, through `l - 1` length ticks, and off from
/// tick `l` on.
pub proof fn lemma_length_countdown(m: SquareModel, n: nat)
    requires
        m.length_enabled,
        m.length >= 1,
    ensures
        m.length_stepped_by(n) == (SquareModel {
            length: if n < m.length {
                m.length - n
            } else {
                0
            },
            ..m
        }),
        n < m.length ==> m.length_stepped_by(n).on() == m.enabled,
        n >= m.length ==> !m.length_stepped_by(n).on(),
    decreases n,
{
    if n > 0 {
        lemma_length_countdown(m, (n - 1) as nat);
    }
}

/// The channel after `n` sweep ticks.
pub open spec fn sweep_stepped_by(m: SquareModel, n: nat) -> SquareModel
    decreases n,
{
    if n == 0 {
        m
    } else {
        sweep_stepped_by(m, (n - 1) as nat).sweep_stepped()
    }
}

/// A channel with an upward sweep of a period and a shift above 0, triggered
/// at a frequency `f` with `f + (f >> shift)` at 2048 or above, overflows in
/// the sweep step that the trigger takes: that step leaves 2048 as the sweep
/// frequency and stops the sweep delay, while the channel still sounds at
/// `f`. The sweep tick after it loads 2048 into the channel, which gives it
/// a period of 0 and so silences it, and every later tick finds it so. What
/// the channel reports in the status register does not change on the way.
pub proof fn lemma_sweep_overflow(m: SquareModel, later: nat)
    requires
        m.wf(),
        m.has_sweep,
        m.sweep_period > 0,
        m.sweep_shift > 0,
        m.sweep_by_adding,
        m.frequency + shifted_right(m.frequency, m.sweep_shift) >= 2048,
    ensures
        m.triggered().sweep_frequency == 2048,
        m.triggered().sweep_delay == 0,
        m.triggered().frequency == m.frequency,
        m.triggered().period == square_period(m.frequency),
        sweep_stepped_by(m.triggered(), later + 1).period == 0,
        sweep_stepped_by(m.triggered(), later + 1).silent(),
        sweep_stepped_by(m.triggered(), later + 1).on() == m.triggered().on(),
{
    lemma_sweep_stays_overflowed(m.triggered(), later + 1);
}

/// Once 2048 waits as the sweep frequency of an upward sweep whose delay has
/// stopped, every sweep tick loads it again, and changes nothing else that
/// the status register shows.
proof fn lemma_sweep_stays_overflowed(m: SquareModel, n: nat)
    requires
        m.has_sweep,
        m.sweep_period > 0,
        m.sweep_by_adding,
        m.sweep_delay == 0,
        m.sweep_frequency == 2048,
    ensures
        sweep_stepped_by(m, n).sweep_frequency == 2048,
        sweep_stepped_by(m, n).sweep_delay == 0,
        sweep_stepped_by(m, n).has_sweep,
        sweep_stepped_by(m, n).sweep_by_adding,
        sweep_stepped_by(m, n).sweep_period == m.sweep_period,
        sweep_stepped_by(m, n).sweep_shift == m.sweep_shift,
        sweep_stepped_by(m, n).on() == m.on(),
        n > 0 ==> sweep_stepped_by(m, n).period == 0,
    decreases n,
{
    if n > 0 {
        lemma_sweep_stays_overflowed(m, (n - 1) as nat);
    }
}

} // verus!
