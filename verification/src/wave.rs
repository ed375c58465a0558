//! The wave channel 3: thirty-two four-bit samples from wave RAM, played in
//! a round at an eleven-bit frequency and scaled down by a volume shift.

use crate::blip::BlipOp;
use crate::buffer::{
    blip_model, close_frame, flush, lemma_delay_after, lemma_level_after_flush,
    lemma_level_after_frame, lemma_level_after_steps, lemma_level_changes_concat,
    lemma_next_step, lemma_no_step_yet, lemma_paced_steps, lemma_step_is_counted,
    lemma_steps_before, lemma_steps_split, lemma_takes_earlier, lemma_takes_with_ops,
    lemma_tame_delta, lemma_tame_steps, lemma_with_ops_twice, level_before, level_changes,
    set_level, steps_before, BlipModel, Step,
};
use crate::regs::{
    lemma_byte_fields, lemma_frequency_fields, lemma_nibbles, NR30, NR31, NR32, NR33, NR34,
    WAVE_RAM, WAVE_RAM_END,
};
use blip_buf::BlipBuf;
use vstd::prelude::*;

verus! {

/// The clocks between two samples of a wave of `frequency`; 0 for a
/// frequency out of range, which silences the channel.
pub open spec fn wave_period(frequency: int) -> int {
    if frequency >= 2048 {
        0
    } else {
        (2048 - frequency) * 2
    }
}

/// The amplitude of a wave RAM sample under a volume shift: the sample as
/// it is for a shift of 1, halved for 2, quartered for 3, and 0 for every
/// other shift.
pub open spec fn wave_level(sample: int, volume_shift: int) -> int {
    if volume_shift == 1 {
        sample
    } else if volume_shift == 2 {
        sample / 2
    } else if volume_shift == 3 {
        sample / 4
    } else {
        0
    }
}

/// `count` steps of a wave under `volume_shift`: the first at clock `first`
/// with the sample at place `current` of `waveram`, then one in every
/// `period` clocks, each a sample on in the round of 32.
#[verifier::opaque]
pub open spec fn wave_steps(
    first: int,
    count: int,
    period: int,
    waveram: Seq<int>,
    current: int,
    volume_shift: int,
) -> Seq<Step> {
    Seq::new(
        count as nat,
        |k: int|
            Step {
                time: first + k * period,
                level: wave_level(waveram[(current + k) % 32], volume_shift),
            },
    )
}

/// The samples of wave RAM as numbers.
pub open spec fn nibbles(waveram: [u8; 32]) -> Seq<int> {
    Seq::new(32, |i: int| waveram@[i] as int)
}

/// The state of the wave channel, as numbers.
pub struct WaveModel {
    /// Whether the channel has been triggered.
    pub enabled: bool,
    /// Whether the DAC is on; without it no trigger enables the channel.
    pub enabled_flag: bool,
    /// Length ticks left, `0..=256`.
    pub length: int,
    /// The length that a trigger loads.
    pub new_length: int,
    /// Whether length ticks count.
    pub length_enabled: bool,
    /// The frequency, `0..=2047`.
    pub frequency: int,
    /// Clocks per sample; 0 silences the channel.
    pub period: int,
    /// The amplitude that the buffer was last brought to.
    pub last_amp: int,
    /// Clocks from the end of the last run to the next sample.
    pub delay: int,
    /// The volume shift, `0..=7`.
    pub volume_shift: int,
    /// The thirty-two samples, each `0..=15`.
    pub waveram: Seq<int>,
    /// The sample that comes next, `0..=31`.
    pub current_wave: int,
    /// The band-limited buffer.
    pub buffer: BlipModel,
}

impl WaveModel {
    /// Every field is in its range, the channel is not enabled without its
    /// DAC, an enabled channel has the period of its frequency, and the
    /// buffer stands at the amplitude that the channel remembers, with a
    /// history that keeps its sums in range.
    pub open spec fn wf(self) -> bool {
        &&& self.enabled ==> self.enabled_flag
        &&& self.enabled ==> self.period == wave_period(self.frequency)
        &&& 0 <= self.length <= 256
        &&& 0 <= self.new_length <= 256
        &&& 0 <= self.frequency <= 2047
        &&& 0 <= self.period <= 4096
        &&& 0 <= self.last_amp <= 15
        &&& 0 <= self.delay <= 4096
        &&& 0 <= self.volume_shift <= 7
        &&& self.waveram.len() == 32
        &&& forall|i: int| 0 <= i < 32 ==> 0 <= #[trigger] self.waveram[i] <= 15
        &&& 0 <= self.current_wave <= 31
        &&& self.buffer.level() == self.last_amp
        &&& self.buffer.tame()
    }

    /// A channel that has not been written to, on `buffer`.
    pub open spec fn initial(buffer: BlipModel) -> WaveModel {
        WaveModel {
            enabled: false,
            enabled_flag: false,
            length: 0,
            new_length: 0,
            length_enabled: false,
            frequency: 0,
            period: 2048,
            last_amp: 0,
            delay: 0,
            volume_shift: 0,
            waveram: Seq::new(32, |i: int| 0int),
            current_wave: 0,
            buffer,
        }
    }

    /// What the channel reports of itself in the status register: it has
    /// been triggered, and its length has not run out.
    pub open spec fn on(self) -> bool {
        self.enabled && (self.length_enabled ==> self.length > 0)
    }

    /// Whether the channel puts out nothing: it is not enabled, its length
    /// has run out, or its frequency is out of range.
    pub open spec fn silent(self) -> bool {
        !self.enabled || (self.length == 0 && self.length_enabled) || self.period == 0
    }

    /// The channel with `frequency`, and the period that goes with it.
    pub open spec fn tuned_to(self, frequency: int) -> WaveModel {
        WaveModel { frequency, period: wave_period(frequency), ..self }
    }

    /// The channel after the byte `v` has been written to address `a`. A
    /// byte written to wave RAM at `WAVE_RAM + k` is kept as two samples,
    /// its high nibble at `2 * k` and its low nibble behind it.
    pub open spec fn written(self, a: int, v: int) -> WaveModel {
        if a == NR30 {
            if v >= 128 {
                WaveModel { enabled_flag: true, ..self }
            } else {
                WaveModel { enabled_flag: false, enabled: false, ..self }
            }
        } else if a == NR31 {
            WaveModel { new_length: 256 - v, ..self }
        } else if a == NR32 {
            WaveModel { volume_shift: v / 32, ..self }
        } else if a == NR33 {
            self.tuned_to((self.frequency / 256) * 256 + v)
        } else if a == NR34 {
            let set = WaveModel { length_enabled: (v / 64) % 2 == 1, ..self }.tuned_to(
                self.frequency % 256 + (v % 8) * 256,
            );
            if v >= 128 && self.enabled_flag {
                WaveModel { length: self.new_length, enabled: true, current_wave: 0, ..set }
            } else {
                set
            }
        } else if WAVE_RAM <= a <= WAVE_RAM_END {
            let k = a - WAVE_RAM;
            WaveModel {
                waveram: self.waveram.update(2 * k, v / 16).update(2 * k + 1, v % 16),
                ..self
            }
        } else {
            self
        }
    }

    /// The byte that is read from wave RAM at address `a`: the two samples
    /// that a write there is kept as, the first as the high nibble.
    pub open spec fn ram_byte(self, a: int) -> int {
        let k = a - WAVE_RAM;
        self.waveram[2 * k] * 16 + self.waveram[2 * k + 1]
    }

    /// The channel after one length tick.
    pub open spec fn length_stepped(self) -> WaveModel {
        if self.length_enabled && self.length > 0 {
            WaveModel { length: self.length - 1, ..self }
        } else {
            self
        }
    }

    /// The channel after `n` length ticks.
    pub open spec fn length_stepped_by(self, n: nat) -> WaveModel
        decreases n,
    {
        if n == 0 {
            self
        } else {
            self.length_stepped_by((n - 1) as nat).length_stepped()
        }
    }

    /// The steps that the wave takes in a run from clock `start` to clock
    /// `end`: the first when the delay has passed, then one in every period,
    /// as long as they lie before `end`.
    pub open spec fn steps(self, start: int, end: int) -> Seq<Step> {
        wave_steps(
            start + self.delay,
            steps_before(start + self.delay, end, self.period),
            self.period,
            self.waveram,
            self.current_wave,
            self.volume_shift,
        )
    }

    /// The deltas that a run from clock `start` to clock `end` of the frame
    /// hands to the buffer: from a silent channel the one that takes the
    /// buffer to zero at `start`, if it is not there yet; from another one
    /// for every step at which the amplitude changes.
    pub open spec fn emitted(self, start: int, end: int) -> Seq<BlipOp> {
        if self.silent() {
            if self.last_amp != 0 {
                seq![BlipOp::Delta { time: start, delta: -self.last_amp }]
            } else {
                Seq::empty()
            }
        } else {
            level_changes(self.last_amp, self.steps(start, end))
        }
    }

    /// The channel after it has run from clock `start` to clock `end` of the
    /// frame. A silent channel brings its buffer to zero at `start`, if it
    /// is not there yet, and forgets its delay. Another plays its samples,
    /// hands the buffer a delta wherever the amplitude changes, and keeps
    /// as delay the clocks from `end` to its next sample.
    #[verifier::opaque]
    pub open spec fn ran(self, start: int, end: int) -> WaveModel {
        let buffer = self.buffer.with_ops(self.emitted(start, end));
        if self.silent() {
            if self.last_amp != 0 {
                WaveModel { last_amp: 0, delay: 0, buffer, ..self }
            } else {
                WaveModel { buffer, ..self }
            }
        } else {
            let steps = self.steps(start, end);
            WaveModel {
                current_wave: (self.current_wave + steps.len()) % 32,
                last_amp: level_before(self.last_amp, steps, steps.len() as int),
                delay: start + self.delay + steps.len() * self.period - end,
                buffer,
                ..self
            }
        }
    }

    /// The channel after the frame has ended at clock `t` and its samples
    /// have been taken.
    pub open spec fn frame_closed(self, t: int) -> WaveModel {
        WaveModel { buffer: self.buffer.next_frame(t), ..self }
    }
}

/// The wave channel.
pub struct WaveChannel {
    enabled: bool,
    enabled_flag: bool,
    length: u16,
    new_length: u16,
    length_enabled: bool,
    frequency: u16,
    period: u32,
    last_amp: i32,
    delay: u32,
    volume_shift: u8,
    waveram: [u8; 32],
    current_wave: u8,
    blip: BlipBuf,
}

impl View for WaveChannel {
    type V = WaveModel;

    closed spec fn view(&self) -> WaveModel {
        WaveModel {
            enabled: self.enabled,
            enabled_flag: self.enabled_flag,
            length: self.length as int,
            new_length: self.new_length as int,
            length_enabled: self.length_enabled,
            frequency: self.frequency as int,
            period: self.period as int,
            last_amp: self.last_amp as int,
            delay: self.delay as int,
            volume_shift: self.volume_shift as int,
            waveram: nibbles(self.waveram),
            current_wave: self.current_wave as int,
            buffer: blip_model(self.blip),
        }
    }
}

/// The amplitude of `sample` under `volume_shift`.
pub fn wave_amp(sample: u8, volume_shift: u8) -> (amp: i32)
    requires
        sample <= 15,
    ensures
        amp == wave_level(sample as int, volume_shift as int),
        0 <= amp <= 15,
{
    proof {
        lemma_byte_fields(sample);
    }
    if volume_shift == 1 {
        sample as i32
    } else if volume_shift == 2 {
        (sample >> 1) as i32
    } else if volume_shift == 3 {
        (sample >> 2) as i32
    } else {
        0
    }
}

/// Plays a wave into `blip`, from clock `start_time` to clock `end_time` of
/// the frame: the first sample when `delay` has passed, then one in every
/// `period` clocks, with a delta wherever the amplitude changes. Hands back
/// the place in the round and the amplitude that the wave has come to, and
/// the clocks from `end_time` to its next sample.
fn play(
    blip: &mut BlipBuf,
    start_time: u32,
    end_time: u32,
    waveram: &[u8; 32],
    current_wave: u8,
    volume_shift: u8,
    last_amp: i32,
    period: u32,
    delay: u32,
) -> (after: (u8, i32, u32))
    requires
        blip_model(*old(blip)).takes(end_time as int),
        blip_model(*old(blip)).tame(),
        blip_model(*old(blip)).reach() <= start_time,
        blip_model(*old(blip)).level() == last_amp,
        start_time <= end_time,
        current_wave <= 31,
        forall|i: int| 0 <= i < 32 ==> #[trigger] waveram@[i] <= 15,
        0 <= last_amp <= 15,
        0 < period,
    ensures
        ({
            let count = steps_before(start_time + delay, end_time as int, period as int);
            let steps = wave_steps(
                start_time + delay,
                count,
                period as int,
                nibbles(*waveram),
                current_wave as int,
                volume_shift as int,
            );
            &&& blip_model(*final(blip)) == blip_model(*old(blip)).with_ops(
                level_changes(last_amp as int, steps),
            )
            &&& after.0 == (current_wave + count) % 32
            &&& after.1 == level_before(last_amp as int, steps, count)
            &&& after.2 == start_time + delay + count * period - end_time
        }),
        blip_model(*final(blip)).tame(),
        blip_model(*final(blip)).level() == after.1,
        start_time < end_time ==> blip_model(*final(blip)).reach() <= end_time,
{
    let ghost buffer = blip_model(*blip);
    let ghost first = start_time as int + delay;
    let ghost count = steps_before(first, end_time as int, period as int);
    let ghost steps = wave_steps(
        first,
        count,
        period as int,
        nibbles(*waveram),
        current_wave as int,
        volume_shift as int,
    );
    let ghost k: int = 0;
    let mut now = current_wave;
    let mut amp = last_amp;
    let mut time: u64 = start_time as u64 + delay as u64;
    proof {
        reveal(wave_steps);
        lemma_no_step_yet(buffer, last_amp as int, steps);
        lemma_delay_after(first, end_time as int, period as int);
    }
    while time < end_time as u64
        invariant
            buffer.takes(end_time as int),
            0 < period,
            forall|i: int| 0 <= i < 32 ==> #[trigger] waveram@[i] <= 15,
            first == start_time + delay,
            count == steps_before(first, end_time as int, period as int),
            steps == wave_steps(
                first,
                count,
                period as int,
                nibbles(*waveram),
                current_wave as int,
                volume_shift as int,
            ),
            0 <= k <= count,
            time == first + k * period,
            k > 0 ==> first + (k - 1) * period < end_time,
            now == (current_wave + k) % 32,
            amp == level_before(last_amp as int, steps, k),
            0 <= amp <= 15,
            blip_model(*blip) == buffer.with_ops(level_changes(last_amp as int, steps.take(k))),
            blip_model(*blip).tame(),
            blip_model(*blip).level() == amp,
            blip_model(*blip).reach() <= time,
            k > 0 ==> blip_model(*blip).reach() <= time - period + 1,
            k == 0 ==> blip_model(*blip).reach() <= start_time,
        decreases end_time + period - time,
    {
        proof {
            reveal(wave_steps);
            lemma_step_is_counted(first, end_time as int, period as int, k);
            lemma_next_step(buffer, last_amp as int, steps, k);
            lemma_takes_earlier(buffer, time as int, end_time as int);
            lemma_takes_with_ops(
                buffer,
                level_changes(last_amp as int, steps.take(k)),
                time as int,
            );
            assert((k + 1) * period == k * period + period) by (nonlinear_arith);
            assert(nibbles(*waveram)[now as int] == waveram@[now as int]);
        }
        let next = wave_amp(waveram[now as usize], volume_shift);
        set_level(blip, amp, time as u32, next);
        amp = next;
        time += period as u64;
        now = (now + 1) % 32;
        proof {
            k = k + 1;
        }
    }
    proof {
        reveal(wave_steps);
        lemma_steps_before(first, end_time as int, period as int, k);
        assert(steps.take(k) =~= steps);
    }
    (now, amp, (time - end_time as u64) as u32)
}

impl WaveChannel {
    /// A channel that has not been written to, on a buffer that has not been
    /// used.
    pub(crate) fn new(blip: BlipBuf) -> (c: WaveChannel)
        requires
            blip_model(blip).history.len() == 0,
        ensures
            c@ == WaveModel::initial(blip_model(blip)),
            c@.wf(),
    {
        let c = WaveChannel {
            enabled: false,
            enabled_flag: false,
            length: 0,
            new_length: 0,
            length_enabled: false,
            frequency: 0,
            period: 2048,
            last_amp: 0,
            delay: 0,
            volume_shift: 0,
            waveram: [0u8;32],
            current_wave: 0,
            blip,
        };
        assert(c@.waveram =~= WaveModel::initial(blip_model(c.blip)).waveram);
        c
    }

    /// Takes the write of `v` to address `a`.
    pub fn wb(&mut self, a: u16, v: u8)
        requires
            old(self)@.wf(),
        ensures
            final(self)@ == old(self)@.written(a as int, v as int),
            final(self)@.wf(),
    {
        proof {
            lemma_byte_fields(v);
            lemma_frequency_fields(self.frequency, v as u16);
            lemma_written_wf(self@, a as int, v as int);
        }
        let w = v as u16;
        if a == NR30 {
            if v & 0x80 == 0x80 {
                self.enabled_flag = true;
            } else {
                self.enabled_flag = false;
                self.enabled = false;
            }
        } else if a == NR31 {
            self.new_length = 256 - w;
        } else if a == NR32 {
            self.volume_shift = v >> 5;
        } else if a == NR33 {
            self.frequency = (self.frequency & 0xFF00) | w;
            self.calculate_period();
        } else if a == NR34 {
            self.frequency = (self.frequency & 0x00FF) | ((w & 0x7) << 8u16);
            self.calculate_period();
            self.length_enabled = v & 0x40 == 0x40;
            if v & 0x80 == 0x80 && self.enabled_flag {
                self.length = self.new_length;
                self.enabled = true;
                self.current_wave = 0;
            }
        } else if WAVE_RAM <= a && a <= WAVE_RAM_END {
            let k = (a - WAVE_RAM) as usize;
            self.waveram[2 * k] = v >> 4;
            self.waveram[2 * k + 1] = v & 0xF;
            assert(self@.waveram =~= old(self)@.written(a as int, v as int).waveram);
        }
    }

    /// The byte of wave RAM at address `a`.
    pub fn read_ram(&self, a: u16) -> (v: u8)
        requires
            self@.wf(),
            WAVE_RAM <= a <= WAVE_RAM_END,
        ensures
            v == self@.ram_byte(a as int),
    {
        let k = (a - WAVE_RAM) as usize;
        let high = self.waveram[2 * k];
        let low = self.waveram[2 * k + 1];
        proof {
            assert(high == self@.waveram[2 * k as int]);
            assert(low == self@.waveram[2 * k as int + 1]);
            lemma_nibbles(high, low);
        }
        (high << 4) | low
    }

    /// Sets the period that goes with the frequency.
    fn calculate_period(&mut self)
        ensures
            final(self)@ == old(self)@.tuned_to(old(self)@.frequency),
    {
        if self.frequency >= 2048 {
            self.period = 0;
        } else {
            self.period = (2048 - self.frequency as u32) * 2;
        }
    }

    /// Whether the channel reports itself as on.
    pub fn on(&self) -> (on: bool)
        ensures
            on == self@.on(),
    {
        self.enabled && (!self.length_enabled || self.length != 0)
    }

    /// Runs the channel from clock `start_time` to clock `end_time` of the
    /// frame. No length tick falls in between. The frame has
    /// been handed no delta at `start_time` or later. A channel whose
    /// length has run out takes its buffer to zero and keeps its place.
    pub fn run(&mut self, start_time: u32, end_time: u32)
        requires
            old(self)@.wf(),
            start_time <= end_time,
            old(self)@.buffer.takes(end_time as int),
            old(self)@.buffer.reach() <= start_time,
        ensures
            final(self)@ == old(self)@.ran(start_time as int, end_time as int),
            final(self)@.wf(),
            start_time < end_time ==> final(self)@.buffer.reach() <= end_time,
            old(self)@.length_enabled && old(self)@.length == 0 ==> {
                &&& final(self)@.last_amp == 0
                &&& final(self)@.current_wave == old(self)@.current_wave
                &&& final(self)@.buffer.history == old(self)@.buffer.history + flush(
                    old(self)@.last_amp,
                    start_time as int,
                )
            },
    {
        let ghost before = self@;
        proof {
            reveal(WaveModel::ran);
            reveal(wave_steps);
            lemma_takes_earlier(before.buffer, start_time as int, end_time as int);
            lemma_ran_wf(before, start_time as int, end_time as int);
            lemma_tame_delta(before.buffer, start_time as int, -before.last_amp);
        }
        if !self.enabled || (self.length == 0 && self.length_enabled) || self.period == 0 {
            set_level(&mut self.blip, self.last_amp, start_time, 0);
            if self.last_amp != 0 {
                self.last_amp = 0;
                self.delay = 0;
            }
        } else {
            proof {
                assert forall|i: int| 0 <= i < 32 implies #[trigger] self.waveram@[i] <= 15 by {
                    assert(before.waveram[i] == self.waveram@[i]);
                }
            }
            let (current_wave, last_amp, delay) = play(
                &mut self.blip,
                start_time,
                end_time,
                &self.waveram,
                self.current_wave,
                self.volume_shift,
                self.last_amp,
                self.period,
                self.delay,
            );
            self.current_wave = current_wave;
            self.last_amp = last_amp;
            self.delay = delay;
        }
    }

    /// Takes one length tick.
    pub fn step_length(&mut self)
        requires
            old(self)@.wf(),
        ensures
            final(self)@ == old(self)@.length_stepped(),
            final(self)@.wf(),
    {
        if self.length_enabled && self.length != 0 {
            self.length -= 1;
        }
    }

    /// Ends the frame at clock `t` and hands out its samples.
    pub(crate) fn end_frame(&mut self, t: u32) -> (samples: Vec<i16>)
        requires
            old(self)@.wf(),
            old(self)@.buffer.takes(t as int),
            old(self)@.buffer.ready.len() == 0,
            old(self)@.buffer.reach() <= t,
        ensures
            samples@ == old(self)@.buffer.frame_samples(t as int),
            samples@.len() == old(self)@.buffer.position(t as int),
            final(self)@ == old(self)@.frame_closed(t as int),
            final(self)@.wf(),
    {
        proof {
            lemma_frame_closed_wf(self@, t as int);
        }
        close_frame(&mut self.blip, t)
    }
}

/// A write leaves every field in its range.
pub proof fn lemma_written_wf(m: WaveModel, a: int, v: int)
    requires
        m.wf(),
        0 <= v <= 255,
    ensures
        m.written(a, v).wf(),
{
}

/// A run leaves every field in its range, the buffer at the amplitude that
/// the channel remembers, and the buffer's history tame; a run that ends
/// after it begins hands the buffer no delta at its end or later. The
/// frame has reached no further than the clock at which the run begins.
pub proof fn lemma_ran_wf(m: WaveModel, start: int, end: int)
    requires
        m.wf(),
        0 <= start <= end,
        m.buffer.reach() <= start,
    ensures
        m.ran(start, end).wf(),
        start < end ==> m.ran(start, end).buffer.reach() <= end,
{
    reveal(WaveModel::ran);
    reveal(wave_steps);
    if m.silent() {
        lemma_level_after_flush(m.buffer, m.last_amp, start);
        lemma_tame_delta(m.buffer, start, -m.last_amp);
    } else {
        let steps = m.steps(start, end);
        let first = start + m.delay;
        lemma_level_after_steps(m.buffer, m.last_amp, steps);
        lemma_delay_after(first, end, m.period);
        lemma_paced_steps(steps, first, end, m.period);
        assert forall|j: int| 0 <= j < steps.len() implies -15 <= (#[trigger] steps[j]).level
            <= 15 by {
            assert(0 <= m.waveram[(m.current_wave + j) % 32] <= 15);
        }
        lemma_tame_steps(m.buffer, m.last_amp, steps, end);
    }
}

/// Nothing but a run and the end of a frame touches the buffer, and a run
/// does no more to it than to add to its history.
pub proof fn lemma_buffer_kept(m: WaveModel, a: int, v: int, start: int, end: int)
    ensures
        m.written(a, v).buffer == m.buffer,
        m.length_stepped().buffer == m.buffer,
        m.ran(start, end).buffer == m.buffer.with_ops(m.emitted(start, end)),
        m.ran(start, end).buffer.same_clock(m.buffer),
{
    reveal(WaveModel::ran);
}

/// The steps of a wave in two parts: the first `early` of them, and the
/// rest from the clock and the place in the round that follow.
pub proof fn lemma_wave_steps_split(
    first: int,
    early: int,
    late: int,
    period: int,
    waveram: Seq<int>,
    current: int,
    volume_shift: int,
)
    requires
        0 <= early,
        0 <= late,
    ensures
        wave_steps(first, early + late, period, waveram, current, volume_shift) == wave_steps(
            first,
            early,
            period,
            waveram,
            current,
            volume_shift,
        ) + wave_steps(
            first + early * period,
            late,
            period,
            waveram,
            (current + early) % 32,
            volume_shift,
        ),
{
    reveal(wave_steps);
    let all = wave_steps(first, early + late, period, waveram, current, volume_shift);
    let head = wave_steps(first, early, period, waveram, current, volume_shift);
    let tail = wave_steps(
        first + early * period,
        late,
        period,
        waveram,
        (current + early) % 32,
        volume_shift,
    );
    assert forall|k: int| 0 <= k < early + late implies all[k] == (head + tail)[k] by {
        if k >= early {
            assert((early + (k - early)) * period == early * period + (k - early) * period)
                by (nonlinear_arith);
            assert(((current + early) % 32 + (k - early)) % 32 == (current + k) % 32);
        }
    }
    assert(all =~= head + tail);
}

/// What a run does to a channel that is silent.
proof fn lemma_ran_silent(m: WaveModel, start: int, end: int)
    requires
        m.silent(),
    ensures
        m.ran(start, end) == (WaveModel {
            last_amp: 0,
            delay: if m.last_amp != 0 {
                0
            } else {
                m.delay
            },
            buffer: m.buffer.with_ops(m.emitted(start, end)),
            ..m
        }),
        m.ran(start, end).silent(),
        m.emitted(start, end) == m.emitted(start, start),
        m.last_amp == 0 ==> m.emitted(start, end) == Seq::<BlipOp>::empty(),
{
    reveal(WaveModel::ran);
}

/// What a run does to a channel that sounds.
proof fn lemma_ran_sounding(m: WaveModel, start: int, end: int)
    requires
        m.period > 0,
        !m.silent(),
    ensures
        m.ran(start, end) == (WaveModel {
            current_wave: (m.current_wave + steps_before(start + m.delay, end, m.period)) % 32,
            last_amp: level_before(
                m.last_amp,
                m.steps(start, end),
                steps_before(start + m.delay, end, m.period),
            ),
            delay: start + m.delay + steps_before(start + m.delay, end, m.period) * m.period
                - end,
            buffer: m.buffer.with_ops(level_changes(m.last_amp, m.steps(start, end))),
            ..m
        }),
        !m.ran(start, end).silent(),
        m.steps(start, end).len() == steps_before(start + m.delay, end, m.period),
{
    reveal(WaveModel::ran);
    reveal(wave_steps);
    lemma_delay_after(start + m.delay, end, m.period);
}

/// The run of a silent channel in two parts is the run in one.
proof fn lemma_silent_run_composes(m: WaveModel, start: int, middle: int, end: int)
    requires
        m.silent(),
    ensures
        m.ran(start, middle).ran(middle, end) == m.ran(start, end),
{
    let half = m.ran(start, middle);
    lemma_ran_silent(m, start, middle);
    lemma_ran_silent(m, start, end);
    lemma_ran_silent(half, middle, end);
    lemma_with_ops_twice(m.buffer, m.emitted(start, middle), half.emitted(middle, end));
    assert(m.emitted(start, middle) + Seq::<BlipOp>::empty() =~= m.emitted(start, middle));
}

/// The run of a channel that sounds in two parts is the run in one.
proof fn lemma_sounding_run_composes(m: WaveModel, start: int, middle: int, end: int)
    requires
        m.period > 0,
        !m.silent(),
        start <= middle <= end,
    ensures
        m.ran(start, middle).ran(middle, end) == m.ran(start, end),
{
    let half = m.ran(start, middle);
    lemma_ran_sounding(m, start, middle);
    lemma_ran_sounding(m, start, end);
    lemma_ran_sounding(half, middle, end);
    let first = start + m.delay;
    let early = steps_before(first, middle, m.period);
    let late = steps_before(first + early * m.period, end, m.period);
    lemma_steps_split(first, middle, end, m.period);
    lemma_wave_steps_split(first, early, late, m.period, m.waveram, m.current_wave, m.volume_shift);
    lemma_level_changes_concat(m.last_amp, m.steps(start, middle), half.steps(middle, end));
    lemma_with_ops_twice(
        m.buffer,
        level_changes(m.last_amp, m.steps(start, middle)),
        level_changes(half.last_amp, half.steps(middle, end)),
    );
    assert((early + late) * m.period == early * m.period + late * m.period)
        by (nonlinear_arith);
    assert(((m.current_wave + early) % 32 + late) % 32 == (m.current_wave + early + late)
        % 32);
}

/// A run in two parts leaves the channel and its buffer as the run in one
/// does: the channel can be brought up to the clock at any time in between
/// without a change to what it puts out.
pub proof fn lemma_ran_composes(m: WaveModel, start: int, middle: int, end: int)
    requires
        m.wf(),
        0 <= start <= middle <= end,
    ensures
        m.ran(start, middle).ran(middle, end) == m.ran(start, end),
{
    if m.silent() {
        lemma_silent_run_composes(m, start, middle, end);
    } else {
        lemma_sounding_run_composes(m, start, middle, end);
    }
}

/// Closing a frame changes no amplitude.
pub proof fn lemma_frame_closed_wf(m: WaveModel, t: int)
    requires
        m.wf(),
        m.buffer.reach() <= t,
    ensures
        m.frame_closed(t).wf(),
        m.frame_closed(t).buffer.reach() == 0,
{
    lemma_level_after_frame(m.buffer, t);
}

/// While its DAC is off the channel is silent, whatever has been written to
/// it since the DAC went off.
pub proof fn lemma_dac_off_is_silent(m: WaveModel, a: int, v: int)
    requires
        m.wf(),
        !m.enabled_flag,
        0 <= v <= 255,
        a != NR30,
    ensures
        m.silent(),
        !m.on(),
        m.written(a, v).silent(),
        !m.written(a, v).on(),
{
}

/// A byte written to wave RAM is the byte read back from its address.
pub proof fn lemma_wave_ram_round_trip(m: WaveModel, a: int, v: int)
    requires
        m.wf(),
        WAVE_RAM <= a <= WAVE_RAM_END,
        0 <= v <= 255,
    ensures
        m.written(a, v).ram_byte(a) == v,
{
}

/// A channel whose length has run out puts out the one delta that takes its
/// buffer to zero, unless it stands there already, and nothing after that:
/// a further run finds nothing to do. It keeps its place in its waveform.
pub proof fn lemma_expired_length_silences(
    m: WaveModel,
    start: int,
    end: int,
    next_start: int,
    next_end: int,
)
    requires
        m.wf(),
        m.length_enabled,
        m.length == 0,
    ensures
        m.emitted(start, end) == flush(m.last_amp, start),
        m.ran(start, end).buffer.history == m.buffer.history + flush(m.last_amp, start),
        m.ran(start, end).buffer.level() == 0,
        m.ran(start, end).last_amp == 0,
        m.ran(start, end).current_wave == m.current_wave,
        m.ran(start, end).emitted(next_start, next_end) == Seq::<BlipOp>::empty(),
        m.ran(start, end).ran(next_start, next_end) == m.ran(start, end),
{
    let once = m.ran(start, end);
    lemma_ran_silent(m, start, end);
    lemma_ran_silent(once, next_start, next_end);
    lemma_level_after_flush(m.buffer, m.last_amp, start);
    assert(once.buffer.history + Seq::<BlipOp>::empty() =~= once.buffer.history);
}

/// With its length counter on, a channel of length `l` above 0 reports
/// itself on, if it is enabled, through `l - 1` length ticks, and off from
/// tick `l` on.
pub proof fn lemma_length_countdown(m: WaveModel, n: nat)
    requires
        m.length_enabled,
        m.length >= 1,
    ensures
        m.length_stepped_by(n) == (WaveModel {
            length: if n < m.length {
                m.length - n
            } else {
                0
            },
            ..m
        }),
        n < m.length ==> m.length_stepped_by(n).on() == m.enabled,
        n >= m.length ==> !m.length_stepped_by(n).on(),
    decreases n,
{
    if n > 0 {
        lemma_length_countdown(m, (n - 1) as nat);
    }
}

} // verus!
