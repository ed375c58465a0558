//! The audio processing unit as the CPU sees it: the register file, the
//! frame sequencer that clocks the four channels, and the output of mixed
//! frames.

use crate::buffer::{
    create_blipbuf, frame_fits, lemma_frame_fits, lemma_frame_fits_earlier, lemma_tuned_position,
    BlipModel, CLOCKS_PER_SECOND, MIN_SAMPLE_RATE,
};
use crate::mixer::{mix, mixed, StereoFrame};
use crate::noise::{NoiseChannel, NoiseModel};
use crate::regs::{
    lemma_byte_fields, NR10, NR14, NR21, NR24, NR30, NR34, NR41, NR44, NR50, NR51, NR52, WAVE_RAM,
    WAVE_RAM_END,
};
use crate::square::{SquareChannel, SquareModel};
use crate::wave::{WaveChannel, WaveModel};
use vstd::prelude::*;

verus! {

/// The number of samples in a batch of output.
pub const OUTPUT_SAMPLE_COUNT: u32 = 2000;

/// The clocks between two ticks of the frame sequencer, which runs at 256
/// ticks to the second.
pub const SEQUENCER_PERIOD: u32 = 16_384;

/// The state of the unit, as numbers.
pub struct ApuModel {
    /// The master enable.
    pub on: bool,
    /// The bytes last written to `NR10..=NR52`.
    pub registers: Seq<int>,
    /// Clocks gone by in the running frame.
    pub time: int,
    /// The clock up to which the channels have run.
    pub prev_time: int,
    /// The clock of the next tick of the frame sequencer.
    pub next_time: int,
    /// The phase of the frame sequencer, `0..=3`.
    pub time_divider: int,
    /// Samples per second at the sink.
    pub sample_rate: int,
    /// The fraction of a sample that the last frame left over, in parts of
    /// `2^22`.
    pub carry: int,
    /// The clocks that a batch of output is worth.
    pub output_period: int,
    /// Channel 1, a square wave with sweep.
    pub channel1: SquareModel,
    /// Channel 2, a square wave.
    pub channel2: SquareModel,
    /// Channel 3, the wave table.
    pub channel3: WaveModel,
    /// Channel 4, noise.
    pub channel4: NoiseModel,
    /// The master volume on the left, `0..=7`.
    pub volume_left: int,
    /// The master volume on the right, `0..=7`.
    pub volume_right: int,
}

impl ApuModel {
    /// Whether the four buffers run at the unit's sample rate, carry what
    /// the unit carries, hold no samples, and have been handed no delta
    /// beyond the clock up to which the channels have run.
    pub open spec fn clocked(self) -> bool {
        &&& self.channel1.buffer.reach() <= self.prev_time
        &&& self.channel2.buffer.reach() <= self.prev_time
        &&& self.channel3.buffer.reach() <= self.prev_time
        &&& self.channel4.buffer.reach() <= self.prev_time
        &&& self.channel1.buffer.tuned(self.sample_rate, self.carry)
        &&& self.channel2.buffer.tuned(self.sample_rate, self.carry)
        &&& self.channel3.buffer.tuned(self.sample_rate, self.carry)
        &&& self.channel4.buffer.tuned(self.sample_rate, self.carry)
        &&& self.channel1.buffer.ready.len() == 0
        &&& self.channel2.buffer.ready.len() == 0
        &&& self.channel3.buffer.ready.len() == 0
        &&& self.channel4.buffer.ready.len() == 0
    }

    /// Whether the clocks are in order: the channels have run no further
    /// than the frame has got, and the next tick of the sequencer lies
    /// ahead of them by no more than its period.
    pub open spec fn timed(self) -> bool {
        &&& 0 <= self.prev_time <= self.time
        &&& self.prev_time < self.next_time <= self.prev_time + SEQUENCER_PERIOD
        &&& 0 <= self.time_divider <= 3
    }

    /// Whether the running frame can reach clock `t`.
    pub open spec fn fits(self, t: int) -> bool {
        frame_fits(self.sample_rate, self.carry, t)
    }

    /// The invariant of the unit.
    pub open spec fn wf(self) -> bool {
        &&& self.registers.len() == 23
        &&& forall|i: int| 0 <= i < 23 ==> 0 <= #[trigger] self.registers[i] <= 255
        &&& self.timed()
        &&& MIN_SAMPLE_RATE <= self.sample_rate <= u32::MAX
        &&& self.output_period == (OUTPUT_SAMPLE_COUNT * CLOCKS_PER_SECOND) / self.sample_rate
        &&& 0 <= self.volume_left <= 7
        &&& 0 <= self.volume_right <= 7
        &&& self.channel1.wf()
        &&& self.channel2.wf()
        &&& self.channel3.wf()
        &&& self.channel4.wf()
        &&& self.channel1.has_sweep
        &&& !self.channel2.has_sweep
        &&& self.clocked()
        &&& self.fits(self.time)
    }

    /// The unit as it is made for a sink of `sample_rate` samples per second:
    /// off, with every register at 0, both master volumes at 7, and the
    /// first tick of the sequencer one period ahead.
    pub open spec fn initial(sample_rate: int) -> ApuModel {
        ApuModel {
            on: false,
            registers: Seq::new(23, |i: int| 0int),
            time: 0,
            prev_time: 0,
            next_time: SEQUENCER_PERIOD as int,
            time_divider: 0,
            sample_rate,
            carry: 2,
            output_period: (OUTPUT_SAMPLE_COUNT * CLOCKS_PER_SECOND) / sample_rate,
            channel1: SquareModel::initial(true, BlipModel::fresh(sample_rate)),
            channel2: SquareModel::initial(false, BlipModel::fresh(sample_rate)),
            channel3: WaveModel::initial(BlipModel::fresh(sample_rate)),
            channel4: NoiseModel::initial(BlipModel::fresh(sample_rate)),
            volume_left: 7,
            volume_right: 7,
        }
    }

    /// The unit after the tick of the frame sequencer at `next_time`: the
    /// channels run up to the tick and take a length tick; in phase 0 the
    /// three envelopes take a tick, in phases 1 and 3 the sweep does; then
    /// the phase moves on and the next tick is one period away.
    pub open spec fn tick(self) -> ApuModel {
        let c1 = self.channel1.ran(self.prev_time, self.next_time).length_stepped();
        let c2 = self.channel2.ran(self.prev_time, self.next_time).length_stepped();
        let c3 = self.channel3.ran(self.prev_time, self.next_time).length_stepped();
        let c4 = self.channel4.ran(self.prev_time, self.next_time).length_stepped();
        ApuModel {
            channel1: if self.time_divider == 0 {
                c1.envelope_stepped()
            } else if self.time_divider % 2 == 1 {
                c1.sweep_stepped()
            } else {
                c1
            },
            channel2: if self.time_divider == 0 {
                c2.envelope_stepped()
            } else {
                c2
            },
            channel3: c3,
            channel4: if self.time_divider == 0 {
                c4.envelope_stepped()
            } else {
                c4
            },
            time_divider: (self.time_divider + 1) % 4,
            prev_time: self.next_time,
            next_time: self.next_time + SEQUENCER_PERIOD,
            ..self
        }
    }

    /// The unit after every tick of the frame sequencer that is due at
    /// `time`, in the order of their clocks.
    pub open spec fn sequenced(self) -> ApuModel
        decreases self.time - self.next_time + SEQUENCER_PERIOD,
    {
        if self.next_time <= self.time {
            self.tick().sequenced()
        } else {
            self
        }
    }

    /// The unit after the channels have run up to `time`. No tick of the
    /// sequencer falls into this stretch.
    pub open spec fn flushed(self) -> ApuModel {
        if self.prev_time != self.time {
            ApuModel {
                channel1: self.channel1.ran(self.prev_time, self.time),
                channel2: self.channel2.ran(self.prev_time, self.time),
                channel3: self.channel3.ran(self.prev_time, self.time),
                channel4: self.channel4.ran(self.prev_time, self.time),
                prev_time: self.time,
                ..self
            }
        } else {
            self
        }
    }

    /// The unit brought up to `time`: every due tick of the sequencer has
    /// been taken and the channels have run up to `time`. Every read and
    /// every write that is let through begins with this.
    pub open spec fn caught_up(self) -> ApuModel {
        self.sequenced().flushed()
    }

    /// The low nibble of the status register: one bit for each channel that
    /// reports itself on.
    pub open spec fn status(self) -> int {
        (if self.channel1.on() {
            1int
        } else {
            0int
        }) + (if self.channel2.on() {
            2int
        } else {
            0int
        }) + (if self.channel3.on() {
            4int
        } else {
            0int
        }) + (if self.channel4.on() {
            8int
        } else {
            0int
        })
    }

    /// The byte that address `a` reads as: the byte last written for
    /// `NR10..=NR51`; the high nibble last written and the live status of
    /// the channels for `NR52`; the two samples kept there for wave RAM;
    /// and 0 everywhere else.
    pub open spec fn read(self, a: int) -> int {
        if NR10 <= a <= NR51 {
            self.registers[a - NR10]
        } else if a == NR52 {
            (self.registers[NR52 - NR10] / 16) * 16 + self.status()
        } else if WAVE_RAM <= a <= WAVE_RAM_END {
            self.channel3.ram_byte(a)
        } else {
            0
        }
    }

    /// The unit, brought up to `time`, after it has taken the byte `v` at
    /// address `a`: the register file keeps the byte, and the owner of the
    /// address acts on it.
    pub open spec fn stored(self, a: int, v: int) -> ApuModel {
        let kept = ApuModel {
            registers: if NR10 <= a <= NR52 {
                self.registers.update(a - NR10, v)
            } else {
                self.registers
            },
            ..self
        };
        if NR10 <= a <= NR14 {
            ApuModel { channel1: self.channel1.written(a, v), ..kept }
        } else if NR21 <= a <= NR24 {
            ApuModel { channel2: self.channel2.written(a, v), ..kept }
        } else if NR30 <= a <= NR34 {
            ApuModel { channel3: self.channel3.written(a, v), ..kept }
        } else if NR41 <= a <= NR44 {
            ApuModel { channel4: self.channel4.written(a, v), ..kept }
        } else if a == NR50 {
            ApuModel { volume_left: v % 8, volume_right: (v / 16) % 8, ..kept }
        } else if a == NR52 {
            ApuModel { on: v >= 128, ..kept }
        } else if WAVE_RAM <= a <= WAVE_RAM_END {
            ApuModel { channel3: self.channel3.written(a, v), ..kept }
        } else {
            kept
        }
    }

    /// The unit after the write of `v` to address `a`. While the master
    /// enable is off, every write but one to `NR52` is ignored. Another is
    /// taken once the unit has been brought up to `time`.
    pub open spec fn written(self, a: int, v: int) -> ApuModel {
        if a != NR52 && !self.on {
            self
        } else {
            self.caught_up().stored(a, v)
        }
    }

    /// Whether `cycles` more clocks can go by: the unit is off and takes no
    /// notice of them, or the running frame can reach the clock that they
    /// lead to.
    pub open spec fn can_advance(self, cycles: int) -> bool {
        !self.on || self.fits(self.time + cycles)
    }

    /// Whether output is due: the frame is worth a batch of output, and has
    /// reached the period of the sink.
    pub open spec fn output_due(self, sink_period: int) -> bool {
        self.time >= self.output_period && self.time >= sink_period
    }

    /// The number of output samples that the running frame is worth at
    /// `time`: its clocks at the sample rate, with what the last frame left
    /// over, counted in whole samples.
    pub open spec fn frame_length(self) -> int {
        (self.time * self.sample_rate + self.carry) / (CLOCKS_PER_SECOND as int)
    }

    /// The frames that the running frame yields when it ends at `time`.
    pub open spec fn frames(self) -> Seq<StereoFrame> {
        mixed(
            self.channel1.buffer.frame_samples(self.time),
            self.channel2.buffer.frame_samples(self.time),
            self.channel3.buffer.frame_samples(self.time),
            self.channel4.buffer.frame_samples(self.time),
            self.registers[NR51 - NR10],
            self.volume_left,
            self.volume_right,
        )
    }

    /// The unit after the running frame has ended at `time`: the buffers
    /// begin a new frame and carry the fraction of a sample that is left,
    /// and the clocks count from 0 again.
    pub open spec fn frame_closed(self) -> ApuModel {
        ApuModel {
            channel1: self.channel1.frame_closed(self.time),
            channel2: self.channel2.frame_closed(self.time),
            channel3: self.channel3.frame_closed(self.time),
            channel4: self.channel4.frame_closed(self.time),
            carry: (self.time * self.sample_rate + self.carry) % 0x40_0000,
            next_time: self.next_time - self.time,
            time: 0,
            prev_time: 0,
            ..self
        }
    }

    /// The unit `cycles` clocks later.
    pub open spec fn later(self, cycles: int) -> ApuModel {
        ApuModel { time: self.time + cycles, ..self }
    }

    /// The unit after `cycles` clocks have gone by, for a sink of period
    /// `sink_period`. A unit that is off stays as it is. Else the clocks
    /// are added to `time`, and where output is due the unit is brought up
    /// to `time` and the frame ends there.
    pub open spec fn advanced(self, cycles: int, sink_period: int) -> ApuModel {
        if !self.on {
            self
        } else if self.later(cycles).output_due(sink_period) {
            self.later(cycles).caught_up().frame_closed()
        } else {
            self.later(cycles)
        }
    }

    /// The frames that come out as `cycles` clocks go by: those of the
    /// running frame where output is due, none where it is not.
    pub open spec fn output(self, cycles: int, sink_period: int) -> Seq<StereoFrame> {
        if self.on && self.later(cycles).output_due(sink_period) {
            self.later(cycles).caught_up().frames()
        } else {
            Seq::empty()
        }
    }
}

/// One thing that the CPU does to the unit.
pub enum Access {
    /// A read of the byte at `address`.
    Read { address: int },
    /// A write of `value` to `address`.
    Write { address: int, value: int },
    /// The passing of `cycles` clocks, at a sink of period `sink_period`.
    Cycle { cycles: int, sink_period: int },
}

impl ApuModel {
    /// The unit after one access.
    pub open spec fn after(self, access: Access) -> ApuModel {
        match access {
            Access::Read { address } => self.caught_up(),
            Access::Write { address, value } => self.written(address, value),
            Access::Cycle { cycles, sink_period } => self.advanced(cycles, sink_period),
        }
    }

    /// The frames that come out at one access.
    pub open spec fn frames_at(self, access: Access) -> Seq<StereoFrame> {
        match access {
            Access::Cycle { cycles, sink_period } => self.output(cycles, sink_period),
            _ => Seq::empty(),
        }
    }

    /// The unit after the accesses of `schedule`, in their order.
    pub open spec fn played(self, schedule: Seq<Access>) -> ApuModel
        decreases schedule.len(),
    {
        if schedule.len() == 0 {
            self
        } else {
            self.played(schedule.drop_last()).after(schedule.last())
        }
    }

    /// All the frames that come out in the course of `schedule`.
    pub open spec fn heard(self, schedule: Seq<Access>) -> Seq<StereoFrame>
        decreases schedule.len(),
    {
        if schedule.len() == 0 {
            Seq::empty()
        } else {
            self.heard(schedule.drop_last()) + self.played(schedule.drop_last()).frames_at(
                schedule.last(),
            )
        }
    }
}

impl ApuModel {
    /// Whether the unit can take `access`: a byte to write, or clocks that
    /// can go by.
    pub open spec fn admits(self, access: Access) -> bool {
        match access {
            Access::Read { address } => true,
            Access::Write { address, value } => 0 <= value <= 255,
            Access::Cycle { cycles, sink_period } => 0 <= cycles && self.can_advance(cycles),
        }
    }

    /// Whether the unit can take the accesses of `schedule`, each in its
    /// turn.
    pub open spec fn admits_all(self, schedule: Seq<Access>) -> bool
        decreases schedule.len(),
    {
        schedule.len() == 0 || (self.admits_all(schedule.drop_last()) && self.played(
            schedule.drop_last(),
        ).admits(schedule.last()))
    }
}

/// The writes and the passing of clocks in `schedule`, without the reads.
pub open spec fn without_reads(schedule: Seq<Access>) -> Seq<Access>
    decreases schedule.len(),
{
    if schedule.len() == 0 {
        Seq::empty()
    } else if schedule.last() is Read {
        without_reads(schedule.drop_last())
    } else {
        without_reads(schedule.drop_last()).push(schedule.last())
    }
}

/// The audio processing unit.
pub struct Sound {
    on: bool,
    registerdata: [u8; 23],
    time: u32,
    prev_time: u32,
    next_time: u32,
    time_divider: u8,
    sample_rate: u32,
    carry: u32,
    output_period: u64,
    channel1: SquareChannel,
    channel2: SquareChannel,
    channel3: WaveChannel,
    channel4: NoiseChannel,
    volume_left: u8,
    volume_right: u8,
}

impl View for Sound {
    type V = ApuModel;

    closed spec fn view(&self) -> ApuModel {
        ApuModel {
            on: self.on,
            registers: Seq::new(23, |i: int| self.registerdata@[i] as int),
            time: self.time as int,
            prev_time: self.prev_time as int,
            next_time: self.next_time as int,
            time_divider: self.time_divider as int,
            sample_rate: self.sample_rate as int,
            carry: self.carry as int,
            output_period: self.output_period as int,
            channel1: self.channel1@,
            channel2: self.channel2@,
            channel3: self.channel3@,
            channel4: self.channel4@,
            volume_left: self.volume_left as int,
            volume_right: self.volume_right as int,
        }
    }
}

impl Sound {
    /// The invariant of the unit, which `new` sets up and every method
    /// keeps.
    pub open spec fn wf(&self) -> bool {
        self@.wf()
    }

    /// Makes the unit for a sink of `sample_rate` samples per second. There
    /// is no unit for a rate below `MIN_SAMPLE_RATE`, at which the buffers
    /// could not be kept from overflowing their sums, nor for one so near
    /// the top of 32 bits that the buffers' spare cells would not fit beside
    /// a second of it.
    pub fn new(sample_rate: u32) -> (made: Option<Sound>)
        ensures
            made is Some <==> MIN_SAMPLE_RATE <= sample_rate <= u32::MAX - 18,
            made matches Some(apu) ==> apu.wf() && apu@ == ApuModel::initial(sample_rate as int),
    {
        if sample_rate < MIN_SAMPLE_RATE || sample_rate > u32::MAX - 18 {
            return None;
        }
        let blipbuf1 = create_blipbuf(sample_rate);
        let blipbuf2 = create_blipbuf(sample_rate);
        let blipbuf3 = create_blipbuf(sample_rate);
        let blipbuf4 = create_blipbuf(sample_rate);
        assert(OUTPUT_SAMPLE_COUNT * CLOCKS_PER_SECOND == 8_388_608_000) by (nonlinear_arith)
            requires
                OUTPUT_SAMPLE_COUNT == 2000,
                CLOCKS_PER_SECOND == 4_194_304,
        ;
        let output_period = (OUTPUT_SAMPLE_COUNT as u64 * CLOCKS_PER_SECOND as u64)
            / sample_rate as u64;
        let apu = Sound {
            on: false,
            registerdata: [0u8;23],
            time: 0,
            prev_time: 0,
            next_time: SEQUENCER_PERIOD,
            time_divider: 0,
            sample_rate,
            carry: 2,
            output_period,
            channel1: SquareChannel::new(blipbuf1, true),
            channel2: SquareChannel::new(blipbuf2, false),
            channel3: WaveChannel::new(blipbuf3),
            channel4: NoiseChannel::new(blipbuf4),
            volume_left: 7,
            volume_right: 7,
        };
        proof {
            assert(apu@.registers =~= ApuModel::initial(sample_rate as int).registers);
        }
        Some(apu)
    }

    /// Reads the byte at address `a`, once the unit has been brought up to
    /// `time`.
    pub fn rb(&mut self, a: u16) -> (v: u8)
        requires
            old(self).wf(),
        ensures
            final(self).wf(),
            final(self)@ == old(self)@.caught_up(),
            v == final(self)@.read(a as int),
    {
        self.run();
        if NR10 <= a && a <= NR51 {
            self.registerdata[(a - NR10) as usize]
        } else if a == NR52 {
            let mut status: u8 = 0;
            if self.channel1.on() {
                status += 1;
            }
            if self.channel2.on() {
                status += 2;
            }
            if self.channel3.on() {
                status += 4;
            }
            if self.channel4.on() {
                status += 8;
            }
            let stored = self.registerdata[(NR52 - NR10) as usize];
            proof {
                lemma_status_byte(stored, status);
            }
            (stored & 0xF0) | status
        } else if WAVE_RAM <= a && a <= WAVE_RAM_END {
            self.channel3.read_ram(a)
        } else {
            0
        }
    }

    /// Writes the byte `v` to address `a`.
    pub fn wb(&mut self, a: u16, v: u8)
        requires
            old(self).wf(),
        ensures
            final(self).wf(),
            final(self)@ == old(self)@.written(a as int, v as int),
    {
        if a != NR52 && !self.on {
            return ;
        }
        self.run();
        let ghost before = self@;
        proof {
            lemma_byte_fields(v);
            lemma_stored_keeps_clock(before, a as int, v as int);
        }
        if a >= NR10 && a <= NR52 {
            self.registerdata[(a - NR10) as usize] = v;
        }
        if NR10 <= a && a <= NR14 {
            self.channel1.wb(a, v);
        } else if NR21 <= a && a <= NR24 {
            self.channel2.wb(a, v);
        } else if NR30 <= a && a <= NR34 {
            self.channel3.wb(a, v);
        } else if NR41 <= a && a <= NR44 {
            self.channel4.wb(a, v);
        } else if a == NR50 {
            self.volume_left = v & 0x7;
            self.volume_right = (v >> 4) & 0x7;
        } else if a == NR52 {
            self.on = v & 0x80 == 0x80;
        } else if WAVE_RAM <= a && a <= WAVE_RAM_END {
            self.channel3.wb(a, v);
        }
        proof {
            assert(self@.registers =~= before.stored(a as int, v as int).registers);
        }
    }

    /// Whether `cycles` more clocks can go by.
    pub fn can_advance(&self, cycles: u32) -> (ok: bool)
        requires
            self.wf(),
        ensures
            ok == self@.can_advance(cycles as int),
    {
        if !self.on {
            return true;
        }
        let t: u128 = self.time as u128 + cycles as u128;
        assert(t * self.sample_rate <= 0x2_0000_0000 * 0x1_0000_0000) by (nonlinear_arith)
            requires
                0 <= t <= 0x2_0000_0000,
                0 <= self.sample_rate <= 0x1_0000_0000,
        ;
        let reach: u128 = t * self.sample_rate as u128 + self.carry as u128;
        reach < 0x4_0000_0000 && reach / 0x40_0000 <= self.sample_rate as u128
    }

    /// Lets `cycles` clocks go by, and hands out the frames of the running
    /// frame where they are due at a sink of period `sink_period`.
    pub fn do_cycle(&mut self, cycles: u32, sink_period: u32) -> (frames: Vec<StereoFrame>)
        requires
            old(self).wf(),
            old(self)@.can_advance(cycles as int),
        ensures
            final(self).wf(),
            final(self)@ == old(self)@.advanced(cycles as int, sink_period as int),
            frames@ == old(self)@.output(cycles as int, sink_period as int),
            frames@.len() == if old(self)@.on && old(self)@.later(cycles as int).output_due(
                sink_period as int,
            ) {
                old(self)@.later(cycles as int).frame_length()
            } else {
                0
            },
    {
        if !self.on {
            return Vec::new();
        }
        proof {
            lemma_frame_fits(
                self@.channel1.buffer,
                self@.sample_rate,
                self@.carry,
                self.time + cycles,
            );
        }
        self.time += cycles;
        if self.time as u64 >= self.output_period {
            self.do_output(sink_period)
        } else {
            Vec::new()
        }
    }

    /// Lets `cycles` clocks go by where they can: what `do_cycle` hands out
    /// then, and nothing, with the unit left as it was, where the running
    /// frame cannot reach the clock that they lead to.
    pub fn try_do_cycle(&mut self, cycles: u32, sink_period: u32) -> (frames: Option<
        Vec<StereoFrame>,
    >)
        requires
            old(self).wf(),
        ensures
            final(self).wf(),
            frames is Some <==> old(self)@.can_advance(cycles as int),
            frames matches Some(heard) ==> {
                &&& final(self)@ == old(self)@.advanced(cycles as int, sink_period as int)
                &&& heard@ == old(self)@.output(cycles as int, sink_period as int)
            },
            frames is None ==> final(self)@ == old(self)@,
    {
        if self.can_advance(cycles) {
            Some(self.do_cycle(cycles, sink_period))
        } else {
            None
        }
    }

    /// The clocks that `samples` output samples are worth at the unit's
    /// sample rate, rounded down, and no more than 32 bits hold.
    pub fn clocks_for(&self, samples: u32) -> (clocks: u32)
        requires
            self.wf(),
        ensures
            clocks == if samples * CLOCKS_PER_SECOND / self@.sample_rate <= u32::MAX {
                samples * CLOCKS_PER_SECOND / self@.sample_rate
            } else {
                u32::MAX as int
            },
    {
        assert(samples * CLOCKS_PER_SECOND <= 0xFFFF_FFFF * 0x40_0000) by (nonlinear_arith)
            requires
                0 <= samples <= 0xFFFF_FFFF,
                CLOCKS_PER_SECOND == 0x40_0000,
        ;
        let clocks = samples as u64 * CLOCKS_PER_SECOND as u64 / self.sample_rate as u64;
        if clocks > u32::MAX as u64 {
            u32::MAX
        } else {
            clocks as u32
        }
    }

    /// Ends the running frame, if it has reached the period of the sink, and
    /// hands out its frames.
    fn do_output(&mut self, sink_period: u32) -> (frames: Vec<StereoFrame>)
        requires
            old(self).wf(),
            old(self).time >= old(self).output_period,
        ensures
            final(self).wf(),
            final(self)@ == if old(self)@.output_due(sink_period as int) {
                old(self)@.caught_up().frame_closed()
            } else {
                old(self)@
            },
            frames@ == if old(self)@.output_due(sink_period as int) {
                old(self)@.caught_up().frames()
            } else {
                Seq::<StereoFrame>::empty()
            },
            frames@.len() == if old(self)@.output_due(sink_period as int) {
                old(self)@.frame_length()
            } else {
                0
            },
    {
        if self.time >= sink_period {
            self.run();
            let ghost before = self@;
            proof {
                lemma_caught_up(old(self)@);
                lemma_channels_take(before, before.time);
                lemma_frame_closed_wf(before);
                lemma_frame_fits(
                    before.channel1.buffer,
                    before.sample_rate,
                    before.carry,
                    before.time,
                );
            }
            let s1 = self.channel1.end_frame(self.time);
            let s2 = self.channel2.end_frame(self.time);
            let s3 = self.channel3.end_frame(self.time);
            let s4 = self.channel4.end_frame(self.time);
            self.carry = ((self.time as u64 * self.sample_rate as u64 + self.carry as u64)
                % 0x40_0000) as u32;
            self.next_time -= self.time;
            self.time = 0;
            self.prev_time = 0;
            let pan = self.registerdata[(NR51 - NR10) as usize];
            mix(&s1, &s2, &s3, &s4, pan, self.volume_left, self.volume_right)
        } else {
            Vec::new()
        }
    }

    /// Brings the unit up to `time`.
    fn run(&mut self)
        requires
            old(self).wf(),
        ensures
            final(self).wf(),
            final(self)@ == old(self)@.caught_up(),
    {
        while self.next_time <= self.time
            invariant
                self.wf(),
                self@.sequenced() == old(self)@.sequenced(),
            decreases self.time - self.next_time + SEQUENCER_PERIOD,
        {
            let ghost before = self@;
            proof {
                lemma_channels_take(before, before.next_time);
                lemma_tick_wf(before);
            }
            self.channel1.run(self.prev_time, self.next_time);
            self.channel2.run(self.prev_time, self.next_time);
            self.channel3.run(self.prev_time, self.next_time);
            self.channel4.run(self.prev_time, self.next_time);
            self.channel1.step_length();
            self.channel2.step_length();
            self.channel3.step_length();
            self.channel4.step_length();
            if self.time_divider == 0 {
                self.channel1.step_envelope();
                self.channel2.step_envelope();
                self.channel4.step_envelope();
            } else if self.time_divider & 1 == 1 {
                self.channel1.step_sweep();
            }
            proof {
                lemma_byte_fields(self.time_divider);
            }
            self.time_divider = (self.time_divider + 1) % 4;
            self.prev_time = self.next_time;
            self.next_time += SEQUENCER_PERIOD;
        }
        if self.prev_time != self.time {
            let ghost before = self@;
            proof {
                lemma_channels_take(before, before.time);
                lemma_flushed_wf(before);
            }
            self.channel1.run(self.prev_time, self.time);
            self.channel2.run(self.prev_time, self.time);
            self.channel3.run(self.prev_time, self.time);
            self.channel4.run(self.prev_time, self.time);
            self.prev_time = self.time;
        }
    }
}

/// The status register as it is read: the high nibble of the byte last
/// written over the status of the channels.
proof fn lemma_status_byte(stored: u8, status: u8)
    by (bit_vector)
    requires
        status <= 15,
    ensures
        (stored & 0xF0) | status == (stored / 16) * 16 + status,
{
}

/// Every buffer of a well-formed unit can reach the clocks of the running
/// frame up to `time`, all of which lie within `2^23`, and is worth the same
/// number of samples there.
pub proof fn lemma_channels_take(m: ApuModel, t: int)
    requires
        m.wf(),
        0 <= t <= m.time,
    ensures
        m.channel1.buffer.takes(t),
        m.channel2.buffer.takes(t),
        m.channel3.buffer.takes(t),
        m.channel4.buffer.takes(t),
        m.channel2.buffer.position(t) == m.channel1.buffer.position(t),
        m.channel3.buffer.position(t) == m.channel1.buffer.position(t),
        m.channel4.buffer.position(t) == m.channel1.buffer.position(t),
        m.time < 0x80_0000,
        m.fits(t),
{
    lemma_frame_fits_earlier(m.sample_rate, m.carry, t, m.time);
    lemma_frame_fits(m.channel1.buffer, m.sample_rate, m.carry, m.time);
    lemma_frame_fits(m.channel1.buffer, m.sample_rate, m.carry, t);
    lemma_frame_fits(m.channel2.buffer, m.sample_rate, m.carry, t);
    lemma_frame_fits(m.channel3.buffer, m.sample_rate, m.carry, t);
    lemma_frame_fits(m.channel4.buffer, m.sample_rate, m.carry, t);
}

/// A tick of the sequencer that is due keeps the invariant.
pub proof fn lemma_tick_wf(m: ApuModel)
    requires
        m.wf(),
        m.next_time <= m.time,
    ensures
        m.tick().wf(),
        m.tick().time == m.time,
{
    let (p, n) = (m.prev_time, m.next_time);
    crate::square::lemma_ran_wf(m.channel1, p, n);
    crate::square::lemma_ran_wf(m.channel2, p, n);
    crate::wave::lemma_ran_wf(m.channel3, p, n);
    crate::noise::lemma_ran_wf(m.channel4, p, n);
    crate::square::lemma_buffer_kept(m.channel1, 0, 0, p, n);
    crate::square::lemma_buffer_kept(m.channel2, 0, 0, p, n);
    crate::wave::lemma_buffer_kept(m.channel3, 0, 0, p, n);
    crate::noise::lemma_buffer_kept(m.channel4, 0, 0, p, n);
    let c1 = m.channel1.ran(p, n);
    let c2 = m.channel2.ran(p, n);
    let c3 = m.channel3.ran(p, n);
    let c4 = m.channel4.ran(p, n);
    crate::square::lemma_buffer_kept(c1, 0, 0, p, n);
    crate::square::lemma_buffer_kept(c2, 0, 0, p, n);
    crate::wave::lemma_buffer_kept(c3, 0, 0, p, n);
    crate::noise::lemma_buffer_kept(c4, 0, 0, p, n);
    crate::square::lemma_buffer_kept(c1.length_stepped(), 0, 0, p, n);
    crate::square::lemma_buffer_kept(c2.length_stepped(), 0, 0, p, n);
    crate::noise::lemma_buffer_kept(c4.length_stepped(), 0, 0, p, n);
    crate::square::lemma_written_wf(c1.length_stepped(), 0, 0);
    crate::envelope::lemma_envelope_stays_in_range(c1.envelope, 0, 0, 1);
    crate::envelope::lemma_envelope_stays_in_range(c2.envelope, 0, 0, 1);
    crate::envelope::lemma_envelope_stays_in_range(c4.envelope, 0, 0, 1);
}

/// The run of the channels up to `time` keeps the invariant.
pub proof fn lemma_flushed_wf(m: ApuModel)
    requires
        m.wf(),
        m.time < m.next_time,
    ensures
        m.flushed().wf(),
        m.flushed().prev_time == m.time,
{
    let (p, n) = (m.prev_time, m.time);
    crate::square::lemma_ran_wf(m.channel1, p, n);
    crate::square::lemma_ran_wf(m.channel2, p, n);
    crate::wave::lemma_ran_wf(m.channel3, p, n);
    crate::noise::lemma_ran_wf(m.channel4, p, n);
    crate::square::lemma_buffer_kept(m.channel1, 0, 0, p, n);
    crate::square::lemma_buffer_kept(m.channel2, 0, 0, p, n);
    crate::wave::lemma_buffer_kept(m.channel3, 0, 0, p, n);
    crate::noise::lemma_buffer_kept(m.channel4, 0, 0, p, n);
}

/// A byte that is stored leaves the buffers and the clocks as they are.
pub proof fn lemma_stored_keeps_clock(m: ApuModel, a: int, v: int)
    requires
        m.wf(),
        0 <= v <= 255,
    ensures
        m.stored(a, v).wf(),
        m.stored(a, v).time == m.time,
        m.stored(a, v).prev_time == m.prev_time,
        m.stored(a, v).next_time == m.next_time,
{
    crate::square::lemma_written_wf(m.channel1, a, v);
    crate::square::lemma_written_wf(m.channel2, a, v);
    crate::wave::lemma_written_wf(m.channel3, a, v);
    crate::noise::lemma_written_wf(m.channel4, a, v);
    crate::square::lemma_buffer_kept(m.channel1, a, v, 0, 0);
    crate::square::lemma_buffer_kept(m.channel2, a, v, 0, 0);
    crate::wave::lemma_buffer_kept(m.channel3, a, v, 0, 0);
    crate::noise::lemma_buffer_kept(m.channel4, a, v, 0, 0);
}

/// The end of a frame keeps the invariant.
pub proof fn lemma_frame_closed_wf(m: ApuModel)
    requires
        m.wf(),
        m.prev_time == m.time,
    ensures
        m.frame_closed().wf(),
{
    let t = m.time;
    lemma_channels_take(m, t);
    crate::square::lemma_frame_closed_wf(m.channel1, t);
    crate::square::lemma_frame_closed_wf(m.channel2, t);
    crate::wave::lemma_frame_closed_wf(m.channel3, t);
    crate::noise::lemma_frame_closed_wf(m.channel4, t);
    lemma_tuned_position(m.channel1.buffer, m.sample_rate, m.carry, t);
    lemma_tuned_position(m.channel2.buffer, m.sample_rate, m.carry, t);
    lemma_tuned_position(m.channel3.buffer, m.sample_rate, m.carry, t);
    lemma_tuned_position(m.channel4.buffer, m.sample_rate, m.carry, t);
}

/// The ticks of the sequencer that are due keep the invariant and touch
/// nothing but the channels, the phase of the sequencer and the clocks of
/// the channels and of the next tick, which then lies ahead.
pub proof fn lemma_sequenced(m: ApuModel)
    requires
        m.wf(),
    ensures
        m.sequenced().wf(),
        m.sequenced().time < m.sequenced().next_time,
        m.sequenced().time == m.time,
        m.sequenced().on == m.on,
        m.sequenced().registers == m.registers,
        m.sequenced().volume_left == m.volume_left,
        m.sequenced().volume_right == m.volume_right,
        m.sequenced().sample_rate == m.sample_rate,
        m.sequenced().carry == m.carry,
        m.sequenced().output_period == m.output_period,
    decreases m.time - m.next_time + SEQUENCER_PERIOD,
{
    if m.next_time <= m.time {
        lemma_tick_wf(m);
        lemma_sequenced(m.tick());
    }
}

/// A unit that has been brought up to `time` satisfies the invariant, has
/// run its channels up to `time` with the next tick of the sequencer still
/// ahead, and is not changed by being brought up to `time` once more.
/// Neither the register file nor the master enable and volumes have changed
/// on the way.
pub proof fn lemma_caught_up(m: ApuModel)
    requires
        m.wf(),
    ensures
        m.caught_up().wf(),
        m.caught_up().prev_time == m.time,
        m.caught_up().time == m.time,
        m.caught_up().time < m.caught_up().next_time,
        m.caught_up().caught_up() == m.caught_up(),
        m.caught_up().on == m.on,
        m.caught_up().registers == m.registers,
        m.caught_up().volume_left == m.volume_left,
        m.caught_up().volume_right == m.volume_right,
        m.caught_up().sample_rate == m.sample_rate,
        m.caught_up().carry == m.carry,
        m.caught_up().output_period == m.output_period,
{
    lemma_sequenced(m);
    lemma_flushed_wf(m.sequenced());
}

/// No frame sounds on a side that the pan register gives to no channel:
/// with a pan byte below 16 the right side of every frame is 0, with a low
/// nibble of 0 the left side is.
pub proof fn lemma_unpanned_frames(m: ApuModel, i: int)
    requires
        m.wf(),
        0 <= i < m.frames().len(),
    ensures
        m.registers[NR51 - NR10] < 16 ==> m.frames()[i].right == 0,
        m.registers[NR51 - NR10] % 16 == 0 ==> m.frames()[i].left == 0,
{
    let t = m.time;
    crate::mixer::lemma_unpanned_side_is_silent(
        m.channel1.buffer.frame_samples(t)[i] as int,
        m.channel2.buffer.frame_samples(t)[i] as int,
        m.channel3.buffer.frame_samples(t)[i] as int,
        m.channel4.buffer.frame_samples(t)[i] as int,
        m.registers[NR51 - NR10],
        m.volume_left,
        m.volume_right,
    );
}

/// A tick of the sequencer takes no notice of how far the frame has got.
pub proof fn lemma_tick_later(m: ApuModel, cycles: int)
    ensures
        m.later(cycles).tick() == m.tick().later(cycles),
{
}

/// The ticks that are due later are those that are due now and, after
/// them, those that become due.
pub proof fn lemma_sequenced_later(m: ApuModel, cycles: int)
    requires
        0 <= cycles,
    ensures
        m.later(cycles).sequenced() == m.sequenced().later(cycles).sequenced(),
    decreases m.time - m.next_time + SEQUENCER_PERIOD,
{
    if m.next_time <= m.time {
        lemma_tick_later(m, cycles);
        lemma_sequenced_later(m.tick(), cycles);
    }
}

/// A unit whose channels have run up to `time` goes on as one whose
/// channels have yet to: once both have been brought up to a later clock
/// there is no telling them apart.
pub proof fn lemma_flush_absorbed(m: ApuModel, cycles: int)
    requires
        m.wf(),
        m.time < m.next_time,
        0 <= cycles,
    ensures
        m.flushed().later(cycles).caught_up() == m.later(cycles).caught_up(),
{
    let (from, now, then) = (m.prev_time, m.time, m.time + cycles);
    let flushed = m.flushed();
    if from != now {
        if m.next_time <= then {
            let tick = m.next_time;
            crate::square::lemma_ran_composes(m.channel1, from, now, tick);
            crate::square::lemma_ran_composes(m.channel2, from, now, tick);
            crate::wave::lemma_ran_composes(m.channel3, from, now, tick);
            crate::noise::lemma_ran_composes(m.channel4, from, now, tick);
            assert(flushed.later(cycles).tick() == m.later(cycles).tick());
        } else {
            crate::square::lemma_ran_composes(m.channel1, from, now, then);
            crate::square::lemma_ran_composes(m.channel2, from, now, then);
            crate::wave::lemma_ran_composes(m.channel3, from, now, then);
            crate::noise::lemma_ran_composes(m.channel4, from, now, then);
            if cycles == 0 {
                assert(m.later(cycles) == m);
                assert(flushed.later(cycles) == flushed);
            }
        }
    }
}

/// Bringing the unit up to `time` on the way changes nothing in what it is
/// once it has been brought up to a later clock: the channels can be run
/// piece by piece.
pub proof fn lemma_catch_up_absorbed(m: ApuModel, cycles: int)
    requires
        m.wf(),
        0 <= cycles,
    ensures
        m.caught_up().later(cycles).caught_up() == m.later(cycles).caught_up(),
{
    lemma_sequenced(m);
    lemma_flush_absorbed(m.sequenced(), cycles);
    lemma_sequenced_later(m, cycles);
}

/// While the unit is off, a write to any address but `NR52` changes
/// nothing.
pub proof fn lemma_off_ignores_writes(m: ApuModel, a: int, v: int)
    requires
        !m.on,
        a != NR52,
    ensures
        m.written(a, v) == m,
{
}

/// While the unit is on, a byte written to one of `NR10..=NR51` is the byte
/// that the next read of that address returns.
pub proof fn lemma_register_round_trip(m: ApuModel, a: int, v: int)
    requires
        m.wf(),
        m.on,
        NR10 <= a <= NR51,
        0 <= v <= 255,
    ensures
        m.written(a, v).caught_up() == m.written(a, v),
        m.written(a, v).caught_up().read(a) == v,
{
    lemma_caught_up(m);
    lemma_stored_keeps_clock(m.caught_up(), a, v);
}

/// A byte written to `NR52` is read back with its high nibble as it was
/// written and the status of the channels in its low nibble.
pub proof fn lemma_status_round_trip(m: ApuModel, v: int)
    requires
        m.wf(),
        0 <= v <= 255,
    ensures
        m.written(NR52 as int, v).caught_up().read(NR52 as int) == (v / 16) * 16 + m.written(
            NR52 as int,
            v,
        ).status(),
{
    lemma_caught_up(m);
    lemma_stored_keeps_clock(m.caught_up(), NR52 as int, v);
}

/// While the unit is on, a byte written to wave RAM is the byte that the
/// next read of that address returns.
pub proof fn lemma_wave_ram_round_trip(m: ApuModel, a: int, v: int)
    requires
        m.wf(),
        m.on,
        WAVE_RAM <= a <= WAVE_RAM_END,
        0 <= v <= 255,
    ensures
        m.written(a, v).caught_up() == m.written(a, v),
        m.written(a, v).caught_up().read(a) == v,
{
    lemma_caught_up(m);
    lemma_stored_keeps_clock(m.caught_up(), a, v);
    crate::wave::lemma_wave_ram_round_trip(m.caught_up().channel3, a, v);
}

/// An access that the unit can take keeps the invariant.
pub proof fn lemma_after_wf(m: ApuModel, access: Access)
    requires
        m.wf(),
        m.admits(access),
    ensures
        m.after(access).wf(),
{
    lemma_caught_up(m);
    match access {
        Access::Read { address } => {},
        Access::Write { address, value } => {
            lemma_stored_keeps_clock(m.caught_up(), address, value);
        },
        Access::Cycle { cycles, sink_period } => {
            if m.on {
                lemma_caught_up(m.later(cycles));
                lemma_frame_closed_wf(m.later(cycles).caught_up());
            }
        },
    }
}

/// A schedule that the unit can take keeps the invariant.
pub proof fn lemma_played_wf(m: ApuModel, schedule: Seq<Access>)
    requires
        m.wf(),
        m.admits_all(schedule),
    ensures
        m.played(schedule).wf(),
    decreases schedule.len(),
{
    if schedule.len() > 0 {
        lemma_played_wf(m, schedule.drop_last());
        lemma_after_wf(m.played(schedule.drop_last()), schedule.last());
    }
}

/// Two units that are the same once they have been brought up to `time`
/// take the same accesses, put out the same frames at each, and are the
/// same again, once brought up to `time`, after it.
pub proof fn lemma_after_alike(a: ApuModel, b: ApuModel, access: Access)
    requires
        a.wf(),
        b.wf(),
        a.caught_up() == b.caught_up(),
        a.admits(access),
    ensures
        b.admits(access),
        a.frames_at(access) == b.frames_at(access),
        a.after(access).caught_up() == b.after(access).caught_up(),
{
    lemma_caught_up(a);
    lemma_caught_up(b);
    match access {
        Access::Read { address } => {},
        Access::Write { address, value } => {},
        Access::Cycle { cycles, sink_period } => {
            lemma_catch_up_absorbed(a, cycles);
            lemma_catch_up_absorbed(b, cycles);
            assert(a.caught_up().later(cycles) == b.caught_up().later(cycles));
        },
    }
}

/// Reads are not heard. A schedule of accesses and the same schedule
/// without its reads put out the same frames, sample for sample, and leave
/// the unit in states that are the same once brought up to `time`: what
/// comes out depends on the writes and on the passing of the clocks alone.
pub proof fn lemma_reads_are_not_heard(m: ApuModel, schedule: Seq<Access>)
    requires
        m.wf(),
        m.admits_all(schedule),
    ensures
        m.admits_all(without_reads(schedule)),
        m.heard(without_reads(schedule)) == m.heard(schedule),
        m.played(without_reads(schedule)).caught_up() == m.played(schedule).caught_up(),
    decreases schedule.len(),
{
    if schedule.len() > 0 {
        let earlier = schedule.drop_last();
        let access = schedule.last();
        let quiet = without_reads(earlier);
        lemma_reads_are_not_heard(m, earlier);
        lemma_played_wf(m, earlier);
        lemma_played_wf(m, quiet);
        lemma_caught_up(m.played(earlier));
        lemma_after_alike(m.played(earlier), m.played(quiet), access);
        if access is Read {
            assert(m.heard(earlier) + Seq::<StereoFrame>::empty() =~= m.heard(earlier));
        } else {
            assert(quiet.push(access).drop_last() =~= quiet);
        }
    }
}

} // verus!
