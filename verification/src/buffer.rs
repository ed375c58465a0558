//! The mathematical model of a band-limited buffer, and the waveform
//! bookkeeping that the three kinds of channel share.

use crate::blip::{
    blip_add_delta, blip_capacity, blip_end_frame, blip_factor, blip_frame_samples, blip_history,
    blip_new, blip_offset, blip_read, blip_ready, blip_samples_avail, blip_set_rates, frame_reach,
    level_of, tame, BlipOp, MIN_FACTOR, TIME_UNIT,
};
use blip_buf::BlipBuf;
use vstd::prelude::*;

verus! {

/// Input clocks per second.
pub const CLOCKS_PER_SECOND: u32 = 4_194_304;

/// The lowest sample rate that a buffer can be tuned to: below it a sample
/// would span more clocks, and so could take more deltas, than the sums of
/// the buffer are known to hold.
pub const MIN_SAMPLE_RATE: u32 = 128;

/// What is known of a buffer: the view of a `BlipBuf`.
pub struct BlipModel {
    /// The number of sample cells, spare cells included.
    pub capacity: int,
    /// Output samples per input clock, in parts of `TIME_UNIT`.
    pub factor: int,
    /// The fraction of a sample carried over from the last frame, in parts
    /// of `TIME_UNIT`.
    pub offset: int,
    /// The samples ready to be read.
    pub ready: Seq<i16>,
    /// Every delta and frame end accepted so far.
    pub history: Seq<BlipOp>,
}

/// The view of a buffer.
pub open spec fn blip_model(b: BlipBuf) -> BlipModel {
    BlipModel {
        capacity: blip_capacity(b),
        factor: blip_factor(b),
        offset: blip_offset(b),
        ready: blip_ready(b),
        history: blip_history(b),
    }
}

/// One step of a waveform: from clock `time` on it stands at `level`.
pub struct Step {
    pub time: int,
    pub level: int,
}

/// The level at which a waveform stands when its step `k` begins, where it
/// stood at `before` ahead of step 0.
pub open spec fn level_before(before: int, steps: Seq<Step>, k: int) -> int {
    if k <= 0 {
        before
    } else {
        steps[k - 1].level
    }
}

/// The deltas that carry a buffer through `steps`: one for each step whose
/// level differs from the level before it, and none for the others.
pub open spec fn level_changes(before: int, steps: Seq<Step>) -> Seq<BlipOp>
    decreases steps.len(),
{
    if steps.len() == 0 {
        Seq::empty()
    } else {
        let earlier = level_changes(before, steps.drop_last());
        let from = level_before(before, steps, steps.len() - 1);
        if steps.last().level == from {
            earlier
        } else {
            earlier.push(
                BlipOp::Delta { time: steps.last().time, delta: steps.last().level - from },
            )
        }
    }
}

/// The delta that takes a buffer from `level` to zero at clock `time`, or
/// nothing where it stands at zero already.
pub open spec fn flush(level: int, time: int) -> Seq<BlipOp> {
    if level != 0 {
        seq![BlipOp::Delta { time, delta: -level }]
    } else {
        Seq::empty()
    }
}

/// The number of steps that a waveform takes before clock `end` when it
/// steps at clock `first` and then once in every `period` clocks.
pub open spec fn steps_before(first: int, end: int, period: int) -> int {
    if first >= end {
        0
    } else {
        (end - first + period - 1) / period
    }
}

/// Whether a frame can reach clock `t` in a buffer that runs at `rate`
/// samples per second and has carried `carry` parts in `2^22` of a sample
/// over: the sample position at `t` still fits the 64 bits of the buffer's
/// fixed-point clock, and the frame is worth no more samples than the buffer
/// holds, which is one second of them.
pub open spec fn frame_fits(rate: int, carry: int, t: int) -> bool {
    &&& t * rate + carry < 0x4_0000_0000
    &&& (t * rate + carry) / 0x40_0000 <= rate
}

impl BlipModel {
    /// A buffer as it is made for a sink of `rate` samples per second.
    pub open spec fn fresh(rate: int) -> BlipModel {
        BlipModel {
            capacity: rate + 18,
            factor: rate * 0x4000_0000,
            offset: 0x8000_0000,
            ready: Seq::empty(),
            history: Seq::empty(),
        }
    }

    /// The whole samples that `t` clocks of the running frame are worth.
    pub open spec fn position(self, t: int) -> int {
        (t * self.factor + self.offset) / (TIME_UNIT as int)
    }

    /// Whether the running frame can reach clock `t`: the buffer then accepts
    /// a delta at every clock up to `t` and the end of the frame at `t`, and
    /// can be read afterwards. The buffer's factor is none that would let
    /// more deltas into a sample than its sums can hold.
    #[verifier::opaque]
    pub open spec fn takes(self, t: int) -> bool {
        &&& MIN_FACTOR <= self.factor
        &&& 0 <= self.offset
        &&& t * self.factor + self.offset <= u64::MAX
        &&& self.ready.len() + self.position(t) + 18 <= self.capacity
    }

    /// Whether two buffers agree in all but their histories.
    pub open spec fn same_clock(self, other: BlipModel) -> bool {
        &&& self.capacity == other.capacity
        &&& self.factor == other.factor
        &&& self.offset == other.offset
        &&& self.ready == other.ready
    }

    /// The buffer after it has accepted `ops`.
    pub open spec fn with_ops(self, ops: Seq<BlipOp>) -> BlipModel {
        BlipModel { history: self.history + ops, ..self }
    }

    /// The buffer after its frame has ended at clock `t` and the samples of
    /// that frame have been read.
    pub open spec fn next_frame(self, t: int) -> BlipModel {
        BlipModel {
            offset: (t * self.factor + self.offset) % (TIME_UNIT as int),
            history: self.history.push(BlipOp::EndFrame { time: t }),
            ..self
        }
    }

    /// The samples that the frame yields when it ends at clock `t`.
    pub open spec fn frame_samples(self, t: int) -> Seq<i16> {
        blip_frame_samples(self.factor, self.history.push(BlipOp::EndFrame { time: t }))
    }

    /// How far the running frame reaches: the clock after its last delta.
    pub open spec fn reach(self) -> int {
        frame_reach(self.history)
    }

    /// Whether the history keeps the buffer's sums in range.
    pub open spec fn tame(self) -> bool {
        tame(self.history)
    }

    /// The amplitude at which the buffer stands.
    pub open spec fn level(self) -> int {
        level_of(self.history)
    }

    /// Whether the buffer runs at `rate` samples per second of
    /// `CLOCKS_PER_SECOND` clocks and has carried `phase` parts in `2^22` of
    /// a sample over from its last frame.
    pub open spec fn tuned(self, rate: int, phase: int) -> bool {
        &&& self.capacity == rate + 18
        &&& self.factor == rate * 0x4000_0000
        &&& self.offset == phase * 0x4000_0000
        &&& 0 <= rate
        &&& 0 <= phase < 0x40_0000
    }
}

/// The level of two runs of requests is the sum of their levels.
pub proof fn lemma_level_of_concat(a: Seq<BlipOp>, b: Seq<BlipOp>)
    ensures
        level_of(a + b) == level_of(a) + level_of(b),
    decreases b.len(),
{
    if b.len() == 0 {
        assert(a + b =~= a);
    } else {
        assert((a + b).drop_last() =~= a + b.drop_last());
        assert((a + b).last() == b.last());
        lemma_level_of_concat(a, b.drop_last());
    }
}

/// The deltas of a waveform carry the level from where it stood to where
/// the last step leaves it.
pub proof fn lemma_level_changes_reach(before: int, steps: Seq<Step>)
    ensures
        level_of(level_changes(before, steps)) == level_before(before, steps, steps.len() as int)
            - before,
    decreases steps.len(),
{
    if steps.len() > 0 {
        let head = steps.drop_last();
        lemma_level_changes_reach(before, head);
        let earlier = level_changes(before, head);
        let from = level_before(before, steps, steps.len() - 1);
        assert(from == level_before(before, head, head.len() as int));
        if steps.last().level != from {
            let d = BlipOp::Delta { time: steps.last().time, delta: steps.last().level - from };
            assert(earlier.push(d).drop_last() =~= earlier);
        }
    }
}

/// One more step adds one delta where the level changes, and nothing where it
/// stays.
pub proof fn lemma_level_changes_push(before: int, steps: Seq<Step>, next: Step)
    ensures
        level_changes(before, steps.push(next)) == if next.level == level_before(
            before,
            steps,
            steps.len() as int,
        ) {
            level_changes(before, steps)
        } else {
            level_changes(before, steps).push(
                BlipOp::Delta {
                    time: next.time,
                    delta: next.level - level_before(before, steps, steps.len() as int),
                },
            )
        },
{
    let more = steps.push(next);
    assert(more.drop_last() =~= steps);
    assert(level_before(before, more, more.len() - 1) == level_before(
        before,
        steps,
        steps.len() as int,
    ));
}

/// What step `k` of a waveform adds to the deltas of the steps before it:
/// one delta if the level changes there, nothing if it stays.
pub proof fn lemma_next_step(m: BlipModel, before: int, steps: Seq<Step>, k: int)
    requires
        0 <= k < steps.len(),
    ensures
        level_before(before, steps, k + 1) == steps[k].level,
        m.with_ops(level_changes(before, steps.take(k))).with_ops(
            if steps[k].level == level_before(before, steps, k) {
                Seq::empty()
            } else {
                seq![
                    BlipOp::Delta {
                        time: steps[k].time,
                        delta: steps[k].level - level_before(before, steps, k),
                    },
                ]
            },
        ) == m.with_ops(level_changes(before, steps.take(k + 1))),
{
    let from = level_before(before, steps, k);
    lemma_level_changes_push(before, steps.take(k), steps[k]);
    assert(steps.take(k).push(steps[k]) =~= steps.take(k + 1));
    assert(level_before(before, steps.take(k), k) == from);
    let changes = level_changes(before, steps.take(k));
    if steps[k].level == from {
        assert((m.history + changes) + Seq::<BlipOp>::empty() =~= m.history + changes);
    } else {
        let d = BlipOp::Delta { time: steps[k].time, delta: steps[k].level - from };
        assert((m.history + changes) + seq![d] =~= m.history + changes.push(d));
    }
}

/// A buffer that stands at `before` and is carried through `steps` stands
/// at the level of the last step.
pub proof fn lemma_level_after_steps(m: BlipModel, before: int, steps: Seq<Step>)
    requires
        m.level() == before,
    ensures
        m.with_ops(level_changes(before, steps)).level() == level_before(
            before,
            steps,
            steps.len() as int,
        ),
{
    lemma_level_of_concat(m.history, level_changes(before, steps));
    lemma_level_changes_reach(before, steps);
}

/// Before the first step of a waveform the buffer is as it was.
pub proof fn lemma_no_step_yet(m: BlipModel, before: int, steps: Seq<Step>)
    ensures
        m.with_ops(level_changes(before, steps.take(0))) == m,
{
    assert(steps.take(0) =~= Seq::<Step>::empty());
    assert(m.history + level_changes(before, steps.take(0)) =~= m.history);
}

/// A buffer that is brought from `before` to zero stands at zero.
pub proof fn lemma_level_after_flush(m: BlipModel, before: int, time: int)
    requires
        m.level() == before,
    ensures
        m.with_ops(seq![BlipOp::Delta { time, delta: -before }]).level() == 0,
        m.with_ops(Seq::empty()) == m,
{
    let flush = seq![BlipOp::Delta { time, delta: -before }];
    lemma_level_of_concat(m.history, flush);
    assert(flush.drop_last() =~= Seq::<BlipOp>::empty());
    assert(level_of(Seq::<BlipOp>::empty()) == 0);
    assert(level_of(flush) == -before);
    assert(m.history + Seq::<BlipOp>::empty() =~= m.history);
}

/// The end of a frame changes no level, and the frame that follows holds no
/// delta yet.
pub proof fn lemma_level_after_frame(m: BlipModel, t: int)
    ensures
        m.next_frame(t).level() == m.level(),
        m.next_frame(t).reach() == 0,
        m.tame() && m.reach() <= t ==> m.next_frame(t).tame(),
{
    assert(m.history.push(BlipOp::EndFrame { time: t }).drop_last() =~= m.history);
}

/// One more delta at a clock that the frame has not reached, to a level
/// within `-15..=15`, leaves the history tame, and the frame then reaches
/// the clock after it.
pub proof fn lemma_tame_delta(m: BlipModel, time: int, delta: int)
    requires
        m.tame(),
        m.reach() <= time,
        -15 <= m.level() + delta <= 15,
    ensures
        m.with_ops(seq![BlipOp::Delta { time, delta }]).tame(),
        m.with_ops(seq![BlipOp::Delta { time, delta }]).reach() == time + 1,
        m.with_ops(seq![BlipOp::Delta { time, delta }]).level() == m.level() + delta,
        m.with_ops(seq![BlipOp::Delta { time, delta }]).history == m.history.push(
            BlipOp::Delta { time, delta },
        ),
        m.with_ops(Seq::empty()) == m,
{
    let d = BlipOp::Delta { time, delta };
    assert(m.history + seq![d] =~= m.history.push(d));
    assert(m.history.push(d).drop_last() =~= m.history);
    assert(m.history + Seq::<BlipOp>::empty() =~= m.history);
}

/// A buffer that is carried through the steps of a waveform keeps a tame
/// history, where the steps come at rising clocks that the frame has not
/// reached and their levels are within `-15..=15`; the frame then reaches no
/// further than the clock after the last step.
pub proof fn lemma_tame_steps(m: BlipModel, before: int, steps: Seq<Step>, bound: int)
    requires
        m.tame(),
        m.level() == before,
        m.reach() <= bound,
        forall|j: int| 0 <= j < steps.len() ==> -15 <= (#[trigger] steps[j]).level <= 15,
        forall|j: int| 0 <= j < steps.len() ==> m.reach() <= (#[trigger] steps[j]).time < bound,
        forall|i: int, j: int|
            0 <= i < j < steps.len() ==> (#[trigger] steps[i]).time < (#[trigger] steps[j]).time,
    ensures
        m.with_ops(level_changes(before, steps)).tame(),
        m.with_ops(level_changes(before, steps)).reach() <= bound,
    decreases steps.len(),
{
    if steps.len() == 0 {
        assert(m.history + level_changes(before, steps) =~= m.history);
    } else {
        let head = steps.drop_last();
        let last = steps.last();
        assert forall|j: int| 0 <= j < head.len() implies m.reach() <= (#[trigger] head[j]).time
            < last.time && -15 <= head[j].level <= 15 by {
            assert(head[j] == steps[j]);
            assert(last == steps[steps.len() - 1]);
        }
        assert forall|i: int, j: int| 0 <= i < j < head.len() implies (#[trigger] head[i]).time
            < (#[trigger] head[j]).time by {
            assert(head[i] == steps[i]);
            assert(head[j] == steps[j]);
        }
        assert(m.reach() <= last.time);
        lemma_tame_steps(m, before, head, last.time);
        lemma_level_after_steps(m, before, head);
        let carried = m.with_ops(level_changes(before, head));
        let from = level_before(before, steps, steps.len() - 1);
        assert(from == level_before(before, head, head.len() as int));
        if last.level != from {
            lemma_tame_delta(carried, last.time, last.level - from);
            lemma_with_ops_twice(
                m,
                level_changes(before, head),
                seq![BlipOp::Delta { time: last.time, delta: last.level - from }],
            );
            assert(level_changes(before, head) + seq![
                BlipOp::Delta { time: last.time, delta: last.level - from },
            ] =~= level_changes(before, steps));
        }
    }
}

/// Steps that come one in every `period` clocks from `first` on, with every
/// step that lies before `end`, come at rising clocks before `end`.
pub proof fn lemma_paced_steps(steps: Seq<Step>, first: int, end: int, period: int)
    requires
        period > 0,
        steps.len() == steps_before(first, end, period),
        forall|j: int| 0 <= j < steps.len() ==> (#[trigger] steps[j]).time == first + j * period,
    ensures
        forall|j: int| 0 <= j < steps.len() ==> first <= (#[trigger] steps[j]).time < end,
        forall|i: int, j: int|
            0 <= i < j < steps.len() ==> (#[trigger] steps[i]).time < (#[trigger] steps[j]).time,
{
    assert forall|j: int| 0 <= j < steps.len() implies first <= (#[trigger] steps[j]).time
        < end by {
        lemma_counted_step_is_early(first, end, period, j);
        assert(0 <= j * period) by (nonlinear_arith)
            requires
                0 <= j,
                0 < period,
        ;
    }
    assert forall|i: int, j: int| 0 <= i < j < steps.len() implies (#[trigger] steps[i]).time
        < (#[trigger] steps[j]).time by {
        assert(i * period < j * period) by (nonlinear_arith)
            requires
                i < j,
                0 < period,
        ;
    }
}

/// The deltas of a waveform in two parts are those of the first part and,
/// from the level that it ends on, those of the second.
pub proof fn lemma_level_changes_concat(before: int, first: Seq<Step>, second: Seq<Step>)
    ensures
        level_changes(before, first + second) == level_changes(before, first) + level_changes(
            level_before(before, first, first.len() as int),
            second,
        ),
        level_before(before, first + second, (first + second).len() as int) == level_before(
            level_before(before, first, first.len() as int),
            second,
            second.len() as int,
        ),
    decreases second.len(),
{
    let all = first + second;
    let middle = level_before(before, first, first.len() as int);
    if second.len() == 0 {
        assert(all =~= first);
        assert(level_changes(before, first) + level_changes(middle, second) =~= level_changes(
            before,
            first,
        ));
    } else {
        let head = second.drop_last();
        lemma_level_changes_concat(before, first, head);
        assert(all.drop_last() =~= first + head);
        assert(all.last() == second.last());
        assert(level_before(before, all, all.len() - 1) == level_before(
            middle,
            second,
            second.len() - 1,
        ));
        let from = level_before(middle, second, second.len() - 1);
        if second.last().level != from {
            let d = BlipOp::Delta { time: second.last().time, delta: second.last().level - from };
            assert((level_changes(before, first) + level_changes(middle, head)).push(d)
                =~= level_changes(before, first) + level_changes(middle, head).push(d));
        }
    }
}

/// The steps of a run in two parts are counted part by part: those before
/// `middle`, and from the first step that is not before `middle` those
/// before `end`.
pub proof fn lemma_steps_split(first: int, middle: int, end: int, period: int)
    requires
        period > 0,
        middle <= end,
    ensures
        steps_before(first, end, period) == steps_before(first, middle, period) + steps_before(
            first + steps_before(first, middle, period) * period,
            end,
            period,
        ),
        0 <= steps_before(first, middle, period),
        0 <= steps_before(first + steps_before(first, middle, period) * period, end, period),
        first + steps_before(first, middle, period) * period >= middle,
{
    let n1 = steps_before(first, middle, period);
    lemma_delay_after(first, middle, period);
    let next = first + n1 * period;
    let n2 = steps_before(next, end, period);
    lemma_delay_after(next, end, period);
    assert((n1 + n2) * period == n1 * period + n2 * period) by (nonlinear_arith);
    assert((n1 + n2 - 1) * period == n1 * period + n2 * period - period) by (nonlinear_arith);
    if n2 == 0 {
        assert(n2 * period == 0) by (nonlinear_arith)
            requires
                n2 == 0,
        ;
    }
    if n1 == 0 {
        assert(n1 * period == 0) by (nonlinear_arith)
            requires
                n1 == 0,
        ;
    }
    lemma_steps_before(first, end, period, n1 + n2);
}

/// Requests that a buffer accepts one run after the other make one run.
pub proof fn lemma_with_ops_twice(m: BlipModel, first: Seq<BlipOp>, second: Seq<BlipOp>)
    ensures
        m.with_ops(first).with_ops(second) == m.with_ops(first + second),
{
    assert((m.history + first) + second =~= m.history + (first + second));
}

/// `steps_before` counts the steps: it is the one `k` whose step `k - 1`
/// lies before `end` while step `k` does not.
pub proof fn lemma_steps_before(first: int, end: int, period: int, k: int)
    requires
        period > 0,
        k >= 0,
        k > 0 ==> first + (k - 1) * period < end,
        first + k * period >= end,
    ensures
        k == steps_before(first, end, period),
{
    if first >= end {
        if k > 0 {
            assert((k - 1) * period >= 0) by (nonlinear_arith)
                requires
                    k >= 1,
                    period > 0,
            ;
        }
    } else {
        assert(k > 0);
        let d = end - first;
        assert(k * period == (k - 1) * period + period) by (nonlinear_arith);
        vstd::arithmetic::div_mod::lemma_fundamental_div_mod_converse(
            d + period - 1,
            period,
            k,
            d + period - 1 - k * period,
        );
    }
}

/// A step that lies before `end` is counted by `steps_before`.
pub proof fn lemma_step_is_counted(first: int, end: int, period: int, k: int)
    requires
        period > 0,
        k >= 0,
        first + k * period < end,
    ensures
        k < steps_before(first, end, period),
{
    assert(k * period >= 0) by (nonlinear_arith)
        requires
            k >= 0,
            period > 0,
    ;
    let x = end - first + period - 1;
    vstd::arithmetic::div_mod::lemma_fundamental_div_mod(x, period);
    let q = x / period;
    if q <= k {
        assert(q * period <= k * period) by (nonlinear_arith)
            requires
                q <= k,
                period > 0,
        ;
        assert(period * q == q * period) by (nonlinear_arith);
    }
}

/// Every step that `steps_before` counts lies before `end`.
pub proof fn lemma_counted_step_is_early(first: int, end: int, period: int, j: int)
    requires
        period > 0,
        0 <= j < steps_before(first, end, period),
    ensures
        first + j * period < end,
{
    let x = end - first + period - 1;
    let n = x / period;
    vstd::arithmetic::div_mod::lemma_fundamental_div_mod(x, period);
    assert(j * period <= (n - 1) * period) by (nonlinear_arith)
        requires
            j <= n - 1,
            period > 0,
    ;
    assert(period * n == (n - 1) * period + period) by (nonlinear_arith);
}

/// The clock of the step after the last one counted by `steps_before`, less
/// `end`: the delay that a run leaves behind. It is less than a period, or
/// what is left of the old delay where the run was too short for a step.
pub proof fn lemma_delay_after(first: int, end: int, period: int)
    requires
        period > 0,
    ensures
        0 <= steps_before(first, end, period),
        first < end ==> 0 <= first + steps_before(first, end, period) * period - end < period,
        first >= end ==> first + steps_before(first, end, period) * period - end == first - end,
{
    let n = steps_before(first, end, period);
    if first < end {
        let x = end - first + period - 1;
        vstd::arithmetic::div_mod::lemma_fundamental_div_mod(x, period);
        assert(period * (x / period) == n * period) by (nonlinear_arith)
            requires
                n == x / period,
        ;
        assert(n >= 0) by (nonlinear_arith)
            requires
                n == x / period,
                x >= 0,
                period > 0,
        ;
    } else {
        assert(n * period == 0) by (nonlinear_arith)
            requires
                n == 0,
        ;
    }
}

/// A frame that can reach clock `t` can reach every earlier clock.
pub proof fn lemma_takes_earlier(m: BlipModel, earlier: int, t: int)
    requires
        m.takes(t),
        0 <= earlier <= t,
    ensures
        m.takes(earlier),
        m.position(earlier) <= m.position(t),
        0 <= earlier * m.factor,
{
    reveal(BlipModel::takes);
    assert(0 <= earlier * m.factor <= t * m.factor) by (nonlinear_arith)
        requires
            0 <= earlier <= t,
            0 <= m.factor,
    ;
}

/// Whether a frame can reach a clock has nothing to do with the requests
/// that the buffer has accepted.
pub proof fn lemma_takes_with_ops(m: BlipModel, ops: Seq<BlipOp>, t: int)
    ensures
        m.with_ops(ops).takes(t) == m.takes(t),
{
    reveal(BlipModel::takes);
}

/// In a tuned buffer a frame is worth its clocks times the sample rate, in
/// units of one sample per `2^22`.
pub proof fn lemma_tuned_position(m: BlipModel, rate: int, phase: int, t: int)
    requires
        m.tuned(rate, phase),
        0 <= t,
    ensures
        t * m.factor + m.offset == (t * rate + phase) * 0x4000_0000,
        m.position(t) == (t * rate + phase) / 0x40_0000,
        (t * m.factor + m.offset) % (TIME_UNIT as int) == ((t * rate + phase) % 0x40_0000)
            * 0x4000_0000,
        0 <= t * rate,
{
    let x = t * rate + phase;
    assert(0 <= t * rate) by (nonlinear_arith)
        requires
            0 <= t,
            0 <= rate,
    ;
    assert(t * (rate * 0x4000_0000) == (t * rate) * 0x4000_0000) by (nonlinear_arith);
    let q = x / 0x40_0000;
    let r = x % 0x40_0000;
    assert(x == q * 0x40_0000 + r);
    assert(x * 0x4000_0000 == q * 0x10_0000_0000_0000 + r * 0x4000_0000);
    assert(0 <= r * 0x4000_0000 < 0x10_0000_0000_0000);
    vstd::arithmetic::div_mod::lemma_fundamental_div_mod_converse(
        x * 0x4000_0000,
        0x10_0000_0000_0000,
        q,
        r * 0x4000_0000,
    );
}

/// An empty buffer that is tuned to a rate can reach the clocks that fit a
/// frame at that rate, all of which lie within `2^23`.
pub proof fn lemma_frame_fits(m: BlipModel, rate: int, carry: int, t: int)
    requires
        m.tuned(rate, carry),
        m.ready.len() == 0,
        frame_fits(rate, carry, t),
        0 <= t,
        MIN_SAMPLE_RATE <= rate,
    ensures
        m.takes(t),
        m.position(t) == (t * rate + carry) / 0x40_0000,
        t < 0x80_0000,
{
    reveal(BlipModel::takes);
    lemma_tuned_position(m, rate, carry, t);
    assert(t < 0x80_0000) by (nonlinear_arith)
        requires
            t * rate + carry < (rate + 1) * 0x40_0000,
            0 <= carry,
            1 <= rate,
            0 <= t,
    ;
}

/// A frame that fits up to a clock fits up to every earlier clock.
pub proof fn lemma_frame_fits_earlier(rate: int, carry: int, earlier: int, t: int)
    requires
        frame_fits(rate, carry, t),
        0 <= earlier <= t,
        0 <= rate,
    ensures
        frame_fits(rate, carry, earlier),
{
    assert(earlier * rate <= t * rate) by (nonlinear_arith)
        requires
            0 <= earlier <= t,
            0 <= rate,
    ;
}

/// Makes the buffer of one channel for a sink of `sample_rate` samples per
/// second.
pub(crate) fn create_blipbuf(sample_rate: u32) -> (b: BlipBuf)
    requires
        sample_rate + 18 <= usize::MAX,
    ensures
        blip_model(b) == BlipModel::fresh(sample_rate as int),
        blip_model(b).tuned(sample_rate as int, 2),
        blip_model(b).tame(),
{
    let mut b = blip_new(sample_rate);
    let _ok = blip_set_rates(&mut b, CLOCKS_PER_SECOND, sample_rate);
    assert(blip_model(b).ready =~= Seq::<i16>::empty());
    assert(blip_model(b).history =~= Seq::<BlipOp>::empty());
    b
}

/// Brings the buffer from `last_amp` to `amp` at clock `time` of the running
/// frame: one delta if the two differ, nothing if they are equal. The
/// clock is one that the frame has not reached yet.
pub(crate) fn set_level(blip: &mut BlipBuf, last_amp: i32, time: u32, amp: i32)
    requires
        blip_model(*old(blip)).takes(time as int),
        blip_model(*old(blip)).tame(),
        blip_model(*old(blip)).reach() <= time,
        blip_model(*old(blip)).level() == last_amp,
        -15 <= last_amp <= 15,
        -15 <= amp <= 15,
    ensures
        blip_model(*final(blip)) == blip_model(*old(blip)).with_ops(
            if amp == last_amp {
                Seq::empty()
            } else {
                seq![BlipOp::Delta { time: time as int, delta: amp - last_amp }]
            },
        ),
        blip_model(*final(blip)).tame(),
        blip_model(*final(blip)).reach() <= time + 1,
        blip_model(*final(blip)).level() == amp,
{
    proof {
        reveal(BlipModel::takes);
        lemma_tame_delta(blip_model(*blip), time as int, amp - last_amp);
    }
    if amp != last_amp {
        let _ok = blip_add_delta(blip, time, amp - last_amp);
    }
}

/// Ends the running frame at clock `t` and takes its samples out of the
/// buffer.
pub(crate) fn close_frame(blip: &mut BlipBuf, t: u32) -> (samples: Vec<i16>)
    requires
        blip_model(*old(blip)).takes(t as int),
        blip_model(*old(blip)).ready.len() == 0,
        blip_model(*old(blip)).tame(),
        blip_model(*old(blip)).reach() <= t,
    ensures
        samples@ == blip_model(*old(blip)).frame_samples(t as int),
        samples@.len() == blip_model(*old(blip)).position(t as int),
        blip_model(*final(blip)) == blip_model(*old(blip)).next_frame(t as int),
{
    proof {
        reveal(BlipModel::takes);
        lemma_level_after_frame(blip_model(*blip), t as int);
    }
    let _ok = blip_end_frame(blip, t);
    let count = blip_samples_avail(blip);
    let samples = blip_read(blip, count as usize);
    assert(samples@ =~= blip_model(*old(blip)).frame_samples(t as int));
    assert(blip_model(*blip).ready =~= blip_model(*old(blip)).ready);
    samples
}

} // verus!
