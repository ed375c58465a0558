//! The band-limited sample buffer of the `blip_buf` crate, and everything that
//! this library takes on trust about it.
//!
//! A `BlipBuf` turns amplitude changes at clock times into samples at the
//! output rate. Nothing in it is proved here. What the rest of the library
//! knows of a buffer is held in the names below, and what each method does to
//! them is stated, without proof, in the contract of its wrapper.
//!
//! The contracts follow the buffer's bookkeeping: `factor`, `offset`, `avail`
//! and the length of `samples` in the crate's source. The band-limited
//! arithmetic on the sample cells is left to the crate; its result has a name
//! and no definition.
//!
//! # Why the crate's 32-bit sums fit
//!
//! `add_delta` adds into sample cells and `read_samples` into a running sum,
//! both in `i32`. The wrappers admit only a history that is [`tame`]: clocks
//! that rise from delta to delta and on to the end of the frame, and a level
//! within `-15..=15` after every delta. They admit only a factor of
//! [`MIN_FACTOR`] or more. Then:
//!
//! - A delta is spread over sixteen cells with weights taken from two
//!   neighbouring rows of the crate's table `BL_STEP`, between which it is
//!   split by its place within the sample. Seen from one cell, the weight of
//!   a delta is a function of its place that never passes 21022, the largest
//!   entry of the table, and that rises and falls by 57276 in all as the
//!   place moves past the cell. The deltas come in the order of their places
//!   and are the steps of a level within `-15..=15`, so summing by parts
//!   bounds the sum of weight times delta by `15 * (2 * 21022 + 57276)`,
//!   which is 1489800.
//! - The crate rounds the split of each delta down, which moves its share in
//!   a cell by less than 660, the largest step between neighbouring rows. A
//!   cell takes deltas from places within sixteen samples, and at one delta
//!   to the clock and `2^52 / MIN_FACTOR` clocks to the sample these are at
//!   most `16 * 2^15 + 1` deltas. So a cell stays within
//!   `1489800 + 660 * 524289`, about 348 million.
//! - Every row pair of the table sums to 32768, so a delta that lies wholly
//!   inside a stretch of cells adds 32768 times itself to their sum, whatever
//!   the rounding. Over a stretch of cells the weights add up to a function
//!   of the place that stays within 33266 and rises and falls by 82056 in
//!   all; summing by parts again, and with up to 771 of rounding for each
//!   delta within sixteen samples of either end, the cells of any stretch sum
//!   to no more than `15 * (2 * 33266 + 82056) + 2 * 771 * 524289`, about 811
//!   million.
//! - `read_samples` adds each cell to its running sum and takes a part of the
//!   sum away that has the sign of the sum. From the last time that the sum
//!   was within 64 of zero it has therefore grown by no more than a stretch of
//!   cells, and with the cell that is being added it stays within 1.2
//!   thousand million, which is below `2^31`.

use blip_buf::BlipBuf;
use vstd::prelude::*;

verus! {

#[verifier::external_type_specification]
#[verifier::external_body]
pub struct ExBlipBuf(blip_buf::BlipBuf);

/// One request that a buffer has accepted.
pub enum BlipOp {
    /// An amplitude change of `delta` at clock `time` of the frame then running.
    Delta { time: int, delta: int },
    /// The end of a frame that lasted `time` clocks.
    EndFrame { time: int },
}

/// The fixed-point unit of the buffer's clock: `factor` and `offset` count
/// output samples in parts of `TIME_UNIT`.
pub const TIME_UNIT: u64 = 0x10_0000_0000_0000;

/// The number of sample cells that the buffer was made with, spare cells
/// included.
pub uninterp spec fn blip_capacity(b: BlipBuf) -> int;

/// The output samples that one input clock is worth, in parts of `TIME_UNIT`.
pub uninterp spec fn blip_factor(b: BlipBuf) -> int;

/// The fraction of an output sample, in parts of `TIME_UNIT`, that was left
/// over when the last frame ended.
pub uninterp spec fn blip_offset(b: BlipBuf) -> int;

/// The samples that are ready to be read, oldest first.
pub uninterp spec fn blip_ready(b: BlipBuf) -> Seq<i16>;

/// The requests that the buffer has accepted since it was made, oldest first.
pub uninterp spec fn blip_history(b: BlipBuf) -> Seq<BlipOp>;

/// The samples that the last frame of `history` made ready in a buffer whose
/// rates were set to `factor` before its first request.
pub uninterp spec fn blip_frame_samples(factor: int, history: Seq<BlipOp>) -> Seq<i16>;

/// The place of clock `t` of the running frame on the buffer's fixed-point
/// clock: the output samples from the first that is not ready yet, in parts
/// of `TIME_UNIT`.
pub open spec fn blip_fixed(b: BlipBuf, t: int) -> int {
    t * blip_factor(b) + blip_offset(b)
}

/// The whole output samples that lie between the first that is not ready yet
/// and clock `t` of the running frame.
pub open spec fn blip_position(b: BlipBuf, t: int) -> int {
    blip_fixed(b, t) / (TIME_UNIT as int)
}

/// The least factor that the wrappers admit: a clock is worth no less than
/// one part in `2^15` of a sample.
pub const MIN_FACTOR: u64 = 0x20_0000_0000;

/// The amplitude that the deltas among `ops` add up to.
pub open spec fn level_of(ops: Seq<BlipOp>) -> int
    decreases ops.len(),
{
    if ops.len() == 0 {
        0
    } else {
        level_of(ops.drop_last()) + match ops.last() {
            BlipOp::Delta { delta, .. } => delta,
            BlipOp::EndFrame { .. } => 0,
        }
    }
}

/// How far the running frame of `history` reaches: the clock after its last
/// delta, or 0 where it holds none.
pub open spec fn frame_reach(history: Seq<BlipOp>) -> int
    decreases history.len(),
{
    if history.len() == 0 {
        0
    } else {
        match history.last() {
            BlipOp::EndFrame { .. } => 0,
            BlipOp::Delta { time, .. } => if time + 1 > frame_reach(history.drop_last()) {
                time + 1
            } else {
                frame_reach(history.drop_last())
            },
        }
    }
}

/// Whether `history` keeps the crate's sums in range: every delta lies at a
/// later clock than the delta before it in its frame, every frame ends
/// after its last delta, and after every delta the level is within
/// `-15..=15`.
pub open spec fn tame(history: Seq<BlipOp>) -> bool
    decreases history.len(),
{
    history.len() == 0 || (tame(history.drop_last()) && match history.last() {
        BlipOp::Delta { time, .. } => frame_reach(history.drop_last()) <= time && -15
            <= level_of(history) <= 15,
        BlipOp::EndFrame { time } => frame_reach(history.drop_last()) <= time,
    })
}

/// `BlipBuf::new`: a buffer of `sample_count` cells and eighteen spare ones,
/// empty, with the crate's default rate of `TIME_UNIT >> 20` per clock and
/// half of that as its first offset.
#[verifier::external_body]
pub(crate) fn blip_new(sample_count: u32) -> (b: BlipBuf)
    requires
        sample_count + 18 <= usize::MAX,
    ensures
        blip_capacity(b) == sample_count + 18,
        blip_factor(b) == 0x1_0000_0000,
        blip_offset(b) == 0x8000_0000,
        blip_ready(b) == Seq::<i16>::empty(),
        blip_history(b) == Seq::<BlipOp>::empty(),
{
    BlipBuf::new(sample_count)
}

/// `BlipBuf::set_rates`, on a buffer that has not been used yet, with both
/// rates turned into the floating-point numbers that the crate asks for. The
/// call touches nothing but the factor, and leaves that alone too when it
/// reports an error. The crate computes the factor in floating point as
/// `TIME_UNIT * sample_rate / clock_rate`; for a clock rate of `2^22` both
/// steps are exact, so the call succeeds with `sample_rate * 2^30`.
#[verifier::external_body]
pub(crate) fn blip_set_rates(b: &mut BlipBuf, clock_rate: u32, sample_rate: u32) -> (ok: bool)
    requires
        blip_history(*old(b)).len() == 0,
    ensures
        blip_capacity(*final(b)) == blip_capacity(*old(b)),
        blip_offset(*final(b)) == blip_offset(*old(b)),
        blip_ready(*final(b)) == blip_ready(*old(b)),
        blip_history(*final(b)) == blip_history(*old(b)),
        !ok ==> blip_factor(*final(b)) == blip_factor(*old(b)),
        clock_rate == 0x40_0000 ==> ok && blip_factor(*final(b)) == sample_rate * 0x4000_0000,
{
    b.set_rates(clock_rate.into(), sample_rate.into()).is_ok()
}

/// `BlipBuf::add_delta`. The delta lands `blip_position` samples after those
/// that are ready, and is accepted when sixteen cells from there on lie
/// inside the buffer. An accepted delta is entered in the history;
/// nothing else that has a name here changes, and a refused delta changes
/// nothing. Left out by `requires`: a place on the fixed-point clock that
/// does not fit 64 bits, and whatever could take a sample cell out of the
/// range of 32 bits: a factor below `MIN_FACTOR`, a delta at a clock that
/// does not lie after the last, and a delta that takes the level out of
/// `-15..=15`. The head of this file says why the cells then stay in range.
#[verifier::external_body]
pub(crate) fn blip_add_delta(b: &mut BlipBuf, clock_time: u32, delta: i32) -> (ok: bool)
    requires
        blip_fixed(*old(b), clock_time as int) <= u64::MAX,
        MIN_FACTOR <= blip_factor(*old(b)),
        -30 <= delta <= 30,
        tame(
            blip_history(*old(b)).push(
                BlipOp::Delta { time: clock_time as int, delta: delta as int },
            ),
        ),
    ensures
        ok <==> blip_ready(*old(b)).len() + blip_position(*old(b), clock_time as int) + 16
            <= blip_capacity(*old(b)),
        ok ==> blip_history(*final(b)) == blip_history(*old(b)).push(
            BlipOp::Delta { time: clock_time as int, delta: delta as int },
        ),
        !ok ==> blip_history(*final(b)) == blip_history(*old(b)),
        blip_capacity(*final(b)) == blip_capacity(*old(b)),
        blip_factor(*final(b)) == blip_factor(*old(b)),
        blip_offset(*final(b)) == blip_offset(*old(b)),
        blip_ready(*final(b)) == blip_ready(*old(b)),
{
    b.add_delta(clock_time, delta).is_ok()
}

/// `BlipBuf::end_frame`. The frame is worth `blip_position` whole samples,
/// and is accepted when the buffer can hold them beside those that are
/// ready. They are then ready too, behind the others, and the remainder
/// of the division is the new offset. Which samples they are depends on the
/// factor and on the history alone. A refused frame changes nothing. Left
/// out by `requires`: a place on the fixed-point clock that does not fit 64
/// bits, and a frame that does not end after its last delta, whose samples
/// would depend on how the buffer is read and whose last delta would share
/// its clock with the first of the next frame.
#[verifier::external_body]
pub(crate) fn blip_end_frame(b: &mut BlipBuf, clock_duration: u32) -> (ok: bool)
    requires
        blip_fixed(*old(b), clock_duration as int) <= u64::MAX,
        tame(blip_history(*old(b)).push(BlipOp::EndFrame { time: clock_duration as int })),
    ensures
        ok <==> blip_ready(*old(b)).len() + blip_position(*old(b), clock_duration as int)
            <= blip_capacity(*old(b)),
        ok ==> blip_offset(*final(b)) == blip_fixed(*old(b), clock_duration as int)
            % (TIME_UNIT as int),
        ok ==> blip_history(*final(b)) == blip_history(*old(b)).push(
            BlipOp::EndFrame { time: clock_duration as int },
        ),
        ok ==> blip_ready(*final(b)) == blip_ready(*old(b)) + blip_frame_samples(
            blip_factor(*old(b)),
            blip_history(*final(b)),
        ),
        ok ==> blip_ready(*final(b)).len() == blip_ready(*old(b)).len() + blip_position(
            *old(b),
            clock_duration as int,
        ),
        !ok ==> blip_offset(*final(b)) == blip_offset(*old(b)),
        !ok ==> blip_history(*final(b)) == blip_history(*old(b)),
        !ok ==> blip_ready(*final(b)) == blip_ready(*old(b)),
        blip_capacity(*final(b)) == blip_capacity(*old(b)),
        blip_factor(*final(b)) == blip_factor(*old(b)),
{
    b.end_frame(clock_duration).is_ok()
}

/// `BlipBuf::samples_avail`: the number of samples that are ready, which the
/// crate hands out in 32 bits.
#[verifier::external_body]
pub(crate) fn blip_samples_avail(b: &BlipBuf) -> (n: u32)
    requires
        blip_ready(*b).len() <= u32::MAX,
    ensures
        n == blip_ready(*b).len(),
{
    b.samples_avail()
}

/// `BlipBuf::read_samples` for one channel, into a vector of its own: the
/// oldest `max_count` ready samples, or all of them if there are fewer,
/// which then leave the buffer. Left out by `requires`: a read while deltas
/// wait for the end of their frame, which would lose those more than
/// eighteen samples ahead; a buffer whose ready samples reach into the
/// spare cells, which the crate cannot shift; and whatever could take the
/// running sum of the cells out of the range of 32 bits, which is a factor
/// below `MIN_FACTOR` or a history that is not tame. The head of this file
/// says why the sum then stays in range.
#[verifier::external_body]
pub(crate) fn blip_read(b: &mut BlipBuf, max_count: usize) -> (out: Vec<i16>)
    requires
        blip_ready(*old(b)).len() + 18 <= blip_capacity(*old(b)),
        blip_history(*old(b)).len() == 0 || blip_history(*old(b)).last() is EndFrame,
        MIN_FACTOR <= blip_factor(*old(b)),
        tame(blip_history(*old(b))),
    ensures
        out@ == blip_ready(*old(b)).take(
            if max_count <= blip_ready(*old(b)).len() {
                max_count as int
            } else {
                blip_ready(*old(b)).len() as int
            },
        ),
        blip_ready(*final(b)) == blip_ready(*old(b)).skip(out@.len() as int),
        blip_capacity(*final(b)) == blip_capacity(*old(b)),
        blip_factor(*final(b)) == blip_factor(*old(b)),
        blip_offset(*final(b)) == blip_offset(*old(b)),
        blip_history(*final(b)) == blip_history(*old(b)),
{
    let mut samples = vec![0i16; max_count];
    let count = b.read_samples(&mut samples, false);
    samples.truncate(count);
    samples
}

} // verus!
