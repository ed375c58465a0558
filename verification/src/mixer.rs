//! The stereo mixer: the four channels' samples, each let through to the
//! sides that the pan register names, summed and scaled by the master volume
//! of each side.

use crate::regs::{bit, lemma_byte_fields};
use vstd::prelude::*;

verus! {

/// The value of a side at full scale: every channel at amplitude 15 and the
/// master volume at 7.
pub const MIX_SCALE: i32 = 420;

/// One stereo sample. Each side counts in parts of `MIX_SCALE`: a side at
/// `MIX_SCALE` stands for 1.0 at the sink.
#[derive(Clone, Copy, Debug, PartialEq, Eq)]
pub struct StereoFrame {
    pub left: i32,
    pub right: i32,
}

/// The sample as the pan register lets it through to one side: the sample
/// where bit `lane` of `pan` is set, silence where it is not.
pub open spec fn panned(sample: int, pan: int, lane: int) -> int {
    if bit(pan, lane) {
        sample
    } else {
        0
    }
}

/// One side of the mix. The channels use four lanes of the pan register in
/// their order, from `lane` on.
pub open spec fn mixed_side(s1: int, s2: int, s3: int, s4: int, pan: int, lane: int, volume: int)
    -> int {
    volume * (panned(s1, pan, lane) + panned(s2, pan, lane + 1) + panned(s3, pan, lane + 2)
        + panned(s4, pan, lane + 3))
}

/// The mix of one sample of each channel: the left side goes by the low
/// nibble of the pan register, the right side by the high nibble.
pub open spec fn mixed_frame(
    s1: int,
    s2: int,
    s3: int,
    s4: int,
    pan: int,
    volume_left: int,
    volume_right: int,
) -> StereoFrame {
    StereoFrame {
        left: mixed_side(s1, s2, s3, s4, pan, 0, volume_left) as i32,
        right: mixed_side(s1, s2, s3, s4, pan, 4, volume_right) as i32,
    }
}

/// The mix of the four channels' samples, sample by sample.
pub open spec fn mixed(
    s1: Seq<i16>,
    s2: Seq<i16>,
    s3: Seq<i16>,
    s4: Seq<i16>,
    pan: int,
    volume_left: int,
    volume_right: int,
) -> Seq<StereoFrame> {
    Seq::new(
        s1.len(),
        |i: int|
            mixed_frame(
                s1[i] as int,
                s2[i] as int,
                s3[i] as int,
                s4[i] as int,
                pan,
                volume_left,
                volume_right,
            ),
    )
}

/// A side of the mix stays within 32 bits.
pub proof fn lemma_mixed_side_bounds(
    s1: int,
    s2: int,
    s3: int,
    s4: int,
    pan: int,
    lane: int,
    volume: int,
)
    requires
        -0x8000 <= s1 < 0x8000,
        -0x8000 <= s2 < 0x8000,
        -0x8000 <= s3 < 0x8000,
        -0x8000 <= s4 < 0x8000,
        0 <= volume <= 7,
    ensures
        -0x4_0000 * 7 <= mixed_side(s1, s2, s3, s4, pan, lane, volume) <= 0x4_0000 * 7,
{
    let sum = panned(s1, pan, lane) + panned(s2, pan, lane + 1) + panned(s3, pan, lane + 2)
        + panned(s4, pan, lane + 3);
    assert(-0x4_0000 * 7 <= volume * sum <= 0x4_0000 * 7) by (nonlinear_arith)
        requires
            -0x4_0000 <= sum <= 0x4_0000,
            0 <= volume <= 7,
    ;
}

/// A side that the pan register gives to no channel is silent: with a pan
/// byte below 16 nothing sounds on the right, with a low nibble of 0 nothing
/// on the left.
pub proof fn lemma_unpanned_side_is_silent(
    s1: int,
    s2: int,
    s3: int,
    s4: int,
    pan: int,
    volume_left: int,
    volume_right: int,
)
    requires
        0 <= pan <= 255,
    ensures
        pan < 16 ==> mixed_frame(s1, s2, s3, s4, pan, volume_left, volume_right).right == 0,
        pan % 16 == 0 ==> mixed_frame(s1, s2, s3, s4, pan, volume_left, volume_right).left == 0,
{
    if pan < 16 {
        assert(mixed_side(s1, s2, s3, s4, pan, 4, volume_right) == 0) by (nonlinear_arith)
            requires
                mixed_side(s1, s2, s3, s4, pan, 4, volume_right) == volume_right * 0,
        ;
    }
    if pan % 16 == 0 {
        assert(mixed_side(s1, s2, s3, s4, pan, 0, volume_left) == 0) by (nonlinear_arith)
            requires
                mixed_side(s1, s2, s3, s4, pan, 0, volume_left) == volume_left * 0,
        ;
    }
}

/// The sum of the samples that `pan` lets through to the side whose lanes
/// begin at `lane`.
fn side_sum(s1: i16, s2: i16, s3: i16, s4: i16, pan: u8, lane: u8) -> (sum: i32)
    requires
        lane == 0 || lane == 4,
    ensures
        sum == panned(s1 as int, pan as int, lane as int) + panned(
            s2 as int,
            pan as int,
            lane + 1,
        ) + panned(s3 as int, pan as int, lane + 2) + panned(s4 as int, pan as int, lane + 3),
        -0x4_0000 <= sum <= 0x4_0000,
{
    proof {
        lemma_byte_fields(pan);
    }
    let (m1, m2, m3, m4): (u8, u8, u8, u8) = if lane == 0 {
        (0x01, 0x02, 0x04, 0x08)
    } else {
        (0x10, 0x20, 0x40, 0x80)
    };
    let mut sum: i32 = 0;
    if pan & m1 == m1 {
        sum += s1 as i32;
    }
    if pan & m2 == m2 {
        sum += s2 as i32;
    }
    if pan & m3 == m3 {
        sum += s3 as i32;
    }
    if pan & m4 == m4 {
        sum += s4 as i32;
    }
    sum
}

/// Mixes the samples of one frame of the four channels into stereo.
pub fn mix(
    s1: &Vec<i16>,
    s2: &Vec<i16>,
    s3: &Vec<i16>,
    s4: &Vec<i16>,
    pan: u8,
    volume_left: u8,
    volume_right: u8,
) -> (frames: Vec<StereoFrame>)
    requires
        s2.len() == s1.len(),
        s3.len() == s1.len(),
        s4.len() == s1.len(),
        volume_left <= 7,
        volume_right <= 7,
    ensures
        frames@ == mixed(
            s1@,
            s2@,
            s3@,
            s4@,
            pan as int,
            volume_left as int,
            volume_right as int,
        ),
{
    let ghost target = mixed(
        s1@,
        s2@,
        s3@,
        s4@,
        pan as int,
        volume_left as int,
        volume_right as int,
    );
    let count = s1.len();
    let mut frames: Vec<StereoFrame> = Vec::new();
    let mut i: usize = 0;
    while i < count
        invariant
            count == s1.len(),
            s2.len() == count,
            s3.len() == count,
            s4.len() == count,
            volume_left <= 7,
            volume_right <= 7,
            i <= count,
            target == mixed(
                s1@,
                s2@,
                s3@,
                s4@,
                pan as int,
                volume_left as int,
                volume_right as int,
            ),
            frames@ == target.take(i as int),
        decreases count - i,
    {
        let left_sum = side_sum(s1[i], s2[i], s3[i], s4[i], pan, 0);
        let right_sum = side_sum(s1[i], s2[i], s3[i], s4[i], pan, 4);
        proof {
            lemma_mixed_side_bounds(
                s1[i as int] as int,
                s2[i as int] as int,
                s3[i as int] as int,
                s4[i as int] as int,
                pan as int,
                0,
                volume_left as int,
            );
            lemma_mixed_side_bounds(
                s1[i as int] as int,
                s2[i as int] as int,
                s3[i as int] as int,
                s4[i as int] as int,
                pan as int,
                4,
                volume_right as int,
            );
        }
        let frame = StereoFrame {
            left: volume_left as i32 * left_sum,
            right: volume_right as i32 * right_sum,
        };
        frames.push(frame);
        proof {
            assert(frame == target[i as int]);
            assert(target.take(i as int).push(target[i as int]) =~= target.take(i + 1));
        }
        i += 1;
    }
    proof {
        assert(target.take(count as int) =~= target);
    }
    frames
}

} // verus!
