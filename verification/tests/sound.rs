use gb_apu::regs::{
    NR10, NR11, NR12, NR13, NR14, NR21, NR22, NR23, NR24, NR30, NR31, NR32, NR33, NR34, NR41,
    NR42, NR43, NR44, NR50, NR51, NR52, WAVE_RAM,
};
use gb_apu::{
    Sound, StereoFrame, CLOCKS_PER_SECOND, MIN_SAMPLE_RATE, OUTPUT_SAMPLE_COUNT, SEQUENCER_PERIOD,
};

const RATE: u32 = 44_100;

/// One clock short of a batch of output at 44100 samples per second.
const ALMOST_A_BATCH: u32 = 190_216;

fn unit() -> Sound {
    Sound::new(RATE).expect("a unit for 44100 samples per second")
}

fn powered() -> Sound {
    let mut s = unit();
    s.wb(NR52, 0x80);
    s
}

fn advance(s: &mut Sound, cycles: u32, sink_period: u32) -> Vec<StereoFrame> {
    assert!(s.can_advance(cycles));
    s.do_cycle(cycles, sink_period)
}

/// Lets `clocks` go by in steps of `step`, and gathers what comes out.
fn play(s: &mut Sound, clocks: u32, step: u32) -> Vec<StereoFrame> {
    let mut heard = Vec::new();
    let mut gone = 0;
    while gone < clocks {
        heard.extend(advance(s, step, 0));
        gone += step;
    }
    heard
}

/// The number of swings from below `-threshold` to above `threshold`.
fn upswings(side: &[i32], threshold: i32) -> usize {
    let mean = (side.iter().map(|x| *x as i64).sum::<i64>() / side.len() as i64) as i32;
    let mut low = false;
    let mut count = 0;
    for x in side {
        if *x - mean < -threshold {
            low = true;
        } else if *x - mean > threshold && low {
            low = false;
            count += 1;
        }
    }
    count
}

fn lefts(frames: &[StereoFrame]) -> Vec<i32> {
    frames.iter().map(|f| f.left).collect()
}

fn trigger_channel_2(s: &mut Sound) {
    s.wb(NR21, 0x80);
    s.wb(NR22, 0xF0);
    s.wb(NR23, 0x00);
    s.wb(NR24, 0x87);
}

#[test]
fn no_unit_for_a_rate_of_zero() {
    assert!(Sound::new(0).is_none());
}

#[test]
fn no_unit_at_the_top_of_the_range() {
    assert!(Sound::new(u32::MAX).is_none());
    assert!(Sound::new(u32::MAX - 17).is_none());
}

#[test]
fn no_unit_below_the_lowest_rate() {
    assert_eq!(MIN_SAMPLE_RATE, 128);
    assert!(Sound::new(1).is_none());
    assert!(Sound::new(127).is_none());
    assert!(Sound::new(128).is_some());
}

#[test]
fn units_for_common_rates() {
    for rate in [8000, 22_050, 44_100, 48_000, 96_000, 192_000] {
        assert!(Sound::new(rate).is_some());
    }
}

#[test]
fn constants() {
    assert_eq!(CLOCKS_PER_SECOND, 4_194_304);
    assert_eq!(OUTPUT_SAMPLE_COUNT, 2000);
    assert_eq!(SEQUENCER_PERIOD, CLOCKS_PER_SECOND / 256);
}

#[test]
fn fresh_unit_reads_zero_everywhere() {
    let mut s = unit();
    for a in 0xFF00..=0xFF7Fu16 {
        assert_eq!(s.rb(a), 0, "address {:#06x}", a);
    }
}

#[test]
fn silent_boot() {
    let mut s = unit();
    let frames = advance(&mut s, 44_100 * 95, 0);
    assert!(frames.iter().all(|f| f.left == 0 && f.right == 0));
    assert!(frames.is_empty());
}

#[test]
fn powered_unit_without_triggers_is_silent() {
    let mut s = powered();
    s.wb(NR51, 0xFF);
    let frames = play(&mut s, CLOCKS_PER_SECOND / 4, 4096);
    assert!(frames.len() > 10_000);
    assert!(frames.iter().all(|f| f.left == 0 && f.right == 0));
}

#[test]
fn unit_that_is_off_does_not_count_clocks() {
    let mut s = unit();
    for _ in 0..100 {
        assert!(advance(&mut s, u32::MAX, 0).is_empty());
    }
    s.wb(NR52, 0x80);
    assert!(advance(&mut s, ALMOST_A_BATCH, 0).is_empty());
}

#[test]
fn output_is_due_after_a_batch_of_clocks() {
    let mut s = powered();
    assert!(advance(&mut s, ALMOST_A_BATCH, 0).is_empty());
    let frames = advance(&mut s, 1, 0);
    // 190217 clocks at 44100 samples to 4194304 clocks, with 2 parts in 2^22 carried in
    let reach = 190_217u64 * 44_100 + 2;
    assert_eq!(frames.len() as u64, reach >> 22);
    assert_eq!(frames.len(), 1999);
}

#[test]
fn the_fraction_of_a_sample_is_carried_over() {
    let mut s = powered();
    let mut carry: u64 = 2;
    for _ in 0..20 {
        let frames = advance(&mut s, 190_217, 0);
        let reach = 190_217u64 * 44_100 + carry;
        assert_eq!(frames.len() as u64, reach >> 22);
        carry = reach & 0x3F_FFFF;
    }
}

#[test]
fn output_waits_for_the_sink() {
    let mut s = powered();
    assert!(advance(&mut s, 190_217, 200_000).is_empty());
    assert!(advance(&mut s, 9_782, 200_000).is_empty());
    let frames = advance(&mut s, 1, 200_000);
    assert_eq!(frames.len() as u64, (200_000u64 * 44_100 + 2) >> 22);
}

#[test]
fn a_frame_that_does_not_fit_is_refused() {
    let mut s = powered();
    // the sample position must stay below 2^34 parts: 389_566 clocks at 44100
    assert!(s.can_advance(389_566));
    assert!(!s.can_advance(389_567));
    assert!(!s.can_advance(u32::MAX));
    let mut slow = Sound::new(1000).expect("a unit for 1000 samples per second");
    slow.wb(NR52, 0x80);
    // at 1000 samples per second the buffer holds a second and no more
    assert!(slow.can_advance(4_198_498));
    assert!(!slow.can_advance(4_198_499));
}

#[test]
fn registers_read_back_what_was_written() {
    let mut s = powered();
    for a in NR10..=NR51 {
        for v in [0x00u8, 0x01, 0x7F, 0x80, 0xA5, 0xFF] {
            s.wb(a, v);
            assert_eq!(s.rb(a), v, "address {:#06x}", a);
        }
    }
}

#[test]
fn registers_keep_their_bytes_as_time_goes_by() {
    let mut s = powered();
    for a in NR10..=NR51 {
        s.wb(a, (a & 0xFF) as u8 ^ 0x5A);
    }
    play(&mut s, 400_000, 1000);
    for a in NR10..=NR51 {
        assert_eq!(s.rb(a), (a & 0xFF) as u8 ^ 0x5A);
    }
}

#[test]
fn writes_are_ignored_while_off() {
    let mut s = unit();
    for a in 0xFF10..=0xFF3Fu16 {
        if a != NR52 {
            s.wb(a, 0xFF);
        }
    }
    for a in 0xFF10..=0xFF3Fu16 {
        assert_eq!(s.rb(a), 0, "address {:#06x}", a);
    }
    s.wb(NR52, 0x80);
    s.wb(NR51, 0xFF);
    assert_eq!(s.rb(NR52), 0x80);
    let frames = play(&mut s, 400_000, 1000);
    assert!(frames.iter().all(|f| f.left == 0 && f.right == 0));
}

#[test]
fn status_register_keeps_its_high_nibble() {
    let mut s = unit();
    s.wb(NR52, 0xF3);
    assert_eq!(s.rb(NR52), 0xF0);
    s.wb(NR52, 0x7F);
    assert_eq!(s.rb(NR52), 0x70);
}

#[test]
fn status_register_shows_the_channels() {
    let mut s = powered();
    assert_eq!(s.rb(NR52), 0x80);
    s.wb(NR14, 0x80);
    assert_eq!(s.rb(NR52), 0x81);
    s.wb(NR24, 0x80);
    assert_eq!(s.rb(NR52), 0x83);
    s.wb(NR34, 0x80);
    assert_eq!(s.rb(NR52), 0x83);
    s.wb(NR30, 0x80);
    s.wb(NR34, 0x80);
    assert_eq!(s.rb(NR52), 0x87);
    s.wb(NR44, 0x80);
    assert_eq!(s.rb(NR52), 0x8F);
    s.wb(NR30, 0x00);
    assert_eq!(s.rb(NR52), 0x8B);
}

#[test]
fn unmapped_addresses_read_zero_and_take_no_writes() {
    let mut s = powered();
    for a in [0x0000u16, 0xFF0F, 0xFF27, 0xFF2F, 0xFF40, 0xFFFF] {
        s.wb(a, 0xAB);
        assert_eq!(s.rb(a), 0);
    }
    assert_eq!(s.rb(NR52), 0x80);
}

#[test]
fn wave_ram_reads_back_what_was_written() {
    let mut s = powered();
    for k in 0..16u16 {
        s.wb(WAVE_RAM + k, (k as u8) * 17 ^ 0x3C);
    }
    for k in 0..16u16 {
        assert_eq!(s.rb(WAVE_RAM + k), (k as u8) * 17 ^ 0x3C);
    }
    for v in 0..=255u8 {
        s.wb(WAVE_RAM + 5, v);
        assert_eq!(s.rb(WAVE_RAM + 5), v);
        assert_eq!(s.rb(WAVE_RAM + 4), 4 * 17 ^ 0x3C);
        assert_eq!(s.rb(WAVE_RAM + 6), 6 * 17 ^ 0x3C);
    }
}

#[test]
fn wave_ram_takes_no_writes_while_off() {
    let mut s = unit();
    s.wb(WAVE_RAM, 0xAB);
    assert_eq!(s.rb(WAVE_RAM), 0);
}

#[test]
fn channel_2_pulse() {
    let mut s = powered();
    s.wb(NR50, 0x77);
    s.wb(NR51, 0x22);
    trigger_channel_2(&mut s);
    let frames = play(&mut s, 190_272, 64);
    assert_eq!(frames.len(), 2000);
    assert!(frames.iter().all(|f| f.left == f.right));
    let left = lefts(&frames);
    // amplitude 15 at master volume 7, swinging about zero
    assert!(*left.iter().max().unwrap() >= 95);
    assert!(*left.iter().max().unwrap() <= 125);
    assert!(*left.iter().min().unwrap() <= -95);
    assert!(*left.iter().min().unwrap() >= -125);
    // 512 periods to the second: 23.2 in 2000 samples
    let periods = upswings(&left, 60);
    assert!((22..=24).contains(&periods), "{} periods", periods);
}

#[test]
fn channel_1_sounds_like_channel_2() {
    let mut s = powered();
    s.wb(NR51, 0x11);
    s.wb(NR11, 0x80);
    s.wb(NR12, 0xF0);
    s.wb(NR13, 0x00);
    s.wb(NR14, 0x87);
    let one = play(&mut s, 190_272, 64);
    let mut t = powered();
    t.wb(NR51, 0x22);
    trigger_channel_2(&mut t);
    let two = play(&mut t, 190_272, 64);
    assert_eq!(one, two);
}

#[test]
fn wave_ramp() {
    let mut s = powered();
    let bytes = [0x01u8, 0x23, 0x45, 0x67, 0x89, 0xAB, 0xCD, 0xEF];
    for k in 0..16u16 {
        s.wb(WAVE_RAM + k, bytes[k as usize % 8]);
    }
    s.wb(NR51, 0x44);
    s.wb(NR30, 0x80);
    s.wb(NR31, 0x00);
    s.wb(NR32, 0x20);
    s.wb(NR33, 0x00);
    s.wb(NR34, 0x87);
    assert_eq!(s.rb(NR52) & 0x04, 0x04);
    let frames = play(&mut s, 190_272, 64);
    assert_eq!(frames.len(), 2000);
    let left = lefts(&frames);
    // fifteen levels at master volume 7, once the buffer's high-pass has centred them
    let settled = &left[1000..];
    let span = settled.iter().max().unwrap() - settled.iter().min().unwrap();
    assert!((95..=130).contains(&span), "span {}", span);
    // a round of 32 samples lasts 16384 clocks and holds two ramps of 16:
    // 5.8 rounds in 1000 samples
    let ramps = upswings(settled, 30);
    assert!((11..=12).contains(&ramps), "{} ramps", ramps);
}

#[test]
fn wave_volume_shift_scales_the_ramp() {
    let mut spans = Vec::new();
    for shift in [0x00u8, 0x20, 0x40, 0x60] {
        let mut s = powered();
        for k in 0..16u16 {
            s.wb(WAVE_RAM + k, 0x0F);
        }
        s.wb(NR51, 0x44);
        s.wb(NR30, 0x80);
        s.wb(NR32, shift);
        s.wb(NR34, 0x87);
        let left = lefts(&play(&mut s, 190_272, 64));
        spans.push(left.iter().max().unwrap() - left.iter().min().unwrap());
    }
    assert_eq!(spans[0], 0);
    assert!(spans[1] > spans[2] && spans[2] > spans[3] && spans[3] > 0);
}

#[test]
fn wave_needs_its_dac() {
    let mut s = powered();
    s.wb(NR51, 0x44);
    for k in 0..16u16 {
        s.wb(WAVE_RAM + k, 0x0F);
    }
    s.wb(NR32, 0x20);
    s.wb(NR34, 0x87);
    assert_eq!(s.rb(NR52) & 0x04, 0);
    let frames = play(&mut s, 190_272, 64);
    assert!(frames.iter().all(|f| f.left == 0 && f.right == 0));
}

#[test]
fn noise() {
    let mut s = powered();
    s.wb(NR51, 0x88);
    s.wb(NR41, 0x00);
    s.wb(NR42, 0xF0);
    s.wb(NR43, 0x00);
    s.wb(NR44, 0x80);
    let frames = play(&mut s, CLOCKS_PER_SECOND, 4096);
    // a second of clocks, less what waits for the next batch of output
    assert!(frames.len() >= 42_000 && frames.len() <= 44_100);
    let left = lefts(&frames);
    let mean = left.iter().map(|x| *x as i64).sum::<i64>() / left.len() as i64;
    assert!(mean.abs() <= 2, "mean {}", mean);
    assert!(*left.iter().max().unwrap() > 20);
    assert!(*left.iter().min().unwrap() < -20);
    assert!(*left.iter().max().unwrap() <= 125);
    assert!(*left.iter().min().unwrap() >= -125);
}

#[test]
fn pan() {
    let mut s = powered();
    for k in 0..16u16 {
        s.wb(WAVE_RAM + k, 0x0F);
    }
    s.wb(NR12, 0xF0);
    s.wb(NR14, 0x87);
    trigger_channel_2(&mut s);
    s.wb(NR30, 0x80);
    s.wb(NR32, 0x20);
    s.wb(NR34, 0x87);
    s.wb(NR42, 0xF0);
    s.wb(NR44, 0x80);
    assert_eq!(s.rb(NR52), 0x8F);
    s.wb(NR50, 0x77);
    s.wb(NR51, 0x01);
    let frames = play(&mut s, 190_272, 64);
    assert_eq!(frames.len(), 2000);
    assert!(frames.iter().all(|f| f.right == 0));
    assert!(frames.iter().any(|f| f.left != 0));
}

#[test]
fn master_volume_scales_each_side() {
    let mut loud = powered();
    loud.wb(NR50, 0x77);
    loud.wb(NR51, 0x22);
    trigger_channel_2(&mut loud);
    let mut soft = powered();
    soft.wb(NR50, 0x13);
    soft.wb(NR51, 0x22);
    trigger_channel_2(&mut soft);
    let a = play(&mut loud, 190_272, 64);
    let b = play(&mut soft, 190_272, 64);
    assert_eq!(a.len(), b.len());
    for (x, y) in a.iter().zip(b.iter()) {
        // left volume 3 against 7, right volume 1 against 7
        assert_eq!(x.left * 3, y.left * 7);
        assert_eq!(x.right, y.right * 7);
    }
}

#[test]
fn master_off_clears_writes() {
    let mut s = powered();
    s.wb(NR52, 0x00);
    s.wb(NR11, 0xFF);
    assert_eq!(s.rb(NR11), 0);
    s.wb(NR52, 0x80);
    s.wb(NR51, 0xFF);
    assert_eq!(s.rb(NR11), 0);
    assert_eq!(s.rb(NR52) & 0x01, 0);
    let frames = play(&mut s, 190_272, 64);
    assert_eq!(frames.len(), 2000);
    assert!(frames.iter().all(|f| f.left == 0 && f.right == 0));
    s.wb(NR12, 0xF0);
    s.wb(NR14, 0x87);
    assert_eq!(s.rb(NR52) & 0x01, 1);
    let frames = play(&mut s, 190_272, 64);
    assert!(frames.iter().any(|f| f.left != 0));
}

#[test]
fn length_counts_down_to_silence() {
    for length in [1u8, 2, 5, 33, 64] {
        let mut s = powered();
        s.wb(NR21, 64 - length);
        s.wb(NR22, 0xF0);
        s.wb(NR24, 0xC7);
        for tick in 0..length {
            assert_eq!(s.rb(NR52) & 0x02, 0x02, "length {} after {} ticks", length, tick);
            advance(&mut s, SEQUENCER_PERIOD, 0);
        }
        assert_eq!(s.rb(NR52) & 0x02, 0, "length {}", length);
        advance(&mut s, SEQUENCER_PERIOD, 0);
        assert_eq!(s.rb(NR52) & 0x02, 0);
    }
}

#[test]
fn length_does_not_count_unless_enabled() {
    let mut s = powered();
    s.wb(NR21, 63);
    s.wb(NR22, 0xF0);
    s.wb(NR24, 0x87);
    for _ in 0..100 {
        advance(&mut s, SEQUENCER_PERIOD, 0);
        assert_eq!(s.rb(NR52) & 0x02, 0x02);
    }
}

#[test]
fn wave_length_counts_down() {
    let mut s = powered();
    s.wb(NR30, 0x80);
    s.wb(NR31, 253);
    s.wb(NR34, 0xC0);
    for _ in 0..3 {
        assert_eq!(s.rb(NR52) & 0x04, 0x04);
        advance(&mut s, SEQUENCER_PERIOD, 0);
    }
    assert_eq!(s.rb(NR52) & 0x04, 0x00);
}

#[test]
fn longest_wave_length_is_256() {
    let mut s = powered();
    s.wb(NR30, 0x80);
    s.wb(NR31, 0);
    s.wb(NR34, 0xC0);
    for _ in 0..256 {
        assert_eq!(s.rb(NR52) & 0x04, 0x04);
        advance(&mut s, SEQUENCER_PERIOD, 0);
    }
    assert_eq!(s.rb(NR52) & 0x04, 0x00);
}

#[test]
fn noise_has_no_length_enable() {
    let mut s = powered();
    s.wb(NR41, 63);
    s.wb(NR42, 0xF0);
    s.wb(NR44, 0xC0);
    for _ in 0..100 {
        assert_eq!(s.rb(NR52) & 0x08, 0x08);
        advance(&mut s, SEQUENCER_PERIOD, 0);
    }
}

#[test]
fn expired_length_silences_the_channel() {
    let mut s = powered();
    s.wb(NR51, 0x22);
    s.wb(NR21, 0x80 | 62);
    s.wb(NR22, 0xF0);
    s.wb(NR23, 0x00);
    s.wb(NR24, 0xC7);
    // two length ticks of sound, then a second of silence
    let heard = play(&mut s, CLOCKS_PER_SECOND, 4096);
    let left = lefts(&heard);
    assert!(left[..300].iter().any(|x| x.abs() > 60));
    assert!(left[22_050..].iter().all(|x| *x == 0));
}

#[test]
fn zero_volume_silences_square_and_noise() {
    let mut s = powered();
    s.wb(NR51, 0xFF);
    s.wb(NR12, 0x00);
    s.wb(NR14, 0x87);
    s.wb(NR42, 0x00);
    s.wb(NR44, 0x80);
    let frames = play(&mut s, 190_272, 64);
    assert!(frames.iter().all(|f| f.left == 0 && f.right == 0));
}

#[test]
fn envelope_fades_a_channel_out() {
    let mut s = powered();
    s.wb(NR51, 0x22);
    s.wb(NR21, 0x80);
    s.wb(NR22, 0xF1);
    s.wb(NR23, 0x00);
    s.wb(NR24, 0x87);
    // fifteen envelope steps at 64 to the second, then silence
    let heard = play(&mut s, CLOCKS_PER_SECOND, 4096);
    let left = lefts(&heard);
    let early = left[..2000].iter().map(|x| x.abs()).max().unwrap();
    let middle = left[4000..6000].iter().map(|x| x.abs()).max().unwrap();
    assert!(early > middle && middle > 0);
    assert!(left[30_000..].iter().all(|x| *x == 0));
}

#[test]
fn sweep_overflow_silences_channel_1() {
    let mut s = powered();
    s.wb(NR51, 0x11);
    s.wb(NR10, 0x19);
    s.wb(NR11, 0x80);
    s.wb(NR12, 0xF0);
    s.wb(NR13, 0x00);
    // 1792 + (1792 >> 1) is past 2047: the sweep overflows at the trigger
    s.wb(NR14, 0x87);
    let heard = play(&mut s, CLOCKS_PER_SECOND, 4096);
    let left = lefts(&heard);
    // the channel sounds until the sweep loads the frequency out of range
    assert!(left[..100].iter().any(|x| x.abs() > 60));
    assert!(left[22_050..].iter().all(|x| *x == 0));
    // the status register knows nothing of it
    assert_eq!(s.rb(NR52) & 0x01, 0x01);
}

#[test]
fn sweep_without_overflow_keeps_sounding() {
    let mut s = powered();
    s.wb(NR51, 0x11);
    s.wb(NR10, 0x17);
    s.wb(NR11, 0x80);
    s.wb(NR12, 0xF0);
    s.wb(NR13, 0x00);
    s.wb(NR14, 0x84);
    let heard = play(&mut s, CLOCKS_PER_SECOND / 2, 4096);
    let left = lefts(&heard);
    assert!(left[left.len() - 2000..].iter().any(|x| x.abs() > 60));
}

#[test]
fn downward_sweep_lowers_the_pitch() {
    let mut s = powered();
    s.wb(NR51, 0x11);
    s.wb(NR10, 0x11);
    s.wb(NR11, 0x80);
    s.wb(NR12, 0xF0);
    s.wb(NR13, 0x00);
    s.wb(NR14, 0x87);
    let heard = play(&mut s, CLOCKS_PER_SECOND / 2, 4096);
    let left = lefts(&heard);
    let early = upswings(&left[..2000], 60);
    let late = upswings(&left[left.len() - 2000..], 60);
    assert!(late < early, "{} periods early, {} late", early, late);
}

#[test]
fn same_schedule_same_frames() {
    let mut runs = Vec::new();
    for _ in 0..2 {
        let mut s = powered();
        s.wb(NR50, 0x53);
        s.wb(NR51, 0xB7);
        for k in 0..16u16 {
            s.wb(WAVE_RAM + k, (k as u8).wrapping_mul(37));
        }
        let mut heard = Vec::new();
        let mut x: u32 = 99;
        for _ in 0..3000 {
            x = x.wrapping_mul(1664525).wrapping_add(1013904223);
            let a = 0xFF10 + ((x >> 8) % 0x30) as u16;
            let v = (x >> 16) as u8;
            if a != NR52 {
                s.wb(a, v);
            }
            if x & 0x80 != 0 {
                heard.push(StereoFrame { left: s.rb(a) as i32, right: 0 });
            }
            heard.extend(advance(&mut s, 1 + (x >> 24), 0));
        }
        runs.push(heard);
    }
    assert!(runs[0].len() > 1000);
    assert!(runs[0].iter().any(|f| f.right != 0));
    assert!(runs[0] == runs[1]);
}

#[test]
fn reads_do_not_change_what_is_heard() {
    let mut quiet = powered();
    let mut busy = powered();
    for s in [&mut quiet, &mut busy] {
        s.wb(NR51, 0xFF);
        trigger_channel_2(s);
        s.wb(NR42, 0xF3);
        s.wb(NR43, 0x35);
        s.wb(NR44, 0x80);
    }
    let mut a = Vec::new();
    let mut b = Vec::new();
    for step in 0..4000u32 {
        a.extend(advance(&mut quiet, 37, 0));
        a.extend(advance(&mut quiet, 63, 0));
        busy.rb(NR10 + (step % 0x30) as u16);
        b.extend(advance(&mut busy, 37, 0));
        busy.rb(NR52);
        b.extend(advance(&mut busy, 63, 0));
    }
    assert!(a.len() >= 4000);
    assert!(a.iter().any(|f| f.left != 0));
    assert!(a == b);
}

/// Plays until `count` frames have come out, and hands out just these.
fn play_frames(s: &mut Sound, count: usize) -> Vec<StereoFrame> {
    let mut heard = Vec::new();
    while heard.len() < count {
        heard.extend(advance(s, 4096, 0));
    }
    heard.truncate(count);
    heard
}

#[test]
fn square_pitch() {
    // (2048 - 1792) * 4 clocks to the step and 8 steps to the period: 512 periods a second
    let mut s = powered();
    s.wb(NR51, 0x22);
    trigger_channel_2(&mut s);
    let left = lefts(&play_frames(&mut s, 44_100));
    let periods = upswings(&left, 60);
    assert!((511..=513).contains(&periods), "{} periods", periods);
    // (2048 - 1024) * 4 clocks to the step: 128 periods a second
    let mut s = powered();
    s.wb(NR51, 0x22);
    s.wb(NR21, 0x80);
    s.wb(NR22, 0xF0);
    s.wb(NR23, 0x00);
    s.wb(NR24, 0x84);
    let left = lefts(&play_frames(&mut s, 44_100));
    let periods = upswings(&left, 60);
    assert!((127..=129).contains(&periods), "{} periods", periods);
}

#[test]
fn square_pitch_follows_both_frequency_bytes() {
    // frequency 0x6D6 = 1750: 298 * 4 clocks to the step, 439.8 periods a second
    let mut s = powered();
    s.wb(NR51, 0x22);
    s.wb(NR21, 0x80);
    s.wb(NR22, 0xF0);
    s.wb(NR23, 0xD6);
    s.wb(NR24, 0x86);
    let left = lefts(&play_frames(&mut s, 44_100));
    let periods = upswings(&left, 60);
    assert!((438..=441).contains(&periods), "{} periods", periods);
}

#[test]
fn duty_cycles() {
    let expected = [0.125f64, 0.25, 0.5, 0.75];
    for duty in 0..4u8 {
        let mut s = powered();
        s.wb(NR51, 0x22);
        s.wb(NR21, duty << 6);
        s.wb(NR22, 0xF0);
        s.wb(NR23, 0x00);
        s.wb(NR24, 0x87);
        let left = lefts(&play_frames(&mut s, 20_000));
        let settled = &left[4000..];
        let middle = (settled.iter().max().unwrap() + settled.iter().min().unwrap()) / 2;
        let high = settled.iter().filter(|x| **x > middle).count() as f64 / settled.len() as f64;
        assert!(
            (high - expected[duty as usize]).abs() < 0.03,
            "duty {}: high for {} of the time",
            duty,
            high
        );
    }
}

#[test]
fn wave_pitch() {
    // (2048 - 1792) * 2 clocks to the sample and 32 samples to the round: 256 rounds a second
    let mut s = powered();
    for k in 0..16u16 {
        s.wb(WAVE_RAM + k, if k < 8 { 0x00 } else { 0xFF });
    }
    s.wb(NR51, 0x44);
    s.wb(NR30, 0x80);
    s.wb(NR32, 0x20);
    s.wb(NR33, 0x00);
    s.wb(NR34, 0x87);
    let left = lefts(&play_frames(&mut s, 44_100));
    // nine tenths of a second, once the buffer's high-pass has centred the wave
    let rounds = upswings(&left[4410..], 30);
    assert!((229..=231).contains(&rounds), "{} rounds", rounds);
}

#[test]
fn slow_noise_follows_the_shift_register() {
    // divider 128 shifted left by 7: 16384 clocks to the shift
    let mut s = powered();
    s.wb(NR51, 0x88);
    s.wb(NR42, 0xF0);
    s.wb(NR43, 0x77);
    s.wb(NR44, 0x80);
    let left = lefts(&play_frames(&mut s, 44_100));
    let mut state: u16 = 0xFF;
    let mut before = false;
    let mut first = true;
    for k in 0..250u64 {
        let (next, high) = gb_apu::noise::lfsr_shift(state, 14);
        state = next;
        // the sample at which shift k is heard, in the middle of the buffer's step
        let at = ((k * 16_384 * 44_100) >> 22) as usize + 8;
        if !first && at >= 12 {
            let jump = left[at + 6] - left[at - 6];
            if high == before {
                assert!(jump.abs() < 60, "shift {}: a jump of {}", k, jump);
            } else if high {
                assert!(jump > 150, "shift {}: a jump of {}", k, jump);
            } else {
                assert!(jump < -150, "shift {}: a jump of {}", k, jump);
            }
        }
        before = high;
        first = false;
    }
}

#[test]
fn narrow_noise_repeats_sooner() {
    // with the register tapped at bit 6 the noise repeats after 127 shifts
    let mut s = powered();
    s.wb(NR51, 0x88);
    s.wb(NR42, 0xF0);
    s.wb(NR43, 0x7F);
    s.wb(NR44, 0x80);
    let left = lefts(&play_frames(&mut s, 44_100));
    let mut state: u16 = 0xFF;
    let mut highs = Vec::new();
    for _ in 0..250 {
        let (next, high) = gb_apu::noise::lfsr_shift(state, 6);
        state = next;
        highs.push(high);
    }
    for k in 1..250usize {
        let at = ((k as u64 * 16_384 * 44_100) >> 22) as usize + 8;
        let jump = left[at + 6] - left[at - 6];
        if highs[k] == highs[k - 1] {
            assert!(jump.abs() < 60, "shift {}: a jump of {}", k, jump);
        } else {
            assert!(jump.abs() > 150, "shift {}: a jump of {}", k, jump);
        }
    }
}

#[test]
fn other_sample_rates() {
    for rate in [8000u32, 22_050, 48_000, 96_000] {
        let mut s = Sound::new(rate).expect("a unit");
        s.wb(NR52, 0x80);
        s.wb(NR51, 0x22);
        trigger_channel_2(&mut s);
        let mut heard = Vec::new();
        let mut gone = 0u64;
        while gone < CLOCKS_PER_SECOND as u64 {
            heard.extend(advance(&mut s, 1024, 0));
            gone += 1024;
        }
        // a second of clocks, less what waits for the next batch of 2000 samples
        assert!(heard.len() as u32 <= rate && heard.len() as u32 + 2100 > rate, "rate {}", rate);
        let left = lefts(&heard);
        let periods = upswings(&left, 60) as u32;
        let expected = 512 * heard.len() as u32 / rate;
        assert!(periods + 2 >= expected && periods <= expected + 2, "rate {}", rate);
    }
}

#[test]
fn envelope_steps_at_64_to_the_second() {
    let mut s = powered();
    s.wb(NR51, 0x22);
    s.wb(NR21, 0x80);
    // from 15 down, one step in every 4 envelope ticks: one step in every 16th of a second
    s.wb(NR22, 0xF4);
    s.wb(NR23, 0x00);
    s.wb(NR24, 0x87);
    let left = lefts(&play_frames(&mut s, 44_100));
    for step in 0..15usize {
        // the middle of the stretch in which the volume is 15 - step
        let from = step * 44_100 / 16 + 700;
        let stretch = &left[from..from + 1300];
        let swing = stretch.iter().max().unwrap() - stretch.iter().min().unwrap();
        let expected = 2 * 7 * (15 - step as i32);
        assert!(
            (swing - expected).abs() <= expected / 5 + 4,
            "step {}: a swing of {} for {}",
            step,
            swing,
            expected
        );
    }
    assert!(left[44_100 * 15 / 16 + 1500..].iter().all(|x| x.abs() <= 1));
}

#[test]
fn longest_frame_at_44100() {
    let mut s = powered();
    s.wb(NR51, 0xFF);
    trigger_channel_2(&mut s);
    s.wb(NR42, 0xF0);
    s.wb(NR43, 0x00);
    s.wb(NR44, 0x80);
    let frames = advance(&mut s, 389_566, 0);
    assert_eq!(frames.len() as u64, (389_566u64 * 44_100 + 2) >> 22);
    assert_eq!(frames.len(), 4095);
    assert!(frames[4000..].iter().any(|f| f.left != 0));
    // the next frame starts from the fraction that was left over, and is the shorter for it
    assert!(s.can_advance(389_471));
    assert!(!s.can_advance(389_472));
    let frames = advance(&mut s, 200_000, 0);
    let carry = (389_566u64 * 44_100 + 2) & 0x3F_FFFF;
    assert_eq!(frames.len() as u64, (200_000u64 * 44_100 + carry) >> 22);
}

#[test]
fn a_buffer_of_one_second_holds_a_batch_at_2001_samples() {
    let mut s = Sound::new(2001).expect("a unit for 2001 samples per second");
    s.wb(NR52, 0x80);
    s.wb(NR51, 0x22);
    trigger_channel_2(&mut s);
    // a batch of 2000 samples is worth 4_192_207 clocks, and the buffer holds 4_196_400
    assert!(advance(&mut s, 4_192_206, 0).is_empty());
    assert!(s.can_advance(4_194));
    assert!(!s.can_advance(4_195));
    let frames = advance(&mut s, 1, 0);
    assert_eq!(frames.len() as u64, (4_192_207u64 * 2001 + 2) >> 22);
    assert_eq!(frames.len(), 1999);
    assert!(frames[1900..].iter().any(|f| f.left != 0));
}

#[test]
fn try_do_cycle_takes_what_fits() {
    let mut s = powered();
    s.wb(NR51, 0x22);
    trigger_channel_2(&mut s);
    let mut t = powered();
    t.wb(NR51, 0x22);
    trigger_channel_2(&mut t);
    let tried = s.try_do_cycle(190_272, 0).expect("a frame that fits");
    assert_eq!(tried, advance(&mut t, 190_272, 0));
    assert_eq!(tried.len(), 2000);
}

#[test]
fn try_do_cycle_leaves_what_does_not_fit() {
    let mut s = powered();
    s.wb(NR51, 0x22);
    trigger_channel_2(&mut s);
    assert!(s.try_do_cycle(389_567, 0).is_none());
    assert!(s.try_do_cycle(u32::MAX, 0).is_none());
    // nothing has gone by: the longest frame still fits, and sounds from its first sample on
    let frames = s.try_do_cycle(389_566, 0).expect("the longest frame");
    assert_eq!(frames.len(), 4095);
    let mut t = powered();
    t.wb(NR51, 0x22);
    trigger_channel_2(&mut t);
    assert_eq!(frames, advance(&mut t, 389_566, 0));
}

#[test]
fn try_do_cycle_of_a_unit_that_is_off() {
    let mut s = unit();
    assert_eq!(s.try_do_cycle(u32::MAX, 0), Some(Vec::new()));
}

#[test]
fn clocks_for_samples() {
    let s = unit();
    assert_eq!(s.clocks_for(0), 0);
    // 4194304 / 44100 = 95.1
    assert_eq!(s.clocks_for(1), 95);
    assert_eq!(s.clocks_for(2000), 190_217);
    assert_eq!(s.clocks_for(44_100), 4_194_304);
    assert_eq!(s.clocks_for(u32::MAX), u32::MAX);
    let slow = Sound::new(128).expect("a unit for 128 samples per second");
    assert_eq!(slow.clocks_for(1), 32_768);
    assert_eq!(slow.clocks_for(131_071), 4_294_934_528);
    assert_eq!(slow.clocks_for(131_072), u32::MAX);
}
