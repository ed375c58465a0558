use gb_apu::mixer::mix;
use gb_apu::noise::lfsr_shift;
use gb_apu::square::duty_sign;
use gb_apu::wave::wave_amp;
use gb_apu::{StereoFrame, MIX_SCALE};

#[test]
fn duty_patterns_match_the_table() {
    let table: [[i32; 8]; 4] = [
        [-1, -1, -1, -1, 1, -1, -1, -1],
        [-1, -1, -1, -1, 1, 1, -1, -1],
        [-1, -1, 1, 1, 1, 1, -1, -1],
        [1, 1, 1, 1, -1, -1, 1, 1],
    ];
    for duty in 0..4u8 {
        for phase in 0..8u8 {
            assert_eq!(duty_sign(duty, phase), table[duty as usize][phase as usize]);
        }
    }
}

#[test]
fn wave_volume_shifts() {
    assert_eq!(wave_amp(13, 0), 0);
    assert_eq!(wave_amp(13, 1), 13);
    assert_eq!(wave_amp(13, 2), 6);
    assert_eq!(wave_amp(13, 3), 3);
    for shift in 4..=7 {
        assert_eq!(wave_amp(15, shift), 0);
    }
}

#[test]
fn shift_register_first_steps() {
    // 0x00FF: bits 14 and 13 are clear, so the shift feeds back a 0 and puts out a 0.
    assert_eq!(lfsr_shift(0x00FF, 14), (0x01FE, false));
    // bit 6 set, bit 5 set: no feedback, but a 1 comes out.
    assert_eq!(lfsr_shift(0x00FF, 6), (0x01FE, true));
    // bit 14 set, bit 13 clear: feedback, and a 1 comes out.
    assert_eq!(lfsr_shift(0x4000, 14), (0x8001, true));
    // bit 13 set, bit 14 clear: feedback, and a 0 comes out.
    assert_eq!(lfsr_shift(0x2000, 14), (0x4001, false));
    // the top bit is lost.
    assert_eq!(lfsr_shift(0x8000, 14), (0x0000, false));
    assert_eq!(lfsr_shift(0x0020, 6), (0x0041, false));
}

#[test]
fn wide_shift_register_has_period_32767() {
    let start: u16 = 0xFF;
    let mut state = start;
    let mut shifts = 0u32;
    loop {
        state = lfsr_shift(state, 14).0;
        shifts += 1;
        if state & 0x7FFF == start & 0x7FFF {
            break;
        }
        assert!(shifts < 40000);
    }
    assert_eq!(shifts, 32767);
}

#[test]
fn wide_shift_register_output_is_balanced() {
    let mut state: u16 = 0xFF;
    let mut ones = 0u32;
    for _ in 0..32767 {
        let (next, high) = lfsr_shift(state, 14);
        if high {
            ones += 1;
        }
        state = next;
    }
    assert_eq!(ones, 16384);
}

#[test]
fn narrow_shift_register_has_period_127() {
    let start: u16 = 0xFF;
    let mut state = start;
    let mut shifts = 0u32;
    loop {
        state = lfsr_shift(state, 6).0;
        shifts += 1;
        if state & 0x7F == start & 0x7F {
            break;
        }
        assert!(shifts < 1000);
    }
    assert_eq!(shifts, 127);
}

#[test]
fn mix_follows_pan_and_volume() {
    let s1 = vec![100i16, -3];
    let s2 = vec![-50i16, 8];
    let s3 = vec![7i16, 15];
    let s4 = vec![1i16, -15];
    // left: channels 1 and 3; right: channels 2 and 4.
    let frames = mix(&s1, &s2, &s3, &s4, 0b1010_0101, 7, 3);
    assert_eq!(
        frames,
        vec![
            StereoFrame { left: 7 * 107, right: 3 * -49 },
            StereoFrame { left: 7 * 12, right: 3 * -7 },
        ]
    );
}

#[test]
fn mix_of_nothing_is_nothing() {
    let none: Vec<i16> = Vec::new();
    assert_eq!(mix(&none, &none, &none, &none, 0xFF, 7, 7), Vec::new());
}

#[test]
fn mix_with_volume_zero_is_silent() {
    let s = vec![15i16; 10];
    let frames = mix(&s, &s, &s, &s, 0xFF, 0, 0);
    assert!(frames.iter().all(|f| f.left == 0 && f.right == 0));
}

#[test]
fn full_scale_is_mix_scale() {
    let s = vec![15i16];
    let frames = mix(&s, &s, &s, &s, 0xFF, 7, 7);
    assert_eq!(frames, vec![StereoFrame { left: MIX_SCALE, right: MIX_SCALE }]);
}

#[test]
fn mix_holds_the_extremes() {
    let low = vec![i16::MIN];
    let high = vec![i16::MAX];
    assert_eq!(
        mix(&low, &low, &low, &low, 0x0F, 7, 7),
        vec![StereoFrame { left: 7 * 4 * -32768, right: 0 }]
    );
    assert_eq!(
        mix(&high, &high, &high, &high, 0xF0, 7, 7),
        vec![StereoFrame { left: 0, right: 7 * 4 * 32767 }]
    );
}

#[test]
fn unpanned_side_is_silent() {
    let s1 = vec![9i16, -9, 3];
    let s2 = vec![1i16, 2, 3];
    for pan in 0..16u8 {
        assert!(mix(&s1, &s2, &s1, &s2, pan, 7, 7).iter().all(|f| f.right == 0));
        assert!(mix(&s1, &s2, &s1, &s2, pan << 4, 7, 7).iter().all(|f| f.left == 0));
    }
}
