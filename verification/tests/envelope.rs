use gb_apu::regs::{NR12, NR14, NR22, NR24, NR42, NR44};
use gb_apu::VolumeEnvelope;

#[test]
fn new_envelope_is_silent() {
    let e = VolumeEnvelope::new();
    assert_eq!(e.volume(), 0);
}

#[test]
fn envelope_byte_sets_the_volume() {
    for a in [NR12, NR22, NR42] {
        let mut e = VolumeEnvelope::new();
        e.wb(a, 0xA3);
        assert_eq!(e.volume(), 10);
        e.wb(a, 0x0F);
        assert_eq!(e.volume(), 0);
    }
}

#[test]
fn untriggered_envelope_does_not_step() {
    let mut e = VolumeEnvelope::new();
    e.wb(NR12, 0x59);
    for _ in 0..100 {
        e.step();
    }
    assert_eq!(e.volume(), 5);
}

#[test]
fn trigger_without_bit_seven_is_ignored() {
    let mut e = VolumeEnvelope::new();
    e.wb(NR12, 0x59);
    e.wb(NR14, 0x7F);
    e.step();
    assert_eq!(e.volume(), 5);
}

#[test]
fn other_addresses_pass_the_envelope_by() {
    let mut e = VolumeEnvelope::new();
    e.wb(0xFF13, 0xF9);
    e.wb(0xFF10, 0xF9);
    e.wb(0xFF26, 0xF9);
    assert_eq!(e.volume(), 0);
}

#[test]
fn envelope_steps_up_once_per_period() {
    let mut e = VolumeEnvelope::new();
    e.wb(NR22, 0x3A);
    e.wb(NR24, 0x80);
    let mut seen = Vec::new();
    for _ in 0..8 {
        e.step();
        seen.push(e.volume());
    }
    assert_eq!(seen, vec![3, 4, 4, 5, 5, 6, 6, 7]);
}

#[test]
fn envelope_reaches_fifteen_and_stays() {
    for initial in 0..=15u8 {
        for period in 1..=7u8 {
            let mut e = VolumeEnvelope::new();
            e.wb(NR12, (initial << 4) | 0x8 | period);
            e.wb(NR14, 0x80);
            let ticks = (15 - initial as u32) * period as u32;
            for t in 0..ticks {
                assert!(e.volume() < 15, "too early at tick {}", t);
                e.step();
            }
            assert_eq!(e.volume(), 15);
            for _ in 0..50 {
                e.step();
                assert_eq!(e.volume(), 15);
            }
        }
    }
}

#[test]
fn envelope_falls_to_zero_and_stays() {
    let mut e = VolumeEnvelope::new();
    e.wb(NR42, 0x43);
    e.wb(NR44, 0x80);
    for _ in 0..11 {
        e.step();
    }
    assert_eq!(e.volume(), 1);
    e.step();
    assert_eq!(e.volume(), 0);
    for _ in 0..20 {
        e.step();
        assert_eq!(e.volume(), 0);
    }
}

#[test]
fn trigger_restores_the_initial_volume() {
    let mut e = VolumeEnvelope::new();
    e.wb(NR12, 0x71);
    e.wb(NR14, 0x80);
    e.step();
    e.step();
    assert_eq!(e.volume(), 5);
    e.wb(NR14, 0x80);
    assert_eq!(e.volume(), 7);
}

#[test]
fn volume_never_leaves_its_range() {
    let mut e = VolumeEnvelope::new();
    let mut x: u32 = 12345;
    for _ in 0..20000 {
        x = x.wrapping_mul(1664525).wrapping_add(1013904223);
        let a = [NR12, NR14, NR22, NR24, NR42, NR44][(x >> 8) as usize % 6];
        let v = (x >> 16) as u8;
        if x & 1 == 0 {
            e.wb(a, v);
        } else {
            e.step();
        }
        assert!(e.volume() <= 15);
    }
}
