//! The volume envelope of channels 1, 2 and 4: a volume in `0..=15` that
//! steps up or down once in every `period` envelope ticks.

use crate::regs::{lemma_byte_fields, NR12, NR14, NR22, NR24, NR42, NR44};
use vstd::prelude::*;

verus! {

/// The state of an envelope, as numbers.
pub struct EnvelopeModel {
    /// Ticks per volume step, `0..=7`; 0 stops the envelope.
    pub period: int,
    /// Whether the volume steps up.
    pub goes_up: bool,
    /// Ticks until the next volume step; 0 while the envelope is idle.
    pub delay: int,
    /// The volume that a trigger starts from, `0..=15`.
    pub initial_volume: int,
    /// The volume now, `0..=15`.
    pub volume: int,
}

impl EnvelopeModel {
    /// Every field is in its range.
    pub open spec fn wf(self) -> bool {
        &&& 0 <= self.period <= 7
        &&& 0 <= self.delay <= 7
        &&& 0 <= self.initial_volume <= 15
        &&& 0 <= self.volume <= 15
    }

    /// The envelope of a channel that has not been written to.
    pub open spec fn initial() -> EnvelopeModel {
        EnvelopeModel { period: 0, goes_up: false, delay: 0, initial_volume: 0, volume: 0 }
    }

    /// The envelope after the byte `v` has been written to address `a`. The
    /// envelope byte of its channel sets period, direction and initial
    /// volume, and the volume with it; the trigger bit of the channel's
    /// last register restarts delay and volume. Other writes pass it by.
    pub open spec fn written(self, a: int, v: int) -> EnvelopeModel {
        if a == NR12 || a == NR22 || a == NR42 {
            EnvelopeModel {
                period: v % 8,
                goes_up: (v / 8) % 2 == 1,
                initial_volume: v / 16,
                volume: v / 16,
                ..self
            }
        } else if (a == NR14 || a == NR24 || a == NR44) && v >= 128 {
            EnvelopeModel { delay: self.period, volume: self.initial_volume, ..self }
        } else {
            self
        }
    }

    /// The volume one step further in the envelope's direction, held at the
    /// ends of its range.
    pub open spec fn next_volume(self) -> int {
        if self.goes_up && self.volume < 15 {
            self.volume + 1
        } else if !self.goes_up && self.volume > 0 {
            self.volume - 1
        } else {
            self.volume
        }
    }

    /// The envelope after one envelope tick: the delay counts down, and
    /// where it runs out it starts again from the period and the volume
    /// takes a step. An idle envelope stays as it is.
    pub open spec fn stepped(self) -> EnvelopeModel {
        if self.delay > 1 {
            EnvelopeModel { delay: self.delay - 1, ..self }
        } else if self.delay == 1 {
            EnvelopeModel { delay: self.period, volume: self.next_volume(), ..self }
        } else {
            self
        }
    }

    /// The envelope after `n` envelope ticks.
    pub open spec fn stepped_by(self, n: nat) -> EnvelopeModel
        decreases n,
    {
        if n == 0 {
            self
        } else {
            self.stepped_by((n - 1) as nat).stepped()
        }
    }

    /// The volume `steps` volume steps after `self.volume`, held at the ends
    /// of its range.
    pub open spec fn ramp(self, steps: int) -> int {
        if self.goes_up {
            if self.volume + steps < 15 {
                self.volume + steps
            } else {
                15
            }
        } else {
            if self.volume - steps > 0 {
                self.volume - steps
            } else {
                0
            }
        }
    }
}

/// A volume envelope.
pub struct VolumeEnvelope {
    period: u8,
    goes_up: bool,
    delay: u8,
    initial_volume: u8,
    volume: u8,
}

impl View for VolumeEnvelope {
    type V = EnvelopeModel;

    closed spec fn view(&self) -> EnvelopeModel {
        EnvelopeModel {
            period: self.period as int,
            goes_up: self.goes_up,
            delay: self.delay as int,
            initial_volume: self.initial_volume as int,
            volume: self.volume as int,
        }
    }
}

impl VolumeEnvelope {
    /// An envelope at rest, with volume 0.
    pub fn new() -> (e: VolumeEnvelope)
        ensures
            e@ == EnvelopeModel::initial(),
            e@.wf(),
    {
        VolumeEnvelope { period: 0, goes_up: false, delay: 0, initial_volume: 0, volume: 0 }
    }

    /// Takes the write of `v` to address `a`.
    pub fn wb(&mut self, a: u16, v: u8)
        ensures
            final(self)@ == old(self)@.written(a as int, v as int),
            old(self)@.wf() ==> final(self)@.wf(),
    {
        proof {
            lemma_byte_fields(v);
        }
        if a == NR12 || a == NR22 || a == NR42 {
            self.period = v & 0x7;
            self.goes_up = v & 0x8 == 0x8;
            self.initial_volume = v >> 4;
            self.volume = self.initial_volume;
        } else if (a == NR14 || a == NR24 || a == NR44) && v & 0x80 == 0x80 {
            self.delay = self.period;
            self.volume = self.initial_volume;
        }
    }

    /// Takes one envelope tick.
    pub fn step(&mut self)
        ensures
            final(self)@ == old(self)@.stepped(),
            old(self)@.wf() ==> final(self)@.wf(),
    {
        if self.delay > 1 {
            self.delay -= 1;
        } else if self.delay == 1 {
            self.delay = self.period;
            if self.goes_up && self.volume < 15 {
                self.volume += 1;
            } else if !self.goes_up && self.volume > 0 {
                self.volume -= 1;
            }
        }
    }

    /// The volume now.
    pub fn volume(&self) -> (v: u8)
        ensures
            v == self@.volume,
    {
        self.volume
    }
}

/// The volume never leaves `0..=15`, whatever is written and however often
/// the envelope is stepped.
pub proof fn lemma_envelope_stays_in_range(e: EnvelopeModel, a: int, v: int, n: nat)
    requires
        e.wf(),
        0 <= v <= 255,
    ensures
        e.written(a, v).wf(),
        e.stepped_by(n).wf(),
    decreases n,
{
    if n > 0 {
        lemma_envelope_stays_in_range(e, a, v, (n - 1) as nat);
    }
}

/// An envelope that has just been triggered with a period above 0 takes one
/// volume step in every `period` ticks: after `n` ticks the volume has moved
/// `n / period` steps in its direction, and no further than the end of its
/// range. Going up from `volume`, it is therefore 15 after
/// `(15 - volume) * period` ticks, and stays there.
pub proof fn lemma_envelope_ramp(e: EnvelopeModel, n: nat)
    requires
        e.wf(),
        e.period > 0,
        e.delay == e.period,
    ensures
        e.stepped_by(n) == (EnvelopeModel {
            delay: e.period - n % (e.period as nat),
            volume: e.ramp(n as int / e.period),
            ..e
        }),
        e.goes_up && n >= (15 - e.volume) * e.period ==> e.stepped_by(n).volume == 15,
        !e.goes_up && n >= e.volume * e.period ==> e.stepped_by(n).volume == 0,
    decreases n,
{
    let p = e.period;
    let q = n as int / p;
    let r = n as int % p;
    vstd::arithmetic::div_mod::lemma_fundamental_div_mod(n as int, p);
    assert(n == p * q + r);
    if n > 0 {
        let m = (n - 1) as nat;
        lemma_envelope_ramp(e, m);
        let qm = m as int / p;
        let rm = m as int % p;
        vstd::arithmetic::div_mod::lemma_fundamental_div_mod(m as int, p);
        if rm == p - 1 {
            assert((qm + 1) * p + 0 == m + 1) by (nonlinear_arith)
                requires
                    m == p * qm + rm,
                    rm == p - 1,
            ;
            vstd::arithmetic::div_mod::lemma_fundamental_div_mod_converse(n as int, p, qm + 1, 0);
        } else {
            assert(qm * p + (rm + 1) == m + 1) by (nonlinear_arith)
                requires
                    m == p * qm + rm,
            ;
            vstd::arithmetic::div_mod::lemma_fundamental_div_mod_converse(
                n as int,
                p,
                qm,
                rm + 1,
            );
        }
    }
    if e.goes_up && n >= (15 - e.volume) * e.period {
        assert(q >= 15 - e.volume) by (nonlinear_arith)
            requires
                n == p * q + r,
                0 <= r < p,
                n >= (15 - e.volume) * p,
                p > 0,
        ;
    }
    if !e.goes_up && n >= e.volume * e.period {
        assert(q >= e.volume) by (nonlinear_arith)
            requires
                n == p * q + r,
                0 <= r < p,
                n >= e.volume * p,
                p > 0,
        ;
    }
}

/// An envelope that is set by a byte `v` to go up with a period above 0 and
/// is then triggered starts at the volume `v / 16`, is still below 15 before
/// `(15 - v / 16) * (v % 8)` ticks have gone by, and stands at 15 from then
/// on.
pub proof fn lemma_envelope_reaches_top(e: EnvelopeModel, v: int, n: nat)
    requires
        e.wf(),
        0 <= v <= 255,
        v % 8 > 0,
        (v / 8) % 2 == 1,
    ensures
        ({
            let started = e.written(NR12 as int, v).written(NR14 as int, 0x80);
            let ticks = (15 - v / 16) * (v % 8);
            &&& started.volume == v / 16
            &&& n < ticks ==> started.stepped_by(n).volume < 15
            &&& n >= ticks ==> started.stepped_by(n).volume == 15
        }),
{
    let started = e.written(NR12 as int, v).written(NR14 as int, 0x80);
    let p = v % 8;
    let i = v / 16;
    lemma_envelope_ramp(started, n);
    if n < (15 - i) * p {
        vstd::arithmetic::div_mod::lemma_fundamental_div_mod(n as int, p);
        let q = n as int / p;
        assert(q < 15 - i) by (nonlinear_arith)
            requires
                n == p * q + n as int % p,
                0 <= n as int % p,
                n < (15 - i) * p,
                p > 0,
        ;
    }
}

} // verus!
