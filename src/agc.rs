//! Automatic gain control for captured 8 kHz frames, with a noise gate and a
//! soft-knee limiter. Gains are Q12 (4096 is unity).
use vstd::prelude::*;

verus! {

/// Initial gain: 3.0 in Q12.
pub const START_GAIN: i32 = 12288;

/// Default upper bound of the gain: 32.0 in Q12.
pub const MAX_GAIN: i32 = 131072;

/// Lower bound of the gain: 0.5 in Q12.
pub const MIN_GAIN: i32 = 2048;

/// Floor of the square root: the `r` with `r * r <= n < (r + 1) * (r + 1)`.
pub open spec fn is_isqrt(r: int, n: int) -> bool {
    0 <= r && r * r <= n < (r + 1) * (r + 1)
}

/// `sum_{i < n} s[i]^2`.
pub open spec fn sum_sq(s: Seq<i16>, n: int) -> int
    decreases n,
{
    if n <= 0 {
        0
    } else {
        sum_sq(s, n - 1) + s[n - 1] as int * s[n - 1] as int
    }
}

/// Mean of the squared samples (integer division).
pub open spec fn mean_sq(s: Seq<i16>) -> int {
    sum_sq(s, s.len() as int) / s.len() as int
}

pub open spec fn clamp_int(v: int, lo: int, hi: int) -> int {
    if v < lo {
        lo
    } else if v > hi {
        hi
    } else {
        v
    }
}

/// One sample through the Q12 gain and the 4:1 soft-knee limiter above
/// `thresh`, then clamped to `i16`.
pub open spec fn limit_sample(x: int, gain_q12: int, thresh: int) -> i16 {
    let y = (x * gain_q12) / 4096;
    let z = if y > thresh {
        thresh + (y - thresh) / 4
    } else if y < -thresh {
        -thresh + (y + thresh) / 4
    } else {
        y
    };
    clamp_int(z, -32768, 32767) as i16
}

proof fn lemma_sum_sq_bound(s: Seq<i16>, n: int)
    requires
        0 <= n <= s.len(),
    ensures
        0 <= sum_sq(s, n) <= n * 0x4000_0000,
    decreases n,
{
    if n > 0 {
        lemma_sum_sq_bound(s, n - 1);
        let x = s[n - 1] as int;
        assert(0 <= x * x <= 0x4000_0000) by (nonlinear_arith)
            requires
                -32768 <= x <= 32767,
        ;
    }
}

/// Floor of the square root of `n`.
pub fn isqrt_u32(n: u32) -> (r: u32)
    ensures
        is_isqrt(r as int, n as int),
{
    // lo * lo <= n < hi * hi
    let mut lo: u64 = 0;
    let mut hi: u64 = 65536;
    assert(n < 65536 * 65536);
    while hi - lo > 1
        invariant
            lo < hi <= 65536,
            lo * lo <= n as int,
            n < hi * hi,
        decreases hi - lo,
    {
        let mid: u64 = lo + (hi - lo) / 2;
        assert(mid * mid <= 65536 * 65536) by (nonlinear_arith)
            requires
                mid <= 65536,
        ;
        if mid * mid <= n as u64 {
            lo = mid;
        } else {
            hi = mid;
        }
    }
    assert(hi == lo + 1);
    lo as u32
}

/// Root mean square of a frame: integer square root of the mean of the
/// squares.
pub fn frame_rms_i16(frame: &[i16]) -> (r: i32)
    requires
        frame@.len() > 0,
    ensures
        is_isqrt(r as int, mean_sq(frame@)),
{
    let n = frame.len();
    let mut sum: u128 = 0;
    let mut i: usize = 0;
    while i < n
        invariant
            n == frame@.len(),
            i <= n,
            sum == sum_sq(frame@, i as int),
        decreases n - i,
    {
        proof {
            lemma_sum_sq_bound(frame@, i + 1);
        }
        assert((i + 1) * 0x4000_0000 <= 0x1_0000_0000_0000_0000 * 0x4000_0000) by (nonlinear_arith)
            requires
                i + 1 <= 0x1_0000_0000_0000_0000,
        ;
        let x = frame[i] as i64;
        assert(0 <= x * x <= 0x4000_0000) by (nonlinear_arith)
            requires
                -32768 <= x <= 32767,
        ;
        let sq = (x * x) as u128;
        sum = sum + sq;
        i = i + 1;
    }
    proof {
        lemma_sum_sq_bound(frame@, n as int);
        assert((sum as int) / (n as int) <= 0x4000_0000) by (nonlinear_arith)
            requires
                0 <= sum <= n * 0x4000_0000,
                n > 0,
        ;
    }
    let mean: u32 = (sum / n as u128) as u32;
    assert(mean as int == mean_sq(frame@));
    let r = isqrt_u32(mean);
    assert(r < 0x1_0000) by (nonlinear_arith)
        requires
            r * r <= mean,
            mean <= 0x4000_0000,
    ;
    r as i32
}

/// `floor(a / 2^k)` for the two divisors the limiter uses.
fn floor_div_pow2(a: i64, d: i64) -> (r: i64)
    requires
        d == 4 || d == 4096,
        -0x4000_0000_0000 <= a <= 0x4000_0000_0000,
    ensures
        r == (a as int) / (d as int),
{
    let q: i64 = (((a + 0x4000_0000_0000) as u64) / (d as u64)) as i64 - 0x4000_0000_0000 / d;
    proof {
        vstd::arithmetic::div_mod::lemma_hoist_over_denominator(
            a as int,
            0x4000_0000_0000int / (d as int),
            d as nat,
        );
    }
    q
}

/// Applies the Q12 gain and the soft-knee limiter to every sample in place.
pub fn apply_gain_q12_with_limiter(frame: &mut [i16], gain_q12: i32, thresh: i16)
    ensures
        final(frame)@.len() == old(frame)@.len(),
        forall|i: int|
            0 <= i < old(frame)@.len() ==> #[trigger] final(frame)@[i] == limit_sample(
                old(frame)@[i] as int,
                gain_q12 as int,
                thresh as int,
            ),
{
    let th: i64 = thresh as i64;
    let n = frame.len();
    let mut i: usize = 0;
    while i < n
        invariant
            n == frame@.len(),
            n == old(frame)@.len(),
            i <= n,
            th == thresh as int,
            forall|j: int| i <= j < n ==> frame@[j] == old(frame)@[j],
            forall|j: int|
                0 <= j < i ==> #[trigger] frame@[j] == limit_sample(
                    old(frame)@[j] as int,
                    gain_q12 as int,
                    thresh as int,
                ),
        decreases n - i,
    {
        let x = frame[i] as i64;
        let g = gain_q12 as i64;
        assert(-0x4000_0000_0000 <= x * g <= 0x4000_0000_0000) by (nonlinear_arith)
            requires
                -32768 <= x <= 32767,
                -0x8000_0000 <= g <= 0x7fff_ffff,
        ;
        let y = floor_div_pow2(x * g, 4096);
        let z: i64 = if y > th {
            th + floor_div_pow2(y - th, 4)
        } else if y < -th {
            -th + floor_div_pow2(y + th, 4)
        } else {
            y
        };
        let c: i64 = if z < -32768 {
            -32768
        } else if z > 32767 {
            32767
        } else {
            z
        };
        frame[i] = c as i16;
        i = i + 1;
    }
}

/// Gain control state and its configuration.
pub struct Agc {
    gain_q12: i32,
    target_rms: i32,
    noise_gate_rms: i32,
    max_gain_q12: i32,
    min_gain_q12: i32,
    attack: u8,
    release: u8,
    limiter_thresh: i16,
}

/// The gain wanted for a frame of the given rms, before smoothing.
pub open spec fn desired_gain(a: AgcView, rms: int) -> int {
    let raw = if rms > 0 {
        (a.target_rms * 4096) / rms
    } else {
        a.max_gain_q12
    };
    let clamped = clamp_int(raw, a.min_gain_q12, a.max_gain_q12);
    if rms < a.noise_gate_rms && clamped > a.gain_q12 {
        a.gain_q12
    } else {
        clamped
    }
}

/// The smoothed gain after a frame of the given rms: a step of
/// `alpha / 256` of the way to the desired gain (attack when it falls,
/// release when it rises), rounded toward minus infinity.
pub open spec fn next_gain(a: AgcView, rms: int) -> int {
    let d = desired_gain(a, rms);
    let alpha: int = if d < a.gain_q12 {
        a.attack as int
    } else {
        a.release as int
    };
    a.gain_q12 + ((d - a.gain_q12) * alpha) / 256
}

/// The observable state of an `Agc`.
pub struct AgcView {
    pub gain_q12: int,
    pub target_rms: int,
    pub noise_gate_rms: int,
    pub max_gain_q12: int,
    pub min_gain_q12: int,
    pub attack: u8,
    pub release: u8,
    pub limiter_thresh: int,
}

impl View for Agc {
    type V = AgcView;

    closed spec fn view(&self) -> AgcView {
        AgcView {
            gain_q12: self.gain_q12 as int,
            target_rms: self.target_rms as int,
            noise_gate_rms: self.noise_gate_rms as int,
            max_gain_q12: self.max_gain_q12 as int,
            min_gain_q12: self.min_gain_q12 as int,
            attack: self.attack,
            release: self.release,
            limiter_thresh: self.limiter_thresh as int,
        }
    }
}

impl Agc {
    /// The gain bounds are ordered and the gain is a valid `i32`.
    pub open spec fn wf(&self) -> bool {
        &&& self@.min_gain_q12 == MIN_GAIN
        &&& MIN_GAIN <= self@.max_gain_q12 <= i32::MAX
        &&& i32::MIN <= self@.gain_q12 <= i32::MAX
        &&& i32::MIN <= self@.target_rms <= i32::MAX
    }

    /// Defaults: target rms 16000, gate 150, gain from 0.5x to 32x starting
    /// at 3x, attack 96, release 16, limiter threshold 28500.
    pub fn new() -> (r: Self)
        ensures
            r.wf(),
            r@ == (AgcView {
                gain_q12: START_GAIN as int,
                target_rms: 16000,
                noise_gate_rms: 150,
                max_gain_q12: MAX_GAIN as int,
                min_gain_q12: MIN_GAIN as int,
                attack: 96,
                release: 16,
                limiter_thresh: 28500,
            }),
    {
        Agc {
            gain_q12: START_GAIN,
            target_rms: 16000,
            noise_gate_rms: 150,
            max_gain_q12: MAX_GAIN,
            min_gain_q12: MIN_GAIN,
            attack: 96,
            release: 16,
            limiter_thresh: 28500,
        }
    }

    pub fn set_target_rms(&mut self, target: i32)
        requires
            old(self).wf(),
        ensures
            final(self).wf(),
            final(self)@ == (AgcView { target_rms: target as int, ..old(self)@ }),
    {
        self.target_rms = target;
    }

    pub fn set_noise_gate_rms(&mut self, gate: i32)
        requires
            old(self).wf(),
        ensures
            final(self).wf(),
            final(self)@ == (AgcView { noise_gate_rms: gate as int, ..old(self)@ }),
    {
        self.noise_gate_rms = gate;
    }

    /// Sets the upper bound of the gain; it may not fall below the lower one.
    pub fn set_max_gain(&mut self, max_gain_q12: i32)
        requires
            old(self).wf(),
            max_gain_q12 >= MIN_GAIN,
        ensures
            final(self).wf(),
            final(self)@ == (AgcView { max_gain_q12: max_gain_q12 as int, ..old(self)@ }),
    {
        self.max_gain_q12 = max_gain_q12;
    }

    pub fn set_attack_release(&mut self, attack: u8, release: u8)
        requires
            old(self).wf(),
        ensures
            final(self).wf(),
            final(self)@ == (AgcView { attack, release, ..old(self)@ }),
    {
        self.attack = attack;
        self.release = release;
    }

    /// Measures the frame, moves the gain toward the wanted one and applies
    /// it with the limiter in place. Returns `(gain_q12, rms)`.
    pub fn process_frame(&mut self, frame: &mut [i16]) -> (r: (i32, i32))
        requires
            old(self).wf(),
            old(frame)@.len() > 0,
        ensures
            final(self).wf(),
            is_isqrt(r.1 as int, mean_sq(old(frame)@)),
            final(self)@ == (AgcView { gain_q12: next_gain(old(self)@, r.1 as int), ..old(self)@ }),
            r.0 == final(self)@.gain_q12,
            final(frame)@.len() == old(frame)@.len(),
            forall|i: int|
                0 <= i < old(frame)@.len() ==> #[trigger] final(frame)@[i] == limit_sample(
                    old(frame)@[i] as int,
                    r.0 as int,
                    old(self)@.limiter_thresh,
                ),
    {
        let rms = frame_rms_i16(frame);
        let rms64 = rms as i64;
        let t = self.target_rms as i64;
        assert(0 <= rms);
        let raw: i64 = if rms64 > 0 {
            if t > 0 {
                ((t * 4096) as u64 / rms64 as u64) as i64
            } else {
                assert((t as int * 4096) / (rms64 as int) <= 0) by (nonlinear_arith)
                    requires
                        t <= 0,
                        rms64 > 0,
                ;
                self.min_gain_q12 as i64
            }
        } else {
            self.max_gain_q12 as i64
        };
        let ghost raw_spec: int = if rms > 0 {
            (self.target_rms * 4096) / rms as int
        } else {
            self.max_gain_q12 as int
        };
        assert(clamp_int(raw as int, MIN_GAIN as int, self.max_gain_q12 as int) == clamp_int(
            raw_spec,
            MIN_GAIN as int,
            self.max_gain_q12 as int,
        ));
        let mut desired: i32 = if raw < self.min_gain_q12 as i64 {
            self.min_gain_q12
        } else if raw > self.max_gain_q12 as i64 {
            self.max_gain_q12
        } else {
            raw as i32
        };
        if rms < self.noise_gate_rms && desired > self.gain_q12 {
            desired = self.gain_q12;
        }
        let alpha: i64 = if desired < self.gain_q12 {
            self.attack as i64
        } else {
            self.release as i64
        };
        let delta: i64 = desired as i64 - self.gain_q12 as i64;
        assert(-0x1_0000_0000 * 256 <= delta * alpha <= 0x1_0000_0000 * 256) by (nonlinear_arith)
            requires
                -0x1_0000_0000 <= delta <= 0x1_0000_0000,
                0 <= alpha <= 255,
        ;
        let step: i64 = (((delta * alpha) + 0x1_0000_0000 * 256) as u64 / 256) as i64 - 0x1_0000_0000;
        proof {
            vstd::arithmetic::div_mod::lemma_hoist_over_denominator(
                delta * alpha,
                0x1_0000_0000,
                256,
            );
        }
        assert(step == (delta as int * alpha as int) / 256);
        assert(delta < 0 ==> delta <= step <= 0) by (nonlinear_arith)
            requires
                step == (delta as int * alpha as int) / 256,
                0 <= alpha <= 255,
        ;
        assert(delta >= 0 ==> 0 <= step <= delta) by (nonlinear_arith)
            requires
                step == (delta as int * alpha as int) / 256,
                0 <= alpha <= 255,
        ;
        self.gain_q12 = (self.gain_q12 as i64 + step) as i32;
        apply_gain_q12_with_limiter(frame, self.gain_q12, self.limiter_thresh);
        (self.gain_q12, rms)
    }
}

} // verus!
