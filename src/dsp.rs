//! 8 kHz to 48 kHz polyphase upsampler with fixed Q15 taps.
use vstd::prelude::*;

verus! {

/// Upsampling factor.
pub const UPSAMPLE: usize = 6;

/// Taps of each phase bank.
pub const TAPS_PER_PHASE: usize = 16;

/// Input frame: 20 ms at 8 kHz.
pub const FRAME_SAMPLES_8K: usize = 160;

/// Output frame: 20 ms at 48 kHz.
pub const FRAME_SAMPLES_48K: usize = 960;

/// Q15 taps of phase bank `p`: the windowed-sinc prototype (cut-off 3400 Hz
/// at 48 kHz, Blackman window, 96 taps) taken with stride 6 from offset
/// `p`, each bank scaled to unit DC gain (its taps sum to 32768).
pub open spec fn phase_taps_spec(p: int) -> Seq<i16> {
    if p == 0 {
        seq![0i16, -8i16, -11i16, 200i16, -797i16, 2022i16, -3931i16, 6891i16, 27612i16, 2196i16, -2483i16, 1661i16, -803i16, 267i16, -49i16, 1i16]
    } else if p == 1 {
        seq![1i16, -24i16, 51i16, 52i16, -591i16, 2001i16, -4876i16, 12179i16, 25728i16, -1471i16, -902i16, 1070i16, -655i16, 263i16, -63i16, 5i16]
    } else if p == 2 {
        seq![2i16, -42i16, 130i16, -166i16, -174i16, 1498i16, -4951i16, 17492i16, 22201i16, -3866i16, 497i16, 411i16, -420i16, 209i16, -57i16, 4i16]
    } else if p == 3 {
        seq![4i16, -57i16, 209i16, -420i16, 411i16, 497i16, -3866i16, 22201i16, 17492i16, -4951i16, 1498i16, -174i16, -166i16, 130i16, -42i16, 2i16]
    } else if p == 4 {
        seq![5i16, -63i16, 263i16, -655i16, 1070i16, -902i16, -1471i16, 25728i16, 12179i16, -4876i16, 2001i16, -591i16, 52i16, 51i16, -24i16, 1i16]
    } else {
        seq![1i16, -49i16, 267i16, -803i16, 1661i16, -2483i16, 2196i16, 27612i16, 6891i16, -3931i16, 2022i16, -797i16, 200i16, -11i16, -8i16, 0i16]
    }
}

fn phase_taps(p: usize) -> (r: [i16; 16])
    requires
        p < UPSAMPLE,
    ensures
        r@ == phase_taps_spec(p as int),
{
    let r: [i16; 16] = if p == 0 {
            [0, -8, -11, 200, -797, 2022, -3931, 6891, 27612, 2196, -2483, 1661, -803, 267, -49, 1]
        } else if p == 1 {
            [1, -24, 51, 52, -591, 2001, -4876, 12179, 25728, -1471, -902, 1070, -655, 263, -63, 5]
        } else if p == 2 {
            [2, -42, 130, -166, -174, 1498, -4951, 17492, 22201, -3866, 497, 411, -420, 209, -57, 4]
        } else if p == 3 {
            [4, -57, 209, -420, 411, 497, -3866, 22201, 17492, -4951, 1498, -174, -166, 130, -42, 2]
        } else if p == 4 {
            [5, -63, 263, -655, 1070, -902, -1471, 25728, 12179, -4876, 2001, -591, 52, 51, -24, 1]
        } else {
            [1, -49, 267, -803, 1661, -2483, 2196, 27612, 6891, -3931, 2022, -797, 200, -11, -8, 0]
        };
    assert(r@ =~= phase_taps_spec(p as int));
    r
}


/// `sum_{t < n} h[t] * taps[t]`.
pub open spec fn dot(h: Seq<i16>, taps: Seq<i16>, n: int) -> int
    decreases n,
{
    if n <= 0 {
        0
    } else {
        dot(h, taps, n - 1) + h[n - 1] as int * taps[n - 1] as int
    }
}

/// `v` saturated to the range of `i16`.
pub open spec fn sat16(v: int) -> i16 {
    if v < -32768 {
        -32768i16
    } else if v > 32767 {
        32767i16
    } else {
        v as i16
    }
}

/// Output of phase `p` for the history `h`: the Q15 dot product shifted
/// right by 15 (rounding toward minus infinity) and saturated.
pub open spec fn phase_output(h: Seq<i16>, p: int) -> i16 {
    sat16(dot(h, phase_taps_spec(p), TAPS_PER_PHASE as int) / 32768)
}

/// History after one more input sample: newest first, the oldest dropped.
pub open spec fn push_history(h: Seq<i16>, x: i16) -> Seq<i16> {
    seq![x] + h.subrange(0, TAPS_PER_PHASE as int - 1)
}

/// History after the first `n` samples of `input`, starting from `h0`.
pub open spec fn history_after(h0: Seq<i16>, input: Seq<i16>, n: int) -> Seq<i16>
    decreases n,
{
    if n <= 0 {
        h0
    } else {
        push_history(history_after(h0, input, n - 1), input[n - 1])
    }
}

/// Output sample `k` of a frame: phase `k % 6` after input sample `k / 6`.
pub open spec fn upsampled(h0: Seq<i16>, input: Seq<i16>, k: int) -> i16 {
    phase_output(history_after(h0, input, k / UPSAMPLE as int + 1), k % UPSAMPLE as int)
}

/// Slot `t` of the history after `n` samples: input `n - 1 - t` when that
/// many have arrived, else an older slot of the starting history. With
/// `process_frame`'s contract this gives output `6n + p` as the phase-`p`
/// dot product over inputs `n, n - 1, ...` followed by the old history.
pub proof fn lemma_history_slot(h0: Seq<i16>, input: Seq<i16>, n: int)
    requires
        h0.len() == TAPS_PER_PHASE,
        0 <= n,
    ensures
        history_after(h0, input, n).len() == TAPS_PER_PHASE,
        forall|t: int| 0 <= t < TAPS_PER_PHASE ==> #[trigger] history_after(h0, input, n)[t] == (if t < n {
            input[n - 1 - t]
        } else {
            h0[t - n]
        }),
    decreases n,
{
    if n > 0 {
        lemma_history_slot(h0, input, n - 1);
        let prev = history_after(h0, input, n - 1);
        assert forall|t: int| 0 <= t < TAPS_PER_PHASE implies #[trigger] history_after(h0, input, n)[t] == (if t < n {
            input[n - 1 - t]
        } else {
            h0[t - n]
        }) by {
            if t > 0 {
                assert(history_after(h0, input, n)[t] == prev[t - 1]);
            }
        }
    }
}

/// Six-phase interpolator keeping the last 16 input samples.
pub struct Up6Polyphase {
    hist: [i16; 16],
}

impl Up6Polyphase {
    pub closed spec fn history(&self) -> Seq<i16> {
        self.hist@
    }

    pub fn new() -> (r: Self)
        ensures
            r.history() == Seq::new(TAPS_PER_PHASE as nat, |i: int| 0i16),
            r.history().len() == TAPS_PER_PHASE,
    {
        let r = Up6Polyphase { hist: [0i16; 16] };
        assert(r.history() =~= Seq::new(TAPS_PER_PHASE as nat, |i: int| 0i16));
        r
    }

    /// Shifts the history by one and stores `x` as the newest sample.
    pub fn push_sample(&mut self, x: i16)
        ensures
            final(self).history() == push_history(old(self).history(), x),
            final(self).history().len() == TAPS_PER_PHASE,
            final(self).history()[0] == x,
            forall|t: int| 1 <= t < TAPS_PER_PHASE ==> #[trigger] final(self).history()[t] == old(self).history()[t - 1],
    {
        let mut i: usize = TAPS_PER_PHASE - 1;
        let ghost h0 = self.hist@;
        while i > 0
            invariant
                0 <= i < TAPS_PER_PHASE,
                h0 == old(self).hist@,
                self.hist@.len() == TAPS_PER_PHASE,
                forall|j: int| 0 <= j <= i ==> self.hist@[j] == h0[j],
                forall|j: int| i < j < TAPS_PER_PHASE ==> self.hist@[j] == h0[j - 1],
            decreases i,
        {
            let v = self.hist[i - 1];
            self.hist[i] = v;
            i = i - 1;
        }
        self.hist[0] = x;
        assert(self.hist@ =~= push_history(h0, x));
    }

    fn phase_sample(&self, p: usize) -> (r: i16)
        requires
            p < UPSAMPLE,
        ensures
            r == phase_output(self.history(), p as int),
    {
        let taps = phase_taps(p);
        let mut acc: i64 = 0;
        let mut t: usize = 0;
        while t < TAPS_PER_PHASE
            invariant
                t <= TAPS_PER_PHASE,
                taps@ == phase_taps_spec(p as int),
                acc == dot(self.hist@, taps@, t as int),
                -(t as int) * 0x4000_0000 <= acc <= (t as int) * 0x4000_0000,
            decreases TAPS_PER_PHASE - t,
        {
            let a = self.hist[t] as i64;
            let b = taps[t] as i64;
            assert(-0x4000_0000 <= a * b <= 0x4000_0000) by (nonlinear_arith)
                requires
                    -32768 <= a <= 32767,
                    -32768 <= b <= 32767,
            ;
            acc = acc + a * b;
            t = t + 1;
        }
        let q: i64 = (((acc + 0x100_0000_0000) as u64) / 32768) as i64 - 0x200_0000;
        assert(q == acc / 32768);
        if q < -32768 {
            -32768
        } else if q > 32767 {
            32767
        } else {
            q as i16
        }
    }

    /// Upsamples one 20 ms frame: for each input sample, push it into the
    /// history and emit the six phase outputs.
    pub fn process_frame(&mut self, in8k: &[i16; 160], out48k: &mut [i16; 960])
        ensures
            final(self).history() == history_after(old(self).history(), in8k@, FRAME_SAMPLES_8K as int),
            final(self).history().len() == TAPS_PER_PHASE,
            forall|t: int| 0 <= t < TAPS_PER_PHASE ==> #[trigger] final(self).history()[t] == in8k@[159 - t],
            final(out48k)@.len() == FRAME_SAMPLES_48K,
            forall|k: int|
                0 <= k < FRAME_SAMPLES_48K ==> #[trigger] final(out48k)@[k] == upsampled(
                    old(self).history(),
                    in8k@,
                    k,
                ),
    {
        let ghost h0 = self.hist@;
        let mut n: usize = 0;
        proof {
            lemma_history_slot(h0, in8k@, FRAME_SAMPLES_8K as int);
        }
        while n < FRAME_SAMPLES_8K
            invariant
                n <= FRAME_SAMPLES_8K,
                h0 == old(self).hist@,
                self.hist@ == history_after(h0, in8k@, n as int),
                out48k@.len() == FRAME_SAMPLES_48K,
                forall|k: int| 0 <= k < n * 6 ==> #[trigger] out48k@[k] == upsampled(h0, in8k@, k),
            decreases FRAME_SAMPLES_8K - n,
        {
            self.push_sample(in8k[n]);
            assert(self.hist@ == history_after(h0, in8k@, n + 1));
            let mut p: usize = 0;
            while p < UPSAMPLE
                invariant
                    n < FRAME_SAMPLES_8K,
                    p <= UPSAMPLE,
                    h0 == old(self).hist@,
                    self.hist@ == history_after(h0, in8k@, n + 1),
                    out48k@.len() == FRAME_SAMPLES_48K,
                    forall|k: int| 0 <= k < n * 6 + p ==> #[trigger] out48k@[k] == upsampled(h0, in8k@, k),
                decreases UPSAMPLE - p,
            {
                let v = self.phase_sample(p);
                out48k[n * 6 + p] = v;
                assert((n * 6 + p) as int / 6 == n as int);
                assert((n * 6 + p) as int % 6 == p as int);
                p = p + 1;
            }
            n = n + 1;
        }
    }
}

/// Sum of the first `n` taps.
pub open spec fn tap_sum(taps: Seq<i16>, n: int) -> int
    decreases n,
{
    if n <= 0 {
        0
    } else {
        tap_sum(taps, n - 1) + taps[n - 1] as int
    }
}

/// A history holding `x` in every slot.
pub open spec fn constant_history(x: i16) -> Seq<i16> {
    Seq::new(TAPS_PER_PHASE as nat, |i: int| x)
}

proof fn lemma_dot_constant(x: i16, taps: Seq<i16>, n: int)
    requires
        0 <= n <= TAPS_PER_PHASE,
    ensures
        dot(constant_history(x), taps, n) == x as int * tap_sum(taps, n),
    decreases n,
{
    if n > 0 {
        lemma_dot_constant(x, taps, n - 1);
        assert(constant_history(x)[n - 1] == x);
        assert(x as int * tap_sum(taps, n - 1) + x as int * taps[n - 1] as int == x as int * (
        tap_sum(taps, n - 1) + taps[n - 1] as int)) by (nonlinear_arith);
    }
}

/// Response to a constant (DC) input: once the history holds `x` in every
/// slot, every phase emits exactly `x`, each bank's taps summing to 32768.
pub proof fn lemma_dc_response(x: i16, p: int)
    requires
        0 <= p < UPSAMPLE,
    ensures
        tap_sum(phase_taps_spec(p), TAPS_PER_PHASE as int) == 32768,
        phase_output(constant_history(x), p) == x,
{
    lemma_dot_constant(x, phase_taps_spec(p), TAPS_PER_PHASE as int);
    reveal_with_fuel(tap_sum, 17);
    assert(x as int * 32768 / 32768 == x as int);
}

/// Steady DC: when the history and the whole input frame hold `x`, all 960
/// outputs equal `x`.
pub proof fn lemma_dc_frame(x: i16, input: Seq<i16>, k: int)
    requires
        input.len() == FRAME_SAMPLES_8K,
        forall|i: int| 0 <= i < input.len() ==> #[trigger] input[i] == x,
        0 <= k < FRAME_SAMPLES_48K,
    ensures
        upsampled(constant_history(x), input, k) == x,
{
    let n = k / UPSAMPLE as int + 1;
    let h0 = constant_history(x);
    lemma_history_slot(h0, input, n);
    let h = history_after(h0, input, n);
    assert(h =~= constant_history(x));
    lemma_dc_response(x, k % UPSAMPLE as int);
}

} // verus!
