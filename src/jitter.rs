//! A small reordering buffer of decoded audio frames keyed by RTP sequence
//! number.
use vstd::prelude::*;

verus! {

/// One buffered frame: its sequence number and exactly `FRAME` samples.
#[derive(Debug, Clone)]
pub struct JitterFrame<const FRAME: usize> {
    pub seq: u16,
    pub samples: Vec<i16>,
}

/// Frames as (sequence number, samples), oldest first.
pub type FramesView = Seq<(u16, Seq<i16>)>;

pub open spec fn silence(n: int) -> Seq<i16> {
    Seq::new(n as nat, |i: int| 0i16)
}

/// `samples` cut or padded with zeros to exactly `n` samples.
pub open spec fn fit_frame(samples: Seq<i16>, n: int) -> Seq<i16> {
    Seq::new(n as nat, |i: int| if i < samples.len() { samples[i] } else { 0i16 })
}

pub open spec fn has_seq(fs: FramesView, s: u16) -> bool {
    exists|i: int| 0 <= i < fs.len() && #[trigger] fs[i].0 == s
}

/// Index of the first frame with sequence number `s`, or -1.
pub open spec fn index_of_seq(fs: FramesView, s: u16) -> int
    decreases fs.len(),
{
    if fs.len() == 0 {
        -1
    } else if fs.last().0 == s && index_of_seq(fs.drop_last(), s) == -1 {
        fs.len() - 1
    } else {
        index_of_seq(fs.drop_last(), s)
    }
}

/// Index of the first frame with the smallest sequence number (0 if empty).
pub open spec fn index_of_min(fs: FramesView) -> int
    decreases fs.len(),
{
    if fs.len() <= 1 {
        0
    } else {
        let k = index_of_min(fs.drop_last());
        if fs.last().0 < fs[k].0 {
            fs.len() - 1
        } else {
            k
        }
    }
}

pub open spec fn distinct_seqs(fs: FramesView) -> bool {
    forall|i: int, j: int| 0 <= i < j < fs.len() ==> #[trigger] fs[i].0 != #[trigger] fs[j].0
}

pub open spec fn wrap_next(s: u16) -> u16 {
    if s == u16::MAX {
        0
    } else {
        (s + 1) as u16
    }
}

/// The buffer's contents after `push_frame(seq, samples)`: unchanged for a
/// number already held; else the frame is appended, after the oldest entry
/// is dropped when the buffer is full.
pub open spec fn push_spec(cap: int, frame: int, fs: FramesView, seq: u16, samples: Seq<i16>) -> FramesView {
    if has_seq(fs, seq) {
        fs
    } else {
        let kept = if fs.len() >= cap { fs.drop_first() } else { fs };
        kept.push((seq, fit_frame(samples, frame)))
    }
}

/// The sequence number a pop looks for first.
pub open spec fn expected_spec(next: Option<u16>, fs: FramesView) -> Option<u16> {
    if next is None && fs.len() > 0 {
        Some(fs[index_of_min(fs)].0)
    } else {
        next
    }
}

/// What `pop_frame` returns and leaves: (next, frames, samples, real).
pub open spec fn pop_spec(cap: int, frame: int, next: Option<u16>, fs: FramesView) -> (
    Option<u16>,
    FramesView,
    Seq<i16>,
    bool,
) {
    match expected_spec(next, fs) {
        None => (None, fs, silence(frame), false),
        Some(e) => {
            if has_seq(fs, e) {
                let i = index_of_seq(fs, e);
                (Some(wrap_next(e)), fs.remove(i), fs[i].1, true)
            } else if fs.len() >= cap && fs.len() > 0 {
                let i = index_of_min(fs);
                (Some(wrap_next(fs[i].0)), fs.remove(i), fs[i].1, true)
            } else {
                (Some(wrap_next(e)), fs, silence(frame), false)
            }
        },
    }
}

proof fn lemma_index_of_seq(fs: FramesView, s: u16)
    ensures
        -1 <= index_of_seq(fs, s) < fs.len(),
        has_seq(fs, s) <==> index_of_seq(fs, s) >= 0,
        index_of_seq(fs, s) >= 0 ==> fs[index_of_seq(fs, s)].0 == s,
        index_of_seq(fs, s) >= 0 ==> forall|j: int|
            0 <= j < index_of_seq(fs, s) ==> #[trigger] fs[j].0 != s,
        index_of_seq(fs, s) == -1 ==> forall|j: int| 0 <= j < fs.len() ==> #[trigger] fs[j].0 != s,
    decreases fs.len(),
{
    if fs.len() > 0 {
        lemma_index_of_seq(fs.drop_last(), s);
        let d = fs.drop_last();
        assert forall|j: int| 0 <= j < d.len() implies d[j] == fs[j] by {}
        if has_seq(fs, s) {
            let w = choose|i: int| 0 <= i < fs.len() && #[trigger] fs[i].0 == s;
            if w < fs.len() - 1 {
                assert(d[w].0 == s);
            }
        }
        if index_of_seq(fs, s) >= 0 {
            let k = index_of_seq(fs, s);
            assert(fs[k].0 == s);
        }
    }
}

proof fn lemma_index_of_min(fs: FramesView)
    ensures
        fs.len() > 0 ==> 0 <= index_of_min(fs) < fs.len(),
        fs.len() > 0 ==> forall|j: int| 0 <= j < fs.len() ==> fs[index_of_min(fs)].0 <= #[trigger] fs[j].0,
    decreases fs.len(),
{
    if fs.len() > 1 {
        lemma_index_of_min(fs.drop_last());
        let d = fs.drop_last();
        assert forall|j: int| 0 <= j < d.len() implies d[j] == fs[j] by {}
    }
}

/// A bounded reordering buffer of up to `CAP` frames of `FRAME` samples.
#[derive(Debug)]
pub struct JitterBuffer<const CAP: usize, const FRAME: usize> {
    next_seq: Option<u16>,
    frames: Vec<JitterFrame<FRAME>>,
}

impl<const CAP: usize, const FRAME: usize> JitterBuffer<CAP, FRAME> {
    pub closed spec fn frames_view(&self) -> FramesView {
        Seq::new(self.frames@.len(), |i: int| (self.frames@[i].seq, self.frames@[i].samples@))
    }

    pub closed spec fn next_view(&self) -> Option<u16> {
        self.next_seq
    }

    /// At most `CAP` frames, one per sequence number, each `FRAME` long.
    pub open spec fn wf(&self) -> bool {
        &&& CAP > 0
        &&& self.frames_view().len() <= CAP
        &&& distinct_seqs(self.frames_view())
        &&& forall|i: int|
            0 <= i < self.frames_view().len() ==> (#[trigger] self.frames_view()[i]).1.len() == FRAME
    }

    pub fn new() -> (r: Self)
        requires
            CAP > 0,
        ensures
            r.wf(),
            r.next_view() is None,
            r.frames_view().len() == 0,
    {
        let r = JitterBuffer { next_seq: None, frames: Vec::new() };
        assert(r.frames_view() =~= Seq::empty());
        r
    }

    /// Forgets every frame and the expected sequence number.
    pub fn reset(&mut self)
        requires
            old(self).wf(),
        ensures
            final(self).wf(),
            final(self).next_view() is None,
            final(self).frames_view().len() == 0,
    {
        self.next_seq = None;
        self.frames.clear();
        assert(self.frames_view() =~= Seq::empty());
    }

    /// Stores a frame under `seq`: a sequence number already held leaves the
    /// buffer unchanged; otherwise the oldest entry is evicted first when
    /// the buffer is full.
    pub fn push_frame(&mut self, seq: u16, samples: &[i16])
        requires
            old(self).wf(),
        ensures
            final(self).wf(),
            final(self).next_view() == old(self).next_view(),
            final(self).frames_view() == push_spec(
                CAP as int,
                FRAME as int,
                old(self).frames_view(),
                seq,
                samples@,
            ),
    {
        let ghost fs0 = self.frames_view();
        let mut k: usize = 0;
        while k < self.frames.len()
            invariant
                fs0 == self.frames_view(),
                fs0 == old(self).frames_view(),
                self.wf(),
                self.next_seq == old(self).next_seq,
                k <= self.frames@.len(),
                forall|j: int| 0 <= j < k ==> (#[trigger] fs0[j]).0 != seq,
            decreases self.frames@.len() - k,
        {
            if self.frames[k].seq == seq {
                assert(fs0[k as int].0 == seq);
                return;
            }
            k = k + 1;
        }
        assert(!has_seq(fs0, seq));
        if self.frames.len() >= CAP {
            let _ = self.frames.remove(0);
            assert(self.frames_view() =~= fs0.drop_first());
        }
        let ghost kept = self.frames_view();
        assert(kept == (if fs0.len() >= CAP { fs0.drop_first() } else { fs0 }));
        assert forall|i: int| 0 <= i < kept.len() implies (#[trigger] kept[i]).0 != seq by {
            if fs0.len() >= CAP {
                assert(kept[i] == fs0[i + 1]);
            }
        }
        assert(self.wf()) by {
            assert forall|i: int| 0 <= i < kept.len() implies (#[trigger] kept[i]).1.len() == FRAME by {
                if fs0.len() >= CAP {
                    assert(kept[i] == fs0[i + 1]);
                }
            }
            assert forall|i: int, j: int| 0 <= i < j < kept.len() implies #[trigger] kept[i].0 != #[trigger] kept[j].0 by {
                if fs0.len() >= CAP {
                    assert(kept[i] == fs0[i + 1]);
                    assert(kept[j] == fs0[j + 1]);
                }
            }
        }
        assert(!has_seq(kept, seq));
        let mut buf: Vec<i16> = Vec::new();
        let mut i: usize = 0;
        while i < FRAME
            invariant
                i <= FRAME,
                buf@.len() == i,
                forall|j: int| 0 <= j < i ==> buf@[j] == fit_frame(samples@, FRAME as int)[j],
            decreases FRAME - i,
        {
            if i < samples.len() {
                buf.push(samples[i]);
            } else {
                buf.push(0);
            }
            i = i + 1;
        }
        assert(buf@ =~= fit_frame(samples@, FRAME as int));
        self.frames.push(JitterFrame { seq, samples: buf });
        assert(self.frames_view() =~= kept.push((seq, fit_frame(samples@, FRAME as int))));
    }

    fn silence_frame() -> (r: Vec<i16>)
        ensures
            r@ == silence(FRAME as int),
    {
        let mut buf: Vec<i16> = Vec::new();
        let mut i: usize = 0;
        while i < FRAME
            invariant
                i <= FRAME,
                buf@ =~= silence(i as int),
            decreases FRAME - i,
        {
            buf.push(0);
            i = i + 1;
        }
        buf
    }

    fn index_of_min_exec(&self) -> (r: usize)
        requires
            self.wf(),
            self.frames@.len() > 0,
        ensures
            r == index_of_min(self.frames_view()),
    {
        let ghost fs = self.frames_view();
        let mut best: usize = 0;
        let mut i: usize = 1;
        while i < self.frames.len()
            invariant
                fs == self.frames_view(),
                self.wf(),
                1 <= i <= fs.len(),
                best == index_of_min(fs.subrange(0, i as int)),
                best < i,
            decreases fs.len() - i,
        {
            let ghost pre = fs.subrange(0, i as int);
            let ghost next = fs.subrange(0, i + 1);
            assert(next.drop_last() =~= pre);
            assert(next[best as int] == fs[best as int]);
            if self.frames[i].seq < self.frames[best].seq {
                best = i;
            }
            i = i + 1;
        }
        assert(fs.subrange(0, fs.len() as int) =~= fs);
        best
    }

    /// Takes the next frame for playout: `(samples, true)` for a stored
    /// frame, `(silence, false)` when the expected one is missing.
    pub fn pop_frame(&mut self) -> (r: (Vec<i16>, bool))
        requires
            old(self).wf(),
        ensures
            final(self).wf(),
            r.0@.len() == FRAME,
            ({
                let (n, fs, out, is_real) = pop_spec(
                    CAP as int,
                    FRAME as int,
                    old(self).next_view(),
                    old(self).frames_view(),
                );
                &&& final(self).next_view() == n
                &&& final(self).frames_view() == fs
                &&& r.0@ == out
                &&& r.1 == is_real
            }),
    {
        let ghost fs = self.frames_view();
        proof {
            lemma_index_of_min(fs);
        }
        if self.next_seq.is_none() && self.frames.len() > 0 {
            let m = self.index_of_min_exec();
            self.next_seq = Some(self.frames[m].seq);
        }
        let expected = match self.next_seq {
            Some(s) => s,
            None => {
                return (Self::silence_frame(), false);
            },
        };
        proof {
            lemma_index_of_seq(fs, expected);
        }
        let mut k: usize = 0;
        while k < self.frames.len()
            invariant
                fs == self.frames_view(),
                fs == old(self).frames_view(),
                Some(expected) == expected_spec(old(self).next_view(), fs),
                self.wf(),
                self.next_seq == Some(expected),
                k <= fs.len(),
                forall|j: int| 0 <= j < k ==> (#[trigger] fs[j]).0 != expected,
            decreases fs.len() - k,
        {
            if self.frames[k].seq == expected {
                proof {
                    lemma_index_of_seq(fs, expected);
                }
                assert(fs[k as int].0 == expected);
                assert(index_of_seq(fs, expected) == k) by {
                    if index_of_seq(fs, expected) < k {
                        let q = index_of_seq(fs, expected);
                        assert(fs[q].0 == expected);
                    }
                }
                assert(fs[k as int].1.len() == FRAME);
                let f = self.frames.remove(k);
                assert(self.frames_view() =~= fs.remove(k as int));
                self.next_seq = Some(expected.wrapping_add(1));
                return (f.samples, true);
            }
            k = k + 1;
        }
        proof {
            lemma_index_of_seq(fs, expected);
            lemma_index_of_min(fs);
        }
        if self.frames.len() >= CAP && self.frames.len() > 0 {
            let m = self.index_of_min_exec();
            assert(fs[m as int].1.len() == FRAME);
            let f = self.frames.remove(m);
            assert(self.frames_view() =~= fs.remove(m as int));
            self.next_seq = Some(f.seq.wrapping_add(1));
            return (f.samples, true);
        }
        self.next_seq = Some(expected.wrapping_add(1));
        (Self::silence_frame(), false)
    }
}


/// State (expected sequence number, frames) after `n` pops.
pub open spec fn pop_n(cap: int, frame: int, next: Option<u16>, fs: FramesView, n: nat) -> (Option<u16>, FramesView)
    decreases n,
{
    if n == 0 {
        (next, fs)
    } else {
        let (nx, f) = pop_n(cap, frame, next, fs, (n - 1) as nat);
        let r = pop_spec(cap, frame, nx, f);
        (r.0, r.1)
    }
}

/// What pop number `n` (from 0) returns, starting with no expected number.
pub open spec fn nth_pop(cap: int, frame: int, fs: FramesView, n: nat) -> (Seq<i16>, bool) {
    let (nx, f) = pop_n(cap, frame, None, fs, n);
    let r = pop_spec(cap, frame, nx, f);
    (r.2, r.3)
}

/// The samples stored under `s`.
pub open spec fn frame_of(fs: FramesView, s: u16) -> Seq<i16> {
    fs[index_of_seq(fs, s)].1
}

/// The smallest sequence number held.
pub open spec fn min_seq(fs: FramesView) -> u16 {
    fs[index_of_min(fs)].0
}

/// After `j >= 1` pops from a full set `fs` with smallest number `m`: the
/// frames left are exactly those of `fs` numbered `m + j` or more.
pub open spec fn popped_inv(cap: int, fs: FramesView, m: int, j: int, f: FramesView) -> bool {
    &&& distinct_seqs(f)
    &&& f.len() < cap
    &&& forall|i: int| 0 <= i < f.len() ==> (#[trigger] f[i]).0 >= m + j && fs.contains(f[i])
    &&& forall|i: int| 0 <= i < fs.len() && (#[trigger] fs[i]).0 >= m + j ==> f.contains(fs[i])
}

proof fn lemma_frame_of_shared(f: FramesView, fs: FramesView, s: u16)
    requires
        distinct_seqs(fs),
        has_seq(f, s),
        forall|i: int| 0 <= i < f.len() ==> fs.contains(#[trigger] f[i]),
    ensures
        has_seq(fs, s),
        frame_of(f, s) == frame_of(fs, s),
{
    lemma_index_of_seq(f, s);
    lemma_index_of_seq(fs, s);
    let k = index_of_seq(f, s);
    assert(fs.contains(f[k]));
    let t = choose|t: int| 0 <= t < fs.len() && fs[t] == f[k];
    assert(fs[t].0 == s);
    let u = index_of_seq(fs, s);
    assert(fs[u].0 == s);
    if t != u {
        if t < u {
            assert(fs[t].0 != fs[u].0);
        } else {
            assert(fs[u].0 != fs[t].0);
        }
    }
}

proof fn lemma_remove_keeps(f: FramesView, i: int)
    requires
        0 <= i < f.len(),
        distinct_seqs(f),
    ensures
        distinct_seqs(f.remove(i)),
        f.remove(i).len() == f.len() - 1,
        forall|k: int| 0 <= k < f.remove(i).len() ==> #[trigger] f.remove(i)[k] == (if k < i { f[k] } else { f[k + 1] }),
{
    let g = f.remove(i);
    assert forall|k: int| 0 <= k < g.len() implies #[trigger] g[k] == (if k < i { f[k] } else { f[k + 1] }) by {}
    assert forall|a: int, b: int| 0 <= a < b < g.len() implies #[trigger] g[a].0 != #[trigger] g[b].0 by {
        let a2 = if a < i { a } else { a + 1 };
        let b2 = if b < i { b } else { b + 1 };
        assert(g[a] == f[a2] && g[b] == f[b2]);
        assert(a2 < b2);
    }
}

proof fn lemma_pop_step(cap: int, frame: int, fs: FramesView, m: int, j: int, f: FramesView)
    requires
        popped_inv(cap, fs, m, j, f),
        distinct_seqs(fs),
        j >= 1,
        0 <= m,
        m + j + 1 < 0x1_0000,
    ensures
        ({
            let r = pop_spec(cap, frame, Some((m + j) as u16), f);
            &&& r.0 == Some((m + j + 1) as u16)
            &&& popped_inv(cap, fs, m, j + 1, r.1)
            &&& (r.2, r.3) == (if has_seq(fs, (m + j) as u16) {
                (frame_of(fs, (m + j) as u16), true)
            } else {
                (silence(frame), false)
            })
        }),
{
    let e = (m + j) as u16;
    lemma_index_of_seq(f, e);
    let r = pop_spec(cap, frame, Some(e), f);
    if has_seq(f, e) {
        lemma_frame_of_shared(f, fs, e);
        let i = index_of_seq(f, e);
        lemma_remove_keeps(f, i);
        let g = f.remove(i);
        assert forall|k: int| 0 <= k < g.len() implies (#[trigger] g[k]).0 >= m + j + 1 && fs.contains(g[k]) by {
            let k2 = if k < i { k } else { k + 1 };
            assert(g[k] == f[k2]);
            assert(f[k2].0 != f[i].0 || k2 == i) by {
                if k2 < i {
                    assert(f[k2].0 != f[i].0);
                } else if k2 > i {
                    assert(f[i].0 != f[k2].0);
                }
            }
        }
        assert forall|t: int| 0 <= t < fs.len() && (#[trigger] fs[t]).0 >= m + j + 1 implies g.contains(fs[t]) by {
            assert(f.contains(fs[t]));
            let k2 = choose|k2: int| 0 <= k2 < f.len() && f[k2] == fs[t];
            assert(f[i].0 == e);
            assert(k2 != i);
            let k = if k2 < i { k2 } else { k2 - 1 };
            assert(g[k] == fs[t]);
        }
    } else {
        assert(!has_seq(fs, e)) by {
            if has_seq(fs, e) {
                let t = choose|t: int| 0 <= t < fs.len() && #[trigger] fs[t].0 == e;
                assert(f.contains(fs[t]));
                let k = choose|k: int| 0 <= k < f.len() && f[k] == fs[t];
                assert(f[k].0 == e);
            }
        }
        assert forall|k: int| 0 <= k < f.len() implies (#[trigger] f[k]).0 >= m + j + 1 && fs.contains(f[k]) by {
            assert(f[k].0 != e);
        }
    }
}

/// Jitter ordering: frames held under distinct sequence numbers (as any
/// order of pushes into an empty buffer leaves them) come out of successive
/// pops in ascending order from the smallest number `m`: pop `j` returns the
/// frame numbered `m + j` when it is held and silence otherwise, as long as
/// the numbers do not wrap. Popping an empty buffer gives silence.
pub proof fn lemma_jitter_ordering(cap: int, frame: int, fs: FramesView, pops: nat)
    requires
        cap > 0,
        fs.len() <= cap,
        distinct_seqs(fs),
        fs.len() > 0 ==> min_seq(fs) + pops < 0x1_0000,
    ensures
        fs.len() == 0 ==> nth_pop(cap, frame, fs, 0) == (silence(frame), false),
        fs.len() > 0 ==> forall|j: nat| j < pops ==> #[trigger] nth_pop(cap, frame, fs, j) == (if has_seq(fs, (min_seq(fs) + j) as u16) {
            (frame_of(fs, (min_seq(fs) + j) as u16), true)
        } else {
            (silence(frame), false)
        }),
{
    if fs.len() > 0 && pops > 0 {
        let m = min_seq(fs) as int;
        lemma_index_of_min(fs);
        let i0 = index_of_min(fs);
        lemma_index_of_seq(fs, m as u16);
        assert(has_seq(fs, m as u16)) by {
            assert(fs[i0].0 == m);
        }
        assert(index_of_seq(fs, m as u16) == i0) by {
            let u = index_of_seq(fs, m as u16);
            if u != i0 {
                if u < i0 {
                    assert(fs[u].0 != fs[i0].0);
                } else {
                    assert(fs[i0].0 != fs[u].0);
                }
            }
        }
        // first pop
        let f1 = fs.remove(i0);
        lemma_remove_keeps(fs, i0);
        assert(pop_n(cap, frame, None, fs, 0) == (None::<u16>, fs));
        assert(expected_spec(None, fs) == Some(m as u16));
        assert(pop_spec(cap, frame, None, fs) == (Some(wrap_next(m as u16)), f1, fs[i0].1, true));
        assert(wrap_next(m as u16) == (m + 1) as u16);
        assert(pop_n(cap, frame, None, fs, 1) == (Some((m + 1) as u16), f1));
        assert forall|k: int| 0 <= k < f1.len() implies (#[trigger] f1[k]).0 >= m + 1 && fs.contains(f1[k]) by {
            let k2 = if k < i0 { k } else { k + 1 };
            assert(f1[k] == fs[k2]);
            assert(fs[k2].0 >= m);
            if k2 < i0 {
                assert(fs[k2].0 != fs[i0].0);
            } else {
                assert(fs[i0].0 != fs[k2].0);
            }
        }
        assert forall|t: int| 0 <= t < fs.len() && (#[trigger] fs[t]).0 >= m + 1 implies f1.contains(fs[t]) by {
            assert(t != i0);
            let k = if t < i0 { t } else { t - 1 };
            assert(f1[k] == fs[t]);
        }
        assert(popped_inv(cap, fs, m, 1, f1));
        assert forall|j: nat| j < pops implies #[trigger] nth_pop(cap, frame, fs, j) == (if has_seq(fs, (m + j) as u16) {
            (frame_of(fs, (m + j) as u16), true)
        } else {
            (silence(frame), false)
        }) by {
            if j == 0 {
            } else {
                lemma_pops_invariant(cap, frame, fs, m, j, pops);
                let (nx, f) = pop_n(cap, frame, None, fs, j);
                lemma_pop_step(cap, frame, fs, m, j as int, f);
            }
        }
    }
}

proof fn lemma_pops_invariant(cap: int, frame: int, fs: FramesView, m: int, j: nat, pops: nat)
    requires
        fs.len() > 0,
        distinct_seqs(fs),
        m == min_seq(fs),
        1 <= j < pops,
        m + pops < 0x1_0000,
        pop_n(cap, frame, None, fs, 1).0 == Some((m + 1) as u16),
        popped_inv(cap, fs, m, 1, pop_n(cap, frame, None, fs, 1).1),
    ensures
        pop_n(cap, frame, None, fs, j).0 == Some((m + j) as u16),
        popped_inv(cap, fs, m, j as int, pop_n(cap, frame, None, fs, j).1),
    decreases j,
{
    if j > 1 {
        lemma_pops_invariant(cap, frame, fs, m, (j - 1) as nat, pops);
        let (nx, f) = pop_n(cap, frame, None, fs, (j - 1) as nat);
        lemma_pop_step(cap, frame, fs, m, j - 1, f);
    }
}


/// Pushing a new sequence number into a buffer that is not full appends
/// it, so pushes of distinct numbers, in any order, leave exactly those
/// frames with distinct numbers (the starting point of
/// `lemma_jitter_ordering`).
pub proof fn lemma_push_new(cap: int, frame: int, fs: FramesView, seq: u16, samples: Seq<i16>)
    requires
        fs.len() < cap,
        distinct_seqs(fs),
        !has_seq(fs, seq),
    ensures
        push_spec(cap, frame, fs, seq, samples) == fs.push((seq, fit_frame(samples, frame))),
        distinct_seqs(fs.push((seq, fit_frame(samples, frame)))),
{
    let g = fs.push((seq, fit_frame(samples, frame)));
    assert forall|a: int, b: int| 0 <= a < b < g.len() implies #[trigger] g[a].0 != #[trigger] g[b].0 by {
        if b == fs.len() {
            assert(g[a] == fs[a]);
            if fs[a].0 == seq {
                assert(has_seq(fs, seq));
            }
        } else {
            assert(g[a] == fs[a] && g[b] == fs[b]);
        }
    }
}

/// The frames after pushing `ps` (sequence number, samples) in order.
pub open spec fn push_all(cap: int, frame: int, fs: FramesView, ps: Seq<(u16, Seq<i16>)>) -> FramesView
    decreases ps.len(),
{
    if ps.len() == 0 {
        fs
    } else {
        push_spec(cap, frame, push_all(cap, frame, fs, ps.drop_last()), ps.last().0, ps.last().1)
    }
}

/// `ps` with each frame cut or padded to `frame` samples.
pub open spec fn fitted(ps: Seq<(u16, Seq<i16>)>, frame: int) -> FramesView {
    Seq::new(ps.len(), |i: int| (ps[i].0, fit_frame(ps[i].1, frame)))
}

proof fn lemma_push_all_fresh(cap: int, frame: int, ps: Seq<(u16, Seq<i16>)>)
    requires
        ps.len() <= cap,
        distinct_seqs(ps),
    ensures
        push_all(cap, frame, Seq::empty(), ps) == fitted(ps, frame),
        distinct_seqs(fitted(ps, frame)),
    decreases ps.len(),
{
    if ps.len() > 0 {
        let d = ps.drop_last();
        assert forall|a: int, b: int| 0 <= a < b < d.len() implies #[trigger] d[a].0 != #[trigger] d[b].0 by {
            assert(d[a] == ps[a] && d[b] == ps[b]);
        }
        lemma_push_all_fresh(cap, frame, d);
        let f = fitted(d, frame);
        assert(!has_seq(f, ps.last().0)) by {
            if has_seq(f, ps.last().0) {
                let i = choose|i: int| 0 <= i < f.len() && #[trigger] f[i].0 == ps.last().0;
                assert(ps[i].0 == ps[ps.len() - 1].0);
            }
        }
        lemma_push_new(cap, frame, f, ps.last().0, ps.last().1);
        assert(f.push((ps.last().0, fit_frame(ps.last().1, frame))) =~= fitted(ps, frame));
    }
}

/// Jitter ordering through `push_frame`: pushing frames under distinct
/// sequence numbers, in any order and at most `cap` of them, into an empty
/// buffer and then popping gives, at pop `j`, the frame numbered `m + j`
/// (padded to `frame` samples) when one was pushed and silence otherwise,
/// `m` being the smallest number pushed, as long as the numbers do not
/// wrap.
pub proof fn lemma_jitter_push_then_pop(cap: int, frame: int, ps: Seq<(u16, Seq<i16>)>, pops: nat)
    requires
        cap > 0,
        ps.len() <= cap,
        distinct_seqs(ps),
        ps.len() > 0 ==> min_seq(fitted(ps, frame)) + pops < 0x1_0000,
    ensures
        push_all(cap, frame, Seq::empty(), ps) == fitted(ps, frame),
        ps.len() > 0 ==> forall|j: nat| j < pops ==> #[trigger] nth_pop(cap, frame, fitted(ps, frame), j) == (if has_seq(fitted(ps, frame), (min_seq(fitted(ps, frame)) + j) as u16) {
            (frame_of(fitted(ps, frame), (min_seq(fitted(ps, frame)) + j) as u16), true)
        } else {
            (silence(frame), false)
        }),
{
    lemma_push_all_fresh(cap, frame, ps);
    lemma_jitter_ordering(cap, frame, fitted(ps, frame), pops);
}

} // verus!
