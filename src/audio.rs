//! The audio task's logic: which engine runs (off, listen, talk), the 20 ms
//! playout and capture deadlines, the jitter buffer feeding playout through
//! the upsampler, and capture through pair-averaging and AGC. The device
//! itself stays with the caller. Times are milliseconds of a monotonic clock.
use vstd::prelude::*;
use crate::agc::{is_isqrt, mean_sq, next_gain, Agc, AgcView};
use crate::dsp::{upsampled, Up6Polyphase, FRAME_SAMPLES_48K, FRAME_SAMPLES_8K};
use crate::jitter::{pop_spec, push_spec, FramesView, JitterBuffer};
use crate::messages::{AudioCommand, AudioMode, PhoneState};
use crate::rtp::RtpPacket;
use crate::transaction::{add_ms, add_ms_exec};
use crate::ulaw::{capped_len, decode_ulaw, ulaw_decode_byte};

verus! {

/// One frame period.
pub const FRAME_MS: u64 = 20;

/// Frames held by the jitter buffer (200 ms).
pub const JITTER_FRAMES: usize = 10;

/// Silence frames written ahead when playout starts.
pub const PRIME_FRAMES: usize = 3;

/// Capture samples per frame at 16 kHz.
pub const CAPTURE_SAMPLES_16K: usize = 320;

#[derive(Debug, Clone, Copy, PartialEq, Eq, Structural)]
pub enum EngineKind {
    Off,
    Listen,
    Talk,
}

/// The running engine and its next deadline (none until the first tick).
#[derive(Debug, Clone, Copy, PartialEq, Eq, Structural)]
pub enum Engine {
    Off,
    Listen { next: Option<u64> },
    Talk { next: Option<u64> },
}

pub open spec fn kind_of(e: Engine) -> EngineKind {
    match e {
        Engine::Off => EngineKind::Off,
        Engine::Listen { .. } => EngineKind::Listen,
        Engine::Talk { .. } => EngineKind::Talk,
    }
}

impl Engine {
    pub fn kind(&self) -> (r: EngineKind)
        ensures
            r == kind_of(*self),
    {
        match self {
            Engine::Off => EngineKind::Off,
            Engine::Listen { .. } => EngineKind::Listen,
            Engine::Talk { .. } => EngineKind::Talk,
        }
    }
}

/// The engine a call state and PTT mode call for: only an established
/// call runs one, listening or talking.
pub open spec fn desired_engine_spec(phone: PhoneState, mode: AudioMode) -> EngineKind {
    match (phone, mode) {
        (PhoneState::Established, AudioMode::Listen) => EngineKind::Listen,
        (PhoneState::Established, AudioMode::Talk) => EngineKind::Talk,
        _ => EngineKind::Off,
    }
}

pub fn desired_engine(phone: PhoneState, mode: AudioMode) -> (r: EngineKind)
    ensures
        r == desired_engine_spec(phone, mode),
{
    match (phone, mode) {
        (PhoneState::Established, AudioMode::Listen) => EngineKind::Listen,
        (PhoneState::Established, AudioMode::Talk) => EngineKind::Talk,
        _ => EngineKind::Off,
    }
}

/// The engine value a kind starts as: off, or with no deadline yet.
pub open spec fn fresh_engine(kind: EngineKind) -> Engine {
    match kind {
        EngineKind::Off => Engine::Off,
        EngineKind::Listen => Engine::Listen { next: None },
        EngineKind::Talk => Engine::Talk { next: None },
    }
}

/// How to go from the running engine to the wanted one: nothing when they
/// agree; otherwise stop the running one first (when one runs), then start
/// the wanted one.
pub fn plan_transition(current: EngineKind, wanted: EngineKind) -> (r: Option<(bool, EngineKind)>)
    ensures
        current == wanted ==> r is None,
        current != wanted ==> r == Some((current != EngineKind::Off, wanted)),
{
    if current == wanted {
        None
    } else {
        Some((current != EngineKind::Off, wanted))
    }
}

/// Rust's `/ 2` on a signed value: rounds toward zero.
pub open spec fn half_toward_zero(x: int) -> int {
    if x >= 0 {
        x / 2
    } else {
        -((-x) / 2)
    }
}

/// 16 kHz capture to 8 kHz by averaging adjacent pairs; silence when fewer
/// than 320 samples were read.
pub open spec fn downsample_spec(in16: Seq<i16>) -> Seq<i16> {
    if in16.len() >= CAPTURE_SAMPLES_16K {
        Seq::new(FRAME_SAMPLES_8K as nat, |i: int| half_toward_zero(in16[2 * i] as int + in16[2 * i + 1] as int) as i16)
    } else {
        Seq::new(FRAME_SAMPLES_8K as nat, |i: int| 0i16)
    }
}

pub fn downsample_pairs(in16: &[i16]) -> (r: Vec<i16>)
    ensures
        r@ == downsample_spec(in16@),
{
    let mut out: Vec<i16> = Vec::new();
    let mut i: usize = 0;
    let full = in16.len() >= CAPTURE_SAMPLES_16K;
    while i < FRAME_SAMPLES_8K
        invariant
            i <= FRAME_SAMPLES_8K,
            full == (in16@.len() >= CAPTURE_SAMPLES_16K),
            out@.len() == i,
            forall|j: int| 0 <= j < i ==> out@[j] == downsample_spec(in16@)[j],
        decreases FRAME_SAMPLES_8K - i,
    {
        if full {
            let s: i32 = in16[2 * i] as i32 + in16[2 * i + 1] as i32;
            let h: i32 = if s >= 0 { s / 2 } else { -((-s) / 2) };
            out.push(h as i16);
        } else {
            out.push(0);
        }
        i = i + 1;
    }
    assert(out@ =~= downsample_spec(in16@));
    out
}

/// Each mono sample twice, left and right.
pub open spec fn stereo_spec(mono: Seq<i16>) -> Seq<i16> {
    Seq::new(2 * mono.len(), |i: int| mono[i / 2])
}

pub struct AudioView {
    pub call_state: PhoneState,
    pub mode: AudioMode,
    pub engine: Engine,
    pub jitter_next: Option<u16>,
    pub jitter_frames: FramesView,
    pub history: Seq<i16>,
    pub agc: AgcView,
}

/// The audio task's state, apart from the device and the channels.
pub struct AudioCore {
    call_state: PhoneState,
    mode: AudioMode,
    engine: Engine,
    jitter: JitterBuffer<10, 160>,
    up6: Up6Polyphase,
    agc: Agc,
}

impl View for AudioCore {
    type V = AudioView;

    closed spec fn view(&self) -> AudioView {
        AudioView {
            call_state: self.call_state,
            mode: self.mode,
            engine: self.engine,
            jitter_next: self.jitter.next_view(),
            jitter_frames: self.jitter.frames_view(),
            history: self.up6.history(),
            agc: self.agc@,
        }
    }
}

impl AudioCore {
    pub closed spec fn wf(&self) -> bool {
        self.jitter.wf() && self.agc.wf()
    }

    /// Idle, listening mode, engine off, empty jitter buffer, default AGC.
    pub fn new() -> (r: Self)
        ensures
            r.wf(),
            r@.call_state == PhoneState::Idle,
            r@.mode == AudioMode::Listen,
            r@.engine == Engine::Off,
            r@.jitter_next is None,
            r@.jitter_frames.len() == 0,
            r@.history == Seq::new(16, |i: int| 0i16),
            r@.agc == (AgcView {
                gain_q12: crate::agc::START_GAIN as int,
                target_rms: 16000,
                noise_gate_rms: 150,
                max_gain_q12: crate::agc::MAX_GAIN as int,
                min_gain_q12: crate::agc::MIN_GAIN as int,
                attack: 96,
                release: 16,
                limiter_thresh: 28500,
            }),
    {
        AudioCore {
            call_state: PhoneState::Idle,
            mode: AudioMode::Listen,
            engine: Engine::Off,
            jitter: JitterBuffer::new(),
            up6: Up6Polyphase::new(),
            agc: Agc::new(),
        }
    }

    pub fn engine(&self) -> (r: Engine)
        ensures
            r == self@.engine,
    {
        self.engine
    }

    /// The engine the current call state and mode call for.
    pub fn wanted(&self) -> (r: EngineKind)
        ensures
            r == desired_engine_spec(self@.call_state, self@.mode),
    {
        desired_engine(self.call_state, self.mode)
    }

    /// Records the engine now running (after the device was started or
    /// stopped); its first deadline is set on its first tick.
    pub fn set_engine(&mut self, kind: EngineKind)
        requires
            old(self).wf(),
        ensures
            final(self).wf(),
            final(self)@ == (AudioView {
                engine: match kind {
                    EngineKind::Off => Engine::Off,
                    EngineKind::Listen => Engine::Listen { next: None },
                    EngineKind::Talk => Engine::Talk { next: None },
                },
                ..old(self)@
            }),
    {
        self.engine = match kind {
            EngineKind::Off => Engine::Off,
            EngineKind::Listen => Engine::Listen { next: None },
            EngineKind::Talk => Engine::Talk { next: None },
        };
    }

    /// Records the outcome of starting `wanted` on the device: it runs
    /// when the device accepted, else the engine stays off.
    pub fn complete_start(&mut self, wanted: EngineKind, device_ok: bool)
        requires
            old(self).wf(),
        ensures
            final(self).wf(),
            final(self)@ == (AudioView {
                engine: if device_ok { fresh_engine(wanted) } else { Engine::Off },
                ..old(self)@
            }),
    {
        if device_ok {
            self.set_engine(wanted);
        } else {
            self.set_engine(EngineKind::Off);
        }
    }

    /// A command from the SIP task. Leaving the established state empties
    /// the jitter buffer.
    pub fn handle_command(&mut self, cmd: AudioCommand)
        requires
            old(self).wf(),
        ensures
            final(self).wf(),
            match cmd {
                AudioCommand::SetMode(m) => final(self)@ == (AudioView { mode: m, ..old(self)@ }),
                AudioCommand::SetDialogState(st) => if st == PhoneState::Established {
                    final(self)@ == (AudioView { call_state: st, ..old(self)@ })
                } else {
                    final(self)@ == (AudioView { call_state: st, jitter_next: None, jitter_frames: Seq::empty(), ..old(self)@ })
                },
            },
    {
        match cmd {
            AudioCommand::SetDialogState(st) => {
                self.call_state = st;
                if st != PhoneState::Established {
                    self.jitter.reset();
                    assert(self.jitter.frames_view() =~= Seq::empty());
                }
            },
            AudioCommand::SetMode(m) => {
                self.mode = m;
            },
        }
    }

    /// An accepted RTP packet: its µ-law payload decoded and stored under
    /// its sequence number.
    pub fn handle_rtp_pcmu(&mut self, pkt: &RtpPacket<512>)
        requires
            old(self).wf(),
        ensures
            final(self).wf(),
            final(self)@ == (AudioView {
                jitter_frames: push_spec(
                    JITTER_FRAMES as int,
                    FRAME_SAMPLES_8K as int,
                    old(self)@.jitter_frames,
                    pkt.header.sequence_number,
                    Seq::new(
                        capped_len(pkt.payload@.len() as int) as nat,
                        |i: int| ulaw_decode_byte(pkt.payload@[i]) as i16,
                    ),
                ),
                ..old(self)@
            }),
    {
        let decoded = decode_ulaw(pkt.payload.as_slice());
        assert(decoded@ =~= Seq::new(
            capped_len(pkt.payload@.len() as int) as nat,
            |i: int| ulaw_decode_byte(pkt.payload@[i]) as i16,
        ));
        self.jitter.push_frame(pkt.header.sequence_number, decoded.as_slice());
    }

    /// One playout step while listening: the first call sets the deadline
    /// one frame from now; once it has come the deadline moves on by one
    /// frame (not from now), one frame is taken from the jitter buffer
    /// (silence when missing), upsampled to 960 samples and returned as
    /// 1920 interleaved stereo samples.
    pub fn playout_tick(&mut self, now: u64) -> (r: Option<Vec<i16>>)
        requires
            old(self).wf(),
        ensures
            final(self).wf(),
            match old(self)@.engine {
                Engine::Listen { next: None } => r is None && final(self)@ == (AudioView { engine: Engine::Listen { next: Some(add_ms(now, FRAME_MS)) }, ..old(self)@ }),
                Engine::Listen { next: Some(d) } => if now < d {
                    r is None && final(self)@ == old(self)@
                } else {
                    let (n2, fs2, frame, _) = pop_spec(JITTER_FRAMES as int, FRAME_SAMPLES_8K as int, old(self)@.jitter_next, old(self)@.jitter_frames);
                    &&& final(self)@.engine == Engine::Listen { next: Some(add_ms(d, FRAME_MS)) }
                    &&& final(self)@.jitter_next == n2
                    &&& final(self)@.jitter_frames == fs2
                    &&& r matches Some(out) && out@ == stereo_spec(Seq::new(FRAME_SAMPLES_48K as nat, |k: int| upsampled(old(self)@.history, frame, k)))
                },
                _ => r is None && final(self)@ == old(self)@,
            },
    {
        let d = match self.engine {
            Engine::Listen { next: None } => {
                self.engine = Engine::Listen { next: Some(add_ms_exec(now, FRAME_MS)) };
                return None;
            },
            Engine::Listen { next: Some(d) } => d,
            _ => {
                return None;
            },
        };
        if now < d {
            return None;
        }
        self.engine = Engine::Listen { next: Some(add_ms_exec(d, FRAME_MS)) };
        let (frame, _real) = self.jitter.pop_frame();
        let mut input = [0i16; 160];
        let mut i: usize = 0;
        while i < FRAME_SAMPLES_8K
            invariant
                i <= FRAME_SAMPLES_8K,
                frame@.len() == FRAME_SAMPLES_8K,
                input@.len() == FRAME_SAMPLES_8K,
                forall|j: int| 0 <= j < i ==> input@[j] == frame@[j],
            decreases FRAME_SAMPLES_8K - i,
        {
            input[i] = frame[i];
            i = i + 1;
        }
        assert(input@ =~= frame@);
        let mut mono = [0i16; 960];
        let ghost h0 = self.up6.history();
        self.up6.process_frame(&input, &mut mono);
        let mut stereo: Vec<i16> = Vec::new();
        let mut k: usize = 0;
        let ghost up = Seq::new(FRAME_SAMPLES_48K as nat, |k: int| upsampled(h0, frame@, k));
        assert(mono@ =~= up);
        while k < FRAME_SAMPLES_48K
            invariant
                k <= FRAME_SAMPLES_48K,
                mono@ == up,
                up.len() == FRAME_SAMPLES_48K,
                stereo@ =~= stereo_spec(up.subrange(0, k as int)),
            decreases FRAME_SAMPLES_48K - k,
        {
            stereo.push(mono[k]);
            stereo.push(mono[k]);
            k = k + 1;
            assert(stereo@ =~= stereo_spec(up.subrange(0, k as int)));
        }
        assert(up.subrange(0, FRAME_SAMPLES_48K as int) =~= up);
        Some(stereo)
    }

    /// One capture step while talking: the first call sets the deadline one
    /// frame from now; once it has come the deadline moves on by one frame,
    /// the 16 kHz capture is averaged down to 160 samples (silence when
    /// short) and passed through the AGC, and the frame is returned for
    /// sending.
    pub fn capture_tick(&mut self, now: u64, captured: &[i16]) -> (r: Option<Vec<i16>>)
        requires
            old(self).wf(),
        ensures
            final(self).wf(),
            match old(self)@.engine {
                Engine::Talk { next: None } => r is None && final(self)@ == (AudioView { engine: Engine::Talk { next: Some(add_ms(now, FRAME_MS)) }, ..old(self)@ }),
                Engine::Talk { next: Some(d) } => if now < d {
                    r is None && final(self)@ == old(self)@
                } else {
                    &&& final(self)@.engine == Engine::Talk { next: Some(add_ms(d, FRAME_MS)) }
                    &&& final(self)@.jitter_frames == old(self)@.jitter_frames
                    &&& r matches Some(out) && out@.len() == FRAME_SAMPLES_8K && exists|rms: int|
                        is_isqrt(rms, mean_sq(downsample_spec(captured@)))
                        && final(self)@.agc == (AgcView { gain_q12: next_gain(old(self)@.agc, rms), ..old(self)@.agc })
                        && forall|i: int| 0 <= i < FRAME_SAMPLES_8K ==> #[trigger] out@[i] == crate::agc::limit_sample(
                            downsample_spec(captured@)[i] as int,
                            final(self)@.agc.gain_q12,
                            old(self)@.agc.limiter_thresh,
                        )
                },
                _ => r is None && final(self)@ == old(self)@,
            },
    {
        let d = match self.engine {
            Engine::Talk { next: None } => {
                self.engine = Engine::Talk { next: Some(add_ms_exec(now, FRAME_MS)) };
                return None;
            },
            Engine::Talk { next: Some(d) } => d,
            _ => {
                return None;
            },
        };
        if now < d {
            return None;
        }
        self.engine = Engine::Talk { next: Some(add_ms_exec(d, FRAME_MS)) };
        let mut frame = downsample_pairs(captured);
        let (gain, rms) = self.agc.process_frame(frame.as_mut_slice());
        assert(is_isqrt(rms as int, mean_sq(downsample_spec(captured@))));
        Some(frame)
    }
}

} // verus!
