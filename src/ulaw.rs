//! G.711 µ-law encoding and decoding of 16-bit PCM samples.
use vstd::prelude::*;

verus! {

/// Largest magnitude that the encoder accepts before clipping.
pub const ULAW_CLIP: i32 = 32635;

/// Bias added to the magnitude before the exponent is taken.
pub const ULAW_BIAS: i32 = 0x84;

/// Longest buffer that one call encodes or decodes; the rest is dropped.
pub const MAX_CODEC_SAMPLES: usize = 512;

/// `2^e` for the small exponents the codec uses.
pub open spec fn pow2_small(e: int) -> int {
    if e <= 0 {
        1
    } else if e == 1 {
        2
    } else if e == 2 {
        4
    } else if e == 3 {
        8
    } else if e == 4 {
        16
    } else if e == 5 {
        32
    } else if e == 6 {
        64
    } else if e == 7 {
        128
    } else if e == 8 {
        256
    } else if e == 9 {
        512
    } else {
        1024
    }
}

pub open spec fn ulaw_clip(s: int) -> int {
    if s < -ULAW_CLIP {
        -ULAW_CLIP
    } else if s > ULAW_CLIP {
        ULAW_CLIP as int
    } else {
        s
    }
}

/// Biased magnitude of a clipped sample (the one's complement of a negative value).
pub open spec fn ulaw_magnitude(c: int) -> int {
    if c < 0 {
        -c - 1 + ULAW_BIAS
    } else {
        c + ULAW_BIAS
    }
}

/// Position of the highest set bit of `mag / 128`, at most 7.
pub open spec fn ulaw_exponent(mag: int) -> int {
    let t = mag / 128;
    if t >= 128 {
        7
    } else if t >= 64 {
        6
    } else if t >= 32 {
        5
    } else if t >= 16 {
        4
    } else if t >= 8 {
        3
    } else if t >= 4 {
        2
    } else if t >= 2 {
        1
    } else {
        0
    }
}

/// The µ-law code of one sample: sign, exponent and mantissa, inverted.
pub open spec fn ulaw_encode_sample(s: int) -> u8 {
    let c = ulaw_clip(s);
    let sign: int = if c < 0 { 128 } else { 0 };
    let mag = ulaw_magnitude(c);
    let e = ulaw_exponent(mag);
    let m = (mag / pow2_small(e + 3)) % 16;
    (255 - (sign + e * 16 + m)) as u8
}

/// The sample that a µ-law code stands for.
pub open spec fn ulaw_decode_byte(b: u8) -> int {
    let byte = 255 - b;
    let e = (byte / 16) % 8;
    let m = byte % 16;
    let mag = (m * 8 + ULAW_BIAS) * pow2_small(e) - ULAW_BIAS;
    if byte >= 128 {
        -mag
    } else {
        mag
    }
}

pub open spec fn capped_len(n: int) -> int {
    if n > MAX_CODEC_SAMPLES {
        MAX_CODEC_SAMPLES as int
    } else {
        n
    }
}

fn pow2_exec(e: u32) -> (r: i32)
    requires
        e <= 10,
    ensures
        r == pow2_small(e as int),
{
    let mut r: i32 = 1;
    let mut i: u32 = 0;
    while i < e
        invariant
            i <= e <= 10,
            r == pow2_small(i as int),
        decreases e - i,
    {
        r = r * 2;
        i = i + 1;
    }
    r
}

fn encode_sample(s: i16) -> (r: u8)
    ensures
        r == ulaw_encode_sample(s as int),
{
    let c: i32 = if (s as i32) < -ULAW_CLIP {
        -ULAW_CLIP
    } else if (s as i32) > ULAW_CLIP {
        ULAW_CLIP
    } else {
        s as i32
    };
    let sign: i32 = if c < 0 { 128 } else { 0 };
    let mag: i32 = if c < 0 { -c - 1 + ULAW_BIAS } else { c + ULAW_BIAS };
    let t: i32 = mag / 128;
    let e: i32 = if t >= 128 {
        7
    } else if t >= 64 {
        6
    } else if t >= 32 {
        5
    } else if t >= 16 {
        4
    } else if t >= 8 {
        3
    } else if t >= 4 {
        2
    } else if t >= 2 {
        1
    } else {
        0
    };
    let m: i32 = (mag / pow2_exec((e + 3) as u32)) % 16;
    (255 - (sign + e * 16 + m)) as u8
}

fn decode_byte(b: u8) -> (r: i16)
    ensures
        r as int == ulaw_decode_byte(b),
{
    let byte: i32 = 255 - b as i32;
    let e: i32 = (byte / 16) % 8;
    let m: i32 = byte % 16;
    let p = pow2_exec(e as u32);
    assert((m * 8 + ULAW_BIAS) * p <= 252 * 128) by (nonlinear_arith)
        requires
            0 <= m < 16,
            1 <= p <= 128,
    ;
    let mag: i32 = (m * 8 + ULAW_BIAS) * p - ULAW_BIAS;
    if byte >= 128 {
        (-mag) as i16
    } else {
        mag as i16
    }
}

/// Encodes PCM samples to µ-law, one byte per sample (at most
/// `MAX_CODEC_SAMPLES` of them).
pub fn encode_ulaw(samples: &[i16]) -> (out: Vec<u8>)
    ensures
        out@.len() == capped_len(samples@.len() as int),
        forall|i: int| 0 <= i < out@.len() ==> out@[i] == ulaw_encode_sample(samples@[i] as int),
{
    let mut out: Vec<u8> = Vec::new();
    let n = samples.len();
    let mut i: usize = 0;
    while i < n && i < MAX_CODEC_SAMPLES
        invariant
            n == samples@.len(),
            i <= n,
            i <= MAX_CODEC_SAMPLES,
            out@.len() == i,
            forall|j: int| 0 <= j < i ==> out@[j] == ulaw_encode_sample(samples@[j] as int),
        decreases n - i,
    {
        out.push(encode_sample(samples[i]));
        i = i + 1;
    }
    out
}

/// Decodes µ-law bytes to PCM samples by the arithmetic of G.711 (at most
/// `MAX_CODEC_SAMPLES` of them).
pub fn compute_decode_ulaw(bytes: &[u8]) -> (out: Vec<i16>)
    ensures
        out@.len() == capped_len(bytes@.len() as int),
        forall|i: int| 0 <= i < out@.len() ==> out@[i] as int == ulaw_decode_byte(bytes@[i]),
{
    let mut out: Vec<i16> = Vec::new();
    let n = bytes.len();
    let mut i: usize = 0;
    while i < n && i < MAX_CODEC_SAMPLES
        invariant
            n == bytes@.len(),
            i <= n,
            i <= MAX_CODEC_SAMPLES,
            out@.len() == i,
            forall|j: int| 0 <= j < i ==> out@[j] as int == ulaw_decode_byte(bytes@[j]),
        decreases n - i,
    {
        out.push(decode_byte(bytes[i]));
        i = i + 1;
    }
    out
}

/// Decodes µ-law bytes to PCM samples.
pub fn decode_ulaw(bytes: &[u8]) -> (out: Vec<i16>)
    ensures
        out@.len() == capped_len(bytes@.len() as int),
        forall|i: int| 0 <= i < out@.len() ==> out@[i] as int == ulaw_decode_byte(bytes@[i]),
{
    compute_decode_ulaw(bytes)
}

proof fn lemma_encode_magnitude(e: int, m: int)
    requires
        0 <= e < 8,
        0 <= m < 16,
    ensures
        ulaw_encode_sample((m * 8 + ULAW_BIAS) * pow2_small(e) - ULAW_BIAS) == 255 - (e * 16 + m),
        (m * 8 + ULAW_BIAS) * pow2_small(e) - ULAW_BIAS > 0 ==> ulaw_encode_sample(
            -((m * 8 + ULAW_BIAS) * pow2_small(e) - ULAW_BIAS),
        ) == 255 - (128 + e * 16 + m),
{
    let p = pow2_small(e);
    let q = pow2_small(e + 3);
    assert(q == p * 8);
    let mag = (m * 8 + ULAW_BIAS) * p;
    assert(mag / 128 >= p && mag / 128 < 2 * p) by {
        if e == 0 {} else if e == 1 {} else if e == 2 {} else if e == 3 {}
        else if e == 4 {} else if e == 5 {} else if e == 6 {} else {}
    }
    assert((mag - 1) / 128 >= p && (mag - 1) / 128 < 2 * p) by {
        if e == 0 {} else if e == 1 {} else if e == 2 {} else if e == 3 {}
        else if e == 4 {} else if e == 5 {} else if e == 6 {} else {}
    }
    assert(mag / q == m + 16 && (mag - 1) / q == m + 16) by {
        if e == 0 {} else if e == 1 {} else if e == 2 {} else if e == 3 {}
        else if e == 4 {} else if e == 5 {} else if e == 6 {} else {}
    }
    assert(ulaw_exponent(mag) == e) by {
        if e == 0 {} else if e == 1 {} else if e == 2 {} else if e == 3 {}
        else if e == 4 {} else if e == 5 {} else if e == 6 {} else {}
    }
    assert(ulaw_exponent(mag - 1) == e) by {
        if e == 0 {} else if e == 1 {} else if e == 2 {} else if e == 3 {}
        else if e == 4 {} else if e == 5 {} else if e == 6 {} else {}
    }
    assert(mag <= 252 * 128) by {
        if e == 0 {} else if e == 1 {} else if e == 2 {} else if e == 3 {}
        else if e == 4 {} else if e == 5 {} else if e == 6 {} else {}
    }
}

/// Decoding a code, encoding the sample and decoding again gives the same
/// sample: every decoded value is a fixed point of the codec.
pub proof fn lemma_ulaw_decode_encode(b: u8)
    ensures
        ulaw_decode_byte(ulaw_encode_sample(ulaw_decode_byte(b))) == ulaw_decode_byte(b),
{
    let byte = 255 - b;
    let e = (byte / 16) % 8;
    let m = byte % 16;
    lemma_encode_magnitude(e, m);
    assert(byte == (if byte >= 128 { 128int } else { 0 }) + e * 16 + m);
}

/// The µ-law round trip is stable: for every code `b`,
/// `encode(decode(b)) == encode(decode(encode(decode(b))))`.
pub proof fn lemma_ulaw_round_trip(b: u8)
    ensures
        ulaw_encode_sample(ulaw_decode_byte(b)) == ulaw_encode_sample(
            ulaw_decode_byte(ulaw_encode_sample(ulaw_decode_byte(b))),
        ),
{
    lemma_ulaw_decode_encode(b);
}

/// Both zero codes decode to 0, and 0 encodes to 0xFF.
pub proof fn lemma_ulaw_zero_codes()
    ensures
        ulaw_decode_byte(0xFF) == 0,
        ulaw_decode_byte(0x7F) == 0,
        ulaw_encode_sample(0) == 0xFF,
{
}

} // verus!
