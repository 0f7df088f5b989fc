//! The fixed 12-byte RTP header (RFC 3550) and its packing to and from bytes.
use vstd::prelude::*;

verus! {

/// Errors of the RTP and audio framing layer.
#[derive(Debug, Clone, Copy, PartialEq, Eq, Structural)]
pub enum AudioError {
    InvalidPacket,
    BufferFull,
}

/// Length of the fixed RTP header.
pub const RTP_HEADER_LEN: usize = 12;

/// Largest packed packet, header included.
pub const MAX_PACKED_LEN: usize = 524;

#[derive(Debug, Clone, Copy, PartialEq, Eq, Structural)]
pub struct RtpHeader {
    pub version: u8,
    pub padding: bool,
    pub extension: bool,
    pub csrc_count: u8,
    pub marker: bool,
    pub payload_type: u8,
    pub sequence_number: u16,
    pub timestamp: u32,
    pub ssrc: u32,
}

impl RtpHeader {
    /// Every field fits the width that the wire format gives it.
    pub open spec fn valid(&self) -> bool {
        &&& self.version < 4
        &&& self.csrc_count < 16
        &&& self.payload_type < 128
    }
}

impl Default for RtpHeader {
    fn default() -> (r: Self)
        ensures
            r == (RtpHeader {
                version: 2,
                padding: false,
                extension: false,
                csrc_count: 0,
                marker: false,
                payload_type: 0,
                sequence_number: 0,
                timestamp: 0,
                ssrc: 0,
            }),
    {
        RtpHeader {
            version: 2,
            padding: false,
            extension: false,
            csrc_count: 0,
            marker: false,
            payload_type: 0,
            sequence_number: 0,
            timestamp: 0,
            ssrc: 0,
        }
    }
}

pub open spec fn flag_bit(b: bool) -> u8 {
    if b { 1 } else { 0 }
}

pub open spec fn header_byte0(h: RtpHeader) -> u8 {
    ((h.version & 3) << 6u8) | (flag_bit(h.padding) << 5u8) | (flag_bit(h.extension) << 4u8) | (
    h.csrc_count & 0x0f)
}

pub open spec fn header_byte1(h: RtpHeader) -> u8 {
    (flag_bit(h.marker) << 7u8) | (h.payload_type & 0x7f)
}

/// Byte `k` (0 = most significant) of a 32-bit value in network order.
pub open spec fn be32_byte(v: u32, k: int) -> u8 {
    if k == 0 {
        (v >> 24u32) as u8
    } else if k == 1 {
        ((v >> 16u32) & 0xff) as u8
    } else if k == 2 {
        ((v >> 8u32) & 0xff) as u8
    } else {
        (v & 0xff) as u8
    }
}

/// The 12 header bytes on the wire.
pub open spec fn header_bytes(h: RtpHeader) -> Seq<u8> {
    seq![
        header_byte0(h),
        header_byte1(h),
        (h.sequence_number >> 8u16) as u8,
        (h.sequence_number & 0xff) as u8,
        be32_byte(h.timestamp, 0),
        be32_byte(h.timestamp, 1),
        be32_byte(h.timestamp, 2),
        be32_byte(h.timestamp, 3),
        be32_byte(h.ssrc, 0),
        be32_byte(h.ssrc, 1),
        be32_byte(h.ssrc, 2),
        be32_byte(h.ssrc, 3),
    ]
}

/// A packet on the wire: the header, then the payload.
pub open spec fn rtp_pack_spec(h: RtpHeader, payload: Seq<u8>) -> Seq<u8> {
    header_bytes(h) + payload
}

pub open spec fn be16_of(a: u8, b: u8) -> u16 {
    ((a as u16) << 8u16) | (b as u16)
}

pub open spec fn be32_of(a: u8, b: u8, c: u8, d: u8) -> u32 {
    ((a as u32) << 24u32) | ((b as u32) << 16u32) | ((c as u32) << 8u32) | (d as u32)
}

/// The header that the first 12 bytes of `bytes` encode.
pub open spec fn header_of_bytes(bytes: Seq<u8>) -> RtpHeader {
    RtpHeader {
        version: bytes[0] >> 6u8,
        padding: (bytes[0] & 0x20) != 0,
        extension: (bytes[0] & 0x10) != 0,
        csrc_count: bytes[0] & 0x0f,
        marker: (bytes[1] & 0x80) != 0,
        payload_type: bytes[1] & 0x7f,
        sequence_number: be16_of(bytes[2], bytes[3]),
        timestamp: be32_of(bytes[4], bytes[5], bytes[6], bytes[7]),
        ssrc: be32_of(bytes[8], bytes[9], bytes[10], bytes[11]),
    }
}

/// What unpacking `bytes` into a packet whose payload holds at most `cap`
/// bytes gives.
pub open spec fn rtp_unpack_spec(bytes: Seq<u8>, cap: int) -> Result<(RtpHeader, Seq<u8>), AudioError> {
    if bytes.len() < 12 {
        Err(AudioError::InvalidPacket)
    } else if bytes.len() - 12 > cap {
        Err(AudioError::BufferFull)
    } else {
        Ok((header_of_bytes(bytes), bytes.subrange(12, bytes.len() as int)))
    }
}

/// An RTP packet whose payload holds at most `N` bytes.
#[derive(Debug, Clone, PartialEq, Eq)]
pub struct RtpPacket<const N: usize> {
    pub header: RtpHeader,
    pub payload: Vec<u8>,
}

impl<const N: usize> RtpPacket<N> {
    pub open spec fn wf(&self) -> bool {
        self.payload@.len() <= N
    }

    pub fn new(header: RtpHeader, payload: Vec<u8>) -> (r: Self)
        requires
            payload@.len() <= N,
        ensures
            r.header == header,
            r.payload@ == payload@,
            r.wf(),
    {
        RtpPacket { header, payload }
    }

    /// The packet on the wire; `BufferFull` when it would exceed
    /// `MAX_PACKED_LEN` bytes.
    pub fn pack(&self) -> (r: Result<Vec<u8>, AudioError>)
        ensures
            self.payload@.len() + 12 <= MAX_PACKED_LEN ==> r == Ok::<Vec<u8>, AudioError>(r->Ok_0)
                && r->Ok_0@ == rtp_pack_spec(self.header, self.payload@),
            self.payload@.len() + 12 > MAX_PACKED_LEN ==> r == Err::<Vec<u8>, AudioError>(
                AudioError::BufferFull,
            ),
    {
        if self.payload.len() > MAX_PACKED_LEN - RTP_HEADER_LEN {
            return Err(AudioError::BufferFull);
        }
        let h = self.header;
        let b0: u8 = ((h.version & 3) << 6u8) | ((if h.padding { 1u8 } else { 0u8 }) << 5u8) | ((
        if h.extension { 1u8 } else { 0u8 }) << 4u8) | (h.csrc_count & 0x0f);
        let b1: u8 = ((if h.marker { 1u8 } else { 0u8 }) << 7u8) | (h.payload_type & 0x7f);
        let mut out: Vec<u8> = Vec::new();
        out.push(b0);
        out.push(b1);
        out.push((h.sequence_number >> 8u16) as u8);
        out.push((h.sequence_number & 0xff) as u8);
        out.push((h.timestamp >> 24u32) as u8);
        out.push(((h.timestamp >> 16u32) & 0xff) as u8);
        out.push(((h.timestamp >> 8u32) & 0xff) as u8);
        out.push((h.timestamp & 0xff) as u8);
        out.push((h.ssrc >> 24u32) as u8);
        out.push(((h.ssrc >> 16u32) & 0xff) as u8);
        out.push(((h.ssrc >> 8u32) & 0xff) as u8);
        out.push((h.ssrc & 0xff) as u8);
        assert(out@ =~= header_bytes(h));
        let n = self.payload.len();
        let mut i: usize = 0;
        while i < n
            invariant
                n == self.payload@.len(),
                i <= n,
                out@ =~= header_bytes(h) + self.payload@.subrange(0, i as int),
            decreases n - i,
        {
            out.push(self.payload[i]);
            i = i + 1;
            assert(out@ =~= header_bytes(h) + self.payload@.subrange(0, i as int));
        }
        assert(self.payload@.subrange(0, n as int) =~= self.payload@);
        Ok(out)
    }

    /// Reads a packet from bytes: `InvalidPacket` under 12 bytes, `BufferFull`
    /// when the payload exceeds `N`.
    pub fn unpack(bytes: &[u8]) -> (r: Result<Self, AudioError>)
        ensures
            match rtp_unpack_spec(bytes@, N as int) {
                Ok((h, p)) => r matches Ok(pkt) && pkt.header == h && pkt.payload@ == p && pkt.wf(),
                Err(e) => r == Err::<Self, AudioError>(e),
            },
    {
        let len = bytes.len();
        if len < RTP_HEADER_LEN {
            return Err(AudioError::InvalidPacket);
        }
        if len - RTP_HEADER_LEN > N {
            return Err(AudioError::BufferFull);
        }
        let b0 = bytes[0];
        let b1 = bytes[1];
        let header = RtpHeader {
            version: b0 >> 6u8,
            padding: (b0 & 0x20) != 0,
            extension: (b0 & 0x10) != 0,
            csrc_count: b0 & 0x0f,
            marker: (b1 & 0x80) != 0,
            payload_type: b1 & 0x7f,
            sequence_number: ((bytes[2] as u16) << 8u16) | (bytes[3] as u16),
            timestamp: ((bytes[4] as u32) << 24u32) | ((bytes[5] as u32) << 16u32) | ((
            bytes[6] as u32) << 8u32) | (bytes[7] as u32),
            ssrc: ((bytes[8] as u32) << 24u32) | ((bytes[9] as u32) << 16u32) | ((
            bytes[10] as u32) << 8u32) | (bytes[11] as u32),
        };
        let mut payload: Vec<u8> = Vec::new();
        let mut i: usize = RTP_HEADER_LEN;
        while i < len
            invariant
                len == bytes@.len(),
                12 <= i <= len,
                payload@ =~= bytes@.subrange(12, i as int),
            decreases len - i,
        {
            payload.push(bytes[i]);
            i = i + 1;
            assert(payload@ =~= bytes@.subrange(12, i as int));
        }
        Ok(RtpPacket { header, payload })
    }
}

proof fn lemma_byte0_round_trip(v: u8, p: bool, x: bool, cc: u8)
    requires
        v < 4,
        cc < 16,
    ensures
        ({
            let b0 = ((v & 3) << 6u8) | (flag_bit(p) << 5u8) | (flag_bit(x) << 4u8) | (cc & 0x0f);
            &&& b0 >> 6u8 == v
            &&& ((b0 & 0x20) != 0) == p
            &&& ((b0 & 0x10) != 0) == x
            &&& b0 & 0x0f == cc
        }),
{
    let pb = flag_bit(p);
    let xb = flag_bit(x);
    assert(pb == 0 || pb == 1);
    assert(xb == 0 || xb == 1);
    let b0 = ((v & 3) << 6u8) | (pb << 5u8) | (xb << 4u8) | (cc & 0x0f);
    assert(b0 >> 6u8 == v) by (bit_vector)
        requires
            v < 4,
            b0 == ((v & 3) << 6u8) | (pb << 5u8) | (xb << 4u8) | (cc & 0x0f),
            pb <= 1,
            xb <= 1,
    ;
    assert(((b0 & 0x20) != 0) == (pb == 1)) by (bit_vector)
        requires
            b0 == ((v & 3) << 6u8) | (pb << 5u8) | (xb << 4u8) | (cc & 0x0f),
            pb <= 1,
            xb <= 1,
    ;
    assert(((b0 & 0x10) != 0) == (xb == 1)) by (bit_vector)
        requires
            b0 == ((v & 3) << 6u8) | (pb << 5u8) | (xb << 4u8) | (cc & 0x0f),
            pb <= 1,
            xb <= 1,
    ;
    assert(b0 & 0x0f == cc) by (bit_vector)
        requires
            cc < 16,
            b0 == ((v & 3) << 6u8) | (pb << 5u8) | (xb << 4u8) | (cc & 0x0f),
            pb <= 1,
            xb <= 1,
    ;
}

proof fn lemma_byte1_round_trip(m: bool, pt: u8)
    requires
        pt < 128,
    ensures
        ({
            let b1 = (flag_bit(m) << 7u8) | (pt & 0x7f);
            &&& ((b1 & 0x80) != 0) == m
            &&& b1 & 0x7f == pt
        }),
{
    let mb = flag_bit(m);
    assert(mb == 0 || mb == 1);
    let b1 = (mb << 7u8) | (pt & 0x7f);
    assert(((b1 & 0x80) != 0) == (mb == 1)) by (bit_vector)
        requires
            b1 == (mb << 7u8) | (pt & 0x7f),
            mb <= 1,
    ;
    assert(b1 & 0x7f == pt) by (bit_vector)
        requires
            b1 == (mb << 7u8) | (pt & 0x7f),
            pt < 128,
    ;
}

proof fn lemma_be16_round_trip(v: u16)
    ensures
        be16_of((v >> 8u16) as u8, (v & 0xff) as u8) == v,
{
    assert((((((v >> 8u16) as u8) as u16) << 8u16) | (((v & 0xff) as u8) as u16)) == v)
        by (bit_vector);
}

proof fn lemma_be32_round_trip(v: u32)
    ensures
        be32_of(be32_byte(v, 0), be32_byte(v, 1), be32_byte(v, 2), be32_byte(v, 3)) == v,
{
    assert((((((v >> 24u32) as u8) as u32) << 24u32) | (((((v >> 16u32) & 0xff) as u8) as u32)
        << 16u32) | (((((v >> 8u32) & 0xff) as u8) as u32) << 8u32) | (((v & 0xff) as u8) as u32))
        == v) by (bit_vector);
}

/// Packing then unpacking gives back the header and the payload, for every
/// valid header and every payload that fits both the packet's capacity `cap`
/// and the packed size; under 12 bytes unpacking fails with `InvalidPacket`.
pub proof fn lemma_rtp_pack_unpack(h: RtpHeader, payload: Seq<u8>, cap: int)
    requires
        h.valid(),
        payload.len() <= cap,
        payload.len() + 12 <= MAX_PACKED_LEN,
    ensures
        rtp_unpack_spec(rtp_pack_spec(h, payload), cap) == Ok::<(RtpHeader, Seq<u8>), AudioError>(
            (h, payload),
        ),
        forall|bytes: Seq<u8>|
            bytes.len() < 12 ==> #[trigger] rtp_unpack_spec(bytes, cap) == Err::<
                (RtpHeader, Seq<u8>),
                AudioError,
            >(AudioError::InvalidPacket),
{
    let bytes = rtp_pack_spec(h, payload);
    lemma_byte0_round_trip(h.version, h.padding, h.extension, h.csrc_count);
    lemma_byte1_round_trip(h.marker, h.payload_type);
    lemma_be16_round_trip(h.sequence_number);
    lemma_be32_round_trip(h.timestamp);
    lemma_be32_round_trip(h.ssrc);
    assert(bytes.subrange(12, bytes.len() as int) =~= payload);
    assert(header_of_bytes(bytes) == h);
}

} // verus!
