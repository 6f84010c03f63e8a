//! RTP packets: the header model, their size on the wire, and the sender's
//! packet builder.
use vstd::prelude::*;
use std::collections::HashMap;
use crate::sdp::RtpCodecParameters;

verus! {

/// An RTP header extension block: the profile word and the extension data
/// (without its 4-byte block header).
#[derive(Clone, Debug)]
pub struct HeaderExtension {
    pub profile: u16,
    pub data: Vec<u8>,
}

/// The fields of an RTP header, apart from the version.
#[derive(Clone, Debug)]
pub struct RtpHeader {
    pub marker: bool,
    pub payload_type: u8,
    pub sequence_number: u16,
    pub timestamp: u32,
    pub ssrc: u32,
    pub csrcs: Vec<u32>,
    pub extension: Option<HeaderExtension>,
}

/// An RTP packet: header, payload and the number of padding bytes.
#[derive(Clone, Debug)]
pub struct RtpPacket {
    pub header: RtpHeader,
    pub payload: Vec<u8>,
    pub padding: u8,
}

/// The size of `p` on the wire: the fixed 12-byte header, 4 bytes per CSRC,
/// the extension block with its 4-byte header when present, the payload and
/// the padding.
pub open spec fn wire_len(p: RtpPacket) -> int {
    12 + 4 * p.header.csrcs@.len() + match p.header.extension {
        Some(e) => 4 + e.data@.len(),
        None => 0,
    } + p.payload@.len() + p.padding
}

/// `wire_len`, capped at the largest `u64`.
pub open spec fn wire_size_u64(p: RtpPacket) -> u64 {
    if wire_len(p) > u64::MAX {
        u64::MAX
    } else {
        wire_len(p) as u64
    }
}

/// The size of `p` on the wire (see `wire_len`), capped at `u64::MAX`.
pub fn wire_size(p: &RtpPacket) -> (r: u64)
    ensures
        r == wire_size_u64(*p),
{
    let ext: u128 = match &p.header.extension {
        Some(e) => 4 + e.data.len() as u128,
        None => 0,
    };
    let total: u128 = 12 + 4 * (p.header.csrcs.len() as u128) + ext + p.payload.len() as u128
        + p.padding as u128;
    if total > u64::MAX as u128 {
        u64::MAX
    } else {
        total as u64
    }
}

/// The header fields that fit the RTP wire format: at most 15 CSRCs, a
/// 7-bit payload type, and extension data of whole 32-bit words, at most
/// 65535 of them.
pub open spec fn encodable(p: RtpPacket) -> bool {
    &&& p.header.csrcs@.len() <= 15
    &&& p.header.payload_type < 128
    &&& match p.header.extension {
        Some(e) => e.data@.len() % 4 == 0 && e.data@.len() / 4 <= 65535,
        None => true,
    }
}

/// The first header byte: version 2, the padding bit, the extension bit and
/// the CSRC count.
pub open spec fn first_byte(p: RtpPacket) -> u8 {
    0x80u8 | (if p.padding > 0 {
        0x20u8
    } else {
        0u8
    }) | (if p.header.extension is Some {
        0x10u8
    } else {
        0u8
    }) | (p.header.csrcs@.len() as u8)
}

/// The second header byte: the marker bit and the payload type.
pub open spec fn second_byte(p: RtpPacket) -> u8 {
    (if p.header.marker {
        0x80u8
    } else {
        0u8
    }) | p.header.payload_type
}

/// `x` in network byte order.
pub open spec fn be16(x: u16) -> Seq<u8> {
    seq![(x / 256) as u8, (x % 256) as u8]
}

/// `x` in network byte order.
pub open spec fn be32(x: u32) -> Seq<u8> {
    seq![(x / 0x1000000) as u8, ((x / 0x10000) % 256) as u8, ((x / 256) % 256) as u8, (x % 256) as u8]
}

/// The CSRC list on the wire.
pub open spec fn csrc_bytes(cs: Seq<u32>) -> Seq<u8>
    decreases cs.len(),
{
    if cs.len() == 0 {
        Seq::empty()
    } else {
        csrc_bytes(cs.drop_last()) + be32(cs.last())
    }
}

/// The extension block on the wire: profile, length in words, data.
pub open spec fn extension_bytes(e: Option<HeaderExtension>) -> Seq<u8> {
    match e {
        Some(x) => be16(x.profile) + be16((x.data@.len() / 4) as u16) + x.data@,
        None => Seq::empty(),
    }
}

/// The padding on the wire: zeros, then the count of padding bytes.
pub open spec fn padding_bytes(n: u8) -> Seq<u8> {
    if n == 0 {
        Seq::empty()
    } else {
        Seq::new((n - 1) as nat, |i: int| 0u8).push(n)
    }
}

/// The bytes of `p` on the wire.
pub open spec fn packet_bytes(p: RtpPacket) -> Seq<u8> {
    seq![first_byte(p), second_byte(p)] + be16(p.header.sequence_number) + be32(p.header.timestamp)
        + be32(p.header.ssrc) + csrc_bytes(p.header.csrcs@) + extension_bytes(p.header.extension)
        + p.payload@ + padding_bytes(p.padding)
}

/// The X bit of the first byte is set exactly when the packet carries an
/// extension block.
pub proof fn extension_bit_law(p: RtpPacket)
    requires
        encodable(p),
    ensures
        (first_byte(p) & 0x10u8 != 0) <==> p.header.extension is Some,
        first_byte(p) & 0xC0u8 == 0x80u8,
{
    let cc = p.header.csrcs@.len() as u8;
    let pb: u8 = if p.padding > 0 { 0x20u8 } else { 0u8 };
    let xb: u8 = if p.header.extension is Some { 0x10u8 } else { 0u8 };
    assert(cc < 16);
    assert(((0x80u8 | pb | xb | cc) & 0x10u8 != 0) <==> xb == 0x10u8) by (bit_vector)
        requires
            cc < 16,
            pb == 0x20u8 || pb == 0u8,
            xb == 0x10u8 || xb == 0u8,
    ;
    assert((0x80u8 | pb | xb | cc) & 0xC0u8 == 0x80u8) by (bit_vector)
        requires
            cc < 16,
            pb == 0x20u8 || pb == 0u8,
            xb == 0x10u8 || xb == 0u8,
    ;
}

fn push_be16(out: &mut Vec<u8>, x: u16)
    ensures
        final(out)@ == old(out)@ + be16(x),
{
    out.push((x / 256) as u8);
    out.push((x % 256) as u8);
    assert(final(out)@ =~= old(out)@ + be16(x));
}

fn push_be32(out: &mut Vec<u8>, x: u32)
    ensures
        final(out)@ == old(out)@ + be32(x),
{
    out.push((x / 0x1000000) as u8);
    out.push(((x / 0x10000) % 256) as u8);
    out.push(((x / 256) % 256) as u8);
    out.push((x % 256) as u8);
    assert(final(out)@ =~= old(out)@ + be32(x));
}

fn push_all(out: &mut Vec<u8>, data: &Vec<u8>)
    ensures
        final(out)@ == old(out)@ + data@,
{
    let mut i: usize = 0;
    while i < data.len()
        invariant
            i <= data@.len(),
            out@ == old(out)@ + data@.subrange(0, i as int),
        decreases data@.len() - i,
    {
        out.push(data[i]);
        assert(data@.subrange(0, i + 1) =~= data@.subrange(0, i as int).push(data@[i as int]));
        assert(out@ =~= old(out)@ + data@.subrange(0, i + 1));
        i = i + 1;
    }
    assert(data@.subrange(0, data@.len() as int) =~= data@);
}

impl RtpPacket {
    /// The packet's bytes on the wire (see `packet_bytes`).
    pub fn marshal(&self) -> (r: Vec<u8>)
        requires
            encodable(*self),
        ensures
            r@ == packet_bytes(*self),
    {
        let h = &self.header;
        let cc = h.csrcs.len() as u8;
        let pb: u8 = if self.padding > 0 { 0x20 } else { 0 };
        let xb: u8 = if h.extension.is_some() { 0x10 } else { 0 };
        let mb: u8 = if h.marker { 0x80 } else { 0 };
        let mut out: Vec<u8> = Vec::new();
        out.push(0x80u8 | pb | xb | cc);
        out.push(mb | h.payload_type);
        push_be16(&mut out, h.sequence_number);
        push_be32(&mut out, h.timestamp);
        push_be32(&mut out, h.ssrc);
        let ghost fixed = out@;
        let mut i: usize = 0;
        while i < h.csrcs.len()
            invariant
                i <= h.csrcs@.len(),
                out@ == fixed + csrc_bytes(h.csrcs@.subrange(0, i as int)),
            decreases h.csrcs@.len() - i,
        {
            push_be32(&mut out, h.csrcs[i]);
            assert(h.csrcs@.subrange(0, i + 1).drop_last() =~= h.csrcs@.subrange(0, i as int));
            i = i + 1;
        }
        assert(h.csrcs@.subrange(0, h.csrcs@.len() as int) =~= h.csrcs@);
        let ghost with_csrcs = out@;
        match &h.extension {
            Some(e) => {
                push_be16(&mut out, e.profile);
                push_be16(&mut out, (e.data.len() / 4) as u16);
                push_all(&mut out, &e.data);
                assert(out@ =~= with_csrcs + extension_bytes(h.extension));
            },
            None => {
                assert(out@ =~= with_csrcs + extension_bytes(h.extension));
            },
        }
        let ghost with_ext = out@;
        push_all(&mut out, &self.payload);
        let ghost with_payload = out@;
        if self.padding > 0 {
            let mut k: u8 = 1;
            while k < self.padding
                invariant
                    1 <= k <= self.padding,
                    out@ == with_payload + Seq::new((k - 1) as nat, |i: int| 0u8),
                decreases self.padding - k,
            {
                out.push(0);
                assert(out@ =~= with_payload + Seq::new(k as nat, |i: int| 0u8));
                k = k + 1;
            }
            out.push(self.padding);
            assert(out@ =~= with_payload + padding_bytes(self.padding));
        } else {
            assert(out@ =~= with_payload + padding_bytes(self.padding));
        }
        assert(out@ =~= packet_bytes(*self));
        out
    }
}

/// A media sample handed to a sender, or produced by a receiver.
#[derive(Clone, Debug)]
pub struct MediaSample {
    pub rtp_timestamp: u32,
    pub payload_type: u8,
    pub data: Vec<u8>,
    /// Set on the last packet of a frame; carried by the RTP marker bit.
    pub is_last_packet: bool,
}

/// The send side of a transceiver: its SSRC and the next sequence number.
#[derive(Clone, Copy, Debug, PartialEq, Eq, Structural)]
pub struct RtpSender {
    pub ssrc: u32,
    pub sequence_number: u16,
}

/// Whether a sample's payload type can be sent: it is in the payload map
/// and fits the 7-bit field.
pub open spec fn sendable(sample: MediaSample, payload_map: Map<u8, RtpCodecParameters>) -> bool {
    payload_map.contains_key(sample.payload_type) && sample.payload_type < 128
}

impl RtpSender {
    pub fn new(ssrc: u32, sequence_number: u16) -> (r: RtpSender)
        ensures
            r.ssrc == ssrc,
            r.sequence_number == sequence_number,
    {
        RtpSender { ssrc, sequence_number }
    }

    /// Packetizes one sample: drops it (`None`, state unchanged) when its
    /// payload type is not in the payload map; otherwise builds the packet
    /// with the next sequence number, which then advances (wrapping).
    pub fn packetize(
        &mut self,
        sample: &MediaSample,
        payload_map: &HashMap<u8, RtpCodecParameters>,
    ) -> (r: Option<RtpPacket>)
        ensures
            !sendable(*sample, payload_map@) ==> r is None && *final(self) == *old(self),
            sendable(*sample, payload_map@) ==> (r matches Some(p) && p.header.marker
                == sample.is_last_packet && p.header.payload_type == sample.payload_type
                && p.header.sequence_number == old(self).sequence_number && p.header.timestamp
                == sample.rtp_timestamp && p.header.ssrc == old(self).ssrc && p.header.csrcs@.len()
                == 0 && p.header.extension is None && p.payload@ == sample.data@ && p.padding == 0
                && encodable(p)),
            sendable(*sample, payload_map@) ==> final(self).ssrc == old(self).ssrc
                && final(self).sequence_number == old(self).sequence_number.wrapping_add(1),
    {
        if sample.payload_type >= 128 || !payload_map.contains_key(&sample.payload_type) {
            return None;
        }
        let header = RtpHeader {
            marker: sample.is_last_packet,
            payload_type: sample.payload_type,
            sequence_number: self.sequence_number,
            timestamp: sample.rtp_timestamp,
            ssrc: self.ssrc,
            csrcs: Vec::new(),
            extension: None,
        };
        self.sequence_number = self.sequence_number.wrapping_add(1);
        Some(RtpPacket { header, payload: slice_copy(&sample.data), padding: 0 })
    }

    /// Packetizes one sample and puts it in wire form. No header extension
    /// is emitted, so the X bit of every packet is clear.
    pub fn send_sample(
        &mut self,
        sample: &MediaSample,
        payload_map: &HashMap<u8, RtpCodecParameters>,
    ) -> (r: Option<Vec<u8>>)
        ensures
            !sendable(*sample, payload_map@) ==> r is None && *final(self) == *old(self),
            sendable(*sample, payload_map@) ==> (r matches Some(b) && b@.len() == 12
                + sample.data@.len() && b@[0] == 0x80u8 && b@[0] & 0x10u8 == 0 && b@[1] == second_byte_of(
                sample.is_last_packet,
                sample.payload_type,
            ) && b@.subrange(2, 4) == be16(old(self).sequence_number) && b@.subrange(4, 8) == be32(
                sample.rtp_timestamp,
            ) && b@.subrange(8, 12) == be32(old(self).ssrc) && b@.subrange(12, b@.len() as int)
                == sample.data@),
            sendable(*sample, payload_map@) ==> final(self).ssrc == old(self).ssrc
                && final(self).sequence_number == old(self).sequence_number.wrapping_add(1),
    {
        match self.packetize(sample, payload_map) {
            Some(p) => {
                let b = p.marshal();
                proof {
                    extension_bit_law(p);
                    assert(csrc_bytes(p.header.csrcs@) =~= Seq::<u8>::empty());
                    assert(first_byte(p) == 0x80u8) by {
                        assert(p.header.csrcs@.len() == 0);
                        assert(0x80u8 | 0u8 | 0u8 | 0u8 == 0x80u8) by (bit_vector);
                    }
                    assert(b@.subrange(12, b@.len() as int) =~= sample.data@);
                    assert(b@.subrange(2, 4) =~= be16(old(self).sequence_number));
                    assert(b@.subrange(4, 8) =~= be32(sample.rtp_timestamp));
                    assert(b@.subrange(8, 12) =~= be32(old(self).ssrc));
                }
                Some(b)
            },
            None => None,
        }
    }
}

/// The second header byte for a marker bit and a payload type.
pub open spec fn second_byte_of(marker: bool, payload_type: u8) -> u8 {
    (if marker {
        0x80u8
    } else {
        0u8
    }) | payload_type
}

fn slice_copy(data: &Vec<u8>) -> (r: Vec<u8>)
    ensures
        r@ == data@,
{
    let mut out: Vec<u8> = Vec::new();
    push_all(&mut out, data);
    assert(out@ =~= data@);
    out
}

/// Why a datagram is not an RTP packet.
#[derive(Clone, Copy, Debug, PartialEq, Eq, Structural)]
pub enum RtpError {
    /// Shorter than the fixed 12-byte header.
    TooShort,
    /// The version field is not 2.
    BadVersion,
    /// The CSRC list or the extension block runs past the end.
    Truncated,
    /// The padding count is 0 or longer than what follows the header.
    BadPadding,
}

pub open spec fn u16_at(b: Seq<u8>, i: int) -> int {
    b[i] as int * 256 + b[i + 1] as int
}

pub open spec fn u32_at(b: Seq<u8>, i: int) -> int {
    b[i] as int * 0x1000000 + b[i + 1] as int * 0x10000 + b[i + 2] as int * 256 + b[i + 3] as int
}

/// The CSRC count of the first header byte.
pub open spec fn csrc_count(b: Seq<u8>) -> int {
    (b[0] % 16) as int
}

/// The X bit of the first header byte.
pub open spec fn has_extension(b: Seq<u8>) -> bool {
    (b[0] / 16) % 2 == 1
}

/// The P bit of the first header byte.
pub open spec fn has_padding(b: Seq<u8>) -> bool {
    (b[0] / 32) % 2 == 1
}

/// Where the extension block starts, when there is one.
pub open spec fn extension_start(b: Seq<u8>) -> int {
    12 + 4 * csrc_count(b)
}

/// The length of the header with its CSRC list and extension block.
pub open spec fn header_len(b: Seq<u8>) -> int {
    extension_start(b) + if has_extension(b) {
        4 + 4 * u16_at(b, extension_start(b) + 2)
    } else {
        0
    }
}

/// The number of padding bytes at the end.
pub open spec fn padding_len(b: Seq<u8>) -> int {
    if has_padding(b) {
        b[b.len() - 1] as int
    } else {
        0
    }
}

/// The error that reading `b` as an RTP packet meets first, if any.
pub open spec fn rtp_error(b: Seq<u8>) -> Option<RtpError> {
    if b.len() < 12 {
        Some(RtpError::TooShort)
    } else if b[0] / 64 != 2 {
        Some(RtpError::BadVersion)
    } else if extension_start(b) + (if has_extension(b) {
        4int
    } else {
        0int
    }) > b.len() || header_len(b) > b.len() {
        Some(RtpError::Truncated)
    } else if has_padding(b) && (padding_len(b) == 0 || header_len(b) + padding_len(b) > b.len()) {
        Some(RtpError::BadPadding)
    } else {
        None
    }
}

/// `p` holds the fields that the well-formed datagram `b` carries.
pub open spec fn parsed_as(b: Seq<u8>, p: RtpPacket) -> bool {
    let cc = csrc_count(b);
    let x = extension_start(b);
    &&& p.header.marker == (b[1] >= 128)
    &&& p.header.payload_type == b[1] % 128
    &&& p.header.sequence_number == u16_at(b, 2)
    &&& p.header.timestamp == u32_at(b, 4)
    &&& p.header.ssrc == u32_at(b, 8)
    &&& p.header.csrcs@.len() == cc
    &&& forall|i: int| 0 <= i < cc ==> #[trigger] p.header.csrcs@[i] == u32_at(b, 12 + 4 * i)
    &&& if has_extension(b) {
        p.header.extension matches Some(e) && e.profile == u16_at(b, x) && e.data@ == b.subrange(
            x + 4,
            header_len(b),
        )
    } else {
        p.header.extension is None
    }
    &&& p.payload@ == b.subrange(header_len(b), b.len() - padding_len(b))
    &&& p.padding == padding_len(b)
}

fn read_u16(b: &[u8], i: usize) -> (r: u16)
    requires
        i + 2 <= b@.len(),
    ensures
        r == u16_at(b@, i as int),
{
    (b[i] as u16) * 256 + (b[i + 1] as u16)
}

fn read_u32(b: &[u8], i: usize) -> (r: u32)
    requires
        i + 4 <= b@.len(),
    ensures
        r == u32_at(b@, i as int),
{
    (b[i] as u32) * 0x1000000 + (b[i + 1] as u32) * 0x10000 + (b[i + 2] as u32) * 256 + (
    b[i + 3] as u32)
}

fn copy_range(b: &[u8], from: usize, to: usize) -> (r: Vec<u8>)
    requires
        from <= to <= b@.len(),
    ensures
        r@ == b@.subrange(from as int, to as int),
{
    let mut out: Vec<u8> = Vec::new();
    let mut i: usize = from;
    while i < to
        invariant
            from <= i <= to,
            to <= b@.len(),
            out@ == b@.subrange(from as int, i as int),
        decreases to - i,
    {
        out.push(b[i]);
        assert(b@.subrange(from as int, i + 1) =~= b@.subrange(from as int, i as int).push(
            b@[i as int],
        ));
        i = i + 1;
    }
    out
}

/// Reads an RTP packet: version 2, the CSRC list, the extension block when
/// the X bit is set, and the padding when the P bit is set.
pub fn parse_rtp(b: &[u8]) -> (r: Result<RtpPacket, RtpError>)
    ensures
        match rtp_error(b@) {
            Some(e) => r == Err::<RtpPacket, RtpError>(e),
            None => r matches Ok(p) && parsed_as(b@, p),
        },
{
    let n = b.len();
    if n < 12 {
        return Err(RtpError::TooShort);
    }
    if b[0] / 64 != 2 {
        return Err(RtpError::BadVersion);
    }
    let cc = (b[0] % 16) as usize;
    let has_x = (b[0] / 16) % 2 == 1;
    let has_p = (b[0] / 32) % 2 == 1;
    let x = 12 + 4 * cc;
    if x > n || (has_x && x + 4 > n) {
        return Err(RtpError::Truncated);
    }
    let hlen = if has_x {
        x + 4 + 4 * (read_u16(b, x + 2) as usize)
    } else {
        x
    };
    if hlen > n {
        return Err(RtpError::Truncated);
    }
    let pad: usize = if has_p {
        b[n - 1] as usize
    } else {
        0
    };
    if has_p && (pad == 0 || hlen + pad > n) {
        return Err(RtpError::BadPadding);
    }
    let mut csrcs: Vec<u32> = Vec::new();
    let mut i: usize = 0;
    while i < cc
        invariant
            i <= cc,
            cc == csrc_count(b@),
            x == 12 + 4 * cc,
            x <= n,
            n == b@.len(),
            csrcs@.len() == i,
            forall|k: int| 0 <= k < i ==> #[trigger] csrcs@[k] == u32_at(b@, 12 + 4 * k),
        decreases cc - i,
    {
        csrcs.push(read_u32(b, 12 + 4 * i));
        i = i + 1;
    }
    let extension = if has_x {
        Some(HeaderExtension { profile: read_u16(b, x), data: copy_range(b, x + 4, hlen) })
    } else {
        None
    };
    let header = RtpHeader {
        marker: b[1] >= 128,
        payload_type: b[1] % 128,
        sequence_number: read_u16(b, 2),
        timestamp: read_u32(b, 4),
        ssrc: read_u32(b, 8),
        csrcs,
        extension,
    };
    Ok(RtpPacket { header, payload: copy_range(b, hlen, n - pad), padding: pad as u8 })
}

proof fn lemma_be16(x: u16)
    ensures
        be16(x).len() == 2,
        u16_at(be16(x), 0) == x,
{
    assert(be16(x)[0] as int == x / 256);
    assert(be16(x)[1] as int == x % 256);
}

proof fn lemma_be32(x: u32)
    ensures
        be32(x).len() == 4,
        u32_at(be32(x), 0) == x,
{
    let b = be32(x);
    assert(b[0] as int == x / 0x1000000);
    assert(b[1] as int == (x / 0x10000) % 256);
    assert(b[2] as int == (x / 256) % 256);
    assert(b[3] as int == x % 256);
    assert((x / 0x1000000) * 0x1000000 + ((x / 0x10000) % 256) * 0x10000 + ((x / 256) % 256) * 256
        + x % 256 == x) by (nonlinear_arith)
        requires
            x <= u32::MAX,
    ;
}

proof fn lemma_csrc_bytes(cs: Seq<u32>)
    ensures
        csrc_bytes(cs).len() == 4 * cs.len(),
        forall|i: int|
            0 <= i < cs.len() ==> #[trigger] u32_at(csrc_bytes(cs), 4 * i) == cs[i],
    decreases cs.len(),
{
    if cs.len() > 0 {
        let init = cs.drop_last();
        lemma_csrc_bytes(init);
        lemma_be32(cs.last());
        let b = csrc_bytes(cs);
        assert(b == csrc_bytes(init) + be32(cs.last()));
        assert forall|i: int| 0 <= i < cs.len() implies #[trigger] u32_at(b, 4 * i) == cs[i] by {
            if i < init.len() {
                assert(u32_at(csrc_bytes(init), 4 * i) == init[i]);
                assert(b[4 * i] == csrc_bytes(init)[4 * i]);
                assert(b[4 * i + 1] == csrc_bytes(init)[4 * i + 1]);
                assert(b[4 * i + 2] == csrc_bytes(init)[4 * i + 2]);
                assert(b[4 * i + 3] == csrc_bytes(init)[4 * i + 3]);
            } else {
                assert(b[4 * i] == be32(cs.last())[0]);
                assert(b[4 * i + 1] == be32(cs.last())[1]);
                assert(b[4 * i + 2] == be32(cs.last())[2]);
                assert(b[4 * i + 3] == be32(cs.last())[3]);
            }
        }
    }
}

proof fn lemma_first_byte(p: RtpPacket)
    requires
        encodable(p),
    ensures
        first_byte(p) / 64 == 2,
        first_byte(p) % 16 == p.header.csrcs@.len(),
        ((first_byte(p) / 16) % 2 == 1) == p.header.extension is Some,
        ((first_byte(p) / 32) % 2 == 1) == (p.padding > 0),
        second_byte(p) >= 128 <==> p.header.marker,
        second_byte(p) % 128 == p.header.payload_type,
{
    let cc = p.header.csrcs@.len() as u8;
    let pb: u8 = if p.padding > 0 { 0x20u8 } else { 0u8 };
    let xb: u8 = if p.header.extension is Some { 0x10u8 } else { 0u8 };
    let mb: u8 = if p.header.marker { 0x80u8 } else { 0u8 };
    let pt = p.header.payload_type;
    let v = 0x80u8 | pb | xb | cc;
    assert(v / 64 == 2 && v % 16 == cc && ((v / 16) % 2 == 1 <==> xb == 0x10u8) && ((v / 32) % 2
        == 1 <==> pb == 0x20u8)) by (bit_vector)
        requires
            v == 0x80u8 | pb | xb | cc,
            cc < 16,
            pb == 0x20u8 || pb == 0u8,
            xb == 0x10u8 || xb == 0u8,
    ;
    let w = mb | pt;
    assert((w >= 128 <==> mb == 0x80u8) && w % 128 == pt) by (bit_vector)
        requires
            w == mb | pt,
            pt < 128,
            mb == 0x80u8 || mb == 0u8,
    ;
}

/// Reading back the bytes of an encodable packet gives the packet's fields
/// again: `parse_rtp` accepts every datagram that `marshal` produces and
/// recovers what was marshalled.
pub proof fn rtp_round_trip(p: RtpPacket)
    requires
        encodable(p),
    ensures
        rtp_error(packet_bytes(p)) is None,
        parsed_as(packet_bytes(p), p),
{
    let b = packet_bytes(p);
    let h = p.header;
    let cs = h.csrcs@;
    let cc = cs.len() as int;
    lemma_first_byte(p);
    lemma_be16(h.sequence_number);
    lemma_be32(h.timestamp);
    lemma_be32(h.ssrc);
    lemma_csrc_bytes(cs);
    let fixed = seq![first_byte(p), second_byte(p)] + be16(h.sequence_number) + be32(h.timestamp)
        + be32(h.ssrc);
    let ext = extension_bytes(h.extension);
    let pad = padding_bytes(p.padding);
    assert(fixed.len() == 12);
    assert(b =~= fixed + csrc_bytes(cs) + ext + p.payload@ + pad);
    assert(b[0] == first_byte(p));
    assert(b[1] == second_byte(p));
    assert(csrc_count(b) == cc);
    let x = 12 + 4 * cc;
    assert(extension_start(b) == x);
    assert(u16_at(b, 2) == u16_at(be16(h.sequence_number), 0)) by {
        assert(b[2] == be16(h.sequence_number)[0]);
        assert(b[3] == be16(h.sequence_number)[1]);
    }
    assert(u32_at(b, 4) == u32_at(be32(h.timestamp), 0)) by {
        assert(b[4] == be32(h.timestamp)[0]);
        assert(b[5] == be32(h.timestamp)[1]);
        assert(b[6] == be32(h.timestamp)[2]);
        assert(b[7] == be32(h.timestamp)[3]);
    }
    assert(u32_at(b, 8) == u32_at(be32(h.ssrc), 0)) by {
        assert(b[8] == be32(h.ssrc)[0]);
        assert(b[9] == be32(h.ssrc)[1]);
        assert(b[10] == be32(h.ssrc)[2]);
        assert(b[11] == be32(h.ssrc)[3]);
    }
    assert forall|i: int| 0 <= i < cc implies #[trigger] cs[i] == u32_at(b, 12 + 4 * i) by {
        assert(u32_at(csrc_bytes(cs), 4 * i) == cs[i]);
        assert(b[12 + 4 * i] == csrc_bytes(cs)[4 * i]);
        assert(b[12 + 4 * i + 1] == csrc_bytes(cs)[4 * i + 1]);
        assert(b[12 + 4 * i + 2] == csrc_bytes(cs)[4 * i + 2]);
        assert(b[12 + 4 * i + 3] == csrc_bytes(cs)[4 * i + 3]);
    }
    let hl = x + ext.len();
    match h.extension {
        Some(e) => {
            let words = (e.data@.len() / 4) as u16;
            lemma_be16(e.profile);
            lemma_be16(words);
            assert(ext =~= be16(e.profile) + be16(words) + e.data@);
            assert(u16_at(b, x) == u16_at(be16(e.profile), 0)) by {
                assert(b[x] == ext[0]);
                assert(b[x + 1] == ext[1]);
            }
            assert(u16_at(b, x + 2) == u16_at(be16(words), 0)) by {
                assert(b[x + 2] == ext[2]);
                assert(b[x + 3] == ext[3]);
            }
            assert(header_len(b) == hl);
            assert(b.subrange(x + 4, hl) =~= e.data@);
        },
        None => {
            assert(header_len(b) == hl);
        },
    }
    if p.padding > 0 {
        assert(b[b.len() - 1] == p.padding);
    }
    assert(padding_len(b) == p.padding);
    assert(b.subrange(hl, b.len() - padding_len(b)) =~= p.payload@);
}

} // verus!
