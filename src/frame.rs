use vstd::prelude::*;

use crate::elements::{Elements, le_value, parse_elements, read_le, spec_elements_match, spec_elements_ok};
use crate::frame_control::{pow2, DecodeError, FrameControl, FrameSubType, FrameType, spec_frame_control, spec_protocol_version};
use crate::header::{Header, spec_bssid, spec_dest, spec_header_len, spec_header_matches, spec_src};

verus! {

/// Synthetic byte count of a basic block acknowledgement.
pub const BASIC_BLOCK_ACK_WEIGHT: u64 = 100;

/// Synthetic byte count per segment that a compressed block acknowledgement
/// acknowledges: a rough average frame size, good enough for per-minute sums.
pub const COMPRESSED_SEGMENT_WEIGHT: u64 = 500;

/// Timestamp, interval and capability of beacons and probe responses.
pub const BEACON_PREFIX_LEN: usize = 12;

/// Capability and listen interval of association requests.
pub const ASSOCIATION_REQUEST_PREFIX_LEN: usize = 4;

/// Capability, status code and association id of association responses.
pub const ASSOCIATION_RESPONSE_PREFIX_LEN: usize = 6;

/// The body shared by beacons and probe responses.
#[derive(Clone, Debug)]
pub struct BeaconBody {
    pub timestamp: u64,
    pub interval: u16,
    pub cap_info: u16,
    pub elements: Elements,
}

/// What a block acknowledgement acknowledges.
#[derive(Clone, Copy, Debug, PartialEq, Eq, Structural)]
pub enum BlockAckInfo {
    Basic,
    /// The number of segments that the bitmap marks as received.
    Compressed(u32),
}

/// The decoded body of a frame, by subtype.
#[derive(Clone, Debug)]
pub enum FrameBody {
    Beacon(BeaconBody),
    ProbeResponse(BeaconBody),
    ProbeRequest(Elements),
    AssociationRequest { cap_info: u16, interval: u16, elements: Elements },
    AssociationResponse {
        cap_info: u16,
        status_code: u16,
        association_id: u16,
        elements: Elements,
    },
    Data { payload_len: usize },
    QosData { payload_len: usize },
    BlockAck(BlockAckInfo),
    /// A recognised frame without a body decoder here.
    UnHandled,
}

/// A decoded frame: its header and its body.
#[derive(Clone, Debug)]
pub struct Frame {
    pub header: Header,
    pub body: FrameBody,
}

/// The number of set bits of a byte.
pub open spec fn bits_set(x: u8) -> nat
    decreases x,
{
    if x == 0 { 0 } else { (x % 2) as nat + bits_set((x / 2) as u8) }
}

/// The number of set bits over a byte sequence.
pub open spec fn ones(b: Seq<u8>) -> nat
    decreases b.len(),
{
    if b.len() == 0 { 0 } else { ones(b.drop_last()) + bits_set(b.last()) }
}

/// Bit 2 of the block-ack control field selects the compressed bitmap.
pub open spec fn spec_compressed(b: Seq<u8>, off: int) -> bool {
    (b[off] / 4) % 2 == 1
}

pub open spec fn is_mgmt(fc: FrameControl, s: FrameSubType) -> bool {
    fc.frame_type == FrameType::Management && fc.frame_subtype == s
}

pub open spec fn is_ctrl(fc: FrameControl, s: FrameSubType) -> bool {
    fc.frame_type == FrameType::Control && fc.frame_subtype == s
}

pub open spec fn is_data(fc: FrameControl, s: FrameSubType) -> bool {
    fc.frame_type == FrameType::Data && fc.frame_subtype == s
}

/// Elements after a fixed prefix of `prefix` bytes at `off`.
pub open spec fn spec_prefixed_error(b: Seq<u8>, off: nat, prefix: nat) -> Option<DecodeError> {
    if b.len() < off + prefix {
        Some(DecodeError::Incomplete)
    } else if !spec_elements_ok(b, off + prefix) {
        Some(DecodeError::Failure)
    } else {
        None
    }
}

/// Why the body at `off` of a frame of this kind cannot be decoded, if it cannot.
pub open spec fn spec_body_error(fc: FrameControl, b: Seq<u8>, off: nat) -> Option<DecodeError> {
    if is_mgmt(fc, FrameSubType::Beacon) || is_mgmt(fc, FrameSubType::ProbeResp) {
        spec_prefixed_error(b, off, BEACON_PREFIX_LEN as nat)
    } else if is_mgmt(fc, FrameSubType::ProbeReq) {
        spec_prefixed_error(b, off, 0)
    } else if is_mgmt(fc, FrameSubType::AssoReq) {
        spec_prefixed_error(b, off, ASSOCIATION_REQUEST_PREFIX_LEN as nat)
    } else if is_mgmt(fc, FrameSubType::AssoResp) {
        spec_prefixed_error(b, off, ASSOCIATION_RESPONSE_PREFIX_LEN as nat)
    } else if is_data(fc, FrameSubType::QoS) {
        if b.len() < off + 2 { Some(DecodeError::Incomplete) } else { None }
    } else if is_ctrl(fc, FrameSubType::BlockAck) {
        if b.len() < off + 2 {
            Some(DecodeError::Incomplete)
        } else if spec_compressed(b, off as int) && b.len() < off + 12 {
            Some(DecodeError::Incomplete)
        } else {
            None
        }
    } else {
        None
    }
}

pub open spec fn spec_beacon_matches(bb: BeaconBody, b: Seq<u8>, off: int) -> bool {
    &&& bb.timestamp as nat == le_value(b.subrange(off, off + 8))
    &&& bb.interval as nat == le_value(b.subrange(off + 8, off + 10))
    &&& bb.cap_info as nat == le_value(b.subrange(off + 10, off + 12))
    &&& spec_elements_match(bb.elements, b, (off + 12) as nat)
}

/// `body` is what the body at `off` of a frame of this kind says.
pub open spec fn spec_body_matches(body: FrameBody, fc: FrameControl, b: Seq<u8>, off: int) -> bool {
    if is_mgmt(fc, FrameSubType::Beacon) {
        body matches FrameBody::Beacon(bb) && spec_beacon_matches(bb, b, off)
    } else if is_mgmt(fc, FrameSubType::ProbeResp) {
        body matches FrameBody::ProbeResponse(bb) && spec_beacon_matches(bb, b, off)
    } else if is_mgmt(fc, FrameSubType::ProbeReq) {
        body matches FrameBody::ProbeRequest(e) && spec_elements_match(e, b, off as nat)
    } else if is_mgmt(fc, FrameSubType::AssoReq) {
        body matches FrameBody::AssociationRequest { cap_info, interval, elements }
            && cap_info as nat == le_value(b.subrange(off, off + 2))
            && interval as nat == le_value(b.subrange(off + 2, off + 4))
            && spec_elements_match(elements, b, (off + 4) as nat)
    } else if is_mgmt(fc, FrameSubType::AssoResp) {
        body matches FrameBody::AssociationResponse {
            cap_info,
            status_code,
            association_id,
            elements,
        } && cap_info as nat == le_value(b.subrange(off, off + 2)) && status_code as nat
            == le_value(b.subrange(off + 2, off + 4)) && association_id as nat == le_value(
            b.subrange(off + 4, off + 6),
        ) && spec_elements_match(elements, b, (off + 6) as nat)
    } else if is_data(fc, FrameSubType::Data) {
        body == FrameBody::Data { payload_len: (b.len() - off) as usize }
    } else if is_data(fc, FrameSubType::QoS) {
        body == FrameBody::QosData { payload_len: (b.len() - off - 2) as usize }
    } else if is_ctrl(fc, FrameSubType::BlockAck) {
        if spec_compressed(b, off) {
            body matches FrameBody::BlockAck(BlockAckInfo::Compressed(n)) && n as nat == ones(
                b.subrange(off + 4, off + 12),
            )
        } else {
            body matches FrameBody::BlockAck(BlockAckInfo::Basic)
        }
    } else {
        body matches FrameBody::UnHandled
    }
}

/// Why the bytes `b` are not a frame, if they are not.
pub open spec fn spec_frame_error(b: Seq<u8>) -> Option<DecodeError> {
    if b.len() < 2 {
        Some(DecodeError::Incomplete)
    } else if spec_protocol_version(b[0]) != 0 {
        Some(DecodeError::UnsupportedProtocol)
    } else {
        let fc = spec_frame_control(b[0], b[1]);
        if b.len() < spec_header_len(fc) {
            Some(DecodeError::Incomplete)
        } else {
            spec_body_error(fc, b, spec_header_len(fc))
        }
    }
}

/// `f` is the frame that the bytes `b` hold.
pub open spec fn spec_frame_matches(f: Frame, b: Seq<u8>) -> bool {
    &&& spec_header_matches(f.header, b)
    &&& spec_body_matches(f.body, f.header.frame_control, b, spec_header_len(f.header.frame_control) as int)
}

/// Counts the set bits of a byte.
pub fn count_bits(x: u8) -> (r: u32)
    ensures
        r as nat == bits_set(x),
        r <= 8,
{
    let mut v: u8 = x;
    let mut n: u32 = 0;
    proof {
        lemma_bits_set_le_len(x);
        assert(pow2(0) == 1);
        assert(pow2(1) == 2);
        assert(pow2(2) == 4);
        assert(pow2(3) == 8);
        assert(pow2(4) == 16);
        assert(pow2(5) == 32);
        assert(pow2(6) == 64);
        assert(pow2(7) == 128);
        assert(pow2(8) == 256);
        lemma_bits_len_bound(x, 8);
    }
    while v > 0
        invariant
            n as nat + bits_set(v) == bits_set(x),
            bits_set(x) <= 8,
        decreases v,
    {
        n = n + (v % 2) as u32;
        v = v / 2;
    }
    n
}

/// The number of binary digits of a byte.
pub open spec fn bits_len(x: u8) -> nat
    decreases x,
{
    if x == 0 { 0 } else { 1 + bits_len((x / 2) as u8) }
}

proof fn lemma_bits_set_le_len(x: u8)
    ensures
        bits_set(x) <= bits_len(x),
    decreases x,
{
    if x != 0 {
        lemma_bits_set_le_len((x / 2) as u8);
    }
}

proof fn lemma_bits_len_bound(x: u8, k: nat)
    requires
        (x as nat) < pow2(k),
    ensures
        bits_len(x) <= k,
    decreases k,
{
    if x != 0 {
        if k == 0 {
            assert(pow2(0) == 1);
        } else {
            assert(pow2(k) == 2 * pow2((k - 1) as nat));
            lemma_bits_len_bound((x / 2) as u8, (k - 1) as nat);
        }
    }
}

/// Counts the set bits of `len` bytes from `start`.
pub fn count_ones(b: &[u8], start: usize, len: usize) -> (r: u32)
    requires
        start + len <= b@.len(),
        len <= 8,
    ensures
        r as nat == ones(b@.subrange(start as int, start + len)),
{
    let mut n: u32 = 0;
    let mut i: usize = 0;
    let blen = b.len();
    assert(b@.subrange(start as int, start as int) =~= Seq::<u8>::empty());
    while i < len
        invariant
            i <= len <= 8,
            start + len <= b@.len(),
            blen == b@.len(),
            n as nat == ones(b@.subrange(start as int, start + i)),
            n <= 8 * i,
        decreases len - i,
    {
        let c = count_bits(b[start + i]);
        assert(b@.subrange(start as int, start + i + 1).drop_last() =~= b@.subrange(
            start as int,
            start + i,
        ));
        n = n + c;
        i = i + 1;
    }
    n
}

impl Header {
    /// Decodes the body at `off` of a frame whose frame control is `fc`.
    pub fn parse_body(fc: &FrameControl, input: &[u8], off: usize) -> (r: Result<FrameBody, DecodeError>)
        requires
            off <= input@.len(),
        ensures
            r.is_err() <==> spec_body_error(*fc, input@, off as nat).is_some(),
            r matches Err(e) ==> spec_body_error(*fc, input@, off as nat) == Some(e),
            r matches Ok(body) ==> spec_body_matches(body, *fc, input@, off as int),
    {
        let len = input.len();
        match (fc.frame_type, fc.frame_subtype) {
            (FrameType::Management, FrameSubType::Beacon) | (
                FrameType::Management,
                FrameSubType::ProbeResp,
            ) => {
                if len - off < BEACON_PREFIX_LEN {
                    return Err(DecodeError::Incomplete);
                }
                let timestamp = read_le(input, off, 8);
                let interval = read_le(input, off + 8, 2);
                let cap_info = read_le(input, off + 10, 2);
                proof {
                    lemma_le_two(input@.subrange(off + 8, off + 10));
                    lemma_le_two(input@.subrange(off + 10, off + 12));
                }
                let elements = parse_elements(input, off + BEACON_PREFIX_LEN)?;
                let bb = BeaconBody {
                    timestamp,
                    interval: interval as u16,
                    cap_info: cap_info as u16,
                    elements,
                };
                if fc.frame_subtype == FrameSubType::Beacon {
                    Ok(FrameBody::Beacon(bb))
                } else {
                    Ok(FrameBody::ProbeResponse(bb))
                }
            },
            (FrameType::Management, FrameSubType::ProbeReq) => {
                let elements = parse_elements(input, off)?;
                Ok(FrameBody::ProbeRequest(elements))
            },
            (FrameType::Management, FrameSubType::AssoReq) => {
                if len - off < ASSOCIATION_REQUEST_PREFIX_LEN {
                    return Err(DecodeError::Incomplete);
                }
                let cap_info = read_le(input, off, 2);
                let interval = read_le(input, off + 2, 2);
                proof {
                    lemma_le_two(input@.subrange(off as int, off + 2));
                    lemma_le_two(input@.subrange(off + 2, off + 4));
                }
                let elements = parse_elements(input, off + ASSOCIATION_REQUEST_PREFIX_LEN)?;
                Ok(
                    FrameBody::AssociationRequest {
                        cap_info: cap_info as u16,
                        interval: interval as u16,
                        elements,
                    },
                )
            },
            (FrameType::Management, FrameSubType::AssoResp) => {
                if len - off < ASSOCIATION_RESPONSE_PREFIX_LEN {
                    return Err(DecodeError::Incomplete);
                }
                let cap_info = read_le(input, off, 2);
                let status_code = read_le(input, off + 2, 2);
                let association_id = read_le(input, off + 4, 2);
                proof {
                    lemma_le_two(input@.subrange(off as int, off + 2));
                    lemma_le_two(input@.subrange(off + 2, off + 4));
                    lemma_le_two(input@.subrange(off + 4, off + 6));
                }
                let elements = parse_elements(input, off + ASSOCIATION_RESPONSE_PREFIX_LEN)?;
                Ok(
                    FrameBody::AssociationResponse {
                        cap_info: cap_info as u16,
                        status_code: status_code as u16,
                        association_id: association_id as u16,
                        elements,
                    },
                )
            },
            (FrameType::Data, FrameSubType::Data) => Ok(FrameBody::Data { payload_len: len - off }),
            (FrameType::Data, FrameSubType::QoS) => {
                if len - off < 2 {
                    return Err(DecodeError::Incomplete);
                }
                Ok(FrameBody::QosData { payload_len: len - off - 2 })
            },
            (FrameType::Control, FrameSubType::BlockAck) => {
                if len - off < 2 {
                    return Err(DecodeError::Incomplete);
                }
                if (input[off] / 4) % 2 == 1 {
                    if len - off < 12 {
                        return Err(DecodeError::Incomplete);
                    }
                    let n = count_ones(input, off + 4, 8);
                    Ok(FrameBody::BlockAck(BlockAckInfo::Compressed(n)))
                } else {
                    Ok(FrameBody::BlockAck(BlockAckInfo::Basic))
                }
            },
            _ => Ok(FrameBody::UnHandled),
        }
    }
}

proof fn lemma_le_two(s: Seq<u8>)
    requires
        s.len() == 2,
    ensures
        le_value(s) < 0x10000,
{
    assert(s.drop_first().drop_first().len() == 0);
    assert(le_value(s.drop_first()) == s[1] as nat + 256 * le_value(s.drop_first().drop_first()));
}

impl Frame {
    /// Decodes an 802.11 frame (without the radiotap prefix): the header,
    /// whose length depends on the kind of frame, then the body by subtype.
    /// Never reads past the end of `input`.
    pub fn from_bytes(input: &[u8]) -> (r: Result<Frame, DecodeError>)
        ensures
            r.is_err() <==> spec_frame_error(input@).is_some(),
            r matches Err(e) ==> spec_frame_error(input@) == Some(e),
            r matches Ok(f) ==> spec_frame_matches(f, input@),
    {
        let (header, off) = Header::from_bytes(input)?;
        let body = Header::parse_body(&header.frame_control, input, off)?;
        Ok(Frame { header, body })
    }
}

impl BlockAckInfo {
    /// The synthetic byte count: a fixed weight for a basic acknowledgement,
    /// a weight per acknowledged segment for a compressed one.
    pub fn weight(&self) -> (r: u64)
        ensures
            r == match *self {
                BlockAckInfo::Basic => BASIC_BLOCK_ACK_WEIGHT as int,
                BlockAckInfo::Compressed(n) => COMPRESSED_SEGMENT_WEIGHT * n,
            },
    {
        match *self {
            BlockAckInfo::Basic => BASIC_BLOCK_ACK_WEIGHT,
            BlockAckInfo::Compressed(n) => COMPRESSED_SEGMENT_WEIGHT * (n as u64),
        }
    }
}

/// In a beacon whose DS flags are both clear the source is address 2, the
/// destination address 1 and the BSSID address 3.
pub proof fn lemma_beacon_roles(f: Frame, b: Seq<u8>)
    requires
        spec_frame_matches(f, b),
        spec_frame_error(b).is_none(),
        is_mgmt(f.header.frame_control, FrameSubType::Beacon),
        !f.header.frame_control.to_ds,
        !f.header.frame_control.from_ds,
    ensures
        spec_src(f.header) == Some(b.subrange(10, 16)),
        spec_dest(f.header) == Some(b.subrange(4, 10)),
        spec_bssid(f.header) == Some(b.subrange(16, 22)),
{
}

/// In a data frame of a wireless distribution system (both DS flags set) the
/// source is address 4, the destination address 3, and there is no BSSID.
pub proof fn lemma_wds_roles(f: Frame, b: Seq<u8>)
    requires
        spec_frame_matches(f, b),
        spec_frame_error(b).is_none(),
        f.header.frame_control.frame_type == FrameType::Data,
        f.header.frame_control.to_ds,
        f.header.frame_control.from_ds,
    ensures
        spec_src(f.header) == Some(b.subrange(24, 30)),
        spec_dest(f.header) == Some(b.subrange(16, 22)),
        spec_bssid(f.header).is_none(),
{
}

/// A CTS frame carries only the receiver's address: no source, the
/// destination is address 1, and there is no BSSID.
pub proof fn lemma_cts_roles(f: Frame, b: Seq<u8>)
    requires
        spec_frame_matches(f, b),
        spec_frame_error(b).is_none(),
        is_ctrl(f.header.frame_control, FrameSubType::CTS),
    ensures
        spec_src(f.header).is_none(),
        spec_dest(f.header) == Some(b.subrange(4, 10)),
        spec_bssid(f.header).is_none(),
{
}

} // verus!
