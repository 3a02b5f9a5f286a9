use vstd::prelude::*;

use crate::frame::{Frame, spec_frame_error, spec_frame_matches};
use crate::frame_control::DecodeError;

verus! {

/// What the capture pipeline reads from a radiotap header.
#[derive(Clone, Copy, Debug, PartialEq, Eq, Structural)]
pub struct RadioInfo {
    /// Length of the radiotap header; the 802.11 frame starts here.
    pub header_length: usize,
    /// Channel frequency in MHz, when the header carries it.
    pub channel_freq: Option<u16>,
    /// Signal strength in dBm, when the header carries it.
    pub antenna_signal: Option<i8>,
}

/// Why a captured packet was dropped.
#[derive(Clone, Copy, Debug, PartialEq, Eq, Structural)]
pub enum CaptureError {
    /// The radiotap presence words announce a vendor namespace, or chain
    /// more than `MAX_PRESENCE_WORDS` words; such headers are not read.
    UnsupportedPresence,
    /// The radiotap header is malformed or truncated.
    Radiotap,
    /// The 802.11 frame after the radiotap header could not be decoded.
    Frame(DecodeError),
}

/// The most presence words a radiotap header may chain here.
pub const MAX_PRESENCE_WORDS: usize = 8;

/// What the radiotap crate reads from a capture: `None` when it refuses the
/// capture, else the channel frequency and the signal strength.
pub uninterp spec fn radiotap_result(capture: Seq<u8>) -> Option<(Option<u16>, Option<i8>)>;

/// The radiotap header's own length field: little-endian at bytes 2 and 3.
pub open spec fn spec_radiotap_len(b: Seq<u8>) -> int {
    b[2] + 256 * b[3]
}

/// Whether the chain of presence words from the one at `off` (each word's
/// bit 31 announces another) sets bit 30 (switch to a vendor namespace) in
/// none of its words and has at most `n` words within `b`.
pub open spec fn spec_plain_presence(b: Seq<u8>, off: int, n: nat) -> bool
    decreases n,
{
    if off < 0 || off + 4 > b.len() {
        true
    } else if n == 0 {
        false
    } else {
        (b[off + 3] / 64) % 2 == 0 && (b[off + 3] / 128 == 1 ==> spec_plain_presence(
            b,
            off + 4,
            (n - 1) as nat,
        ))
    }
}

/// The presence words of a capture's radiotap header are ones this crate
/// reads: no vendor namespace, at most `MAX_PRESENCE_WORDS` of them.
pub open spec fn spec_supported_presence(b: Seq<u8>) -> bool {
    spec_plain_presence(b, 4, MAX_PRESENCE_WORDS as nat)
}

/// Checks the presence words of the radiotap header.
pub fn plain_presence(b: &[u8]) -> (r: bool)
    ensures
        r == spec_supported_presence(b@),
{
    let mut off: usize = 4;
    let mut n: usize = MAX_PRESENCE_WORDS;
    let blen = b.len();
    while off <= blen && blen - off >= 4
        invariant
            off >= 4,
            blen == b@.len(),
            spec_supported_presence(b@) == spec_plain_presence(b@, off as int, n as nat),
        decreases n,
    {
        if n == 0 {
            return false;
        }
        let top = b[off + 3];
        if (top / 64) % 2 != 0 {
            return false;
        }
        if top / 128 != 1 {
            return true;
        }
        off = off + 4;
        n = n - 1;
    }
    true
}

/// Relies on `radiotap::Radiotap::from_bytes`: whether it accepts the
/// capture, and what it reads, depends on the bytes alone; on success the
/// header's version byte is 0 and its length field (bytes 2-3, little
/// endian) fits in the capture.
/// The crate slices past the end on a vendor namespace whose skip length
/// overruns the capture, and computes field numbers in `u8` (which
/// overflows past eight chained presence words), hence the requirement.
#[verifier::external_body]
fn read_radiotap(capture: &[u8]) -> (r: Option<RadioInfo>)
    requires
        spec_supported_presence(capture@),
    ensures
        r.is_some() == radiotap_result(capture@).is_some(),
        r matches Some(info) ==> {
            &&& capture@.len() >= 4
            &&& capture@[0] == 0
            &&& info.header_length == spec_radiotap_len(capture@)
            &&& info.header_length <= capture@.len()
            &&& radiotap_result(capture@) == Some((info.channel_freq, info.antenna_signal))
        },
{
    match radiotap::Radiotap::from_bytes(capture) {
        Ok(tap) => Some(
            RadioInfo {
                header_length: tap.header.length,
                channel_freq: tap.channel.map(|c| c.freq),
                antenna_signal: tap.antenna_signal.map(|a| a.value),
            },
        ),
        Err(_) => None,
    }
}

/// Decodes a captured packet: the radiotap header, then the 802.11 frame
/// that follows it.
pub fn handle_packet(capture: &[u8]) -> (r: Result<(Frame, RadioInfo), CaptureError>)
    ensures
        !spec_supported_presence(capture@) <==> r == Err::<(Frame, RadioInfo), CaptureError>(
            CaptureError::UnsupportedPresence,
        ),
        r == Err::<(Frame, RadioInfo), CaptureError>(CaptureError::Radiotap) <==> (
        spec_supported_presence(capture@) && radiotap_result(capture@).is_none()),
        spec_supported_presence(capture@) && radiotap_result(capture@).is_some() ==> (r.is_ok()
            <==> spec_frame_error(
            capture@.subrange(spec_radiotap_len(capture@), capture@.len() as int),
        ).is_none()),
        r matches Ok((f, info)) ==> {
            &&& capture@[0] == 0
            &&& info.header_length == spec_radiotap_len(capture@)
            &&& radiotap_result(capture@) == Some((info.channel_freq, info.antenna_signal))
            &&& spec_frame_matches(f, capture@.subrange(info.header_length as int, capture@.len() as int))
            &&& spec_frame_error(capture@.subrange(info.header_length as int, capture@.len() as int)).is_none()
        },
        r matches Err(CaptureError::Frame(e)) ==> spec_frame_error(
            capture@.subrange(spec_radiotap_len(capture@), capture@.len() as int),
        ) == Some(e),
{
    if !plain_presence(capture) {
        return Err(CaptureError::UnsupportedPresence);
    }
    let info = match read_radiotap(capture) {
        Some(info) => info,
        None => {
            return Err(CaptureError::Radiotap);
        },
    };
    let body = &capture[info.header_length..capture.len()];
    match Frame::from_bytes(body) {
        Ok(frame) => Ok((frame, info)),
        Err(e) => Err(CaptureError::Frame(e)),
    }
}

} // verus!
