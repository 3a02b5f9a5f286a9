use vstd::prelude::*;

use crate::frame_control::{DecodeError, FrameControl, FrameSubType, FrameType, spec_frame_control, spec_protocol_version};
use crate::mac::MacAddress;

verus! {

/// The number of addresses that a header of this kind carries.
///
/// CTS and ACK carry one; the other control frames two; management and data
/// frames three and a sequence-control field; data frames with both DS flags
/// set (a wireless distribution system) a fourth.
pub open spec fn spec_address_count(fc: FrameControl) -> nat {
    match fc.frame_type {
        FrameType::Control => {
            if fc.frame_subtype == FrameSubType::CTS || fc.frame_subtype == FrameSubType::ACK {
                1
            } else {
                2
            }
        },
        FrameType::Management => 3,
        FrameType::Data => if fc.to_ds && fc.from_ds { 4 } else { 3 },
        FrameType::Unknown => 1,
    }
}

/// The length in bytes of a header of this kind.
pub open spec fn spec_header_len(fc: FrameControl) -> nat {
    let n = spec_address_count(fc);
    if n == 1 { 10 }
    else if n == 2 { 16 }
    else if n == 3 { 24 }
    else { 30 }
}

/// The view of an optional address.
pub open spec fn opt_mac(o: Option<MacAddress>) -> Option<Seq<u8>> {
    match o {
        Some(m) => Some(m@),
        None => None,
    }
}

/// The first bytes of a frame: frame control, duration, one to four addresses
/// and, with the third address, the sequence control. Absent fields are `None`.
#[derive(Clone, Copy, Debug)]
pub struct Header {
    pub frame_control: FrameControl,
    pub duration: [u8; 2],
    pub address_1: MacAddress,
    pub address_2: Option<MacAddress>,
    pub address_3: Option<MacAddress>,
    pub address_4: Option<MacAddress>,
    pub seq_ctl: Option<[u8; 2]>,
}

/// The header that bytes `b` hold when they are long enough: each field is
/// present exactly when the frame's kind carries it.
pub open spec fn spec_header_matches(h: Header, b: Seq<u8>) -> bool {
    let fc = spec_frame_control(b[0], b[1]);
    let n = spec_address_count(fc);
    &&& h.frame_control == fc
    &&& h.duration@ == b.subrange(2, 4)
    &&& h.address_1@ == b.subrange(4, 10)
    &&& opt_mac(h.address_2) == if n >= 2 { Some(b.subrange(10, 16)) } else { None::<Seq<u8>> }
    &&& opt_mac(h.address_3) == if n >= 3 { Some(b.subrange(16, 22)) } else { None::<Seq<u8>> }
    &&& opt_mac(h.address_4) == if n >= 4 { Some(b.subrange(24, 30)) } else { None::<Seq<u8>> }
    &&& (n >= 3 <==> h.seq_ctl.is_some())
    &&& (h.seq_ctl matches Some(s) ==> s@ == b.subrange(22, 24))
}

/// Source address. A header with a single address has none; otherwise the DS
/// flags decide: (0,0) address 2, (0,1) address 3, (1,0) address 2,
/// (1,1) address 4.
pub open spec fn spec_src_addr(h: Header) -> Option<MacAddress> {
    if h.address_2.is_none() {
        None
    } else if h.frame_control.to_ds && h.frame_control.from_ds {
        h.address_4
    } else if h.frame_control.from_ds {
        h.address_3
    } else {
        h.address_2
    }
}

/// Destination address: address 1 unless `to_ds` is set, then address 3.
/// A header with a single address is addressed to address 1.
pub open spec fn spec_dest_addr(h: Header) -> Option<MacAddress> {
    if h.address_2.is_none() {
        Some(h.address_1)
    } else if h.frame_control.to_ds {
        h.address_3
    } else {
        Some(h.address_1)
    }
}

/// BSSID: (0,0) address 3, (0,1) address 2, (1,0) address 1, none in a
/// distribution system (1,1) or with a single address.
pub open spec fn spec_bssid_addr(h: Header) -> Option<MacAddress> {
    if h.address_2.is_none() {
        None
    } else if h.frame_control.to_ds && h.frame_control.from_ds {
        None
    } else if h.frame_control.to_ds {
        Some(h.address_1)
    } else if h.frame_control.from_ds {
        h.address_2
    } else {
        h.address_3
    }
}

/// The bytes of the source address.
pub open spec fn spec_src(h: Header) -> Option<Seq<u8>> {
    opt_mac(spec_src_addr(h))
}

/// The bytes of the destination address.
pub open spec fn spec_dest(h: Header) -> Option<Seq<u8>> {
    opt_mac(spec_dest_addr(h))
}

/// The bytes of the BSSID.
pub open spec fn spec_bssid(h: Header) -> Option<Seq<u8>> {
    opt_mac(spec_bssid_addr(h))
}

/// The number of addresses for a frame control, computed.
pub fn address_count(fc: &FrameControl) -> (r: usize)
    ensures
        r == spec_address_count(*fc),
{
    match fc.frame_type {
        FrameType::Control => {
            match fc.frame_subtype {
                FrameSubType::CTS => 1,
                FrameSubType::ACK => 1,
                _ => 2,
            }
        },
        FrameType::Management => 3,
        FrameType::Data => if fc.to_ds && fc.from_ds { 4 } else { 3 },
        FrameType::Unknown => 1,
    }
}

impl Header {
    /// A header with only the always-present fields.
    pub fn new(frame_control: FrameControl, duration: [u8; 2], address_1: MacAddress) -> (r: Header)
        ensures
            r.frame_control == frame_control,
            r.duration == duration,
            r.address_1 == address_1,
            r.address_2.is_none(),
            r.address_3.is_none(),
            r.address_4.is_none(),
            r.seq_ctl.is_none(),
    {
        Header {
            frame_control,
            duration,
            address_1,
            address_2: None,
            address_3: None,
            address_4: None,
            seq_ctl: None,
        }
    }

    /// Reads a header from the start of `input`; on success also returns
    /// where the body begins. Never reads past the end of `input`.
    pub fn from_bytes(input: &[u8]) -> (r: Result<(Header, usize), DecodeError>)
        ensures
            input@.len() < 2 ==> r == Err::<(Header, usize), DecodeError>(DecodeError::Incomplete),
            input@.len() >= 2 && spec_protocol_version(input@[0]) != 0 ==> r == Err::<
                (Header, usize),
                DecodeError,
            >(DecodeError::UnsupportedProtocol),
            input@.len() >= 2 && spec_protocol_version(input@[0]) == 0 ==> {
                let fc = spec_frame_control(input@[0], input@[1]);
                if input@.len() < spec_header_len(fc) {
                    r == Err::<(Header, usize), DecodeError>(DecodeError::Incomplete)
                } else {
                    r matches Ok((h, off)) && off == spec_header_len(fc) && spec_header_matches(
                        h,
                        input@,
                    )
                }
            },
    {
        let frame_control = match FrameControl::from_bytes(input) {
            Ok(fc) => fc,
            Err(e) => {
                return Err(e);
            },
        };
        let n = address_count(&frame_control);
        let len: usize = if n == 1 { 10 } else if n == 2 { 16 } else if n == 3 { 24 } else { 30 };
        if input.len() < len {
            return Err(DecodeError::Incomplete);
        }
        let duration: [u8; 2] = [input[2], input[3]];
        let address_1 = MacAddress::from_slice_at(input, 4);
        let mut header = Header::new(frame_control, duration, address_1);
        if n >= 2 {
            header.address_2 = Some(MacAddress::from_slice_at(input, 10));
        }
        if n >= 3 {
            header.address_3 = Some(MacAddress::from_slice_at(input, 16));
            header.seq_ctl = Some([input[22], input[23]]);
        }
        if n >= 4 {
            header.address_4 = Some(MacAddress::from_slice_at(input, 24));
        }
        assert(header.duration@ =~= input@.subrange(2, 4));
        assert(header.seq_ctl matches Some(s) ==> s@ =~= input@.subrange(22, 24));
        Ok((header, len))
    }

    /// The sender's address, where the header carries it.
    pub fn src(&self) -> (r: Option<MacAddress>)
        ensures
            r == spec_src_addr(*self),
    {
        if self.address_2.is_none() {
            None
        } else if self.frame_control.to_ds && self.frame_control.from_ds {
            self.address_4
        } else if self.frame_control.from_ds {
            self.address_3
        } else {
            self.address_2
        }
    }

    /// The receiver's address. A full `ff:ff:..` is an undirected broadcast.
    pub fn dest(&self) -> (r: Option<MacAddress>)
        ensures
            r == spec_dest_addr(*self),
    {
        if self.address_2.is_none() {
            Some(self.address_1)
        } else if self.frame_control.to_ds {
            self.address_3
        } else {
            Some(self.address_1)
        }
    }

    /// The BSSID; absent in a wireless distribution system.
    pub fn bssid(&self) -> (r: Option<MacAddress>)
        ensures
            r == spec_bssid_addr(*self),
    {
        if self.address_2.is_none() {
            None
        } else if self.frame_control.to_ds && self.frame_control.from_ds {
            None
        } else if self.frame_control.to_ds {
            Some(self.address_1)
        } else if self.frame_control.from_ds {
            self.address_2
        } else {
            self.address_3
        }
    }
}

} // verus!
