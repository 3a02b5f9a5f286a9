use vstd::prelude::*;

verus! {

/// The two type bits of the first frame-control byte.
#[derive(Clone, Copy, Debug, PartialEq, Eq, Hash, Structural)]
pub enum FrameType {
    Management,
    Control,
    Data,
    Unknown,
}

/// The four subtype bits, read against the frame type.
#[derive(Clone, Copy, Debug, PartialEq, Eq, Hash, Structural)]
pub enum FrameSubType {
    // Management
    AssoReq,
    AssoResp,
    ReassoReq,
    ReassoResp,
    ProbeReq,
    ProbeResp,
    Beacon,
    Atim,
    Disasso,
    Auth,
    Deauth,
    // Control
    Trigger,
    Tack,
    BeamformingReportPoll,
    NdpAnnouncement,
    ControlFrameExtension,
    ControlWrapper,
    BlockAckRequest,
    BlockAck,
    PsPoll,
    RTS,
    CTS,
    ACK,
    CfEnd,
    CfEndCfAck,
    // Data
    Data,
    DataCfAck,
    DataCfPull,
    DataCfAckCfPull,
    NullData,
    CfAck,
    CfPull,
    CfAckCfPull,
    QoS,
    QoSCfPull,
    QoSCfAckCfPull,
    QoSNullData,
    // Shared
    Reserved,
    UnHandled,
}

/// The first two bytes of every frame.
///
/// First byte: bits 0-1 protocol version, bits 2-3 frame type, bits 4-7 subtype.
/// Second byte, bit 0 upward: `to_ds`, `from_ds`, `more_frag`, `retry`,
/// `pwr_mgmt`, `more_data`, `wep`, `order`.
#[derive(Clone, Copy, Debug, PartialEq, Eq, Structural)]
pub struct FrameControl {
    pub frame_type: FrameType,
    pub frame_subtype: FrameSubType,
    pub to_ds: bool,
    pub from_ds: bool,
    pub more_frag: bool,
    pub retry: bool,
    pub pwr_mgmt: bool,
    pub more_data: bool,
    pub wep: bool,
    pub order: bool,
}

/// Bit `bit` (0 = least significant) of `data`.
pub open spec fn spec_bit(data: u8, bit: nat) -> bool {
    (data as nat / pow2(bit)) % 2 == 1
}

pub open spec fn pow2(n: nat) -> nat
    decreases n,
{
    if n == 0 { 1 } else { 2 * pow2((n - 1) as nat) }
}

pub open spec fn spec_protocol_version(byte: u8) -> u8 {
    (byte % 4) as u8
}

pub open spec fn spec_frame_type(byte: u8) -> FrameType {
    let t = (byte / 4) % 4;
    if t == 0 { FrameType::Management }
    else if t == 1 { FrameType::Control }
    else if t == 2 { FrameType::Data }
    else { FrameType::Unknown }
}

pub open spec fn spec_management_subtype(s: u8) -> FrameSubType {
    if s == 0 { FrameSubType::AssoReq }
    else if s == 1 { FrameSubType::AssoResp }
    else if s == 2 { FrameSubType::ReassoReq }
    else if s == 3 { FrameSubType::ReassoResp }
    else if s == 4 { FrameSubType::ProbeReq }
    else if s == 5 { FrameSubType::ProbeResp }
    else if s == 8 { FrameSubType::Beacon }
    else if s == 9 { FrameSubType::Atim }
    else if s == 10 { FrameSubType::Disasso }
    else if s == 11 { FrameSubType::Auth }
    else if s == 12 { FrameSubType::Deauth }
    else { FrameSubType::UnHandled }
}

pub open spec fn spec_control_subtype(s: u8) -> FrameSubType {
    if s <= 1 { FrameSubType::Reserved }
    else if s == 2 { FrameSubType::Trigger }
    else if s == 3 { FrameSubType::Tack }
    else if s == 4 { FrameSubType::BeamformingReportPoll }
    else if s == 5 { FrameSubType::NdpAnnouncement }
    else if s == 6 { FrameSubType::ControlFrameExtension }
    else if s == 7 { FrameSubType::ControlWrapper }
    else if s == 8 { FrameSubType::BlockAckRequest }
    else if s == 9 { FrameSubType::BlockAck }
    else if s == 10 { FrameSubType::PsPoll }
    else if s == 11 { FrameSubType::RTS }
    else if s == 12 { FrameSubType::CTS }
    else if s == 13 { FrameSubType::ACK }
    else if s == 14 { FrameSubType::CfEnd }
    else if s == 15 { FrameSubType::CfEndCfAck }
    else { FrameSubType::UnHandled }
}

pub open spec fn spec_data_subtype(s: u8) -> FrameSubType {
    if s == 0 { FrameSubType::Data }
    else if s == 1 { FrameSubType::DataCfAck }
    else if s == 2 { FrameSubType::DataCfPull }
    else if s == 3 { FrameSubType::DataCfAckCfPull }
    else if s == 4 { FrameSubType::NullData }
    else if s == 5 { FrameSubType::CfAck }
    else if s == 6 { FrameSubType::CfPull }
    else if s == 7 { FrameSubType::CfAckCfPull }
    else if s == 8 { FrameSubType::QoS }
    else if s == 10 { FrameSubType::QoSCfPull }
    else if s == 11 { FrameSubType::QoSCfAckCfPull }
    else if s == 12 { FrameSubType::QoSNullData }
    else if s == 13 { FrameSubType::Reserved }
    else { FrameSubType::UnHandled }
}

/// The subtype that the upper four bits of the first byte name for its type.
pub open spec fn spec_frame_subtype(byte: u8) -> FrameSubType {
    let s = (byte / 16) as u8;
    match spec_frame_type(byte) {
        FrameType::Management => spec_management_subtype(s),
        FrameType::Control => spec_control_subtype(s),
        FrameType::Data => spec_data_subtype(s),
        FrameType::Unknown => FrameSubType::UnHandled,
    }
}

/// The frame control that two bytes describe, protocol version aside.
pub open spec fn spec_frame_control(first: u8, flags: u8) -> FrameControl {
    FrameControl {
        frame_type: spec_frame_type(first),
        frame_subtype: spec_frame_subtype(first),
        to_ds: spec_bit(flags, 0),
        from_ds: spec_bit(flags, 1),
        more_frag: spec_bit(flags, 2),
        retry: spec_bit(flags, 3),
        pwr_mgmt: spec_bit(flags, 4),
        more_data: spec_bit(flags, 5),
        wep: spec_bit(flags, 6),
        order: spec_bit(flags, 7),
    }
}

/// Why a frame could not be decoded.
#[derive(Clone, Copy, Debug, PartialEq, Eq, Structural)]
pub enum DecodeError {
    /// The buffer ended before a required field.
    Incomplete,
    /// A protocol version other than 0.
    UnsupportedProtocol,
    /// The content contradicts itself: an information element runs past the
    /// end of the body.
    Failure,
}

/// Whether bit `bit` (0 = least significant) of `data` is set.
pub fn flag_is_set(data: u8, bit: u8) -> (r: bool)
    requires
        bit < 8,
    ensures
        r == spec_bit(data, bit as nat),
{
    let mut d: u8 = data;
    let mut i: u8 = 0;
    assert(pow2(0) == 1);
    assert(data as nat / 1 == data as nat);
    while i < bit
        invariant
            i <= bit < 8,
            d as nat == data as nat / pow2(i as nat),
        decreases bit - i,
    {
        proof {
            lemma_div_pow2_step(data as nat, i as nat);
        }
        d = d / 2;
        i = i + 1;
    }
    d % 2 == 1
}

proof fn lemma_div_pow2_step(x: nat, i: nat)
    ensures
        x / pow2(i + 1) == (x / pow2(i)) / 2,
{
    assert(pow2(i + 1) == 2 * pow2(i));
    lemma_pow2_pos(i);
    vstd::arithmetic::div_mod::lemma_div_denominator(x as int, pow2(i) as int, 2);
    assert(pow2(i) * 2 == 2 * pow2(i)) by (nonlinear_arith);
}

proof fn lemma_pow2_pos(i: nat)
    ensures
        pow2(i) > 0,
    decreases i,
{
    if i > 0 {
        lemma_pow2_pos((i - 1) as nat);
    }
}

impl FrameControl {
    /// Reads the two frame-control bytes at the start of `input`.
    pub fn from_bytes(input: &[u8]) -> (r: Result<FrameControl, DecodeError>)
        ensures
            input@.len() < 2 ==> r == Err::<FrameControl, DecodeError>(
                DecodeError::Incomplete,
            ),
            input@.len() >= 2 && spec_protocol_version(input@[0]) != 0 ==> r == Err::<
                FrameControl,
                DecodeError,
            >(DecodeError::UnsupportedProtocol),
            input@.len() >= 2 && spec_protocol_version(input@[0]) == 0 ==> r == Ok::<
                FrameControl,
                DecodeError,
            >(spec_frame_control(input@[0], input@[1])),
    {
        if input.len() < 2 {
            return Err(DecodeError::Incomplete);
        }
        let version_type_subtype = input[0];
        if FrameControl::protocol_version(version_type_subtype) != 0 {
            return Err(DecodeError::UnsupportedProtocol);
        }
        let frame_type = FrameControl::frame_type(version_type_subtype);
        let frame_subtype = match frame_type {
            FrameType::Management => FrameControl::management_frame_subtype(version_type_subtype),
            FrameType::Control => FrameControl::control_frame_subtype(version_type_subtype),
            FrameType::Data => FrameControl::data_frame_subtype(version_type_subtype),
            FrameType::Unknown => FrameSubType::UnHandled,
        };
        let flags = input[1];
        Ok(
            FrameControl {
                frame_type,
                frame_subtype,
                to_ds: flag_is_set(flags, 0),
                from_ds: flag_is_set(flags, 1),
                more_frag: flag_is_set(flags, 2),
                retry: flag_is_set(flags, 3),
                pwr_mgmt: flag_is_set(flags, 4),
                more_data: flag_is_set(flags, 5),
                wep: flag_is_set(flags, 6),
                order: flag_is_set(flags, 7),
            },
        )
    }

    /// Bits 0-1 of the first byte.
    pub fn protocol_version(byte: u8) -> (r: u8)
        ensures
            r == spec_protocol_version(byte),
    {
        byte % 4
    }

    /// Bits 2-3 of the first byte.
    pub fn frame_type(byte: u8) -> (r: FrameType)
        ensures
            r == spec_frame_type(byte),
    {
        match (byte / 4) % 4 {
            0 => FrameType::Management,
            1 => FrameType::Control,
            2 => FrameType::Data,
            _ => FrameType::Unknown,
        }
    }

    /// Bits 4-7 of the first byte, read as a management subtype.
    pub fn management_frame_subtype(byte: u8) -> (r: FrameSubType)
        ensures
            r == spec_management_subtype((byte / 16) as u8),
    {
        match byte / 16 {
            0 => FrameSubType::AssoReq,
            1 => FrameSubType::AssoResp,
            2 => FrameSubType::ReassoReq,
            3 => FrameSubType::ReassoResp,
            4 => FrameSubType::ProbeReq,
            5 => FrameSubType::ProbeResp,
            8 => FrameSubType::Beacon,
            9 => FrameSubType::Atim,
            10 => FrameSubType::Disasso,
            11 => FrameSubType::Auth,
            12 => FrameSubType::Deauth,
            _ => FrameSubType::UnHandled,
        }
    }

    /// Bits 4-7 of the first byte, read as a control subtype.
    pub fn control_frame_subtype(byte: u8) -> (r: FrameSubType)
        ensures
            r == spec_control_subtype((byte / 16) as u8),
    {
        match byte / 16 {
            0 => FrameSubType::Reserved,
            1 => FrameSubType::Reserved,
            2 => FrameSubType::Trigger,
            3 => FrameSubType::Tack,
            4 => FrameSubType::BeamformingReportPoll,
            5 => FrameSubType::NdpAnnouncement,
            6 => FrameSubType::ControlFrameExtension,
            7 => FrameSubType::ControlWrapper,
            8 => FrameSubType::BlockAckRequest,
            9 => FrameSubType::BlockAck,
            10 => FrameSubType::PsPoll,
            11 => FrameSubType::RTS,
            12 => FrameSubType::CTS,
            13 => FrameSubType::ACK,
            14 => FrameSubType::CfEnd,
            15 => FrameSubType::CfEndCfAck,
            _ => FrameSubType::UnHandled,
        }
    }

    /// Bits 4-7 of the first byte, read as a data subtype.
    pub fn data_frame_subtype(byte: u8) -> (r: FrameSubType)
        ensures
            r == spec_data_subtype((byte / 16) as u8),
    {
        match byte / 16 {
            0 => FrameSubType::Data,
            1 => FrameSubType::DataCfAck,
            2 => FrameSubType::DataCfPull,
            3 => FrameSubType::DataCfAckCfPull,
            4 => FrameSubType::NullData,
            5 => FrameSubType::CfAck,
            6 => FrameSubType::CfPull,
            7 => FrameSubType::CfAckCfPull,
            8 => FrameSubType::QoS,
            10 => FrameSubType::QoSCfPull,
            11 => FrameSubType::QoSCfAckCfPull,
            12 => FrameSubType::QoSNullData,
            13 => FrameSubType::Reserved,
            _ => FrameSubType::UnHandled,
        }
    }
}

} // verus!
