//! The 34-byte header that starts every PTP message, and the small value
//! types of its fields.

use vstd::prelude::*;
use vstd::string::StringExecFns;
use crate::error::DecodeError;
use crate::identity::PortIdentity;
use crate::text::{
    decimal, explicit_sign_decimal, hex2, joined_rows, padded, push_decimal, push_explicit_sign,
    push_hex2, push_padded, push_signed, signed_decimal,
};
use crate::wire::{be16, be64, read_i64, read_u16, signed64, signed8, to_i8};

verus! {

/// The length of the common header.
pub const HEADER_LENGTH: usize = 34;

/// The kind of a PTP message, as the low nibble of the first byte names it.
#[derive(Debug, Clone, Copy, PartialEq, Eq, Structural, Hash)]
pub enum PtpMessageType {
    Sync,
    /// End-to-end delay request.
    DelayReq,
    /// Peer delay request.
    PDelayReq,
    /// Peer delay response.
    PDelayResp,
    FollowUp,
    /// End-to-end delay response.
    DelayResp,
    /// Peer delay response follow-up.
    PDelayRespFollowUp,
    Announce,
    Signaling,
    Management,
}

impl PtpMessageType {
    /// The message type that a nibble names, if any.
    pub open spec fn from_nibble(value: u8) -> Option<PtpMessageType> {
        if value == 0x0 {
            Some(PtpMessageType::Sync)
        } else if value == 0x1 {
            Some(PtpMessageType::DelayReq)
        } else if value == 0x2 {
            Some(PtpMessageType::PDelayReq)
        } else if value == 0x3 {
            Some(PtpMessageType::PDelayResp)
        } else if value == 0x8 {
            Some(PtpMessageType::FollowUp)
        } else if value == 0x9 {
            Some(PtpMessageType::DelayResp)
        } else if value == 0xa {
            Some(PtpMessageType::PDelayRespFollowUp)
        } else if value == 0xb {
            Some(PtpMessageType::Announce)
        } else if value == 0xc {
            Some(PtpMessageType::Signaling)
        } else if value == 0xd {
            Some(PtpMessageType::Management)
        } else {
            None
        }
    }

    /// The nibble that names this message type.
    pub open spec fn nibble(self) -> u8 {
        match self {
            PtpMessageType::Sync => 0x0,
            PtpMessageType::DelayReq => 0x1,
            PtpMessageType::PDelayReq => 0x2,
            PtpMessageType::PDelayResp => 0x3,
            PtpMessageType::FollowUp => 0x8,
            PtpMessageType::DelayResp => 0x9,
            PtpMessageType::PDelayRespFollowUp => 0xa,
            PtpMessageType::Announce => 0xb,
            PtpMessageType::Signaling => 0xc,
            PtpMessageType::Management => 0xd,
        }
    }

    /// The upper-case name of this message type.
    pub open spec fn name(self) -> Seq<char> {
        match self {
            PtpMessageType::Sync => "SYNC"@,
            PtpMessageType::DelayReq => "DELAY_REQ"@,
            PtpMessageType::PDelayReq => "PDELAY_REQ"@,
            PtpMessageType::PDelayResp => "PDELAY_RESP"@,
            PtpMessageType::FollowUp => "FOLLOW_UP"@,
            PtpMessageType::DelayResp => "DELAY_RESP"@,
            PtpMessageType::PDelayRespFollowUp => "PDELAY_RESP_FU"@,
            PtpMessageType::Announce => "ANNOUNCE"@,
            PtpMessageType::Signaling => "SIGNALING"@,
            PtpMessageType::Management => "MANAGEMENT"@,
        }
    }

    /// Decodes a message type from its nibble.
    pub fn try_from(value: u8) -> (result: Result<PtpMessageType, DecodeError>)
        ensures
            result == match PtpMessageType::from_nibble(value) {
                Some(message_type) => Ok::<PtpMessageType, DecodeError>(message_type),
                None => Err::<PtpMessageType, DecodeError>(DecodeError::UnknownMessageType),
            },
    {
        match value {
            0x0 => Ok(PtpMessageType::Sync),
            0x1 => Ok(PtpMessageType::DelayReq),
            0x2 => Ok(PtpMessageType::PDelayReq),
            0x3 => Ok(PtpMessageType::PDelayResp),
            0x8 => Ok(PtpMessageType::FollowUp),
            0x9 => Ok(PtpMessageType::DelayResp),
            0xa => Ok(PtpMessageType::PDelayRespFollowUp),
            0xb => Ok(PtpMessageType::Announce),
            0xc => Ok(PtpMessageType::Signaling),
            0xd => Ok(PtpMessageType::Management),
            _ => Err(DecodeError::UnknownMessageType),
        }
    }

    /// The upper-case name of this message type.
    pub fn as_str(&self) -> (text: &'static str)
        ensures
            text@ == self.name(),
    {
        match self {
            PtpMessageType::Sync => "SYNC",
            PtpMessageType::DelayReq => "DELAY_REQ",
            PtpMessageType::PDelayReq => "PDELAY_REQ",
            PtpMessageType::PDelayResp => "PDELAY_RESP",
            PtpMessageType::FollowUp => "FOLLOW_UP",
            PtpMessageType::DelayResp => "DELAY_RESP",
            PtpMessageType::PDelayRespFollowUp => "PDELAY_RESP_FU",
            PtpMessageType::Announce => "ANNOUNCE",
            PtpMessageType::Signaling => "SIGNALING",
            PtpMessageType::Management => "MANAGEMENT",
        }
    }

    /// The upper-case name of this message type, as a new string.
    pub fn to_string(&self) -> (text: String)
        ensures
            text@ == self.name(),
    {
        String::from_str(self.as_str())
    }
}

/// The PTP version that a header declares.
#[derive(Debug, Clone, Copy, PartialEq, Eq, Structural)]
pub enum PtpVersion {
    V1,
    V2,
}

impl PtpVersion {
    /// The version that a nibble names, if any.
    pub open spec fn from_nibble(value: u8) -> Option<PtpVersion> {
        if value == 0x1 {
            Some(PtpVersion::V1)
        } else if value == 0x2 {
            Some(PtpVersion::V2)
        } else {
            None
        }
    }

    /// The nibble that names this version.
    pub open spec fn nibble(self) -> u8 {
        match self {
            PtpVersion::V1 => 0x1,
            PtpVersion::V2 => 0x2,
        }
    }

    /// The short name of this version.
    pub open spec fn name(self) -> Seq<char> {
        match self {
            PtpVersion::V1 => "v1"@,
            PtpVersion::V2 => "v2"@,
        }
    }

    /// Decodes a version from its nibble.
    pub fn try_from(value: u8) -> (result: Result<PtpVersion, DecodeError>)
        ensures
            result == match PtpVersion::from_nibble(value) {
                Some(version) => Ok::<PtpVersion, DecodeError>(version),
                None => Err::<PtpVersion, DecodeError>(DecodeError::UnknownVersion),
            },
    {
        match value {
            0x1 => Ok(PtpVersion::V1),
            0x2 => Ok(PtpVersion::V2),
            _ => Err(DecodeError::UnknownVersion),
        }
    }

    /// The short name of this version, as a new string.
    pub fn to_string(&self) -> (text: String)
        ensures
            text@ == self.name(),
    {
        match self {
            PtpVersion::V1 => String::from_str("v1"),
            PtpVersion::V2 => String::from_str("v2"),
        }
    }
}

/// The clock class that an Announce message advertises.
#[derive(Debug, Clone, Copy, PartialEq, Eq, Structural)]
pub struct PtpClockClass {
    pub class: u8,
}

impl PtpClockClass {
    /// A clock class from its number.
    pub fn new(class: u8) -> (clock_class: Self)
        ensures
            clock_class.class == class,
    {
        Self { class }
    }

    /// The number of the clock class.
    pub fn class(&self) -> (class: u8)
        ensures
            class == self.class,
    {
        self.class
    }

    /// What IEEE 1588 says a clock class stands for.
    pub open spec fn description_text(class: u8) -> Seq<char> {
        if class == 6 {
            "Primary reference (GPS, atomic clock, etc.)"@
        } else if class == 7 {
            "Primary reference (degraded)"@
        } else if class == 13 {
            "Application specific"@
        } else if class == 14 {
            "Application specific (degraded)"@
        } else if class == 52 {
            "Class 7 (degraded A)"@
        } else if class == 58 {
            "Class 14 (degraded A)"@
        } else if 68 <= class <= 122 || 133 <= class <= 170 || 216 <= class <= 232 {
            "Alternate PTP profile"@
        } else if class == 187 {
            "Class 7 (degraded B)"@
        } else if class == 193 {
            "Class 14 (degraded B)"@
        } else if class == 248 {
            "Default, free-running"@
        } else if class == 255 {
            "Follower-only"@
        } else {
            "Reserved"@
        }
    }

    /// The text of this clock class: its number and, in parentheses, what
    /// it stands for.
    pub open spec fn text(self) -> Seq<char> {
        decimal(self.class as nat) + " ("@ + Self::description_text(self.class) + ")"@
    }

    /// What IEEE 1588 says this clock class stands for.
    pub fn description(&self) -> (text: &'static str)
        ensures
            text@ == Self::description_text(self.class),
    {
        let class: u8 = self.class;
        if class == 6 {
            "Primary reference (GPS, atomic clock, etc.)"
        } else if class == 7 {
            "Primary reference (degraded)"
        } else if class == 13 {
            "Application specific"
        } else if class == 14 {
            "Application specific (degraded)"
        } else if class == 52 {
            "Class 7 (degraded A)"
        } else if class == 58 {
            "Class 14 (degraded A)"
        } else if (68 <= class && class <= 122) || (133 <= class && class <= 170) || (216 <= class
            && class <= 232) {
            "Alternate PTP profile"
        } else if class == 187 {
            "Class 7 (degraded B)"
        } else if class == 193 {
            "Class 14 (degraded B)"
        } else if class == 248 {
            "Default, free-running"
        } else if class == 255 {
            "Follower-only"
        } else {
            "Reserved"
        }
    }

    /// The text of this clock class.
    pub fn to_string(&self) -> (text: String)
        ensures
            text@ == self.text(),
    {
        let mut text = String::new();
        push_decimal(&mut text, self.class as u128);
        text.append(" (");
        text.append(self.description());
        text.append(")");
        assert(text@ =~= self.text());
        text
    }
}

/// The clock accuracy that an Announce message advertises.
#[derive(Debug, Clone, Copy, PartialEq, Eq, Structural)]
pub struct PtpClockAccuracy {
    pub accuracy: u8,
}

impl PtpClockAccuracy {
    /// A clock accuracy from its code.
    pub fn new(accuracy: u8) -> (clock_accuracy: Self)
        ensures
            clock_accuracy.accuracy == accuracy,
    {
        Self { accuracy }
    }

    /// What IEEE 1588 says an accuracy code stands for.
    pub open spec fn description_text(accuracy: u8) -> Seq<char> {
        if accuracy == 0x20 {
            "25 ns"@
        } else if accuracy == 0x21 {
            "100 ns"@
        } else if accuracy == 0x22 {
            "250 ns"@
        } else if accuracy == 0x23 {
            "1 µs"@
        } else if accuracy == 0x24 {
            "2.5 µs"@
        } else if accuracy == 0x25 {
            "10 µs"@
        } else if accuracy == 0x26 {
            "25 µs"@
        } else if accuracy == 0x27 {
            "100 µs"@
        } else if accuracy == 0x28 {
            "250 µs"@
        } else if accuracy == 0x29 {
            "1 ms"@
        } else if accuracy == 0x2a {
            "2.5 ms"@
        } else if accuracy == 0x2b {
            "10 ms"@
        } else if accuracy == 0x2c {
            "25 ms"@
        } else if accuracy == 0x2d {
            "100 ms"@
        } else if accuracy == 0x2e {
            "250 ms"@
        } else if accuracy == 0x2f {
            "1 s"@
        } else if accuracy == 0x30 {
            "10 s"@
        } else if accuracy == 0x31 {
            "> 10 s"@
        } else if 0x80 <= accuracy <= 0xfd {
            "Alternate PTP profile"@
        } else if accuracy == 0xfe {
            "Unknown"@
        } else {
            "Reserved"@
        }
    }

    /// The text of this accuracy: its code and, in parentheses, what it
    /// stands for.
    pub open spec fn text(self) -> Seq<char> {
        decimal(self.accuracy as nat) + " ("@ + Self::description_text(self.accuracy) + ")"@
    }

    /// What IEEE 1588 says this accuracy code stands for.
    pub fn description(&self) -> (text: &'static str)
        ensures
            text@ == Self::description_text(self.accuracy),
    {
        let accuracy: u8 = self.accuracy;
        if accuracy == 0x20 {
            "25 ns"
        } else if accuracy == 0x21 {
            "100 ns"
        } else if accuracy == 0x22 {
            "250 ns"
        } else if accuracy == 0x23 {
            "1 µs"
        } else if accuracy == 0x24 {
            "2.5 µs"
        } else if accuracy == 0x25 {
            "10 µs"
        } else if accuracy == 0x26 {
            "25 µs"
        } else if accuracy == 0x27 {
            "100 µs"
        } else if accuracy == 0x28 {
            "250 µs"
        } else if accuracy == 0x29 {
            "1 ms"
        } else if accuracy == 0x2a {
            "2.5 ms"
        } else if accuracy == 0x2b {
            "10 ms"
        } else if accuracy == 0x2c {
            "25 ms"
        } else if accuracy == 0x2d {
            "100 ms"
        } else if accuracy == 0x2e {
            "250 ms"
        } else if accuracy == 0x2f {
            "1 s"
        } else if accuracy == 0x30 {
            "10 s"
        } else if accuracy == 0x31 {
            "> 10 s"
        } else if 0x80 <= accuracy && accuracy <= 0xfd {
            "Alternate PTP profile"
        } else if accuracy == 0xfe {
            "Unknown"
        } else {
            "Reserved"
        }
    }

    /// The text of this accuracy.
    pub fn to_string(&self) -> (text: String)
        ensures
            text@ == self.text(),
    {
        let mut text = String::new();
        push_decimal(&mut text, self.accuracy as u128);
        text.append(" (");
        text.append(self.description());
        text.append(")");
        assert(text@ =~= self.text());
        text
    }
}

/// The offset between TAI and UTC, in seconds, that an Announce message
/// advertises.
#[derive(Debug, Clone, Copy, PartialEq, Eq, Structural)]
pub struct PtpUtcOffset {
    pub offset: i16,
}

impl PtpUtcOffset {
    /// An offset of `offset` seconds.
    pub fn new(offset: i16) -> (utc_offset: Self)
        ensures
            utc_offset.offset == offset,
    {
        Self { offset }
    }

    /// The text of this offset: the signed number of seconds and `s`.
    pub open spec fn text(self) -> Seq<char> {
        explicit_sign_decimal(self.offset as int) + "s"@
    }

    /// The text of this offset.
    pub fn to_string(&self) -> (text: String)
        ensures
            text@ == self.text(),
    {
        let mut text = String::new();
        push_explicit_sign(&mut text, self.offset as i128);
        text.append("s");
        assert(text@ =~= self.text());
        text
    }
}

/// The correction field of a header: nanoseconds scaled by 2^16.
#[derive(Debug, Clone, Copy, PartialEq, Eq, Structural)]
pub struct PtpCorrectionField {
    pub value: i64,
}

impl PtpCorrectionField {
    /// A correction of `value` units of 2^-16 nanoseconds.
    pub fn new(value: i64) -> (field: Self)
        ensures
            field.value == value,
    {
        Self { value }
    }
}

/// The sixteen flag bits of a header, raw and decoded.
#[derive(Debug, Clone, Copy)]
pub struct PtpHeaderFlags {
    pub v: [u8; 2],
    pub alternate_tt_flag: bool,
    pub two_step_flag: bool,
    pub unicast_flag: bool,
    pub profile_specific_1: bool,
    pub profile_specific_2: bool,
    pub ptp_security_flag: bool,
    pub leap61: bool,
    pub leap59: bool,
    pub current_utc_offset_valid: bool,
    pub ptp_timescale: bool,
    pub time_traceable: bool,
    pub frequency_traceable: bool,
    pub sync_uncertain: bool,
}

impl PtpHeaderFlags {
    /// The flags that the two bytes `first` and `second` encode.
    pub open spec fn from_pair(first: u8, second: u8) -> PtpHeaderFlags {
        PtpHeaderFlags {
            v: [first, second],
            alternate_tt_flag: (first & 0x01) != 0,
            two_step_flag: (first & 0x02) != 0,
            unicast_flag: (first & 0x04) != 0,
            profile_specific_1: (first & 0x20) != 0,
            profile_specific_2: (first & 0x40) != 0,
            ptp_security_flag: (first & 0x80) != 0,
            leap61: (second & 0x01) != 0,
            leap59: (second & 0x02) != 0,
            current_utc_offset_valid: (second & 0x04) != 0,
            ptp_timescale: (second & 0x08) != 0,
            time_traceable: (second & 0x10) != 0,
            frequency_traceable: (second & 0x20) != 0,
            sync_uncertain: (second & 0x40) != 0,
        }
    }

    /// Whether the decoded flags are those that the raw bytes encode.
    pub open spec fn well_formed(self) -> bool {
        self == Self::from_pair(self.v[0], self.v[1])
    }

    /// The raw flag bytes as four hexadecimal digits.
    pub open spec fn short_text(self) -> Seq<char> {
        hex2(self.v[0]) + hex2(self.v[1])
    }

    /// Decodes the flags from their two bytes.
    pub fn from_bytes(first: u8, second: u8) -> (flags: PtpHeaderFlags)
        ensures
            flags == PtpHeaderFlags::from_pair(first, second),
    {
        let flags = PtpHeaderFlags {
            v: [first, second],
            alternate_tt_flag: (first & 0x01) != 0,
            two_step_flag: (first & 0x02) != 0,
            unicast_flag: (first & 0x04) != 0,
            profile_specific_1: (first & 0x20) != 0,
            profile_specific_2: (first & 0x40) != 0,
            ptp_security_flag: (first & 0x80) != 0,
            leap61: (second & 0x01) != 0,
            leap59: (second & 0x02) != 0,
            current_utc_offset_valid: (second & 0x04) != 0,
            ptp_timescale: (second & 0x08) != 0,
            time_traceable: (second & 0x10) != 0,
            frequency_traceable: (second & 0x20) != 0,
            sync_uncertain: (second & 0x40) != 0,
        };
        assert(flags.v =~= PtpHeaderFlags::from_pair(first, second).v);
        flags
    }

    /// Decodes the flags from exactly two bytes.
    pub fn try_from(v: &[u8]) -> (result: Result<PtpHeaderFlags, DecodeError>)
        ensures
            v@.len() == 2 ==> result == Ok::<PtpHeaderFlags, DecodeError>(
                PtpHeaderFlags::from_pair(v@[0], v@[1]),
            ),
            v@.len() != 2 ==> result == Err::<PtpHeaderFlags, DecodeError>(
                DecodeError::WrongLength,
            ),
    {
        if v.len() != 2 {
            Err(DecodeError::WrongLength)
        } else {
            Ok(PtpHeaderFlags::from_bytes(v[0], v[1]))
        }
    }

    /// The name and value of every flag, in the order of the bits.
    pub open spec fn detail_rows(self) -> Seq<(&'static str, bool)> {
        seq![
            ("Alternate TT Flag", self.alternate_tt_flag),
            ("Two-Step Flag", self.two_step_flag),
            ("Unicast Flag", self.unicast_flag),
            ("Profile Specific 1", self.profile_specific_1),
            ("Profile Specific 2", self.profile_specific_2),
            ("Security Flag", self.ptp_security_flag),
            ("Leap 61", self.leap61),
            ("Leap 59", self.leap59),
            ("UTC Offset Valid", self.current_utc_offset_valid),
            ("PTP Timescale", self.ptp_timescale),
            ("Time Traceable", self.time_traceable),
            ("Frequency Traceable", self.frequency_traceable),
            ("Syncronization Uncertain", self.sync_uncertain),
        ]
    }

    /// The rows of [`PtpHeaderFlags::detail_rows`] as text.
    pub open spec fn text_rows(self) -> Seq<(Seq<char>, Seq<char>)> {
        Seq::new(
            13,
            |i: int| (self.detail_rows()[i].0@, bool_text(self.detail_rows()[i].1)),
        )
    }

    /// The flags as `name: value`, joined by commas.
    pub open spec fn text(self) -> Seq<char> {
        joined_rows(self.text_rows())
    }

    /// The name and value of every flag, in the order of the bits.
    pub fn details(&self) -> (rows: Vec<(&'static str, bool)>)
        ensures
            rows@ == self.detail_rows(),
    {
        let rows = vec![
            ("Alternate TT Flag", self.alternate_tt_flag),
            ("Two-Step Flag", self.two_step_flag),
            ("Unicast Flag", self.unicast_flag),
            ("Profile Specific 1", self.profile_specific_1),
            ("Profile Specific 2", self.profile_specific_2),
            ("Security Flag", self.ptp_security_flag),
            ("Leap 61", self.leap61),
            ("Leap 59", self.leap59),
            ("UTC Offset Valid", self.current_utc_offset_valid),
            ("PTP Timescale", self.ptp_timescale),
            ("Time Traceable", self.time_traceable),
            ("Frequency Traceable", self.frequency_traceable),
            ("Syncronization Uncertain", self.sync_uncertain),
        ];
        assert(rows@ =~= self.detail_rows());
        rows
    }

    /// The flags as `name: value`, joined by commas.
    pub fn to_string(&self) -> (text: String)
        ensures
            text@ == self.text(),
    {
        let details = self.details();
        let mut rows: Vec<(String, String)> = Vec::new();
        let mut i: usize = 0;
        while i < details.len()
            invariant
                i <= details.len(),
                details@ == self.detail_rows(),
                rows.len() == i,
                forall|j: int|
                    0 <= j < i ==> (#[trigger] rows[j]).deep_view() == self.text_rows()[j],
            decreases details.len() - i,
        {
            let value = if details[i].1 {
                String::from_str("true")
            } else {
                String::from_str("false")
            };
            rows.push((String::from_str(details[i].0), value));
            i += 1;
        }
        assert(rows.deep_view() =~= self.text_rows());
        crate::text::format_kv(&rows)
    }

    /// The raw flag bytes as four hexadecimal digits.
    pub fn short(&self) -> (text: String)
        ensures
            text@ == self.short_text(),
    {
        let mut text = String::new();
        push_hex2(&mut text, self.v[0]);
        push_hex2(&mut text, self.v[1]);
        assert(text@ =~= self.short_text());
        text
    }
}

/// The text of a boolean value.
pub open spec fn bool_text(b: bool) -> Seq<char> {
    if b {
        "true"@
    } else {
        "false"@
    }
}

/// The interval between messages, as a power of two in seconds.
#[derive(Debug, Clone, Copy, PartialEq, Eq, Structural)]
pub struct PtpLogInterval {
    pub exponent: i8,
}

impl PtpLogInterval {
    /// The exponent that stands for "not applicable".
    pub const NOT_APPLICABLE: i8 = 0x7f;

    /// An interval of two to the power of `exponent` seconds.
    pub fn new(exponent: i8) -> (interval: Self)
        ensures
            interval.exponent == exponent,
    {
        Self { exponent }
    }

    /// The hundredths of a second in two to the power of a negative
    /// `exponent`, rounded to the nearest and, at a tie, to the even
    /// hundredth.
    pub open spec fn hundredths(exponent: int) -> nat {
        if exponent == -1 {
            50
        } else if exponent == -2 {
            25
        } else if exponent == -3 {
            12
        } else if exponent == -4 {
            6
        } else if exponent == -5 {
            3
        } else if exponent == -6 {
            2
        } else if exponent == -7 {
            1
        } else {
            0
        }
    }

    /// The text of this interval: `-` for "not applicable", else the
    /// seconds with two decimals and, in parentheses, the exponent.
    pub open spec fn text(self) -> Seq<char> {
        if self.exponent == 0x7f {
            "-"@
        } else if self.exponent >= 0 {
            decimal((1u128 << (self.exponent as u32)) as nat) + ".00s ("@ + signed_decimal(
                self.exponent as int,
            ) + ")"@
        } else {
            "0."@ + padded(Self::hundredths(self.exponent as int), 2) + "s ("@ + signed_decimal(
                self.exponent as int,
            ) + ")"@
        }
    }

    /// The text of this interval.
    pub fn to_string(&self) -> (text: String)
        ensures
            text@ == self.text(),
    {
        let exponent: i8 = self.exponent;
        if exponent == Self::NOT_APPLICABLE {
            return String::from_str("-");
        }
        let mut text = String::new();
        if exponent >= 0 {
            let whole: u128 = 1u128 << (exponent as u32);
            push_decimal(&mut text, whole);
            text.append(".00s (");
        } else {
            let hundredths: u128 = if exponent == -1 {
                50
            } else if exponent == -2 {
                25
            } else if exponent == -3 {
                12
            } else if exponent == -4 {
                6
            } else if exponent == -5 {
                3
            } else if exponent == -6 {
                2
            } else if exponent == -7 {
                1
            } else {
                0
            };
            text.append("0.");
            push_padded(&mut text, hundredths, 2);
            text.append("s (");
        }
        push_signed(&mut text, exponent as i128);
        text.append(")");
        assert(text@ =~= self.text());
        text
    }
}

/// The common header of every PTP message.
#[derive(Debug, Clone, Copy)]
pub struct PtpHeader {
    pub message_type: PtpMessageType,
    pub version: PtpVersion,
    pub version_minor: u8,
    pub message_length: u16,
    pub domain_number: u8,
    pub sdo_id: u16,
    pub flags: PtpHeaderFlags,
    pub correction_field: PtpCorrectionField,
    pub msg_specific: [u8; 4],
    pub source_port_identity: PortIdentity,
    pub sequence_id: u16,
    pub _control_field: u8,
    pub log_message_interval: PtpLogInterval,
}

impl PtpHeader {
    /// The header that the first 34 bytes of `d` hold, given the message
    /// type and version that its two nibbles name.
    pub open spec fn from_bytes(
        d: Seq<u8>,
        message_type: PtpMessageType,
        version: PtpVersion,
    ) -> PtpHeader {
        PtpHeader {
            message_type,
            version,
            version_minor: d[1] / 16,
            message_length: be16(d, 2) as u16,
            domain_number: d[4],
            sdo_id: ((d[0] / 16) as int * 256 + d[5] as int) as u16,
            flags: PtpHeaderFlags::from_pair(d[6], d[7]),
            correction_field: PtpCorrectionField { value: signed64(be64(d, 8)) as i64 },
            msg_specific: [d[16], d[17], d[18], d[19]],
            source_port_identity: PortIdentity::from_bytes(d.subrange(20, 30)),
            sequence_id: be16(d, 30) as u16,
            _control_field: d[32],
            log_message_interval: PtpLogInterval { exponent: signed8(d[33] as int) as i8 },
        }
    }

    /// What decoding a header from `d` gives.
    ///
    /// A buffer of fewer than 34 bytes is rejected before any field is
    /// read; then the message type is checked, then the version.
    pub open spec fn parse(d: Seq<u8>) -> Result<PtpHeader, DecodeError> {
        if d.len() < 34 {
            Err(DecodeError::TooShort)
        } else {
            match PtpMessageType::from_nibble(d[0] % 16) {
                None => Err(DecodeError::UnknownMessageType),
                Some(message_type) => match PtpVersion::from_nibble(d[1] % 16) {
                    None => Err(DecodeError::UnknownVersion),
                    Some(version) => Ok(PtpHeader::from_bytes(d, message_type, version)),
                },
            }
        }
    }

    /// Decodes the header at the start of `data`.
    pub fn try_from(data: &[u8]) -> (result: Result<PtpHeader, DecodeError>)
        ensures
            result == PtpHeader::parse(data@),
    {
        if data.len() < HEADER_LENGTH {
            return Err(DecodeError::TooShort);
        }
        let message_type = match PtpMessageType::try_from(data[0] % 16) {
            Ok(message_type) => message_type,
            Err(e) => {
                return Err(e);
            },
        };
        let version = match PtpVersion::try_from(data[1] % 16) {
            Ok(version) => version,
            Err(e) => {
                return Err(e);
            },
        };
        let header = PtpHeader {
            message_type,
            version,
            version_minor: data[1] / 16,
            message_length: read_u16(data, 2),
            domain_number: data[4],
            sdo_id: ((data[0] / 16) as u16) * 256 + (data[5] as u16),
            flags: PtpHeaderFlags::from_bytes(data[6], data[7]),
            correction_field: PtpCorrectionField::new(read_i64(data, 8)),
            msg_specific: [data[16], data[17], data[18], data[19]],
            source_port_identity: PortIdentity::read(data, 20),
            sequence_id: read_u16(data, 30),
            _control_field: data[32],
            log_message_interval: PtpLogInterval::new(to_i8(data[33])),
        };
        proof {
            let expected = PtpHeader::from_bytes(data@, message_type, version);
            assert(header.msg_specific =~= expected.msg_specific);
            assert(header.flags.v =~= expected.flags.v);
            assert(header.source_port_identity.clock_identity.clock_id
                =~= expected.source_port_identity.clock_identity.clock_id);
        }
        Ok(header)
    }
}

/// The text of a clock class, or `N/A` where there is none.
pub fn format_clock_class(cc: Option<PtpClockClass>) -> (text: String)
    ensures
        text@ == match cc {
            Some(class) => class.text(),
            None => "N/A"@,
        },
{
    match cc {
        None => String::from_str("N/A"),
        Some(class) => class.to_string(),
    }
}

/// The text of a clock accuracy, or `N/A` where there is none.
pub fn format_clock_accuracy(ca: Option<PtpClockAccuracy>) -> (text: String)
    ensures
        text@ == match ca {
            Some(accuracy) => accuracy.text(),
            None => "N/A"@,
        },
{
    match ca {
        None => String::from_str("N/A"),
        Some(accuracy) => accuracy.to_string(),
    }
}

} // verus!
