//! The ten PTP message variants and their decoders.
//!
//! Every variant carries the common header and its own trailing fields,
//! which are read at fixed offsets of the buffer. A decoder first checks
//! the buffer against the minimum length of its variant, then decodes the
//! header from the start of the same buffer.

use vstd::prelude::*;
use vstd::string::StringExecFns;
use crate::error::DecodeError;
use crate::header::{
    PtpClockAccuracy, PtpClockClass, PtpHeader, PtpMessageType, PtpUtcOffset, PtpVersion,
};
use crate::identity::{ClockIdentity, PortIdentity};
use crate::text::{decimal, decimal_string, format_kv, joined_rows};
use crate::timestamp::PtpTimestamp;
use crate::wire::{be16, read_i16, read_u16, signed16};

verus! {

/// A row of details: a label and a value.
pub fn row(label: &str, value: String) -> (pair: (String, String))
    ensures
        pair.deep_view() == (label@, value@),
{
    (String::from_str(label), value)
}

/// The label that precedes sample counts in the details of a message.
pub open spec fn samples_label() -> Seq<char> {
    "→ samples"@
}

/// What a transmitter announces of itself and of its grandmaster.
#[derive(Debug, Clone, Copy)]
pub struct AnnounceMessage {
    pub header: PtpHeader,
    pub origin_timestamp: PtpTimestamp,
    pub current_utc_offset: PtpUtcOffset,
    pub priority1: u8,
    pub priority2: u8,
    pub clock_class: PtpClockClass,
    pub clock_accuracy: PtpClockAccuracy,
    pub offset_scaled_log_variance: u16,
    pub ptt_identity: ClockIdentity,
    pub steps_removed: u16,
    pub time_source: u8,
}

impl AnnounceMessage {
    /// The least number of bytes of this message.
    pub const MIN_LENGTH: usize = 64;

    /// What decoding this message from `d` gives: an error where `d` has
    /// fewer than 64 bytes or its header is rejected, else the fields at
    /// their offsets.
    pub open spec fn parse(d: Seq<u8>) -> Result<AnnounceMessage, DecodeError> {
        if d.len() < 64 {
            Err(DecodeError::TooShort)
        } else {
            match PtpHeader::parse(d) {
                Err(e) => Err(e),
                Ok(header) => Ok(
                    AnnounceMessage {
                        header,
                        origin_timestamp: PtpTimestamp::from_bytes(d.subrange(34, 44)),
                        current_utc_offset: PtpUtcOffset { offset: signed16(be16(d, 44)) as i16 },
                        priority1: d[47],
                        priority2: d[52],
                        clock_class: PtpClockClass { class: d[48] },
                        clock_accuracy: PtpClockAccuracy { accuracy: d[49] },
                        offset_scaled_log_variance: be16(d, 50) as u16,
                        ptt_identity: ClockIdentity::from_bytes(d.subrange(53, 61)),
                        steps_removed: be16(d, 61) as u16,
                        time_source: d[63],
                    },
                ),
            }
        }
    }

    /// Decodes this message from `data`.
    pub fn try_from(data: &[u8]) -> (result: Result<AnnounceMessage, DecodeError>)
        ensures
            result == AnnounceMessage::parse(data@),
    {
        if data.len() < Self::MIN_LENGTH {
            return Err(DecodeError::TooShort);
        }
        let header = match PtpHeader::try_from(data) {
            Ok(header) => header,
            Err(e) => {
                return Err(e);
            },
        };
        let message = AnnounceMessage {
            header,
            origin_timestamp: PtpTimestamp::read(data, 34),
            current_utc_offset: PtpUtcOffset::new(read_i16(data, 44)),
            priority1: data[47],
            priority2: data[52],
            clock_class: PtpClockClass::new(data[48]),
            clock_accuracy: PtpClockAccuracy::new(data[49]),
            offset_scaled_log_variance: read_u16(data, 50),
            ptt_identity: ClockIdentity::read(data, 53),
            steps_removed: read_u16(data, 61),
            time_source: data[63],
        };
        Ok(message)
    }

    /// The fields of this message as labelled text.
    pub open spec fn detail_rows(self) -> Seq<(Seq<char>, Seq<char>)> {
        seq![
            ("Origin Timestamp"@, self.origin_timestamp.text()),
            ("Current UTC Offset"@, self.current_utc_offset.text()),
            ("Priority1"@, decimal(self.priority1 as nat)),
            ("Priority2"@, decimal(self.priority2 as nat)),
            ("Clock Class"@, self.clock_class.text()),
            ("Clock Accuracy"@, self.clock_accuracy.text()),
            ("Offset Scaled Log Variance"@, decimal(self.offset_scaled_log_variance as nat)),
            ("PTP Identity"@, self.ptt_identity.text()),
            ("Steps Removed"@, decimal(self.steps_removed as nat)),
            ("Time Source"@, decimal(self.time_source as nat)),
        ]
    }

    /// The fields of this message as labelled text.
    pub fn details(&self) -> (rows: Vec<(String, String)>)
        ensures
            rows.deep_view() == self.detail_rows(),
    {
        let rows = vec![
            row("Origin Timestamp", self.origin_timestamp.to_string()),
            row("Current UTC Offset", self.current_utc_offset.to_string()),
            row("Priority1", decimal_string(self.priority1 as u128)),
            row("Priority2", decimal_string(self.priority2 as u128)),
            row("Clock Class", self.clock_class.to_string()),
            row("Clock Accuracy", self.clock_accuracy.to_string()),
            row(
                "Offset Scaled Log Variance",
                decimal_string(self.offset_scaled_log_variance as u128),
            ),
            row("PTP Identity", self.ptt_identity.to_string()),
            row("Steps Removed", decimal_string(self.steps_removed as u128)),
            row("Time Source", decimal_string(self.time_source as u128)),
        ];
        assert(rows.deep_view() =~= self.detail_rows());
        rows
    }

    /// The fields of this message as `label: value`, joined by commas.
    pub open spec fn text(self) -> Seq<char> {
        joined_rows(self.detail_rows())
    }

    /// The fields of this message as `label: value`, joined by commas.
    pub fn to_string(&self) -> (text: String)
        ensures
            text@ == self.text(),
    {
        format_kv(&self.details())
    }
}

/// The event message with which a transmitter distributes time.
#[derive(Debug, Clone, Copy)]
pub struct SyncMessage {
    pub header: PtpHeader,
    pub origin_timestamp: PtpTimestamp,
}

impl SyncMessage {
    /// The least number of bytes of this message.
    pub const MIN_LENGTH: usize = 44;

    /// What decoding this message from `d` gives: an error where `d` has
    /// fewer than 44 bytes or its header is rejected, else the fields at
    /// their offsets.
    pub open spec fn parse(d: Seq<u8>) -> Result<SyncMessage, DecodeError> {
        if d.len() < 44 {
            Err(DecodeError::TooShort)
        } else {
            match PtpHeader::parse(d) {
                Err(e) => Err(e),
                Ok(header) => Ok(
                    SyncMessage {
                        header,
                        origin_timestamp: PtpTimestamp::from_bytes(d.subrange(34, 44)),
                    },
                ),
            }
        }
    }

    /// Decodes this message from `data`.
    pub fn try_from(data: &[u8]) -> (result: Result<SyncMessage, DecodeError>)
        ensures
            result == SyncMessage::parse(data@),
    {
        if data.len() < Self::MIN_LENGTH {
            return Err(DecodeError::TooShort);
        }
        let header = match PtpHeader::try_from(data) {
            Ok(header) => header,
            Err(e) => {
                return Err(e);
            },
        };
        let message = SyncMessage {
            header,
            origin_timestamp: PtpTimestamp::read(data, 34),
        };
        Ok(message)
    }

    /// The timestamp of this message as labelled text.
    pub open spec fn compact_rows(self) -> Seq<(Seq<char>, Seq<char>)> {
        seq![("OriginTS"@, self.origin_timestamp.text())]
    }

    /// The timestamp of this message and its sample counts at the common
    /// sample rates, as labelled text.
    pub open spec fn detail_rows(self) -> Seq<(Seq<char>, Seq<char>)> {
        self.compact_rows() + self.origin_timestamp.samplerate_rows(samples_label())
    }

    /// The timestamp of this message as labelled text.
    pub fn details_compact(&self) -> (rows: Vec<(String, String)>)
        ensures
            rows.deep_view() == self.compact_rows(),
    {
        let rows = vec![row("OriginTS", self.origin_timestamp.to_string())];
        assert(rows.deep_view() =~= self.compact_rows());
        rows
    }

    /// The timestamp of this message and its sample counts at the common
    /// sample rates, as labelled text.
    pub fn details(&self) -> (rows: Vec<(String, String)>)
        ensures
            rows.deep_view() == self.detail_rows(),
    {
        let mut rows = self.details_compact();
        let mut samples = self.origin_timestamp.format_common_samplerates("→ samples");
        let ghost first = rows.deep_view();
        let ghost second = samples.deep_view();
        rows.append(&mut samples);
        assert(rows.deep_view() =~= first + second);
        rows
    }

    /// The timestamp of this message as `label: value`.
    pub open spec fn text(self) -> Seq<char> {
        joined_rows(self.compact_rows())
    }

    /// The timestamp of this message as `label: value`.
    pub fn to_string(&self) -> (text: String)
        ensures
            text@ == self.text(),
    {
        format_kv(&self.details_compact())
    }
}

/// The precise origin timestamp of the Sync message before it.
#[derive(Debug, Clone, Copy)]
pub struct FollowUpMessage {
    pub header: PtpHeader,
    pub precise_origin_timestamp: PtpTimestamp,
}

impl FollowUpMessage {
    /// The least number of bytes of this message.
    pub const MIN_LENGTH: usize = 44;

    /// What decoding this message from `d` gives: an error where `d` has
    /// fewer than 44 bytes or its header is rejected, else the fields at
    /// their offsets.
    pub open spec fn parse(d: Seq<u8>) -> Result<FollowUpMessage, DecodeError> {
        if d.len() < 44 {
            Err(DecodeError::TooShort)
        } else {
            match PtpHeader::parse(d) {
                Err(e) => Err(e),
                Ok(header) => Ok(
                    FollowUpMessage {
                        header,
                        precise_origin_timestamp: PtpTimestamp::from_bytes(d.subrange(34, 44)),
                    },
                ),
            }
        }
    }

    /// Decodes this message from `data`.
    pub fn try_from(data: &[u8]) -> (result: Result<FollowUpMessage, DecodeError>)
        ensures
            result == FollowUpMessage::parse(data@),
    {
        if data.len() < Self::MIN_LENGTH {
            return Err(DecodeError::TooShort);
        }
        let header = match PtpHeader::try_from(data) {
            Ok(header) => header,
            Err(e) => {
                return Err(e);
            },
        };
        let message = FollowUpMessage {
            header,
            precise_origin_timestamp: PtpTimestamp::read(data, 34),
        };
        Ok(message)
    }

    /// The timestamp of this message as labelled text.
    pub open spec fn compact_rows(self) -> Seq<(Seq<char>, Seq<char>)> {
        seq![("PreciseOriginTS"@, self.precise_origin_timestamp.text())]
    }

    /// The timestamp of this message and its sample counts at the common
    /// sample rates, as labelled text.
    pub open spec fn detail_rows(self) -> Seq<(Seq<char>, Seq<char>)> {
        self.compact_rows() + self.precise_origin_timestamp.samplerate_rows(samples_label())
    }

    /// The timestamp of this message as labelled text.
    pub fn details_compact(&self) -> (rows: Vec<(String, String)>)
        ensures
            rows.deep_view() == self.compact_rows(),
    {
        let rows = vec![row("PreciseOriginTS", self.precise_origin_timestamp.to_string())];
        assert(rows.deep_view() =~= self.compact_rows());
        rows
    }

    /// The timestamp of this message and its sample counts at the common
    /// sample rates, as labelled text.
    pub fn details(&self) -> (rows: Vec<(String, String)>)
        ensures
            rows.deep_view() == self.detail_rows(),
    {
        let mut rows = self.details_compact();
        let mut samples = self.precise_origin_timestamp.format_common_samplerates("→ samples");
        let ghost first = rows.deep_view();
        let ghost second = samples.deep_view();
        rows.append(&mut samples);
        assert(rows.deep_view() =~= first + second);
        rows
    }

    /// The timestamp of this message as `label: value`.
    pub open spec fn text(self) -> Seq<char> {
        joined_rows(self.compact_rows())
    }

    /// The timestamp of this message as `label: value`.
    pub fn to_string(&self) -> (text: String)
        ensures
            text@ == self.text(),
    {
        format_kv(&self.details_compact())
    }
}

/// A peer delay request.
#[derive(Debug, Clone, Copy)]
pub struct PDelayReqMessage {
    pub header: PtpHeader,
    pub origin_timestamp: PtpTimestamp,
}

impl PDelayReqMessage {
    /// The least number of bytes of this message.
    pub const MIN_LENGTH: usize = 54;

    /// What decoding this message from `d` gives: an error where `d` has
    /// fewer than 54 bytes or its header is rejected, else the fields at
    /// their offsets.
    pub open spec fn parse(d: Seq<u8>) -> Result<PDelayReqMessage, DecodeError> {
        if d.len() < 54 {
            Err(DecodeError::TooShort)
        } else {
            match PtpHeader::parse(d) {
                Err(e) => Err(e),
                Ok(header) => Ok(
                    PDelayReqMessage {
                        header,
                        origin_timestamp: PtpTimestamp::from_bytes(d.subrange(34, 44)),
                    },
                ),
            }
        }
    }

    /// Decodes this message from `data`.
    pub fn try_from(data: &[u8]) -> (result: Result<PDelayReqMessage, DecodeError>)
        ensures
            result == PDelayReqMessage::parse(data@),
    {
        if data.len() < Self::MIN_LENGTH {
            return Err(DecodeError::TooShort);
        }
        let header = match PtpHeader::try_from(data) {
            Ok(header) => header,
            Err(e) => {
                return Err(e);
            },
        };
        let message = PDelayReqMessage {
            header,
            origin_timestamp: PtpTimestamp::read(data, 34),
        };
        Ok(message)
    }

    /// The fields of this message as labelled text.
    pub open spec fn detail_rows(self) -> Seq<(Seq<char>, Seq<char>)> {
        seq![
            ("OriginTS"@, self.origin_timestamp.text()),
        ]
    }

    /// The fields of this message as labelled text.
    pub fn details(&self) -> (rows: Vec<(String, String)>)
        ensures
            rows.deep_view() == self.detail_rows(),
    {
        let rows = vec![
            row("OriginTS", self.origin_timestamp.to_string()),
        ];
        assert(rows.deep_view() =~= self.detail_rows());
        rows
    }

    /// The fields of this message as `label: value`, joined by commas.
    pub open spec fn text(self) -> Seq<char> {
        joined_rows(self.detail_rows())
    }

    /// The fields of this message as `label: value`, joined by commas.
    pub fn to_string(&self) -> (text: String)
        ensures
            text@ == self.text(),
    {
        format_kv(&self.details())
    }
}

/// A peer delay response, addressed to the port that asked.
#[derive(Debug, Clone, Copy)]
pub struct PDelayRespMessage {
    pub header: PtpHeader,
    pub request_receipt_timestamp: PtpTimestamp,
    pub requesting_port_identity: PortIdentity,
}

impl PDelayRespMessage {
    /// The least number of bytes of this message.
    pub const MIN_LENGTH: usize = 54;

    /// What decoding this message from `d` gives: an error where `d` has
    /// fewer than 54 bytes or its header is rejected, else the fields at
    /// their offsets.
    pub open spec fn parse(d: Seq<u8>) -> Result<PDelayRespMessage, DecodeError> {
        if d.len() < 54 {
            Err(DecodeError::TooShort)
        } else {
            match PtpHeader::parse(d) {
                Err(e) => Err(e),
                Ok(header) => Ok(
                    PDelayRespMessage {
                        header,
                        request_receipt_timestamp: PtpTimestamp::from_bytes(d.subrange(34, 44)),
                        requesting_port_identity: PortIdentity::from_bytes(d.subrange(44, 54)),
                    },
                ),
            }
        }
    }

    /// Decodes this message from `data`.
    pub fn try_from(data: &[u8]) -> (result: Result<PDelayRespMessage, DecodeError>)
        ensures
            result == PDelayRespMessage::parse(data@),
    {
        if data.len() < Self::MIN_LENGTH {
            return Err(DecodeError::TooShort);
        }
        let header = match PtpHeader::try_from(data) {
            Ok(header) => header,
            Err(e) => {
                return Err(e);
            },
        };
        let message = PDelayRespMessage {
            header,
            request_receipt_timestamp: PtpTimestamp::read(data, 34),
            requesting_port_identity: PortIdentity::read(data, 44),
        };
        Ok(message)
    }

    /// The fields of this message as labelled text.
    pub open spec fn detail_rows(self) -> Seq<(Seq<char>, Seq<char>)> {
        seq![
            ("RequestReceiptTS"@, self.request_receipt_timestamp.text()),
            ("RequestingPI"@, self.requesting_port_identity.text()),
        ]
    }

    /// The fields of this message as labelled text.
    pub fn details(&self) -> (rows: Vec<(String, String)>)
        ensures
            rows.deep_view() == self.detail_rows(),
    {
        let rows = vec![
            row("RequestReceiptTS", self.request_receipt_timestamp.to_string()),
            row("RequestingPI", self.requesting_port_identity.to_string()),
        ];
        assert(rows.deep_view() =~= self.detail_rows());
        rows
    }

    /// The fields of this message as `label: value`, joined by commas.
    pub open spec fn text(self) -> Seq<char> {
        joined_rows(self.detail_rows())
    }

    /// The fields of this message as `label: value`, joined by commas.
    pub fn to_string(&self) -> (text: String)
        ensures
            text@ == self.text(),
    {
        format_kv(&self.details())
    }
}

/// The precise origin timestamp of the peer delay response before it.
#[derive(Debug, Clone, Copy)]
pub struct PDelayRespFollowUpMessage {
    pub header: PtpHeader,
    pub response_origin_timestamp: PtpTimestamp,
    pub requesting_port_identity: PortIdentity,
}

impl PDelayRespFollowUpMessage {
    /// The least number of bytes of this message.
    pub const MIN_LENGTH: usize = 54;

    /// What decoding this message from `d` gives: an error where `d` has
    /// fewer than 54 bytes or its header is rejected, else the fields at
    /// their offsets.
    pub open spec fn parse(d: Seq<u8>) -> Result<PDelayRespFollowUpMessage, DecodeError> {
        if d.len() < 54 {
            Err(DecodeError::TooShort)
        } else {
            match PtpHeader::parse(d) {
                Err(e) => Err(e),
                Ok(header) => Ok(
                    PDelayRespFollowUpMessage {
                        header,
                        response_origin_timestamp: PtpTimestamp::from_bytes(d.subrange(34, 44)),
                        requesting_port_identity: PortIdentity::from_bytes(d.subrange(44, 54)),
                    },
                ),
            }
        }
    }

    /// Decodes this message from `data`.
    pub fn try_from(data: &[u8]) -> (result: Result<PDelayRespFollowUpMessage, DecodeError>)
        ensures
            result == PDelayRespFollowUpMessage::parse(data@),
    {
        if data.len() < Self::MIN_LENGTH {
            return Err(DecodeError::TooShort);
        }
        let header = match PtpHeader::try_from(data) {
            Ok(header) => header,
            Err(e) => {
                return Err(e);
            },
        };
        let message = PDelayRespFollowUpMessage {
            header,
            response_origin_timestamp: PtpTimestamp::read(data, 34),
            requesting_port_identity: PortIdentity::read(data, 44),
        };
        Ok(message)
    }

    /// The fields of this message as labelled text.
    pub open spec fn detail_rows(self) -> Seq<(Seq<char>, Seq<char>)> {
        seq![
            ("ResponseOriginTS"@, self.response_origin_timestamp.text()),
            ("RequestingPI"@, self.requesting_port_identity.text()),
        ]
    }

    /// The fields of this message as labelled text.
    pub fn details(&self) -> (rows: Vec<(String, String)>)
        ensures
            rows.deep_view() == self.detail_rows(),
    {
        let rows = vec![
            row("ResponseOriginTS", self.response_origin_timestamp.to_string()),
            row("RequestingPI", self.requesting_port_identity.to_string()),
        ];
        assert(rows.deep_view() =~= self.detail_rows());
        rows
    }

    /// The fields of this message as `label: value`, joined by commas.
    pub open spec fn text(self) -> Seq<char> {
        joined_rows(self.detail_rows())
    }

    /// The fields of this message as `label: value`, joined by commas.
    pub fn to_string(&self) -> (text: String)
        ensures
            text@ == self.text(),
    {
        format_kv(&self.details())
    }
}

/// An end-to-end delay request.
#[derive(Debug, Clone, Copy)]
pub struct DelayReqMessage {
    pub header: PtpHeader,
    pub origin_timestamp: PtpTimestamp,
}

impl DelayReqMessage {
    /// The least number of bytes of this message.
    pub const MIN_LENGTH: usize = 44;

    /// What decoding this message from `d` gives: an error where `d` has
    /// fewer than 44 bytes or its header is rejected, else the fields at
    /// their offsets.
    pub open spec fn parse(d: Seq<u8>) -> Result<DelayReqMessage, DecodeError> {
        if d.len() < 44 {
            Err(DecodeError::TooShort)
        } else {
            match PtpHeader::parse(d) {
                Err(e) => Err(e),
                Ok(header) => Ok(
                    DelayReqMessage {
                        header,
                        origin_timestamp: PtpTimestamp::from_bytes(d.subrange(34, 44)),
                    },
                ),
            }
        }
    }

    /// Decodes this message from `data`.
    pub fn try_from(data: &[u8]) -> (result: Result<DelayReqMessage, DecodeError>)
        ensures
            result == DelayReqMessage::parse(data@),
    {
        if data.len() < Self::MIN_LENGTH {
            return Err(DecodeError::TooShort);
        }
        let header = match PtpHeader::try_from(data) {
            Ok(header) => header,
            Err(e) => {
                return Err(e);
            },
        };
        let message = DelayReqMessage {
            header,
            origin_timestamp: PtpTimestamp::read(data, 34),
        };
        Ok(message)
    }

    /// The fields of this message as labelled text.
    pub open spec fn detail_rows(self) -> Seq<(Seq<char>, Seq<char>)> {
        seq![
            ("Origin TS"@, self.origin_timestamp.text()),
        ]
    }

    /// The fields of this message as labelled text.
    pub fn details(&self) -> (rows: Vec<(String, String)>)
        ensures
            rows.deep_view() == self.detail_rows(),
    {
        let rows = vec![
            row("Origin TS", self.origin_timestamp.to_string()),
        ];
        assert(rows.deep_view() =~= self.detail_rows());
        rows
    }

    /// The fields of this message as `label: value`, joined by commas.
    pub open spec fn text(self) -> Seq<char> {
        joined_rows(self.detail_rows())
    }

    /// The fields of this message as `label: value`, joined by commas.
    pub fn to_string(&self) -> (text: String)
        ensures
            text@ == self.text(),
    {
        format_kv(&self.details())
    }
}

/// An end-to-end delay response, addressed to the port that asked.
#[derive(Debug, Clone, Copy)]
pub struct DelayRespMessage {
    pub header: PtpHeader,
    pub receive_timestamp: PtpTimestamp,
    pub requesting_port_identity: PortIdentity,
}

impl DelayRespMessage {
    /// The least number of bytes of this message.
    pub const MIN_LENGTH: usize = 54;

    /// What decoding this message from `d` gives: an error where `d` has
    /// fewer than 54 bytes or its header is rejected, else the fields at
    /// their offsets.
    pub open spec fn parse(d: Seq<u8>) -> Result<DelayRespMessage, DecodeError> {
        if d.len() < 54 {
            Err(DecodeError::TooShort)
        } else {
            match PtpHeader::parse(d) {
                Err(e) => Err(e),
                Ok(header) => Ok(
                    DelayRespMessage {
                        header,
                        receive_timestamp: PtpTimestamp::from_bytes(d.subrange(34, 44)),
                        requesting_port_identity: PortIdentity::from_bytes(d.subrange(44, 54)),
                    },
                ),
            }
        }
    }

    /// Decodes this message from `data`.
    pub fn try_from(data: &[u8]) -> (result: Result<DelayRespMessage, DecodeError>)
        ensures
            result == DelayRespMessage::parse(data@),
    {
        if data.len() < Self::MIN_LENGTH {
            return Err(DecodeError::TooShort);
        }
        let header = match PtpHeader::try_from(data) {
            Ok(header) => header,
            Err(e) => {
                return Err(e);
            },
        };
        let message = DelayRespMessage {
            header,
            receive_timestamp: PtpTimestamp::read(data, 34),
            requesting_port_identity: PortIdentity::read(data, 44),
        };
        Ok(message)
    }

    /// The fields of this message as labelled text.
    pub open spec fn detail_rows(self) -> Seq<(Seq<char>, Seq<char>)> {
        seq![
            ("Receive TS"@, self.receive_timestamp.text()),
            ("Requesting PI"@, self.requesting_port_identity.text()),
        ]
    }

    /// The fields of this message as labelled text.
    pub fn details(&self) -> (rows: Vec<(String, String)>)
        ensures
            rows.deep_view() == self.detail_rows(),
    {
        let rows = vec![
            row("Receive TS", self.receive_timestamp.to_string()),
            row("Requesting PI", self.requesting_port_identity.to_string()),
        ];
        assert(rows.deep_view() =~= self.detail_rows());
        rows
    }

    /// The fields of this message as `label: value`, joined by commas.
    pub open spec fn text(self) -> Seq<char> {
        joined_rows(self.detail_rows())
    }

    /// The fields of this message as `label: value`, joined by commas.
    pub fn to_string(&self) -> (text: String)
        ensures
            text@ == self.text(),
    {
        format_kv(&self.details())
    }
}

/// A signaling message; the TLVs that follow the target are not decoded.
#[derive(Debug, Clone, Copy)]
pub struct SignalingMessage {
    pub header: PtpHeader,
    pub target_port_identity: PortIdentity,
}

impl SignalingMessage {
    /// The least number of bytes of this message.
    pub const MIN_LENGTH: usize = 54;

    /// What decoding this message from `d` gives: an error where `d` has
    /// fewer than 54 bytes or its header is rejected, else the fields at
    /// their offsets.
    pub open spec fn parse(d: Seq<u8>) -> Result<SignalingMessage, DecodeError> {
        if d.len() < 54 {
            Err(DecodeError::TooShort)
        } else {
            match PtpHeader::parse(d) {
                Err(e) => Err(e),
                Ok(header) => Ok(
                    SignalingMessage {
                        header,
                        target_port_identity: PortIdentity::from_bytes(d.subrange(34, 44)),
                    },
                ),
            }
        }
    }

    /// Decodes this message from `data`.
    pub fn try_from(data: &[u8]) -> (result: Result<SignalingMessage, DecodeError>)
        ensures
            result == SignalingMessage::parse(data@),
    {
        if data.len() < Self::MIN_LENGTH {
            return Err(DecodeError::TooShort);
        }
        let header = match PtpHeader::try_from(data) {
            Ok(header) => header,
            Err(e) => {
                return Err(e);
            },
        };
        let message = SignalingMessage {
            header,
            target_port_identity: PortIdentity::read(data, 34),
        };
        Ok(message)
    }

    /// The fields of this message as labelled text.
    pub open spec fn detail_rows(self) -> Seq<(Seq<char>, Seq<char>)> {
        seq![
            ("Target PI"@, self.target_port_identity.text()),
        ]
    }

    /// The fields of this message as labelled text.
    pub fn details(&self) -> (rows: Vec<(String, String)>)
        ensures
            rows.deep_view() == self.detail_rows(),
    {
        let rows = vec![
            row("Target PI", self.target_port_identity.to_string()),
        ];
        assert(rows.deep_view() =~= self.detail_rows());
        rows
    }

    /// The fields of this message as `label: value`, joined by commas.
    pub open spec fn text(self) -> Seq<char> {
        joined_rows(self.detail_rows())
    }

    /// The fields of this message as `label: value`, joined by commas.
    pub fn to_string(&self) -> (text: String)
        ensures
            text@ == self.text(),
    {
        format_kv(&self.details())
    }
}

/// A management message; the TLV that follows the action is not decoded.
#[derive(Debug, Clone, Copy)]
pub struct ManagementMessage {
    pub header: PtpHeader,
    pub target_port_identity: PortIdentity,
    pub starting_boundary_hops: u8,
    pub boundary_hops: u8,
    pub action_field: u8,
}

impl ManagementMessage {
    /// The least number of bytes of this message.
    pub const MIN_LENGTH: usize = 54;

    /// What decoding this message from `d` gives: an error where `d` has
    /// fewer than 54 bytes or its header is rejected, else the fields at
    /// their offsets.
    pub open spec fn parse(d: Seq<u8>) -> Result<ManagementMessage, DecodeError> {
        if d.len() < 54 {
            Err(DecodeError::TooShort)
        } else {
            match PtpHeader::parse(d) {
                Err(e) => Err(e),
                Ok(header) => Ok(
                    ManagementMessage {
                        header,
                        target_port_identity: PortIdentity::from_bytes(d.subrange(34, 44)),
                        starting_boundary_hops: d[44],
                        boundary_hops: d[45],
                        action_field: d[46] % 16,
                    },
                ),
            }
        }
    }

    /// Decodes this message from `data`.
    pub fn try_from(data: &[u8]) -> (result: Result<ManagementMessage, DecodeError>)
        ensures
            result == ManagementMessage::parse(data@),
    {
        if data.len() < Self::MIN_LENGTH {
            return Err(DecodeError::TooShort);
        }
        let header = match PtpHeader::try_from(data) {
            Ok(header) => header,
            Err(e) => {
                return Err(e);
            },
        };
        let message = ManagementMessage {
            header,
            target_port_identity: PortIdentity::read(data, 34),
            starting_boundary_hops: data[44],
            boundary_hops: data[45],
            action_field: data[46] % 16,
        };
        Ok(message)
    }

    /// The fields of this message as labelled text.
    pub open spec fn detail_rows(self) -> Seq<(Seq<char>, Seq<char>)> {
        seq![
            ("Target PI"@, self.target_port_identity.text()),
            ("StartingBoundaryHops"@, decimal(self.starting_boundary_hops as nat)),
            ("BoundaryHops"@, decimal(self.boundary_hops as nat)),
            ("ActionField"@, decimal(self.action_field as nat)),
        ]
    }

    /// The fields of this message as labelled text.
    pub fn details(&self) -> (rows: Vec<(String, String)>)
        ensures
            rows.deep_view() == self.detail_rows(),
    {
        let rows = vec![
            row("Target PI", self.target_port_identity.to_string()),
            row("StartingBoundaryHops", decimal_string(self.starting_boundary_hops as u128)),
            row("BoundaryHops", decimal_string(self.boundary_hops as u128)),
            row("ActionField", decimal_string(self.action_field as u128)),
        ];
        assert(rows.deep_view() =~= self.detail_rows());
        rows
    }

    /// The fields of this message as `label: value`, joined by commas.
    pub open spec fn text(self) -> Seq<char> {
        joined_rows(self.detail_rows())
    }

    /// The fields of this message as `label: value`, joined by commas.
    pub fn to_string(&self) -> (text: String)
        ensures
            text@ == self.text(),
    {
        format_kv(&self.details())
    }
}

/// A decoded PTP message of any of the ten kinds.
#[derive(Debug, Clone, Copy)]
pub enum PtpMessage {
    Announce(AnnounceMessage),
    DelayReq(DelayReqMessage),
    DelayResp(DelayRespMessage),
    Sync(SyncMessage),
    PDelayReq(PDelayReqMessage),
    PDelayResp(PDelayRespMessage),
    FollowUp(FollowUpMessage),
    PDelayRespFollowup(PDelayRespFollowUpMessage),
    Signaling(SignalingMessage),
    Management(ManagementMessage),
}

impl PtpMessage {
    /// The common header of the message.
    pub open spec fn header_of(self) -> PtpHeader {
        match self {
            PtpMessage::Announce(msg) => msg.header,
            PtpMessage::DelayReq(msg) => msg.header,
            PtpMessage::DelayResp(msg) => msg.header,
            PtpMessage::Sync(msg) => msg.header,
            PtpMessage::PDelayReq(msg) => msg.header,
            PtpMessage::PDelayResp(msg) => msg.header,
            PtpMessage::FollowUp(msg) => msg.header,
            PtpMessage::PDelayRespFollowup(msg) => msg.header,
            PtpMessage::Signaling(msg) => msg.header,
            PtpMessage::Management(msg) => msg.header,
        }
    }

    /// The fields of the message as labelled text.
    pub open spec fn detail_rows(self) -> Seq<(Seq<char>, Seq<char>)> {
        match self {
            PtpMessage::Announce(msg) => msg.detail_rows(),
            PtpMessage::DelayReq(msg) => msg.detail_rows(),
            PtpMessage::DelayResp(msg) => msg.detail_rows(),
            PtpMessage::Sync(msg) => msg.detail_rows(),
            PtpMessage::PDelayReq(msg) => msg.detail_rows(),
            PtpMessage::PDelayResp(msg) => msg.detail_rows(),
            PtpMessage::FollowUp(msg) => msg.detail_rows(),
            PtpMessage::PDelayRespFollowup(msg) => msg.detail_rows(),
            PtpMessage::Signaling(msg) => msg.detail_rows(),
            PtpMessage::Management(msg) => msg.detail_rows(),
        }
    }

    /// The text of the message: that of its variant.
    pub open spec fn text(self) -> Seq<char> {
        match self {
            PtpMessage::Announce(msg) => msg.text(),
            PtpMessage::DelayReq(msg) => msg.text(),
            PtpMessage::DelayResp(msg) => msg.text(),
            PtpMessage::Sync(msg) => msg.text(),
            PtpMessage::PDelayReq(msg) => msg.text(),
            PtpMessage::PDelayResp(msg) => msg.text(),
            PtpMessage::FollowUp(msg) => msg.text(),
            PtpMessage::PDelayRespFollowup(msg) => msg.text(),
            PtpMessage::Signaling(msg) => msg.text(),
            PtpMessage::Management(msg) => msg.text(),
        }
    }

    /// What decoding a message from `d` gives.
    ///
    /// The header is decoded first; a header of a version other than 2 is
    /// rejected; then the decoder of the variant that the message type
    /// names decodes the whole buffer.
    pub open spec fn parse(d: Seq<u8>) -> Result<PtpMessage, DecodeError> {
        match PtpHeader::parse(d) {
            Err(e) => Err(e),
            Ok(header) => if header.version != PtpVersion::V2 {
                Err(DecodeError::UnsupportedVersion)
            } else {
                match header.message_type {
                    PtpMessageType::Announce => match AnnounceMessage::parse(d) {
                        Ok(msg) => Ok(PtpMessage::Announce(msg)),
                        Err(e) => Err(e),
                    },
                    PtpMessageType::DelayReq => match DelayReqMessage::parse(d) {
                        Ok(msg) => Ok(PtpMessage::DelayReq(msg)),
                        Err(e) => Err(e),
                    },
                    PtpMessageType::DelayResp => match DelayRespMessage::parse(d) {
                        Ok(msg) => Ok(PtpMessage::DelayResp(msg)),
                        Err(e) => Err(e),
                    },
                    PtpMessageType::Sync => match SyncMessage::parse(d) {
                        Ok(msg) => Ok(PtpMessage::Sync(msg)),
                        Err(e) => Err(e),
                    },
                    PtpMessageType::PDelayReq => match PDelayReqMessage::parse(d) {
                        Ok(msg) => Ok(PtpMessage::PDelayReq(msg)),
                        Err(e) => Err(e),
                    },
                    PtpMessageType::PDelayResp => match PDelayRespMessage::parse(d) {
                        Ok(msg) => Ok(PtpMessage::PDelayResp(msg)),
                        Err(e) => Err(e),
                    },
                    PtpMessageType::FollowUp => match FollowUpMessage::parse(d) {
                        Ok(msg) => Ok(PtpMessage::FollowUp(msg)),
                        Err(e) => Err(e),
                    },
                    PtpMessageType::PDelayRespFollowUp => match PDelayRespFollowUpMessage::parse(
                        d,
                    ) {
                        Ok(msg) => Ok(PtpMessage::PDelayRespFollowup(msg)),
                        Err(e) => Err(e),
                    },
                    PtpMessageType::Signaling => match SignalingMessage::parse(d) {
                        Ok(msg) => Ok(PtpMessage::Signaling(msg)),
                        Err(e) => Err(e),
                    },
                    PtpMessageType::Management => match ManagementMessage::parse(d) {
                        Ok(msg) => Ok(PtpMessage::Management(msg)),
                        Err(e) => Err(e),
                    },
                }
            },
        }
    }

    /// The common header of the message.
    pub fn header(&self) -> (header: &PtpHeader)
        ensures
            *header == self.header_of(),
    {
        match self {
            PtpMessage::Announce(msg) => &msg.header,
            PtpMessage::DelayReq(msg) => &msg.header,
            PtpMessage::DelayResp(msg) => &msg.header,
            PtpMessage::Sync(msg) => &msg.header,
            PtpMessage::PDelayReq(msg) => &msg.header,
            PtpMessage::PDelayResp(msg) => &msg.header,
            PtpMessage::FollowUp(msg) => &msg.header,
            PtpMessage::PDelayRespFollowup(msg) => &msg.header,
            PtpMessage::Signaling(msg) => &msg.header,
            PtpMessage::Management(msg) => &msg.header,
        }
    }

    /// The fields of the message as labelled text.
    pub fn details(&self) -> (rows: Vec<(String, String)>)
        ensures
            rows.deep_view() == self.detail_rows(),
    {
        match self {
            PtpMessage::Announce(msg) => msg.details(),
            PtpMessage::DelayReq(msg) => msg.details(),
            PtpMessage::DelayResp(msg) => msg.details(),
            PtpMessage::Sync(msg) => msg.details(),
            PtpMessage::PDelayReq(msg) => msg.details(),
            PtpMessage::PDelayResp(msg) => msg.details(),
            PtpMessage::FollowUp(msg) => msg.details(),
            PtpMessage::PDelayRespFollowup(msg) => msg.details(),
            PtpMessage::Signaling(msg) => msg.details(),
            PtpMessage::Management(msg) => msg.details(),
        }
    }

    /// The text of the message: that of its variant.
    pub fn to_string(&self) -> (text: String)
        ensures
            text@ == self.text(),
    {
        match self {
            PtpMessage::Announce(msg) => msg.to_string(),
            PtpMessage::DelayReq(msg) => msg.to_string(),
            PtpMessage::DelayResp(msg) => msg.to_string(),
            PtpMessage::Sync(msg) => msg.to_string(),
            PtpMessage::PDelayReq(msg) => msg.to_string(),
            PtpMessage::PDelayResp(msg) => msg.to_string(),
            PtpMessage::FollowUp(msg) => msg.to_string(),
            PtpMessage::PDelayRespFollowup(msg) => msg.to_string(),
            PtpMessage::Signaling(msg) => msg.to_string(),
            PtpMessage::Management(msg) => msg.to_string(),
        }
    }

    /// Decodes a message from the payload bytes `data`.
    pub fn try_from(data: &[u8]) -> (result: Result<PtpMessage, DecodeError>)
        ensures
            result == PtpMessage::parse(data@),
    {
        let header = match PtpHeader::try_from(data) {
            Ok(header) => header,
            Err(e) => {
                return Err(e);
            },
        };
        match header.version {
            PtpVersion::V2 => {},
            PtpVersion::V1 => {
                return Err(DecodeError::UnsupportedVersion);
            },
        }
        match header.message_type {
            PtpMessageType::Announce => match AnnounceMessage::try_from(data) {
                Ok(msg) => Ok(PtpMessage::Announce(msg)),
                Err(e) => Err(e),
            },
            PtpMessageType::DelayReq => match DelayReqMessage::try_from(data) {
                Ok(msg) => Ok(PtpMessage::DelayReq(msg)),
                Err(e) => Err(e),
            },
            PtpMessageType::DelayResp => match DelayRespMessage::try_from(data) {
                Ok(msg) => Ok(PtpMessage::DelayResp(msg)),
                Err(e) => Err(e),
            },
            PtpMessageType::Sync => match SyncMessage::try_from(data) {
                Ok(msg) => Ok(PtpMessage::Sync(msg)),
                Err(e) => Err(e),
            },
            PtpMessageType::PDelayReq => match PDelayReqMessage::try_from(data) {
                Ok(msg) => Ok(PtpMessage::PDelayReq(msg)),
                Err(e) => Err(e),
            },
            PtpMessageType::PDelayResp => match PDelayRespMessage::try_from(data) {
                Ok(msg) => Ok(PtpMessage::PDelayResp(msg)),
                Err(e) => Err(e),
            },
            PtpMessageType::FollowUp => match FollowUpMessage::try_from(data) {
                Ok(msg) => Ok(PtpMessage::FollowUp(msg)),
                Err(e) => Err(e),
            },
            PtpMessageType::PDelayRespFollowUp => match PDelayRespFollowUpMessage::try_from(data) {
                Ok(msg) => Ok(PtpMessage::PDelayRespFollowup(msg)),
                Err(e) => Err(e),
            },
            PtpMessageType::Signaling => match SignalingMessage::try_from(data) {
                Ok(msg) => Ok(PtpMessage::Signaling(msg)),
                Err(e) => Err(e),
            },
            PtpMessageType::Management => match ManagementMessage::try_from(data) {
                Ok(msg) => Ok(PtpMessage::Management(msg)),
                Err(e) => Err(e),
            },
        }
    }
}

} // verus!
