//! The byte layout of PTP messages, read the other way round: which bytes
//! stand for a message. Nothing here runs; the layout is stated so that
//! decoding can be shown to recover every field of what was encoded.

use vstd::prelude::*;
use crate::error::DecodeError;
use crate::header::{PtpHeader, PtpMessageType, PtpVersion};
use crate::identity::{ClockIdentity, PortIdentity};
use crate::messages::{
    AnnounceMessage, DelayReqMessage, DelayRespMessage, FollowUpMessage, ManagementMessage,
    PDelayReqMessage, PDelayRespFollowUpMessage, PDelayRespMessage, PtpMessage, SignalingMessage,
    SyncMessage,
};
use crate::timestamp::PtpTimestamp;
use crate::wire::{be16, be32, be48, be64};

verus! {

/// The byte of `v` that counts units of 256 to the power `k`, for `k` from
/// 0 to 7.
pub open spec fn byte_of(v: int, k: int) -> u8 {
    if k == 0 {
        (v % 0x100) as u8
    } else if k == 1 {
        (v / 0x100 % 0x100) as u8
    } else if k == 2 {
        (v / 0x1_0000 % 0x100) as u8
    } else if k == 3 {
        (v / 0x100_0000 % 0x100) as u8
    } else if k == 4 {
        (v / 0x1_0000_0000 % 0x100) as u8
    } else if k == 5 {
        (v / 0x100_0000_0000 % 0x100) as u8
    } else if k == 6 {
        (v / 0x1_0000_0000_0000 % 0x100) as u8
    } else {
        (v / 0x100_0000_0000_0000 % 0x100) as u8
    }
}

/// The unsigned number below `modulus` whose two's-complement reading is
/// `v`.
pub open spec fn unsigned_of(v: int, modulus: int) -> int {
    if v < 0 {
        v + modulus
    } else {
        v
    }
}

/// Byte `i` of the ten bytes of a timestamp.
pub open spec fn timestamp_byte(t: PtpTimestamp, i: int) -> u8 {
    if i < 6 {
        byte_of(t.seconds as int, 5 - i)
    } else {
        byte_of(t.nanoseconds as int, 9 - i)
    }
}

/// Byte `i` of the ten bytes of a port identity.
pub open spec fn port_byte(p: PortIdentity, i: int) -> u8 {
    if i < 8 {
        p.clock_identity.clock_id[i]
    } else {
        byte_of(p.port_number as int, 9 - i)
    }
}

/// Byte `i` of the 34 bytes of a header.
pub open spec fn header_byte(h: PtpHeader, i: int) -> u8 {
    if i == 0 {
        ((h.sdo_id / 0x100) * 0x10 + h.message_type.nibble()) as u8
    } else if i == 1 {
        (h.version_minor * 0x10 + h.version.nibble()) as u8
    } else if i < 4 {
        byte_of(h.message_length as int, 3 - i)
    } else if i == 4 {
        h.domain_number
    } else if i == 5 {
        (h.sdo_id % 0x100) as u8
    } else if i < 8 {
        h.flags.v[i - 6]
    } else if i < 16 {
        byte_of(unsigned_of(h.correction_field.value as int, 0x1_0000_0000_0000_0000), 15 - i)
    } else if i < 20 {
        h.msg_specific[i - 16]
    } else if i < 30 {
        port_byte(h.source_port_identity, i - 20)
    } else if i < 32 {
        byte_of(h.sequence_id as int, 31 - i)
    } else if i == 32 {
        h._control_field
    } else {
        byte_of(unsigned_of(h.log_message_interval.exponent as int, 0x100), 0)
    }
}

/// Whether a timestamp fits the 48 bits that its seconds have on the wire.
pub open spec fn timestamp_fits(t: PtpTimestamp) -> bool {
    t.seconds < 0x1_0000_0000_0000
}

/// Whether a header can be encoded: its minor version fits a nibble, its
/// SDO id fits twelve bits, and its decoded flags are those of its raw flag
/// bytes.
pub open spec fn header_fits(h: PtpHeader) -> bool {
    &&& h.version_minor < 0x10
    &&& h.sdo_id < 0x1000
    &&& h.flags.well_formed()
}

/// The bytes of a two-byte field hold its value.
pub proof fn lemma_be16_of_bytes(d: Seq<u8>, at: int, v: int)
    requires
        0 <= v < 0x1_0000,
        0 <= at,
        at + 2 <= d.len(),
        d[at] == byte_of(v, 1),
        d[at + 1] == byte_of(v, 0),
    ensures
        be16(d, at) == v,
{
}

/// The upper two bytes of a 32-bit number are the bytes of its quotient
/// by 2^16, and its lower two bytes are the bytes of the remainder.
pub proof fn lemma_byte_split_32(v: u32)
    ensures
        byte_of(v as int / 0x1_0000, 1) == byte_of(v as int, 3),
        byte_of(v as int / 0x1_0000, 0) == byte_of(v as int, 2),
        byte_of(v as int % 0x1_0000, 1) == byte_of(v as int, 1),
        byte_of(v as int % 0x1_0000, 0) == byte_of(v as int, 0),
{
    assert(v / 0x1_0000 / 0x100 % 0x100 == v / 0x100_0000 % 0x100) by (bit_vector);
    assert(v % 0x1_0000 / 0x100 % 0x100 == v / 0x100 % 0x100) by (bit_vector);
    assert(v % 0x1_0000 % 0x100 == v % 0x100) by (bit_vector);
}

/// The bytes of a four-byte field hold its value.
pub proof fn lemma_be32_of_bytes(d: Seq<u8>, at: int, v: int)
    requires
        0 <= v < 0x1_0000_0000,
        0 <= at,
        at + 4 <= d.len(),
        forall|j: int| at <= j < at + 4 ==> #[trigger] d[j] == byte_of(v, at + 3 - j),
    ensures
        be32(d, at) == v,
{
    assert(d[at] == byte_of(v, 3));
    assert(d[at + 1] == byte_of(v, 2));
    assert(d[at + 2] == byte_of(v, 1));
    assert(d[at + 3] == byte_of(v, 0));
    let high = v / 0x1_0000;
    let low = v % 0x1_0000;
    lemma_byte_split_32(v as u32);
    lemma_be16_of_bytes(d, at, high);
    lemma_be16_of_bytes(d, at + 2, low);
}

/// The upper four bytes of a number are the bytes of its quotient by
/// 2^32, and its lower four bytes are the bytes of the remainder.
pub proof fn lemma_byte_split(v: u64)
    ensures
        forall|k: int| 0 <= k < 4 ==> #[trigger] byte_of(v as int / 0x1_0000_0000, k) == byte_of(
            v as int,
            k + 4,
        ),
        forall|k: int| 0 <= k < 4 ==> #[trigger] byte_of(v as int % 0x1_0000_0000, k) == byte_of(
            v as int,
            k,
        ),
{
    assert(v / 0x1_0000_0000 / 0x100 % 0x100 == v / 0x100_0000_0000 % 0x100) by (bit_vector);
    assert(v / 0x1_0000_0000 / 0x1_0000 % 0x100 == v / 0x1_0000_0000_0000 % 0x100)
        by (bit_vector);
    assert(v / 0x1_0000_0000 / 0x100_0000 % 0x100 == v / 0x100_0000_0000_0000 % 0x100)
        by (bit_vector);
    assert(v % 0x1_0000_0000 % 0x100 == v % 0x100) by (bit_vector);
    assert(v % 0x1_0000_0000 / 0x100 % 0x100 == v / 0x100 % 0x100) by (bit_vector);
    assert(v % 0x1_0000_0000 / 0x1_0000 % 0x100 == v / 0x1_0000 % 0x100) by (bit_vector);
    assert(v % 0x1_0000_0000 / 0x100_0000 % 0x100 == v / 0x100_0000 % 0x100) by (bit_vector);
    assert(byte_of(v as int / 0x1_0000_0000, 0) == byte_of(v as int, 4));
    assert(byte_of(v as int / 0x1_0000_0000, 1) == byte_of(v as int, 5));
    assert(byte_of(v as int / 0x1_0000_0000, 2) == byte_of(v as int, 6));
    assert(byte_of(v as int / 0x1_0000_0000, 3) == byte_of(v as int, 7));
    assert(byte_of(v as int % 0x1_0000_0000, 0) == byte_of(v as int, 0));
    assert(byte_of(v as int % 0x1_0000_0000, 1) == byte_of(v as int, 1));
    assert(byte_of(v as int % 0x1_0000_0000, 2) == byte_of(v as int, 2));
    assert(byte_of(v as int % 0x1_0000_0000, 3) == byte_of(v as int, 3));
}

/// The bytes of a six-byte field hold its value.
pub proof fn lemma_be48_of_bytes(d: Seq<u8>, at: int, v: int)
    requires
        0 <= v < 0x1_0000_0000_0000,
        0 <= at,
        at + 6 <= d.len(),
        forall|j: int| at <= j < at + 6 ==> #[trigger] d[j] == byte_of(v, at + 5 - j),
    ensures
        be48(d, at) == v,
{
    let high = v / 0x1_0000_0000;
    let low = v % 0x1_0000_0000;
    lemma_byte_split(v as u64);
    assert(d[at] == byte_of(v, 5));
    assert(d[at + 1] == byte_of(v, 4));
    assert(byte_of(high, 1) == byte_of(v, 5));
    assert(byte_of(high, 0) == byte_of(v, 4));
    assert forall|j: int| at + 2 <= j < at + 6 implies #[trigger] d[j] == byte_of(
        low,
        at + 2 + 3 - j,
    ) by {
        assert(d[j] == byte_of(v, at + 5 - j));
        assert(byte_of(low, at + 5 - j) == byte_of(v, at + 5 - j));
    }
    lemma_be16_of_bytes(d, at, high);
    lemma_be32_of_bytes(d, at + 2, low);
}

/// The bytes of an eight-byte field hold its value.
pub proof fn lemma_be64_of_bytes(d: Seq<u8>, at: int, v: int)
    requires
        0 <= v < 0x1_0000_0000_0000_0000,
        0 <= at,
        at + 8 <= d.len(),
        forall|j: int| at <= j < at + 8 ==> #[trigger] d[j] == byte_of(v, at + 7 - j),
    ensures
        be64(d, at) == v,
{
    let high = v / 0x1_0000_0000;
    let low = v % 0x1_0000_0000;
    lemma_byte_split(v as u64);
    assert forall|j: int| at <= j < at + 4 implies #[trigger] d[j] == byte_of(
        high,
        at + 3 - j,
    ) by {
        assert(d[j] == byte_of(v, at + 7 - j));
        assert(byte_of(high, at + 3 - j) == byte_of(v, (at + 3 - j) + 4));
    }
    assert forall|j: int| at + 4 <= j < at + 8 implies #[trigger] d[j] == byte_of(
        low,
        at + 4 + 3 - j,
    ) by {
        assert(d[j] == byte_of(v, at + 7 - j));
        assert(byte_of(low, at + 7 - j) == byte_of(v, at + 7 - j));
    }
    lemma_be32_of_bytes(d, at, high);
    lemma_be32_of_bytes(d, at + 4, low);
}

/// Ten bytes that encode a timestamp decode to it.
pub proof fn lemma_timestamp_of_bytes(d: Seq<u8>, at: int, t: PtpTimestamp)
    requires
        timestamp_fits(t),
        0 <= at,
        at + 10 <= d.len(),
        forall|j: int| at <= j < at + 10 ==> #[trigger] d[j] == timestamp_byte(t, j - at),
    ensures
        PtpTimestamp::from_bytes(d.subrange(at, at + 10)) == t,
{
    let s = d.subrange(at, at + 10);
    assert forall|j: int| 0 <= j < 6 implies #[trigger] s[j] == byte_of(
        t.seconds as int,
        5 - j,
    ) by {
        assert(s[j] == d[at + j]);
    }
    assert forall|j: int| 6 <= j < 10 implies #[trigger] s[j] == byte_of(
        t.nanoseconds as int,
        9 - j,
    ) by {
        assert(s[j] == d[at + j]);
    }
    lemma_be48_of_bytes(s, 0, t.seconds as int);
    lemma_be32_of_bytes(s, 6, t.nanoseconds as int);
}

/// Eight bytes that are those of a clock identity decode to it.
pub proof fn lemma_identity_of_bytes(d: Seq<u8>, at: int, id: ClockIdentity)
    requires
        0 <= at,
        at + 8 <= d.len(),
        forall|j: int| at <= j < at + 8 ==> #[trigger] d[j] == id.clock_id[j - at],
    ensures
        ClockIdentity::from_bytes(d.subrange(at, at + 8)) == id,
{
    let s = d.subrange(at, at + 8);
    assert forall|j: int| 0 <= j < 8 implies #[trigger] s[j] == id.clock_id[j] by {
        assert(s[j] == d[at + j]);
    }
    assert(ClockIdentity::from_bytes(s).clock_id =~= id.clock_id);
}

/// Ten bytes that encode a port identity decode to it.
pub proof fn lemma_port_of_bytes(d: Seq<u8>, at: int, p: PortIdentity)
    requires
        0 <= at,
        at + 10 <= d.len(),
        forall|j: int| at <= j < at + 10 ==> #[trigger] d[j] == port_byte(p, j - at),
    ensures
        PortIdentity::from_bytes(d.subrange(at, at + 10)) == p,
{
    let s = d.subrange(at, at + 10);
    assert forall|j: int| 0 <= j < 10 implies #[trigger] s[j] == port_byte(p, j) by {
        assert(s[j] == d[at + j]);
    }
    assert(s[8] == port_byte(p, 8));
    assert(s[9] == port_byte(p, 9));
    lemma_be16_of_bytes(s, 8, p.port_number as int);
    assert forall|j: int| 0 <= j < 8 implies #[trigger] s[j] == p.clock_identity.clock_id[j] by {
        assert(s[j] == port_byte(p, j));
    }
    assert(PortIdentity::from_bytes(s).clock_identity.clock_id =~= p.clock_identity.clock_id);
}

/// A buffer that starts with the 34 bytes of an encodable header decodes
/// to that header.
pub proof fn lemma_header_of_bytes(d: Seq<u8>, h: PtpHeader)
    requires
        header_fits(h),
        d.len() >= 34,
        forall|i: int| 0 <= i < 34 ==> #[trigger] d[i] == header_byte(h, i),
    ensures
        PtpHeader::parse(d) == Ok::<PtpHeader, DecodeError>(h),
{
    assert(d[0] == header_byte(h, 0));
    assert(d[1] == header_byte(h, 1));
    assert(d[4] == header_byte(h, 4));
    assert(d[5] == header_byte(h, 5));
    assert(d[6] == header_byte(h, 6));
    assert(d[7] == header_byte(h, 7));
    assert(d[32] == header_byte(h, 32));
    assert(d[33] == header_byte(h, 33));
    assert(d[0] % 16 == h.message_type.nibble());
    assert(PtpMessageType::from_nibble(h.message_type.nibble()) == Some(h.message_type));
    assert(d[1] % 16 == h.version.nibble());
    assert(PtpVersion::from_nibble(h.version.nibble()) == Some(h.version));
    let got = PtpHeader::from_bytes(d, h.message_type, h.version);
    assert(got.version_minor == h.version_minor);
    assert(d[2] == header_byte(h, 2));
    assert(d[3] == header_byte(h, 3));
    lemma_be16_of_bytes(d, 2, h.message_length as int);
    assert(got.sdo_id == h.sdo_id);
    assert(got.flags == h.flags) by {
        assert(got.flags.v =~= h.flags.v);
    }
    assert(got.correction_field == h.correction_field) by {
        let u = unsigned_of(h.correction_field.value as int, 0x1_0000_0000_0000_0000);
        assert forall|j: int| 8 <= j < 16 implies #[trigger] d[j] == byte_of(u, 8 + 7 - j) by {
            assert(d[j] == header_byte(h, j));
        }
        lemma_be64_of_bytes(d, 8, u);
    }
    assert(got.msg_specific =~= h.msg_specific) by {
        assert(d[16] == header_byte(h, 16));
        assert(d[17] == header_byte(h, 17));
        assert(d[18] == header_byte(h, 18));
        assert(d[19] == header_byte(h, 19));
    }
    assert(got.source_port_identity == h.source_port_identity) by {
        assert forall|j: int| 20 <= j < 30 implies #[trigger] d[j] == port_byte(
            h.source_port_identity,
            j - 20,
        ) by {
            assert(d[j] == header_byte(h, j));
        }
        lemma_port_of_bytes(d, 20, h.source_port_identity);
    }
    assert(got.sequence_id == h.sequence_id) by {
        assert(d[30] == header_byte(h, 30));
        assert(d[31] == header_byte(h, 31));
        lemma_be16_of_bytes(d, 30, h.sequence_id as int);
    }
    assert(got.log_message_interval == h.log_message_interval);
    assert(got == h);
}

impl PtpHeader {
    /// The 34 bytes that stand for this header.
    pub open spec fn encoded(self) -> Seq<u8> {
        Seq::new(34, |i: int| header_byte(self, i))
    }
}

/// Decoding the bytes of an encodable header recovers every field, and a
/// buffer that is one byte short of a header is rejected.
pub proof fn lemma_header_round_trip(h: PtpHeader)
    requires
        header_fits(h),
    ensures
        PtpHeader::parse(h.encoded()) == Ok::<PtpHeader, DecodeError>(h),
        PtpHeader::parse(h.encoded().take(33)) == Err::<PtpHeader, DecodeError>(
            DecodeError::TooShort,
        ),
{
    lemma_header_of_bytes(h.encoded(), h);
}

/// A header whose version nibble is neither 1 nor 2 is rejected, whatever
/// else the buffer holds, and so is every buffer of fewer than 34 bytes; a
/// header that is accepted has the version that its nibble names.
pub proof fn lemma_header_version_gate(d: Seq<u8>)
    ensures
        d.len() < 34 ==> PtpHeader::parse(d) == Err::<PtpHeader, DecodeError>(
            DecodeError::TooShort,
        ),
        d.len() >= 34 && d[1] % 16 != 1 && d[1] % 16 != 2 ==> PtpHeader::parse(d) is Err,
        PtpHeader::parse(d) matches Ok(h) ==> (h.version == PtpVersion::V1 <==> d[1] % 16 == 1)
            && (h.version == PtpVersion::V2 <==> d[1] % 16 == 2),
{
}

/// The message decoder rejects every buffer whose version nibble is not 2:
/// also one of version 1, whose header alone would decode.
pub proof fn lemma_message_version_gate(d: Seq<u8>)
    ensures
        d.len() >= 34 && d[1] % 16 != 2 ==> PtpMessage::parse(d) is Err,
        d.len() >= 34 && d[1] % 16 == 1 && PtpHeader::parse(d) is Ok ==> PtpMessage::parse(d)
            == Err::<PtpMessage, DecodeError>(DecodeError::UnsupportedVersion),
        d.len() < 34 ==> PtpMessage::parse(d) == Err::<PtpMessage, DecodeError>(
            DecodeError::TooShort,
        ),
{
    if d.len() >= 34 {
        lemma_header_version_gate(d);
        match PtpHeader::parse(d) {
            Err(e) => {},
            Ok(header) => {
                if header.version != PtpVersion::V2 {
                    assert(PtpMessage::parse(d) == Err::<PtpMessage, DecodeError>(
                        DecodeError::UnsupportedVersion,
                    ));
                }
            },
        }
    }
}

impl AnnounceMessage {
    /// Byte `i` of an Announce message, for `i` from 34 on; reserved bytes are zero.
    pub open spec fn payload_byte(self, i: int) -> u8 {
        if i < 44 {
            timestamp_byte(self.origin_timestamp, i - 34)
        } else if i < 46 {
            byte_of(unsigned_of(self.current_utc_offset.offset as int, 0x1_0000), 45 - i)
        } else if i == 46 {
            0
        } else if i == 47 {
            self.priority1
        } else if i == 48 {
            self.clock_class.class
        } else if i == 49 {
            self.clock_accuracy.accuracy
        } else if i < 52 {
            byte_of(self.offset_scaled_log_variance as int, 51 - i)
        } else if i == 52 {
            self.priority2
        } else if i < 61 {
            self.ptt_identity.clock_id[i - 53]
        } else if i < 63 {
            byte_of(self.steps_removed as int, 62 - i)
        } else {
            self.time_source
        }
    }

    /// Whether the message can be encoded: whether every field fits the
    /// bits it has on the wire.
    pub open spec fn well_formed(self) -> bool {
        &&& header_fits(self.header)
        &&& timestamp_fits(self.origin_timestamp)
    }

    /// The 64 bytes that stand for this message at its minimum length.
    pub open spec fn encoded(self) -> Seq<u8> {
        Seq::new(
            64,
            |i: int|
                if i < 34 {
                    header_byte(self.header, i)
                } else {
                    self.payload_byte(i)
                },
        )
    }
}

/// Decoding the bytes of an encodable AnnounceMessage recovers every field, and
/// the same bytes without the last one are rejected as too short.
pub proof fn lemma_announce_round_trip(m: AnnounceMessage)
    requires
        m.well_formed(),
    ensures
        AnnounceMessage::parse(m.encoded()) == Ok::<AnnounceMessage, DecodeError>(m),
        AnnounceMessage::parse(m.encoded().take(63)) == Err::<AnnounceMessage, DecodeError>(
            DecodeError::TooShort,
        ),
{
    let d = m.encoded();
    lemma_header_of_bytes(d, m.header);
    assert forall|j: int| 34 <= j < 44 implies #[trigger] d[j] == timestamp_byte(
        m.origin_timestamp,
        j - 34,
    ) by {}
    lemma_timestamp_of_bytes(d, 34, m.origin_timestamp);
    assert(d[44] == m.payload_byte(44));
    assert(d[45] == m.payload_byte(45));
    lemma_be16_of_bytes(d, 44, unsigned_of(m.current_utc_offset.offset as int, 0x1_0000));
    assert(d[47] == m.payload_byte(47));
    assert(d[48] == m.payload_byte(48));
    assert(d[49] == m.payload_byte(49));
    assert(d[50] == m.payload_byte(50));
    assert(d[51] == m.payload_byte(51));
    lemma_be16_of_bytes(d, 50, m.offset_scaled_log_variance as int);
    assert(d[52] == m.payload_byte(52));
    assert forall|j: int| 53 <= j < 61 implies #[trigger] d[j] == m.ptt_identity.clock_id[j
        - 53] by {}
    lemma_identity_of_bytes(d, 53, m.ptt_identity);
    assert(d[61] == m.payload_byte(61));
    assert(d[62] == m.payload_byte(62));
    lemma_be16_of_bytes(d, 61, m.steps_removed as int);
    assert(d[63] == m.payload_byte(63));
}

impl SyncMessage {
    /// Byte `i` of a Sync message, for `i` from 34 on; reserved bytes are zero.
    pub open spec fn payload_byte(self, i: int) -> u8 {
        if i < 44 {
            timestamp_byte(self.origin_timestamp, i - 34)
        } else {
            0
        }
    }

    /// Whether the message can be encoded: whether every field fits the
    /// bits it has on the wire.
    pub open spec fn well_formed(self) -> bool {
        &&& header_fits(self.header)
        &&& timestamp_fits(self.origin_timestamp)
    }

    /// The 44 bytes that stand for this message at its minimum length.
    pub open spec fn encoded(self) -> Seq<u8> {
        Seq::new(
            44,
            |i: int|
                if i < 34 {
                    header_byte(self.header, i)
                } else {
                    self.payload_byte(i)
                },
        )
    }
}

/// Decoding the bytes of an encodable SyncMessage recovers every field, and
/// the same bytes without the last one are rejected as too short.
pub proof fn lemma_sync_round_trip(m: SyncMessage)
    requires
        m.well_formed(),
    ensures
        SyncMessage::parse(m.encoded()) == Ok::<SyncMessage, DecodeError>(m),
        SyncMessage::parse(m.encoded().take(43)) == Err::<SyncMessage, DecodeError>(
            DecodeError::TooShort,
        ),
{
    let d = m.encoded();
    lemma_header_of_bytes(d, m.header);
    assert forall|j: int| 34 <= j < 44 implies #[trigger] d[j] == timestamp_byte(
        m.origin_timestamp,
        j - 34,
    ) by {}
    lemma_timestamp_of_bytes(d, 34, m.origin_timestamp);
}

impl FollowUpMessage {
    /// Byte `i` of a FollowUp message, for `i` from 34 on; reserved bytes are zero.
    pub open spec fn payload_byte(self, i: int) -> u8 {
        if i < 44 {
            timestamp_byte(self.precise_origin_timestamp, i - 34)
        } else {
            0
        }
    }

    /// Whether the message can be encoded: whether every field fits the
    /// bits it has on the wire.
    pub open spec fn well_formed(self) -> bool {
        &&& header_fits(self.header)
        &&& timestamp_fits(self.precise_origin_timestamp)
    }

    /// The 44 bytes that stand for this message at its minimum length.
    pub open spec fn encoded(self) -> Seq<u8> {
        Seq::new(
            44,
            |i: int|
                if i < 34 {
                    header_byte(self.header, i)
                } else {
                    self.payload_byte(i)
                },
        )
    }
}

/// Decoding the bytes of an encodable FollowUpMessage recovers every field, and
/// the same bytes without the last one are rejected as too short.
pub proof fn lemma_follow_up_round_trip(m: FollowUpMessage)
    requires
        m.well_formed(),
    ensures
        FollowUpMessage::parse(m.encoded()) == Ok::<FollowUpMessage, DecodeError>(m),
        FollowUpMessage::parse(m.encoded().take(43)) == Err::<FollowUpMessage, DecodeError>(
            DecodeError::TooShort,
        ),
{
    let d = m.encoded();
    lemma_header_of_bytes(d, m.header);
    assert forall|j: int| 34 <= j < 44 implies #[trigger] d[j] == timestamp_byte(
        m.precise_origin_timestamp,
        j - 34,
    ) by {}
    lemma_timestamp_of_bytes(d, 34, m.precise_origin_timestamp);
}

impl DelayReqMessage {
    /// Byte `i` of a DelayReq message, for `i` from 34 on; reserved bytes are zero.
    pub open spec fn payload_byte(self, i: int) -> u8 {
        if i < 44 {
            timestamp_byte(self.origin_timestamp, i - 34)
        } else {
            0
        }
    }

    /// Whether the message can be encoded: whether every field fits the
    /// bits it has on the wire.
    pub open spec fn well_formed(self) -> bool {
        &&& header_fits(self.header)
        &&& timestamp_fits(self.origin_timestamp)
    }

    /// The 44 bytes that stand for this message at its minimum length.
    pub open spec fn encoded(self) -> Seq<u8> {
        Seq::new(
            44,
            |i: int|
                if i < 34 {
                    header_byte(self.header, i)
                } else {
                    self.payload_byte(i)
                },
        )
    }
}

/// Decoding the bytes of an encodable DelayReqMessage recovers every field, and
/// the same bytes without the last one are rejected as too short.
pub proof fn lemma_delay_req_round_trip(m: DelayReqMessage)
    requires
        m.well_formed(),
    ensures
        DelayReqMessage::parse(m.encoded()) == Ok::<DelayReqMessage, DecodeError>(m),
        DelayReqMessage::parse(m.encoded().take(43)) == Err::<DelayReqMessage, DecodeError>(
            DecodeError::TooShort,
        ),
{
    let d = m.encoded();
    lemma_header_of_bytes(d, m.header);
    assert forall|j: int| 34 <= j < 44 implies #[trigger] d[j] == timestamp_byte(
        m.origin_timestamp,
        j - 34,
    ) by {}
    lemma_timestamp_of_bytes(d, 34, m.origin_timestamp);
}

impl PDelayReqMessage {
    /// Byte `i` of a PDelayReq message, for `i` from 34 on; reserved bytes are zero.
    pub open spec fn payload_byte(self, i: int) -> u8 {
        if i < 44 {
            timestamp_byte(self.origin_timestamp, i - 34)
        } else {
            0
        }
    }

    /// Whether the message can be encoded: whether every field fits the
    /// bits it has on the wire.
    pub open spec fn well_formed(self) -> bool {
        &&& header_fits(self.header)
        &&& timestamp_fits(self.origin_timestamp)
    }

    /// The 54 bytes that stand for this message at its minimum length.
    pub open spec fn encoded(self) -> Seq<u8> {
        Seq::new(
            54,
            |i: int|
                if i < 34 {
                    header_byte(self.header, i)
                } else {
                    self.payload_byte(i)
                },
        )
    }
}

/// Decoding the bytes of an encodable PDelayReqMessage recovers every field, and
/// the same bytes without the last one are rejected as too short.
pub proof fn lemma_pdelay_req_round_trip(m: PDelayReqMessage)
    requires
        m.well_formed(),
    ensures
        PDelayReqMessage::parse(m.encoded()) == Ok::<PDelayReqMessage, DecodeError>(m),
        PDelayReqMessage::parse(m.encoded().take(53)) == Err::<PDelayReqMessage, DecodeError>(
            DecodeError::TooShort,
        ),
{
    let d = m.encoded();
    lemma_header_of_bytes(d, m.header);
    assert forall|j: int| 34 <= j < 44 implies #[trigger] d[j] == timestamp_byte(
        m.origin_timestamp,
        j - 34,
    ) by {}
    lemma_timestamp_of_bytes(d, 34, m.origin_timestamp);
}

impl DelayRespMessage {
    /// Byte `i` of a DelayResp message, for `i` from 34 on; reserved bytes are zero.
    pub open spec fn payload_byte(self, i: int) -> u8 {
        if i < 44 {
            timestamp_byte(self.receive_timestamp, i - 34)
        } else {
            port_byte(self.requesting_port_identity, i - 44)
        }
    }

    /// Whether the message can be encoded: whether every field fits the
    /// bits it has on the wire.
    pub open spec fn well_formed(self) -> bool {
        &&& header_fits(self.header)
        &&& timestamp_fits(self.receive_timestamp)
    }

    /// The 54 bytes that stand for this message at its minimum length.
    pub open spec fn encoded(self) -> Seq<u8> {
        Seq::new(
            54,
            |i: int|
                if i < 34 {
                    header_byte(self.header, i)
                } else {
                    self.payload_byte(i)
                },
        )
    }
}

/// Decoding the bytes of an encodable DelayRespMessage recovers every field, and
/// the same bytes without the last one are rejected as too short.
pub proof fn lemma_delay_resp_round_trip(m: DelayRespMessage)
    requires
        m.well_formed(),
    ensures
        DelayRespMessage::parse(m.encoded()) == Ok::<DelayRespMessage, DecodeError>(m),
        DelayRespMessage::parse(m.encoded().take(53)) == Err::<DelayRespMessage, DecodeError>(
            DecodeError::TooShort,
        ),
{
    let d = m.encoded();
    lemma_header_of_bytes(d, m.header);
    assert forall|j: int| 34 <= j < 44 implies #[trigger] d[j] == timestamp_byte(
        m.receive_timestamp,
        j - 34,
    ) by {}
    lemma_timestamp_of_bytes(d, 34, m.receive_timestamp);
    assert forall|j: int| 44 <= j < 54 implies #[trigger] d[j] == port_byte(
        m.requesting_port_identity,
        j - 44,
    ) by {}
    lemma_port_of_bytes(d, 44, m.requesting_port_identity);
}

impl PDelayRespMessage {
    /// Byte `i` of a PDelayResp message, for `i` from 34 on; reserved bytes are zero.
    pub open spec fn payload_byte(self, i: int) -> u8 {
        if i < 44 {
            timestamp_byte(self.request_receipt_timestamp, i - 34)
        } else {
            port_byte(self.requesting_port_identity, i - 44)
        }
    }

    /// Whether the message can be encoded: whether every field fits the
    /// bits it has on the wire.
    pub open spec fn well_formed(self) -> bool {
        &&& header_fits(self.header)
        &&& timestamp_fits(self.request_receipt_timestamp)
    }

    /// The 54 bytes that stand for this message at its minimum length.
    pub open spec fn encoded(self) -> Seq<u8> {
        Seq::new(
            54,
            |i: int|
                if i < 34 {
                    header_byte(self.header, i)
                } else {
                    self.payload_byte(i)
                },
        )
    }
}

/// Decoding the bytes of an encodable PDelayRespMessage recovers every field, and
/// the same bytes without the last one are rejected as too short.
pub proof fn lemma_pdelay_resp_round_trip(m: PDelayRespMessage)
    requires
        m.well_formed(),
    ensures
        PDelayRespMessage::parse(m.encoded()) == Ok::<PDelayRespMessage, DecodeError>(m),
        PDelayRespMessage::parse(m.encoded().take(53)) == Err::<PDelayRespMessage, DecodeError>(
            DecodeError::TooShort,
        ),
{
    let d = m.encoded();
    lemma_header_of_bytes(d, m.header);
    assert forall|j: int| 34 <= j < 44 implies #[trigger] d[j] == timestamp_byte(
        m.request_receipt_timestamp,
        j - 34,
    ) by {}
    lemma_timestamp_of_bytes(d, 34, m.request_receipt_timestamp);
    assert forall|j: int| 44 <= j < 54 implies #[trigger] d[j] == port_byte(
        m.requesting_port_identity,
        j - 44,
    ) by {}
    lemma_port_of_bytes(d, 44, m.requesting_port_identity);
}

impl PDelayRespFollowUpMessage {
    /// Byte `i` of a PDelayRespFollowUp message, for `i` from 34 on; reserved bytes are zero.
    pub open spec fn payload_byte(self, i: int) -> u8 {
        if i < 44 {
            timestamp_byte(self.response_origin_timestamp, i - 34)
        } else {
            port_byte(self.requesting_port_identity, i - 44)
        }
    }

    /// Whether the message can be encoded: whether every field fits the
    /// bits it has on the wire.
    pub open spec fn well_formed(self) -> bool {
        &&& header_fits(self.header)
        &&& timestamp_fits(self.response_origin_timestamp)
    }

    /// The 54 bytes that stand for this message at its minimum length.
    pub open spec fn encoded(self) -> Seq<u8> {
        Seq::new(
            54,
            |i: int|
                if i < 34 {
                    header_byte(self.header, i)
                } else {
                    self.payload_byte(i)
                },
        )
    }
}

/// Decoding the bytes of an encodable PDelayRespFollowUpMessage recovers every field, and
/// the same bytes without the last one are rejected as too short.
pub proof fn lemma_pdelay_resp_follow_up_round_trip(m: PDelayRespFollowUpMessage)
    requires
        m.well_formed(),
    ensures
        PDelayRespFollowUpMessage::parse(m.encoded()) == Ok::<
            PDelayRespFollowUpMessage,
            DecodeError,
        >(m),
        PDelayRespFollowUpMessage::parse(m.encoded().take(53)) == Err::<
            PDelayRespFollowUpMessage,
            DecodeError,
        >(DecodeError::TooShort),
{
    let d = m.encoded();
    lemma_header_of_bytes(d, m.header);
    assert forall|j: int| 34 <= j < 44 implies #[trigger] d[j] == timestamp_byte(
        m.response_origin_timestamp,
        j - 34,
    ) by {}
    lemma_timestamp_of_bytes(d, 34, m.response_origin_timestamp);
    assert forall|j: int| 44 <= j < 54 implies #[trigger] d[j] == port_byte(
        m.requesting_port_identity,
        j - 44,
    ) by {}
    lemma_port_of_bytes(d, 44, m.requesting_port_identity);
}

impl SignalingMessage {
    /// Byte `i` of a Signaling message, for `i` from 34 on; reserved bytes are zero.
    pub open spec fn payload_byte(self, i: int) -> u8 {
        if i < 44 {
            port_byte(self.target_port_identity, i - 34)
        } else {
            0
        }
    }

    /// Whether the message can be encoded: whether every field fits the
    /// bits it has on the wire.
    pub open spec fn well_formed(self) -> bool {
        &&& header_fits(self.header)
    }

    /// The 54 bytes that stand for this message at its minimum length.
    pub open spec fn encoded(self) -> Seq<u8> {
        Seq::new(
            54,
            |i: int|
                if i < 34 {
                    header_byte(self.header, i)
                } else {
                    self.payload_byte(i)
                },
        )
    }
}

/// Decoding the bytes of an encodable SignalingMessage recovers every field, and
/// the same bytes without the last one are rejected as too short.
pub proof fn lemma_signaling_round_trip(m: SignalingMessage)
    requires
        m.well_formed(),
    ensures
        SignalingMessage::parse(m.encoded()) == Ok::<SignalingMessage, DecodeError>(m),
        SignalingMessage::parse(m.encoded().take(53)) == Err::<SignalingMessage, DecodeError>(
            DecodeError::TooShort,
        ),
{
    let d = m.encoded();
    lemma_header_of_bytes(d, m.header);
    assert forall|j: int| 34 <= j < 44 implies #[trigger] d[j] == port_byte(
        m.target_port_identity,
        j - 34,
    ) by {}
    lemma_port_of_bytes(d, 34, m.target_port_identity);
}

impl ManagementMessage {
    /// Byte `i` of a Management message, for `i` from 34 on; reserved bytes are zero.
    pub open spec fn payload_byte(self, i: int) -> u8 {
        if i < 44 {
            port_byte(self.target_port_identity, i - 34)
        } else if i == 44 {
            self.starting_boundary_hops
        } else if i == 45 {
            self.boundary_hops
        } else if i == 46 {
            self.action_field
        } else {
            0
        }
    }

    /// Whether the message can be encoded: whether every field fits the
    /// bits it has on the wire.
    pub open spec fn well_formed(self) -> bool {
        &&& header_fits(self.header)
        &&& self.action_field < 0x10
    }

    /// The 54 bytes that stand for this message at its minimum length.
    pub open spec fn encoded(self) -> Seq<u8> {
        Seq::new(
            54,
            |i: int|
                if i < 34 {
                    header_byte(self.header, i)
                } else {
                    self.payload_byte(i)
                },
        )
    }
}

/// Decoding the bytes of an encodable ManagementMessage recovers every field, and
/// the same bytes without the last one are rejected as too short.
pub proof fn lemma_management_round_trip(m: ManagementMessage)
    requires
        m.well_formed(),
    ensures
        ManagementMessage::parse(m.encoded()) == Ok::<ManagementMessage, DecodeError>(m),
        ManagementMessage::parse(m.encoded().take(53)) == Err::<ManagementMessage, DecodeError>(
            DecodeError::TooShort,
        ),
{
    let d = m.encoded();
    lemma_header_of_bytes(d, m.header);
    assert forall|j: int| 34 <= j < 44 implies #[trigger] d[j] == port_byte(
        m.target_port_identity,
        j - 34,
    ) by {}
    lemma_port_of_bytes(d, 34, m.target_port_identity);
    assert(d[44] == m.payload_byte(44));
    assert(d[45] == m.payload_byte(45));
    assert(d[46] == m.payload_byte(46));
}

impl PtpMessage {
    /// The message type that the header of each variant carries.
    pub open spec fn message_type(self) -> PtpMessageType {
        match self {
            PtpMessage::Announce(_) => PtpMessageType::Announce,
            PtpMessage::DelayReq(_) => PtpMessageType::DelayReq,
            PtpMessage::DelayResp(_) => PtpMessageType::DelayResp,
            PtpMessage::Sync(_) => PtpMessageType::Sync,
            PtpMessage::PDelayReq(_) => PtpMessageType::PDelayReq,
            PtpMessage::PDelayResp(_) => PtpMessageType::PDelayResp,
            PtpMessage::FollowUp(_) => PtpMessageType::FollowUp,
            PtpMessage::PDelayRespFollowup(_) => PtpMessageType::PDelayRespFollowUp,
            PtpMessage::Signaling(_) => PtpMessageType::Signaling,
            PtpMessage::Management(_) => PtpMessageType::Management,
        }
    }

    /// Whether the message can be encoded and is one that the message
    /// decoder accepts: its fields fit, its header is of version 2 and
    /// carries the message type of its variant.
    pub open spec fn well_formed(self) -> bool {
        &&& self.header_of().version == PtpVersion::V2
        &&& self.header_of().message_type == self.message_type()
        &&& match self {
            PtpMessage::Announce(msg) => msg.well_formed(),
            PtpMessage::DelayReq(msg) => msg.well_formed(),
            PtpMessage::DelayResp(msg) => msg.well_formed(),
            PtpMessage::Sync(msg) => msg.well_formed(),
            PtpMessage::PDelayReq(msg) => msg.well_formed(),
            PtpMessage::PDelayResp(msg) => msg.well_formed(),
            PtpMessage::FollowUp(msg) => msg.well_formed(),
            PtpMessage::PDelayRespFollowup(msg) => msg.well_formed(),
            PtpMessage::Signaling(msg) => msg.well_formed(),
            PtpMessage::Management(msg) => msg.well_formed(),
        }
    }

    /// The bytes that stand for this message at its minimum length.
    pub open spec fn encoded(self) -> Seq<u8> {
        match self {
            PtpMessage::Announce(msg) => msg.encoded(),
            PtpMessage::DelayReq(msg) => msg.encoded(),
            PtpMessage::DelayResp(msg) => msg.encoded(),
            PtpMessage::Sync(msg) => msg.encoded(),
            PtpMessage::PDelayReq(msg) => msg.encoded(),
            PtpMessage::PDelayResp(msg) => msg.encoded(),
            PtpMessage::FollowUp(msg) => msg.encoded(),
            PtpMessage::PDelayRespFollowup(msg) => msg.encoded(),
            PtpMessage::Signaling(msg) => msg.encoded(),
            PtpMessage::Management(msg) => msg.encoded(),
        }
    }
}

/// For every message variant, decoding the bytes of an encodable message
/// at its minimum length recovers every field, and the same bytes without
/// the last one are rejected.
pub proof fn lemma_message_round_trip(m: PtpMessage)
    requires
        m.well_formed(),
    ensures
        PtpMessage::parse(m.encoded()) == Ok::<PtpMessage, DecodeError>(m),
        PtpMessage::parse(m.encoded().take(m.encoded().len() - 1)) is Err,
{
    let d = m.encoded();
    let shorter = d.take(d.len() - 1);
    lemma_header_of_bytes(d, m.header_of());
    assert forall|i: int| 0 <= i < 34 implies #[trigger] shorter[i] == header_byte(
        m.header_of(),
        i,
    ) by {
        assert(shorter[i] == d[i]);
    }
    lemma_header_of_bytes(shorter, m.header_of());
    match m {
        PtpMessage::Announce(msg) => {
            lemma_announce_round_trip(msg);
        },
        PtpMessage::DelayReq(msg) => {
            lemma_delay_req_round_trip(msg);
        },
        PtpMessage::DelayResp(msg) => {
            lemma_delay_resp_round_trip(msg);
        },
        PtpMessage::Sync(msg) => {
            lemma_sync_round_trip(msg);
        },
        PtpMessage::PDelayReq(msg) => {
            lemma_pdelay_req_round_trip(msg);
        },
        PtpMessage::PDelayResp(msg) => {
            lemma_pdelay_resp_round_trip(msg);
        },
        PtpMessage::FollowUp(msg) => {
            lemma_follow_up_round_trip(msg);
        },
        PtpMessage::PDelayRespFollowup(msg) => {
            lemma_pdelay_resp_follow_up_round_trip(msg);
        },
        PtpMessage::Signaling(msg) => {
            lemma_signaling_round_trip(msg);
        },
        PtpMessage::Management(msg) => {
            lemma_management_round_trip(msg);
        },
    }
}

/// Every header that the decoder accepts can be encoded.
pub proof fn lemma_decoded_header_fits(d: Seq<u8>)
    ensures
        PtpHeader::parse(d) matches Ok(h) ==> header_fits(h),
{
    match PtpHeader::parse(d) {
        Ok(h) => {
            assert(h.flags.v[0] == d[6] && h.flags.v[1] == d[7]);
        },
        Err(_) => {},
    }
}

/// Every message that the decoder accepts can be encoded, so that decoding
/// its encoding gives the same message again.
pub proof fn lemma_decoded_message_well_formed(d: Seq<u8>)
    ensures
        PtpMessage::parse(d) matches Ok(m) ==> m.well_formed() && PtpMessage::parse(m.encoded())
            == Ok::<PtpMessage, DecodeError>(m),
{
    lemma_decoded_header_fits(d);
    match PtpMessage::parse(d) {
        Ok(m) => {
            assert(m.well_formed());
            lemma_message_round_trip(m);
        },
        Err(_) => {},
    }
}

} // verus!
