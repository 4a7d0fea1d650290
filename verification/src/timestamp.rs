//! Timestamps as they travel in PTP messages.

use vstd::prelude::*;
use vstd::string::StringExecFns;
use crate::error::DecodeError;
use crate::text::{
    decimal, magnitude, padded, push_decimal, push_padded, push_signed, signed_decimal,
};
use crate::wire::{be32, be48, read_u32, read_u48};
use hifitime::{Duration, Epoch, TimeScale};

verus! {

/// Nanoseconds in one second.
pub const NANOS_PER_SECOND: u128 = 1_000_000_000;

/// The UTC calendar fields that hifitime gives for the instant
/// `unix_nanoseconds` after 1970-01-01 00:00:00 UTC, in the order year,
/// month, day, hour, minute, second, nanosecond.
pub uninterp spec fn utc_calendar_of(unix_nanoseconds: u128) -> (i32, u8, u8, u8, u8, u8, u32);

/// The nanoseconds by which hifitime's TAI reading of the instant
/// `unix_nanoseconds` after 1970-01-01 00:00:00 UTC is ahead of its UTC
/// reading.
pub uninterp spec fn tai_utc_offset_of(unix_nanoseconds: u128) -> i128;

/// Calls `hifitime::Epoch::to_gregorian_utc` on the epoch that
/// `Epoch::from_unix_duration` makes of `unix_nanoseconds`.
///
/// Nothing is claimed of the fields but that they are the ones hifitime
/// computes: the same for the same instant.
#[verifier::external_body]
fn utc_calendar(unix_nanoseconds: u128) -> (fields: (i32, u8, u8, u8, u8, u8, u32))
    requires
        unix_nanoseconds <= i128::MAX,
    ensures
        fields == utc_calendar_of(unix_nanoseconds),
{
    let duration = Duration::from_total_nanoseconds(unix_nanoseconds as i128);
    Epoch::from_unix_duration(duration).to_gregorian_utc()
}

/// Calls `hifitime::Epoch::to_duration_in_time_scale` on the epoch that
/// `Epoch::from_unix_duration` makes of `unix_nanoseconds`, once for TAI and
/// once for UTC, and returns the difference of the two durations in
/// nanoseconds.
///
/// Nothing is claimed of the difference but that it is the one hifitime
/// computes: the same for the same instant.
#[verifier::external_body]
fn tai_utc_offset(unix_nanoseconds: u128) -> (offset: i128)
    requires
        unix_nanoseconds <= i128::MAX,
    ensures
        offset == tai_utc_offset_of(unix_nanoseconds),
{
    let duration = Duration::from_total_nanoseconds(unix_nanoseconds as i128);
    let epoch = Epoch::from_unix_duration(duration);
    let tai = epoch.to_duration_in_time_scale(TimeScale::TAI);
    let utc = epoch.to_duration_in_time_scale(TimeScale::UTC);
    (tai - utc).total_nanoseconds()
}

/// The text `Y-MM-DD hh:mm:ss.nnnnnnnnn (+Os)` of calendar fields and of an
/// offset between TAI and UTC, of which the whole seconds are shown.
pub open spec fn calendar_text(
    fields: (i32, u8, u8, u8, u8, u8, u32),
    offset_nanoseconds: i128,
) -> Seq<char> {
    signed_decimal(fields.0 as int) + "-"@ + padded(fields.1 as nat, 2) + "-"@ + padded(
        fields.2 as nat,
        2,
    ) + " "@ + padded(fields.3 as nat, 2) + ":"@ + padded(fields.4 as nat, 2) + ":"@ + padded(
        fields.5 as nat,
        2,
    ) + "."@ + padded(fields.6 as nat, 9) + " ("@ + offset_text(offset_nanoseconds as int) + "s)"@
}

/// The signed whole seconds of an offset given in nanoseconds.
pub open spec fn offset_text(offset_nanoseconds: int) -> Seq<char> {
    if offset_nanoseconds < 0 {
        seq!['-'] + decimal(((-offset_nanoseconds) / 1_000_000_000) as nat)
    } else {
        seq!['+'] + decimal((offset_nanoseconds / 1_000_000_000) as nat)
    }
}

/// Formats calendar fields and an offset between TAI and UTC as
/// `Y-MM-DD hh:mm:ss.nnnnnnnnn (+Os)`.
pub fn format_calendar(fields: (i32, u8, u8, u8, u8, u8, u32), offset_nanoseconds: i128) -> (text:
    String)
    ensures
        text@ == calendar_text(fields, offset_nanoseconds),
{
    let mut text = String::new();
    push_signed(&mut text, fields.0 as i128);
    text.append("-");
    push_padded(&mut text, fields.1 as u128, 2);
    text.append("-");
    push_padded(&mut text, fields.2 as u128, 2);
    text.append(" ");
    push_padded(&mut text, fields.3 as u128, 2);
    text.append(":");
    push_padded(&mut text, fields.4 as u128, 2);
    text.append(":");
    push_padded(&mut text, fields.5 as u128, 2);
    text.append(".");
    push_padded(&mut text, fields.6 as u128, 9);
    text.append(" (");
    proof {
        reveal_strlit("-");
        reveal_strlit("+");
    }
    let ghost before = text@;
    if offset_nanoseconds < 0 {
        text.append("-");
    } else {
        text.append("+");
    }
    push_decimal(&mut text, magnitude(offset_nanoseconds) / 1_000_000_000);
    assert(text@ =~= before + offset_text(offset_nanoseconds as int));
    text.append("s)");
    assert(text@ =~= calendar_text(fields, offset_nanoseconds));
    text
}

/// Seconds and nanoseconds since the PTP epoch.
///
/// On the wire the seconds take 48 bits; in memory they are zero-extended.
/// The timestamp `(0, 0)` stands for "not set" wherever one is shown.
#[derive(Debug, Clone, Copy, PartialEq, Eq, Structural)]
pub struct PtpTimestamp {
    pub seconds: u64,
    pub nanoseconds: u32,
}

impl PtpTimestamp {
    /// The timestamp stored in the first ten bytes of `b`.
    pub open spec fn from_bytes(b: Seq<u8>) -> PtpTimestamp {
        PtpTimestamp { seconds: be48(b, 0) as u64, nanoseconds: be32(b, 6) as u32 }
    }

    /// The whole timestamp in nanoseconds.
    pub open spec fn total(self) -> nat {
        (self.seconds as nat) * 1_000_000_000 + self.nanoseconds as nat
    }

    /// The number of media samples that a clock of `samplerate` Hz has
    /// counted at this timestamp, reduced to 32 bits.
    pub open spec fn samples(self, samplerate: u32) -> nat {
        (self.total() * (samplerate as nat) / 1_000_000_000) % 0x1_0000_0000
    }

    /// Whether this is the timestamp `(0, 0)`.
    pub open spec fn is_unset(self) -> bool {
        self.seconds == 0 && self.nanoseconds == 0
    }

    /// The whole timestamp in nanoseconds.
    pub fn total_nanoseconds(&self) -> (total: u128)
        ensures
            total == self.total(),
    {
        (self.seconds as u128) * NANOS_PER_SECOND + (self.nanoseconds as u128)
    }

    /// The media-sample count at `samplerate` Hz: the truncating quotient
    /// of nanoseconds times rate by 10^9, reduced modulo 2^32.
    pub fn rtp_samples(&self, samplerate: u32) -> (samples: u32)
        ensures
            samples == self.samples(samplerate),
    {
        let total: u128 = self.total_nanoseconds();
        assert(total * (samplerate as u128) <= 0x4000_0000_0000_0000_0000_0000_0000_0000)
            by (nonlinear_arith)
            requires
                total < 0x4000_0000_0000_0000_0000_0000,
                samplerate < 0x1_0000_0000,
        ;
        let scaled: u128 = total * (samplerate as u128) / NANOS_PER_SECOND;
        (scaled % 0x1_0000_0000) as u32
    }

    /// The sample rates for which sample counts are shown.
    pub fn common_samplerates(&self) -> (rates: Vec<u32>)
        ensures
            rates@ == seq![44100u32, 48000u32, 96000u32],
    {
        vec![44100, 48000, 96000]
    }

    /// The text of this timestamp: `0` where it is not set, else its UTC
    /// calendar date and time with the offset between TAI and UTC.
    pub open spec fn text(self) -> Seq<char> {
        if self.is_unset() {
            "0"@
        } else {
            calendar_text(
                utc_calendar_of(self.total() as u128),
                tai_utc_offset_of(self.total() as u128),
            )
        }
    }

    /// The rows of sample counts at the common sample rates, each labelled
    /// with `prefix`; none where the timestamp is not set.
    pub open spec fn samplerate_rows(self, prefix: Seq<char>) -> Seq<(Seq<char>, Seq<char>)> {
        if self.is_unset() {
            Seq::empty()
        } else {
            seq![
                self.samplerate_row(prefix, 44100),
                self.samplerate_row(prefix, 48000),
                self.samplerate_row(prefix, 96000),
            ]
        }
    }

    /// The row `prefix @rate Hz` with the sample count at `rate`.
    pub open spec fn samplerate_row(self, prefix: Seq<char>, rate: u32) -> (Seq<char>, Seq<char>) {
        (prefix + " @"@ + decimal(rate as nat) + " Hz"@, decimal(self.samples(rate)))
    }

    /// The text of this timestamp.
    pub fn to_string(&self) -> (text: String)
        ensures
            text@ == self.text(),
    {
        if self.seconds == 0 && self.nanoseconds == 0 {
            String::from_str("0")
        } else {
            let total: u128 = self.total_nanoseconds();
            format_calendar(utc_calendar(total), tai_utc_offset(total))
        }
    }

    /// The sample counts at the common sample rates, as labelled rows.
    pub fn format_common_samplerates(&self, prefix: &str) -> (rows: Vec<(String, String)>)
        ensures
            rows.deep_view() == self.samplerate_rows(prefix@),
    {
        let mut rows: Vec<(String, String)> = Vec::new();
        if self.seconds == 0 && self.nanoseconds == 0 {
            assert(rows.deep_view() =~= self.samplerate_rows(prefix@));
            return rows;
        }
        let rates = self.common_samplerates();
        let mut i: usize = 0;
        while i < rates.len()
            invariant
                i <= rates.len(),
                rates@ == seq![44100u32, 48000u32, 96000u32],
                rows.len() == i,
                forall|j: int|
                    0 <= j < i ==> (#[trigger] rows[j]).deep_view() == self.samplerate_row(
                        prefix@,
                        rates[j],
                    ),
            decreases rates.len() - i,
        {
            let rate: u32 = rates[i];
            let mut label = String::from_str(prefix);
            label.append(" @");
            push_decimal(&mut label, rate as u128);
            label.append(" Hz");
            let mut count = String::new();
            push_decimal(&mut count, self.rtp_samples(rate) as u128);
            assert(count@ =~= decimal(self.samples(rate)));
            assert(label@ =~= prefix@ + " @"@ + decimal(rate as nat) + " Hz"@);
            rows.push((label, count));
            i += 1;
        }
        assert(rows.deep_view() =~= self.samplerate_rows(prefix@));
        rows
    }

    /// Decodes a timestamp from exactly ten bytes.
    pub fn try_from(b: &[u8]) -> (result: Result<PtpTimestamp, DecodeError>)
        ensures
            b@.len() == 10 ==> result == Ok::<PtpTimestamp, DecodeError>(
                PtpTimestamp::from_bytes(b@),
            ),
            b@.len() != 10 ==> result == Err::<PtpTimestamp, DecodeError>(DecodeError::WrongLength),
    {
        if b.len() != 10 {
            Err(DecodeError::WrongLength)
        } else {
            Ok(PtpTimestamp::read(b, 0))
        }
    }

    /// Reads the timestamp stored in the ten bytes of `data` from `at` on.
    pub(crate) fn read(data: &[u8], at: usize) -> (timestamp: PtpTimestamp)
        requires
            at + 10 <= data.len(),
        ensures
            timestamp == PtpTimestamp::from_bytes(data@.subrange(at as int, at + 10)),
    {
        PtpTimestamp { seconds: read_u48(data, at), nanoseconds: read_u32(data, at + 6) }
    }
}

/// The text of a timestamp, or `N/A` where there is none.
pub fn format_timestamp(timestamp: Option<PtpTimestamp>) -> (text: String)
    ensures
        text@ == match timestamp {
            Some(ts) => ts.text(),
            None => "N/A"@,
        },
{
    match timestamp {
        Some(ts) => ts.to_string(),
        None => String::from_str("N/A"),
    }
}

} // verus!
