use ptp_trace::error::DecodeError;
use ptp_trace::header::{PtpClockClass, PtpHeader, PtpLogInterval, PtpMessageType, PtpVersion};
use ptp_trace::messages::{AnnounceMessage, FollowUpMessage, PtpMessage, SyncMessage};
use ptp_trace::timestamp::PtpTimestamp;

#[test]
fn test_ptp_timestamp_rtp_samples() {
    let timestamp = PtpTimestamp {
        seconds: 1,
        nanoseconds: 0,
    };
    assert_eq!(timestamp.rtp_samples(48000), 48000);

    let timestamp = PtpTimestamp {
        seconds: 2,
        nanoseconds: 500_000_000,
    };
    assert_eq!(timestamp.rtp_samples(48000), 120000);
}

#[test]
fn test_ptp_timestamp_formatting() {
    let mut timestamp = [0u8; 10];

    let ptp_seconds: u64 = 3914496037;
    timestamp[0] = ((ptp_seconds >> 40) & 0xff) as u8;
    timestamp[1] = ((ptp_seconds >> 32) & 0xff) as u8;
    timestamp[2] = ((ptp_seconds >> 24) & 0xff) as u8;
    timestamp[3] = ((ptp_seconds >> 16) & 0xff) as u8;
    timestamp[4] = ((ptp_seconds >> 8) & 0xff) as u8;
    timestamp[5] = (ptp_seconds & 0xff) as u8;

    let nanos: u32 = 123456789;
    timestamp[6] = ((nanos >> 24) & 0xff) as u8;
    timestamp[7] = ((nanos >> 16) & 0xff) as u8;
    timestamp[8] = ((nanos >> 8) & 0xff) as u8;
    timestamp[9] = (nanos & 0xff) as u8;

    let decoded = PtpTimestamp::try_from(&timestamp[..]).unwrap();
    assert_eq!(decoded.seconds, 3914496037);
    assert_eq!(decoded.nanoseconds, 123456789);
}

#[test]
fn test_clock_class_formatting() {
    assert_eq!(
        PtpClockClass::new(6).to_string(),
        "6 (Primary reference (GPS, atomic clock, etc.))"
    );

    assert_eq!(
        PtpClockClass::new(7).to_string(),
        "7 (Primary reference (degraded))"
    );
}

#[test]
fn test_format_log_interval() {
    assert_eq!(PtpLogInterval::new(-1).to_string(), "0.50s (-1)");

    assert_eq!(PtpLogInterval::new(0).to_string(), "1.00s (0)");
    assert_eq!(PtpLogInterval::new(1).to_string(), "2.00s (1)");
    assert_eq!(PtpLogInterval::new(-2).to_string(), "0.25s (-2)");
    assert_eq!(PtpLogInterval::new(3).to_string(), "8.00s (3)");

    assert_eq!(PtpLogInterval::new(0x7f).to_string(), "-");
}

#[test]
fn log_interval_text_agrees_with_float_formatting() {
    let mut exponent: i8 = -128;
    loop {
        if exponent != 0x7f {
            let seconds = 2.0_f64.powf(exponent as f64);
            assert_eq!(
                PtpLogInterval::new(exponent).to_string(),
                format!("{:.2}s ({})", seconds, exponent)
            );
        }
        if exponent == 0x7f {
            break;
        }
        exponent += 1;
    }
}

#[test]
fn test_ptp_header_parsing() {
    let header_data = [
        0x00, 0x02, 0x00, 0x2C, 0x00, 0x02, 0x00, 0x00, 0x00, 0x00, 0x00, 0x00, 0x00, 0x00, 0x00,
        0x00, 0x00, 0x00, 0x00, 0x00, 0x00, 0x1B, 0x19, 0xFF, 0xFE, 0x12, 0x34, 0x56, 0x00, 0x01,
        0x00, 0x64, 0x00, 0x00,
    ];

    let header = PtpHeader::try_from(&header_data[..]).unwrap();

    assert_eq!(header.message_type.to_string(), "SYNC");
    assert_eq!(header.version.to_string(), "v2");
    assert_eq!(header.message_length, 44);
    assert_eq!(header.domain_number, 0);
    assert_eq!(header.sequence_id, 100);
    assert_eq!(header.log_message_interval.exponent, 0);
}

#[test]
fn test_announce_message_parsing() {
    let msg_data = [
        0x0B, 0x02, 0x00, 0x40, 0x00, 0x00, 0x08, 0x00, 0x00, 0x00, 0x00, 0x00, 0x00, 0x00, 0x00,
        0x00, 0x00, 0x00, 0x00, 0x00, 0x00, 0x1B, 0x19, 0xFF, 0xFE, 0x12, 0x34, 0x56, 0x00, 0x01,
        0x00, 0x01, 0x05, 0x01, 0x00, 0x00, 0x01, 0x00, 0x00, 0x00, 0x00, 0x00, 0x00, 0x00, 0x00,
        0x25, 0x00, 0x80, 0x06, 0x20, 0xFF, 0xFF, 0x80, 0x00, 0x1B, 0x19, 0xFF, 0xFE, 0x12, 0x34,
        0x56, 0x00, 0x00, 0x20,
    ];

    let announce = AnnounceMessage::try_from(&msg_data[..]).unwrap();

    assert_eq!(announce.header.message_type.to_string(), "ANNOUNCE");
    assert_eq!(announce.header.message_length, 64);
    assert_eq!(announce.priority1, 0x80);
    assert_eq!(announce.priority2, 0x80);
    assert_eq!(announce.clock_class.class(), 0x06);
    assert_eq!(announce.current_utc_offset.offset, 37);
    assert_eq!(announce.steps_removed, 0);
    assert_eq!(announce.time_source, 0x20);
}

#[test]
fn test_sync_message_parsing() {
    let msg_data = [
        0x00, 0x02, 0x00, 0x2C, 0x00, 0x02, 0x00, 0x00, 0x00, 0x00, 0x00, 0x00, 0x00, 0x00, 0x00,
        0x00, 0x00, 0x00, 0x00, 0x00, 0x00, 0x1B, 0x19, 0xFF, 0xFE, 0x11, 0x22, 0x33, 0x00, 0x01,
        0x00, 0x7B, 0x00, 0xFF, 0x00, 0x00, 0x3B, 0x9A, 0xCA, 0x00, 0x1D, 0xCD, 0x65, 0x00,
    ];

    let sync = SyncMessage::try_from(&msg_data[..]).unwrap();

    assert_eq!(sync.header.message_type.to_string(), "SYNC");
    assert_eq!(sync.header.message_length, 44);
    assert_eq!(sync.header.sequence_id, 123);
    assert_eq!(sync.header.log_message_interval.exponent, -1);
    assert_eq!(sync.origin_timestamp.seconds, 1000000000);
    assert_eq!(sync.origin_timestamp.nanoseconds, 500000000);
}

#[test]
fn test_followup_message_parsing() {
    let msg_data = [
        0x08, 0x02, 0x00, 0x2C, 0x00, 0x00, 0x00, 0x00, 0x00, 0x00, 0x00, 0x00, 0x00, 0x00, 0x00,
        0x00, 0x00, 0x00, 0x00, 0x00, 0x00, 0x1B, 0x19, 0xFF, 0xFE, 0x44, 0x55, 0x66, 0x00, 0x01,
        0x00, 0x7B, 0x02, 0xFF, 0x00, 0x00, 0x3B, 0x9A, 0xCA, 0x00, 0x1D, 0xCD, 0x65, 0x01,
    ];

    let followup = FollowUpMessage::try_from(&msg_data[..]).unwrap();

    assert_eq!(followup.header.message_type.to_string(), "FOLLOW_UP");
    assert_eq!(followup.header.sequence_id, 123);
    assert_eq!(followup.precise_origin_timestamp.seconds, 1000000000);
    assert_eq!(followup.precise_origin_timestamp.nanoseconds, 500000001);
}

#[test]
fn test_ptp_header_parsing_errors() {
    let short_data = [0u8; 33];
    assert!(PtpHeader::try_from(&short_data[..]).is_err());

    let invalid_msg_data = [
        0x0F, 0x02, 0x00, 0x00, 0x00, 0x00, 0x00, 0x00, 0x00, 0x00, 0x00, 0x00, 0x00, 0x00, 0x00,
        0x00, 0x00, 0x00, 0x00, 0x00, 0x00, 0x00, 0x00, 0x00, 0x00, 0x00, 0x00, 0x00, 0x00, 0x00,
        0x00, 0x00, 0x00, 0x00,
    ];
    assert!(PtpHeader::try_from(&invalid_msg_data[..]).is_err());

    let invalid_ver_data = [
        0x00, 0x03, 0x00, 0x00, 0x00, 0x00, 0x00, 0x00, 0x00, 0x00, 0x00, 0x00, 0x00, 0x00, 0x00,
        0x00, 0x00, 0x00, 0x00, 0x00, 0x00, 0x00, 0x00, 0x00, 0x00, 0x00, 0x00, 0x00, 0x00, 0x00,
        0x00, 0x00, 0x00, 0x00,
    ];
    assert!(PtpHeader::try_from(&invalid_ver_data[..]).is_err());
}

#[test]
fn test_message_parsing_errors() {
    let short_announce = [0u8; 63];
    assert!(AnnounceMessage::try_from(&short_announce[..]).is_err());

    let short_sync = [0u8; 43];
    assert!(SyncMessage::try_from(&short_sync[..]).is_err());
}

#[test]
fn header_errors_name_their_cause() {
    let mut data = [0u8; 34];
    data[1] = 0x02;
    assert_eq!(
        PtpHeader::try_from(&data[..33]).err(),
        Some(DecodeError::TooShort)
    );
    data[0] = 0x0f;
    data[1] = 0x03;
    assert_eq!(
        PtpHeader::try_from(&data[..]).err(),
        Some(DecodeError::UnknownMessageType)
    );
    data[0] = 0x00;
    assert_eq!(
        PtpHeader::try_from(&data[..]).err(),
        Some(DecodeError::UnknownVersion)
    );
    data[1] = 0x01;
    let header = PtpHeader::try_from(&data[..]).unwrap();
    assert_eq!(header.version, PtpVersion::V1);
    assert_eq!(header.message_type, PtpMessageType::Sync);
    let padded = [&data[..], &[0u8; 10][..]].concat();
    assert_eq!(
        PtpMessage::try_from(&padded[..]).err(),
        Some(DecodeError::UnsupportedVersion)
    );
}

#[test]
fn timestamp_text_of_a_known_instant() {
    let unset = PtpTimestamp { seconds: 0, nanoseconds: 0 };
    assert_eq!(unset.to_string(), "0");
    let ts = PtpTimestamp { seconds: 1_700_000_000, nanoseconds: 5 };
    assert_eq!(ts.to_string(), "2023-11-14 22:13:20.000000005 (+37s)");
    let early = PtpTimestamp { seconds: 0, nanoseconds: 1 };
    assert_eq!(early.to_string(), "1970-01-01 00:00:00.000000001 (+0s)");
    let far = PtpTimestamp { seconds: u64::MAX, nanoseconds: u32::MAX };
    assert!(far.to_string().ends_with("s)"));
}

#[test]
fn timestamp_text_is_given_for_every_magnitude() {
    for shift in 0..64u32 {
        for nanoseconds in [0u32, 1, 999_999_999, u32::MAX] {
            let timestamp = PtpTimestamp {
                seconds: (1u64 << shift) - 1 + (shift as u64 % 2),
                nanoseconds,
            };
            let text = timestamp.to_string();
            if timestamp.seconds == 0 && nanoseconds == 0 {
                assert_eq!(text, "0");
            } else {
                assert!(text.ends_with("s)"), "{}", text);
                assert!(text.contains(" ("), "{}", text);
            }
        }
    }
    // Leap seconds that were announced are counted from 1972 on.
    let before = PtpTimestamp { seconds: 63_071_999, nanoseconds: 0 };
    assert_eq!(before.to_string(), "1971-12-31 23:59:59.000000000 (+0s)");
    let after = PtpTimestamp { seconds: 63_072_000, nanoseconds: 0 };
    assert_eq!(after.to_string(), "1972-01-01 00:00:00.000000000 (+10s)");
}
