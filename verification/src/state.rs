//! The role that a host has been seen to play, and the rules by which
//! decoded messages change it.
//!
//! A host starts as `Listening`. A message that only a transmitter sends
//! makes it a `TimeTransmitter`; a response addressed to it makes it a
//! `TimeReceiver`. A message for the role that the host already has is
//! merged into its state; one for the other role replaces the state
//! wholesale with a fresh one seeded from that message alone.

use vstd::prelude::*;
use vstd::string::StringExecFns;
use std::cmp::Ordering;
use crate::header::{PtpClockAccuracy, PtpClockClass, PtpUtcOffset};
use crate::identity::ClockIdentity;
use crate::messages::{
    AnnounceMessage, DelayRespMessage, FollowUpMessage, PDelayRespFollowUpMessage,
    PDelayRespMessage, SyncMessage,
};
use crate::timestamp::PtpTimestamp;

verus! {

/// The confidence of a correlation that a completed exchange or an
/// election has confirmed. Confidence is counted in steps of 1/5000, so
/// this stands for 1.0.
pub const FULL_CONFIDENCE: u16 = 5000;

/// The greatest confidence that the heuristic correlation can give: 0.9 in
/// steps of 1/5000.
pub const HEURISTIC_CONFIDENCE_CAP: u16 = 4500;

/// Nanoseconds in one millisecond.
pub const NANOS_PER_MILLI: u64 = 1_000_000;

/// What is known of a host that sends Announce, Sync or FollowUp messages.
///
/// A field is `None` until a message that carries it has been seen.
#[derive(Debug, Clone, Copy)]
pub struct PtpHostStateTimeTransmitter {
    /// The monotonic time, in nanoseconds, at which the last Sync was
    /// processed.
    pub last_sync_timestamp: Option<u64>,
    pub priority1: Option<u8>,
    pub priority2: Option<u8>,
    pub clock_class: Option<PtpClockClass>,
    pub clock_accuracy: Option<PtpClockAccuracy>,
    pub steps_removed: Option<u16>,
    pub offset_scaled_log_variance: Option<u16>,
    pub time_source: Option<u8>,
    pub ptt_identifier: Option<ClockIdentity>,
    pub last_announce_origin_timestamp: Option<PtpTimestamp>,
    pub last_sync_origin_timestamp: Option<PtpTimestamp>,
    pub last_followup_origin_timestamp: Option<PtpTimestamp>,
    pub current_utc_offset: Option<PtpUtcOffset>,
    /// Whether the last election chose this transmitter as the best clock
    /// of its domain.
    pub is_bmca_winner: bool,
}

/// How two optional values rank: -1 where the first is better, 1 where the
/// second is, 0 at a tie. A lower value is better than a higher one, and
/// any value is better than none.
pub open spec fn rank_optional(ours: Option<int>, theirs: Option<int>) -> int {
    match (ours, theirs) {
        (Some(a), Some(b)) => if a < b {
            -1
        } else if a > b {
            1
        } else {
            0
        },
        (Some(_), None) => -1,
        (None, Some(_)) => 1,
        (None, None) => 0,
    }
}

/// A `u8` field as an optional integer.
pub open spec fn optional_u8(v: Option<u8>) -> Option<int> {
    match v {
        Some(x) => Some(x as int),
        None => None,
    }
}

/// A `u16` field as an optional integer.
pub open spec fn optional_u16(v: Option<u16>) -> Option<int> {
    match v {
        Some(x) => Some(x as int),
        None => None,
    }
}

/// A clock class as an optional integer.
pub open spec fn optional_class(v: Option<PtpClockClass>) -> Option<int> {
    match v {
        Some(x) => Some(x.class as int),
        None => None,
    }
}

/// A clock accuracy as an optional integer.
pub open spec fn optional_accuracy(v: Option<PtpClockAccuracy>) -> Option<int> {
    match v {
        Some(x) => Some(x.accuracy as int),
        None => None,
    }
}

/// How two identities rank by their bytes: -1 where the first is lower.
pub open spec fn rank_identity(ours: ClockIdentity, theirs: ClockIdentity) -> int {
    if ours.value() < theirs.value() {
        -1
    } else if ours.value() > theirs.value() {
        1
    } else {
        0
    }
}

/// How transmitter `a` with identity `a_id` ranks against `b` with `b_id`
/// in the election of the best clock: -1 where `a` is better, 1 where `b`
/// is, 0 at a tie.
///
/// The first of these criteria that does not tie decides: priority1, clock
/// class, clock accuracy, offset scaled log variance, priority2, clock
/// identity.
pub open spec fn bmca_rank(
    a: PtpHostStateTimeTransmitter,
    b: PtpHostStateTimeTransmitter,
    a_id: ClockIdentity,
    b_id: ClockIdentity,
) -> int {
    let by_priority1 = rank_optional(optional_u8(a.priority1), optional_u8(b.priority1));
    let by_class = rank_optional(optional_class(a.clock_class), optional_class(b.clock_class));
    let by_accuracy = rank_optional(
        optional_accuracy(a.clock_accuracy),
        optional_accuracy(b.clock_accuracy),
    );
    let by_variance = rank_optional(
        optional_u16(a.offset_scaled_log_variance),
        optional_u16(b.offset_scaled_log_variance),
    );
    let by_priority2 = rank_optional(optional_u8(a.priority2), optional_u8(b.priority2));
    if by_priority1 != 0 {
        by_priority1
    } else if by_class != 0 {
        by_class
    } else if by_accuracy != 0 {
        by_accuracy
    } else if by_variance != 0 {
        by_variance
    } else if by_priority2 != 0 {
        by_priority2
    } else {
        rank_identity(a_id, b_id)
    }
}

/// Compares two optional bytes: lower is better, present is better than
/// absent.
fn compare_optional_u8(ours: Option<u8>, theirs: Option<u8>) -> (order: Ordering)
    ensures
        (order is Less) == (rank_optional(optional_u8(ours), optional_u8(theirs)) < 0),
        (order is Equal) == (rank_optional(optional_u8(ours), optional_u8(theirs)) == 0),
        (order is Greater) == (rank_optional(optional_u8(ours), optional_u8(theirs)) > 0),
{
    match (ours, theirs) {
        (Some(a), Some(b)) => if a < b {
            Ordering::Less
        } else if a > b {
            Ordering::Greater
        } else {
            Ordering::Equal
        },
        (Some(_), None) => Ordering::Less,
        (None, Some(_)) => Ordering::Greater,
        (None, None) => Ordering::Equal,
    }
}

/// Compares two optional 16-bit values: lower is better, present is better
/// than absent.
fn compare_optional_u16(ours: Option<u16>, theirs: Option<u16>) -> (order: Ordering)
    ensures
        (order is Less) == (rank_optional(optional_u16(ours), optional_u16(theirs)) < 0),
        (order is Equal) == (rank_optional(optional_u16(ours), optional_u16(theirs)) == 0),
        (order is Greater) == (rank_optional(optional_u16(ours), optional_u16(theirs)) > 0),
{
    match (ours, theirs) {
        (Some(a), Some(b)) => if a < b {
            Ordering::Less
        } else if a > b {
            Ordering::Greater
        } else {
            Ordering::Equal
        },
        (Some(_), None) => Ordering::Less,
        (None, Some(_)) => Ordering::Greater,
        (None, None) => Ordering::Equal,
    }
}

impl Default for PtpHostStateTimeTransmitter {
    fn default() -> (state: Self)
        ensures
            state == PtpHostStateTimeTransmitter::empty(),
    {
        PtpHostStateTimeTransmitter {
            last_sync_timestamp: None,
            priority1: None,
            priority2: None,
            clock_class: None,
            clock_accuracy: None,
            steps_removed: None,
            offset_scaled_log_variance: None,
            time_source: None,
            ptt_identifier: None,
            last_announce_origin_timestamp: None,
            last_sync_origin_timestamp: None,
            last_followup_origin_timestamp: None,
            current_utc_offset: None,
            is_bmca_winner: false,
        }
    }
}

impl PtpHostStateTimeTransmitter {
    /// The transmitter of which nothing is known yet.
    pub open spec fn empty() -> PtpHostStateTimeTransmitter {
        PtpHostStateTimeTransmitter {
            last_sync_timestamp: None,
            priority1: None,
            priority2: None,
            clock_class: None,
            clock_accuracy: None,
            steps_removed: None,
            offset_scaled_log_variance: None,
            time_source: None,
            ptt_identifier: None,
            last_announce_origin_timestamp: None,
            last_sync_origin_timestamp: None,
            last_followup_origin_timestamp: None,
            current_utc_offset: None,
            is_bmca_winner: false,
        }
    }

    /// This state with the fields of an Announce message merged in.
    pub open spec fn with_announce(self, msg: AnnounceMessage) -> PtpHostStateTimeTransmitter {
        PtpHostStateTimeTransmitter {
            priority1: Some(msg.priority1),
            priority2: Some(msg.priority2),
            clock_class: Some(msg.clock_class),
            clock_accuracy: Some(msg.clock_accuracy),
            offset_scaled_log_variance: Some(msg.offset_scaled_log_variance),
            steps_removed: Some(msg.steps_removed),
            time_source: Some(msg.time_source),
            ptt_identifier: Some(msg.ptt_identity),
            current_utc_offset: Some(msg.current_utc_offset),
            last_announce_origin_timestamp: Some(msg.origin_timestamp),
            ..self
        }
    }

    /// This state with a Sync message processed at the monotonic time `now`
    /// merged in.
    pub open spec fn with_sync(self, msg: SyncMessage, now: u64) -> PtpHostStateTimeTransmitter {
        PtpHostStateTimeTransmitter {
            last_sync_origin_timestamp: Some(msg.origin_timestamp),
            last_sync_timestamp: Some(now),
            ..self
        }
    }

    /// This state with a FollowUp message merged in.
    pub open spec fn with_follow_up(self, msg: FollowUpMessage) -> PtpHostStateTimeTransmitter {
        PtpHostStateTimeTransmitter {
            last_followup_origin_timestamp: Some(msg.precise_origin_timestamp),
            ..self
        }
    }

    /// A fresh transmitter seeded from an Announce message.
    pub fn from_announce(announce: &AnnounceMessage) -> (state: Self)
        ensures
            state == Self::empty().with_announce(*announce),
    {
        let mut s = PtpHostStateTimeTransmitter::default();
        s.update_from_announce(announce);
        s
    }

    /// Merges an Announce message into this state.
    pub fn update_from_announce(&mut self, msg: &AnnounceMessage)
        ensures
            *final(self) == old(self).with_announce(*msg),
    {
        self.priority1 = Some(msg.priority1);
        self.priority2 = Some(msg.priority2);
        self.clock_class = Some(msg.clock_class);
        self.clock_accuracy = Some(msg.clock_accuracy);
        self.offset_scaled_log_variance = Some(msg.offset_scaled_log_variance);
        self.steps_removed = Some(msg.steps_removed);
        self.time_source = Some(msg.time_source);
        self.ptt_identifier = Some(msg.ptt_identity);
        self.current_utc_offset = Some(msg.current_utc_offset);
        self.last_announce_origin_timestamp = Some(msg.origin_timestamp);
    }

    /// A fresh transmitter seeded from a Sync message processed at `now`.
    pub fn from_sync(msg: &SyncMessage, now: u64) -> (state: Self)
        ensures
            state == Self::empty().with_sync(*msg, now),
    {
        let mut s = PtpHostStateTimeTransmitter::default();
        s.update_from_sync(msg, now);
        s
    }

    /// Merges a Sync message processed at `now` into this state.
    pub fn update_from_sync(&mut self, msg: &SyncMessage, now: u64)
        ensures
            *final(self) == old(self).with_sync(*msg, now),
    {
        self.last_sync_origin_timestamp = Some(msg.origin_timestamp);
        self.last_sync_timestamp = Some(now);
    }

    /// A fresh transmitter seeded from a FollowUp message.
    pub fn from_follow_up(msg: &FollowUpMessage) -> (state: Self)
        ensures
            state == Self::empty().with_follow_up(*msg),
    {
        let mut s = PtpHostStateTimeTransmitter::default();
        s.update_from_follow_up(msg);
        s
    }

    /// Merges a FollowUp message into this state.
    pub fn update_from_follow_up(&mut self, msg: &FollowUpMessage)
        ensures
            *final(self) == old(self).with_follow_up(*msg),
    {
        self.last_followup_origin_timestamp = Some(msg.precise_origin_timestamp);
    }

    /// Compares this transmitter with another for the election of the best
    /// clock: `Less` where this one is better, `Greater` where the other
    /// is, `Equal` only where every criterion ties and the identities are
    /// the same.
    pub fn compare_for_bmca(
        &self,
        other: &Self,
        our_clock_id: ClockIdentity,
        other_clock_id: ClockIdentity,
    ) -> (order: Ordering)
        ensures
            (order is Less) == (bmca_rank(*self, *other, our_clock_id, other_clock_id) == -1),
            (order is Equal) == (bmca_rank(*self, *other, our_clock_id, other_clock_id) == 0),
            (order is Greater) == (bmca_rank(*self, *other, our_clock_id, other_clock_id) == 1),
    {
        match compare_optional_u8(self.priority1, other.priority1) {
            Ordering::Equal => {},
            decided => {
                return decided;
            },
        }
        match compare_optional_u8(class_of(self.clock_class), class_of(other.clock_class)) {
            Ordering::Equal => {},
            decided => {
                return decided;
            },
        }
        match compare_optional_u8(
            accuracy_of(self.clock_accuracy),
            accuracy_of(other.clock_accuracy),
        ) {
            Ordering::Equal => {},
            decided => {
                return decided;
            },
        }
        match compare_optional_u16(
            self.offset_scaled_log_variance,
            other.offset_scaled_log_variance,
        ) {
            Ordering::Equal => {},
            decided => {
                return decided;
            },
        }
        match compare_optional_u8(self.priority2, other.priority2) {
            Ordering::Equal => {},
            decided => {
                return decided;
            },
        }
        let ours: u64 = our_clock_id.to_u64();
        let theirs: u64 = other_clock_id.to_u64();
        if ours < theirs {
            Ordering::Less
        } else if ours > theirs {
            Ordering::Greater
        } else {
            Ordering::Equal
        }
    }

    /// Whether this transmitter is strictly better than `other` in the
    /// election of the best clock.
    pub fn outranks(
        &self,
        other: &Self,
        our_clock_id: ClockIdentity,
        other_clock_id: ClockIdentity,
    ) -> (better: bool)
        ensures
            better == (bmca_rank(*self, *other, our_clock_id, other_clock_id) < 0),
    {
        match self.compare_for_bmca(other, our_clock_id, other_clock_id) {
            Ordering::Less => true,
            _ => false,
        }
    }
}

/// The number of an optional clock class.
fn class_of(class: Option<PtpClockClass>) -> (number: Option<u8>)
    ensures
        optional_u8(number) == optional_class(class),
{
    match class {
        Some(c) => Some(c.class()),
        None => None,
    }
}

/// The code of an optional clock accuracy.
fn accuracy_of(accuracy: Option<PtpClockAccuracy>) -> (code: Option<u8>)
    ensures
        optional_u8(code) == optional_accuracy(accuracy),
{
    match accuracy {
        Some(a) => Some(a.accuracy),
        None => None,
    }
}

/// Swapping the two sides of a comparison inverts its result.
///
/// For any two transmitter states and identities, `bmca_rank(a, b)` is the
/// negation of `bmca_rank(b, a)`: what is `Less` one way round is `Greater`
/// the other.
pub proof fn lemma_bmca_rank_antisymmetric(
    a: PtpHostStateTimeTransmitter,
    b: PtpHostStateTimeTransmitter,
    a_id: ClockIdentity,
    b_id: ClockIdentity,
)
    ensures
        bmca_rank(a, b, a_id, b_id) == -bmca_rank(b, a, b_id, a_id),
        -1 <= bmca_rank(a, b, a_id, b_id) <= 1,
{
}

/// Two transmitters with distinct identities never tie, whatever their
/// other fields hold: the identity is an always-decisive last criterion.
pub proof fn lemma_bmca_rank_decisive(
    a: PtpHostStateTimeTransmitter,
    b: PtpHostStateTimeTransmitter,
    a_id: ClockIdentity,
    b_id: ClockIdentity,
)
    requires
        a_id != b_id,
    ensures
        bmca_rank(a, b, a_id, b_id) != 0,
        bmca_rank(b, a, b_id, a_id) != 0,
{
    if a_id.value() == b_id.value() {
        ClockIdentity::lemma_value_injective(a_id, b_id);
    }
}

/// Comparing a transmitter with itself under one identity is a tie, and a
/// tie shows that the identities are equal.
pub proof fn lemma_bmca_rank_tie(
    a: PtpHostStateTimeTransmitter,
    b: PtpHostStateTimeTransmitter,
    a_id: ClockIdentity,
    b_id: ClockIdentity,
)
    ensures
        bmca_rank(a, a, a_id, a_id) == 0,
        bmca_rank(a, b, a_id, b_id) == 0 ==> a_id == b_id,
{
    if a_id.value() == b_id.value() {
        ClockIdentity::lemma_value_injective(a_id, b_id);
    }
}

/// Two transmitters whose fields are identical rank by their identities
/// alone, and the two ways round are strict inverses.
pub proof fn lemma_bmca_identical_fields(
    a: PtpHostStateTimeTransmitter,
    a_id: ClockIdentity,
    b_id: ClockIdentity,
)
    requires
        a_id != b_id,
    ensures
        bmca_rank(a, a, a_id, b_id) == rank_identity(a_id, b_id),
        bmca_rank(a, a, a_id, b_id) == -bmca_rank(a, a, b_id, a_id),
        bmca_rank(a, a, a_id, b_id) != 0,
{
    if a_id.value() == b_id.value() {
        ClockIdentity::lemma_value_injective(a_id, b_id);
    }
}

/// The ranking is transitive: what is no worse than a second transmitter,
/// which is no worse than a third, is no worse than the third; and it is
/// strictly better where either step is strict.
pub proof fn lemma_bmca_rank_transitive(
    a: PtpHostStateTimeTransmitter,
    b: PtpHostStateTimeTransmitter,
    c: PtpHostStateTimeTransmitter,
    a_id: ClockIdentity,
    b_id: ClockIdentity,
    c_id: ClockIdentity,
)
    requires
        bmca_rank(a, b, a_id, b_id) <= 0,
        bmca_rank(b, c, b_id, c_id) <= 0,
    ensures
        bmca_rank(a, c, a_id, c_id) <= 0,
        bmca_rank(a, b, a_id, b_id) < 0 || bmca_rank(b, c, b_id, c_id) < 0 ==> bmca_rank(
            a,
            c,
            a_id,
            c_id,
        ) < 0,
{
}

/// A transmitter whose priority1 is known outranks one whose priority1 is
/// not, whatever any other field or either identity holds.
pub proof fn lemma_bmca_priority1_present_wins(
    a: PtpHostStateTimeTransmitter,
    b: PtpHostStateTimeTransmitter,
    a_id: ClockIdentity,
    b_id: ClockIdentity,
)
    requires
        a.priority1 is Some,
        b.priority1 is None,
    ensures
        bmca_rank(a, b, a_id, b_id) == -1,
        bmca_rank(b, a, b_id, a_id) == 1,
{
}

/// What is known of a host that has been addressed by delay responses, or
/// that has been seen to ask for them.
#[derive(Debug, Clone, Copy)]
pub struct PtpHostStateTimeReceiver {
    pub last_delay_response_origin_timestamp: Option<PtpTimestamp>,
    pub last_pdelay_response_origin_timestamp: Option<PtpTimestamp>,
    pub last_pdelay_follow_up_timestamp: Option<PtpTimestamp>,
    /// The transmitter that this receiver is taken to follow.
    pub selected_transmitter_identity: Option<ClockIdentity>,
    /// How sure that selection is, in steps of 1/5000 from 0 to
    /// [`FULL_CONFIDENCE`].
    pub selected_transmitter_confidence: u16,
}

/// The confidence that the heuristic gives to a sync sender whose last
/// Sync is `age_nanos` nanoseconds old: one step of 1/5000 per whole
/// millisecond, capped at 0.9.
pub open spec fn heuristic_confidence(age_nanos: u64) -> u16 {
    if age_nanos / 1_000_000 >= 4500 {
        4500
    } else {
        (age_nanos / 1_000_000) as u16
    }
}

impl Default for PtpHostStateTimeReceiver {
    fn default() -> (state: Self)
        ensures
            state == PtpHostStateTimeReceiver::empty(),
    {
        PtpHostStateTimeReceiver {
            last_delay_response_origin_timestamp: None,
            last_pdelay_response_origin_timestamp: None,
            last_pdelay_follow_up_timestamp: None,
            selected_transmitter_identity: None,
            selected_transmitter_confidence: 0,
        }
    }
}

impl PtpHostStateTimeReceiver {
    /// The receiver of which nothing is known yet.
    pub open spec fn empty() -> PtpHostStateTimeReceiver {
        PtpHostStateTimeReceiver {
            last_delay_response_origin_timestamp: None,
            last_pdelay_response_origin_timestamp: None,
            last_pdelay_follow_up_timestamp: None,
            selected_transmitter_identity: None,
            selected_transmitter_confidence: 0,
        }
    }

    /// This state after the heuristic correlation with the most recent
    /// sync sender of the domain: a confidence below full is replaced by
    /// the heuristic one, a full confidence stays with its transmitter.
    pub open spec fn with_recent_sync_sender(
        self,
        recent_sync_sender: ClockIdentity,
        age_nanos: u64,
    ) -> PtpHostStateTimeReceiver {
        if self.selected_transmitter_confidence < FULL_CONFIDENCE {
            PtpHostStateTimeReceiver {
                selected_transmitter_identity: Some(recent_sync_sender),
                selected_transmitter_confidence: heuristic_confidence(age_nanos),
                ..self
            }
        } else {
            self
        }
    }

    /// This state with a DelayResp message merged in: the sender of the
    /// response is the selected transmitter, at full confidence.
    pub open spec fn with_delay_resp(self, msg: DelayRespMessage) -> PtpHostStateTimeReceiver {
        PtpHostStateTimeReceiver {
            last_delay_response_origin_timestamp: Some(msg.receive_timestamp),
            selected_transmitter_identity: Some(msg.header.source_port_identity.clock_identity),
            selected_transmitter_confidence: FULL_CONFIDENCE,
            ..self
        }
    }

    /// This state with a PDelayResp message merged in.
    pub open spec fn with_pdelay_resp(self, msg: PDelayRespMessage) -> PtpHostStateTimeReceiver {
        PtpHostStateTimeReceiver {
            last_pdelay_response_origin_timestamp: Some(msg.request_receipt_timestamp),
            ..self
        }
    }

    /// This state with a PDelayRespFollowUp message merged in.
    pub open spec fn with_pdelay_resp_follow_up(
        self,
        msg: PDelayRespFollowUpMessage,
    ) -> PtpHostStateTimeReceiver {
        PtpHostStateTimeReceiver {
            last_pdelay_follow_up_timestamp: Some(msg.response_origin_timestamp),
            ..self
        }
    }

    /// A fresh receiver correlated with the most recent sync sender.
    pub fn from_recent_sync_sender(recent_sync_sender: ClockIdentity, age_nanos: u64) -> (state:
        Self)
        ensures
            state == Self::empty().with_recent_sync_sender(recent_sync_sender, age_nanos),
    {
        let mut s = PtpHostStateTimeReceiver::default();
        s.update_from_recent_sync_sender(recent_sync_sender, age_nanos);
        s
    }

    /// Correlates this receiver with the most recent sync sender of its
    /// domain, unless a completed exchange has already confirmed one.
    pub fn update_from_recent_sync_sender(
        &mut self,
        recent_sync_sender: ClockIdentity,
        age_nanos: u64,
    )
        ensures
            *final(self) == old(self).with_recent_sync_sender(recent_sync_sender, age_nanos),
    {
        if self.selected_transmitter_confidence < FULL_CONFIDENCE {
            self.selected_transmitter_identity = Some(recent_sync_sender);
            let age_millis: u64 = age_nanos / NANOS_PER_MILLI;
            let cap: u64 = HEURISTIC_CONFIDENCE_CAP as u64;
            self.selected_transmitter_confidence = if age_millis >= cap {
                HEURISTIC_CONFIDENCE_CAP
            } else {
                age_millis as u16
            };
        }
    }

    /// A fresh receiver seeded from a DelayResp message.
    pub fn from_delay_resp(msg: &DelayRespMessage) -> (state: Self)
        ensures
            state == Self::empty().with_delay_resp(*msg),
    {
        let mut s = PtpHostStateTimeReceiver::default();
        s.update_from_delay_resp(msg);
        s
    }

    /// Merges a DelayResp message into this state.
    pub fn update_from_delay_resp(&mut self, msg: &DelayRespMessage)
        ensures
            *final(self) == old(self).with_delay_resp(*msg),
    {
        self.last_delay_response_origin_timestamp = Some(msg.receive_timestamp);
        self.selected_transmitter_identity = Some(msg.header.source_port_identity.clock_identity);
        self.selected_transmitter_confidence = FULL_CONFIDENCE;
    }

    /// A fresh receiver seeded from a PDelayResp message.
    pub fn from_pdelay_resp(msg: &PDelayRespMessage) -> (state: Self)
        ensures
            state == Self::empty().with_pdelay_resp(*msg),
    {
        let mut s = PtpHostStateTimeReceiver::default();
        s.update_from_pdelay_resp(msg);
        s
    }

    /// Merges a PDelayResp message into this state.
    pub fn update_from_pdelay_resp(&mut self, msg: &PDelayRespMessage)
        ensures
            *final(self) == old(self).with_pdelay_resp(*msg),
    {
        self.last_pdelay_response_origin_timestamp = Some(msg.request_receipt_timestamp);
    }

    /// A fresh receiver seeded from a PDelayRespFollowUp message.
    pub fn from_pdelay_resp_follow_up(msg: &PDelayRespFollowUpMessage) -> (state: Self)
        ensures
            state == Self::empty().with_pdelay_resp_follow_up(*msg),
    {
        let mut s = PtpHostStateTimeReceiver::default();
        s.update_from_pdelay_resp_follow_up(msg);
        s
    }

    /// Merges a PDelayRespFollowUp message into this state.
    pub fn update_from_pdelay_resp_follow_up(&mut self, msg: &PDelayRespFollowUpMessage)
        ensures
            *final(self) == old(self).with_pdelay_resp_follow_up(*msg),
    {
        self.last_pdelay_follow_up_timestamp = Some(msg.response_origin_timestamp);
    }
}

/// The role of a host.
#[derive(Debug, Clone, Copy)]
pub enum PtpHostState {
    /// No role has been observed yet.
    Listening,
    TimeTransmitter(PtpHostStateTimeTransmitter),
    TimeReceiver(PtpHostStateTimeReceiver),
}

impl Default for PtpHostState {
    fn default() -> (state: Self)
        ensures
            state == PtpHostState::Listening,
    {
        PtpHostState::Listening
    }
}

impl PtpHostState {
    /// The transmitter state that a transmitter message is merged into:
    /// the current one where the host is a transmitter, else an empty one.
    pub open spec fn transmitter_base(self) -> PtpHostStateTimeTransmitter {
        match self {
            PtpHostState::TimeTransmitter(state) => state,
            _ => PtpHostStateTimeTransmitter::empty(),
        }
    }

    /// The receiver state that a receiver message is merged into: the
    /// current one where the host is a receiver, else an empty one.
    pub open spec fn receiver_base(self) -> PtpHostStateTimeReceiver {
        match self {
            PtpHostState::TimeReceiver(state) => state,
            _ => PtpHostStateTimeReceiver::empty(),
        }
    }

    /// The state after an Announce message from this host.
    pub open spec fn after_announce(self, msg: AnnounceMessage) -> PtpHostState {
        PtpHostState::TimeTransmitter(self.transmitter_base().with_announce(msg))
    }

    /// The state after a Sync message from this host, processed at `now`.
    pub open spec fn after_sync(self, msg: SyncMessage, now: u64) -> PtpHostState {
        PtpHostState::TimeTransmitter(self.transmitter_base().with_sync(msg, now))
    }

    /// The state after a FollowUp message from this host.
    pub open spec fn after_follow_up(self, msg: FollowUpMessage) -> PtpHostState {
        PtpHostState::TimeTransmitter(self.transmitter_base().with_follow_up(msg))
    }

    /// The state after the heuristic correlation with a sync sender.
    pub open spec fn after_recent_sync_sender(
        self,
        recent_sync_sender: ClockIdentity,
        age_nanos: u64,
    ) -> PtpHostState {
        PtpHostState::TimeReceiver(
            self.receiver_base().with_recent_sync_sender(recent_sync_sender, age_nanos),
        )
    }

    /// The state after a DelayResp message addressed to this host.
    pub open spec fn after_delay_resp(self, msg: DelayRespMessage) -> PtpHostState {
        PtpHostState::TimeReceiver(self.receiver_base().with_delay_resp(msg))
    }

    /// The state after a PDelayResp message addressed to this host.
    pub open spec fn after_pdelay_resp(self, msg: PDelayRespMessage) -> PtpHostState {
        PtpHostState::TimeReceiver(self.receiver_base().with_pdelay_resp(msg))
    }

    /// The state after a PDelayRespFollowUp message addressed to this host.
    pub open spec fn after_pdelay_resp_follow_up(
        self,
        msg: PDelayRespFollowUpMessage,
    ) -> PtpHostState {
        PtpHostState::TimeReceiver(self.receiver_base().with_pdelay_resp_follow_up(msg))
    }

    /// The confidence of the selected transmitter, where the host is a
    /// receiver.
    pub open spec fn confidence(self) -> Option<u16> {
        match self {
            PtpHostState::TimeReceiver(state) => Some(state.selected_transmitter_confidence),
            _ => None,
        }
    }

    /// The one- to three-letter code of the role.
    pub open spec fn short_text(self) -> Seq<char> {
        match self {
            PtpHostState::Listening => "L"@,
            PtpHostState::TimeTransmitter(state) => if state.is_bmca_winner {
                "PTT"@
            } else {
                "TT"@
            },
            PtpHostState::TimeReceiver(_) => "TR"@,
        }
    }

    /// The name of the role.
    pub open spec fn text(self) -> Seq<char> {
        match self {
            PtpHostState::Listening => "Listening"@,
            PtpHostState::TimeTransmitter(state) => if state.is_bmca_winner {
                "Primary Time Transmitter"@
            } else {
                "Time Transmitter"@
            },
            PtpHostState::TimeReceiver(_) => "Time Receiver"@,
        }
    }

    /// Applies an Announce message from this host.
    pub fn update_from_announce(&mut self, announce: &AnnounceMessage)
        ensures
            *final(self) == old(self).after_announce(*announce),
    {
        match self {
            PtpHostState::TimeTransmitter(state) => {
                state.update_from_announce(announce);
            },
            _ => {
                *self = PtpHostState::TimeTransmitter(
                    PtpHostStateTimeTransmitter::from_announce(announce),
                );
            },
        }
    }

    /// Applies a Sync message from this host, processed at `now`.
    pub fn update_from_sync(&mut self, msg: &SyncMessage, now: u64)
        ensures
            *final(self) == old(self).after_sync(*msg, now),
    {
        match self {
            PtpHostState::TimeTransmitter(state) => {
                state.update_from_sync(msg, now);
            },
            _ => {
                *self = PtpHostState::TimeTransmitter(
                    PtpHostStateTimeTransmitter::from_sync(msg, now),
                );
            },
        }
    }

    /// Applies a FollowUp message from this host.
    pub fn update_from_follow_up(&mut self, msg: &FollowUpMessage)
        ensures
            *final(self) == old(self).after_follow_up(*msg),
    {
        match self {
            PtpHostState::TimeTransmitter(state) => {
                state.update_from_follow_up(msg);
            },
            _ => {
                *self = PtpHostState::TimeTransmitter(
                    PtpHostStateTimeTransmitter::from_follow_up(msg),
                );
            },
        }
    }

    /// Applies the heuristic correlation with the most recent sync sender.
    pub fn update_from_recent_sync_sender(
        &mut self,
        recent_sync_sender: ClockIdentity,
        age_nanos: u64,
    )
        ensures
            *final(self) == old(self).after_recent_sync_sender(recent_sync_sender, age_nanos),
    {
        match self {
            PtpHostState::TimeReceiver(state) => {
                state.update_from_recent_sync_sender(recent_sync_sender, age_nanos);
            },
            _ => {
                *self = PtpHostState::TimeReceiver(
                    PtpHostStateTimeReceiver::from_recent_sync_sender(
                        recent_sync_sender,
                        age_nanos,
                    ),
                );
            },
        }
    }

    /// Applies a DelayResp message addressed to this host.
    pub fn update_from_delay_resp(&mut self, msg: &DelayRespMessage)
        ensures
            *final(self) == old(self).after_delay_resp(*msg),
    {
        match self {
            PtpHostState::TimeReceiver(state) => {
                state.update_from_delay_resp(msg);
            },
            _ => {
                *self = PtpHostState::TimeReceiver(PtpHostStateTimeReceiver::from_delay_resp(msg));
            },
        }
    }

    /// Applies a PDelayResp message addressed to this host.
    pub fn update_from_pdelay_resp(&mut self, msg: &PDelayRespMessage)
        ensures
            *final(self) == old(self).after_pdelay_resp(*msg),
    {
        match self {
            PtpHostState::TimeReceiver(state) => {
                state.update_from_pdelay_resp(msg);
            },
            _ => {
                *self = PtpHostState::TimeReceiver(
                    PtpHostStateTimeReceiver::from_pdelay_resp(msg),
                );
            },
        }
    }

    /// Applies a PDelayRespFollowUp message addressed to this host.
    pub fn update_from_pdelay_resp_follow_up(&mut self, msg: &PDelayRespFollowUpMessage)
        ensures
            *final(self) == old(self).after_pdelay_resp_follow_up(*msg),
    {
        match self {
            PtpHostState::TimeReceiver(state) => {
                state.update_from_pdelay_resp_follow_up(msg);
            },
            _ => {
                *self = PtpHostState::TimeReceiver(
                    PtpHostStateTimeReceiver::from_pdelay_resp_follow_up(msg),
                );
            },
        }
    }

    /// The one- to three-letter code of the role.
    pub fn short_string(&self) -> (text: &'static str)
        ensures
            text@ == self.short_text(),
    {
        match self {
            PtpHostState::Listening => "L",
            PtpHostState::TimeTransmitter(state) => {
                if state.is_bmca_winner {
                    "PTT"
                } else {
                    "TT"
                }
            },
            PtpHostState::TimeReceiver(_) => "TR",
        }
    }

    /// The name of the role.
    pub fn to_string(&self) -> (text: String)
        ensures
            text@ == self.text(),
    {
        match self {
            PtpHostState::Listening => String::from_str("Listening"),
            PtpHostState::TimeTransmitter(s) => {
                if s.is_bmca_winner {
                    String::from_str("Primary Time Transmitter")
                } else {
                    String::from_str("Time Transmitter")
                }
            },
            PtpHostState::TimeReceiver(_) => String::from_str("Time Receiver"),
        }
    }
}

/// The heuristic never changes a receiver whose confidence is already
/// full, however often it is applied; any other host it makes a receiver
/// whose confidence stays at or below the heuristic cap, short of full.
pub proof fn lemma_heuristic_keeps_full_confidence(
    state: PtpHostState,
    recent_sync_sender: ClockIdentity,
    age_nanos: u64,
)
    ensures
        state.confidence() == Some(FULL_CONFIDENCE) ==> state.after_recent_sync_sender(
            recent_sync_sender,
            age_nanos,
        ) == state,
        (state.confidence() matches Some(c) ==> c < FULL_CONFIDENCE)
            ==> state.after_recent_sync_sender(recent_sync_sender, age_nanos).confidence()
            == Some(heuristic_confidence(age_nanos)) && heuristic_confidence(age_nanos)
            <= HEURISTIC_CONFIDENCE_CAP,
{
}

/// A DelayResp addressed to a host sets its confidence to exactly full,
/// whatever its state was before, and names the sender of the response as
/// its transmitter.
pub proof fn lemma_delay_resp_gives_full_confidence(state: PtpHostState, msg: DelayRespMessage)
    ensures
        state.after_delay_resp(msg).confidence() == Some(FULL_CONFIDENCE),
        state.after_delay_resp(msg) matches PtpHostState::TimeReceiver(receiver)
            && receiver.selected_transmitter_identity == Some(
            msg.header.source_port_identity.clock_identity,
        ),
{
}

} // verus!
