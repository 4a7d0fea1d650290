//! The election of the best transmitter of every timing domain.
//!
//! The candidates of a domain are the hosts that are transmitters and
//! whose last message was of that domain. The winner is the candidate that
//! no other candidate outranks. It is marked as winner, and every receiver
//! of the domain is made to follow it at full confidence.

use vstd::prelude::*;
use crate::host::HostView;
use crate::invariants::{lemma_after_election_well_formed, lemma_after_scan_well_formed};
use crate::state::{
    bmca_rank, lemma_bmca_rank_antisymmetric, lemma_bmca_rank_tie, lemma_bmca_rank_transitive,
    PtpHostState, PtpHostStateTimeReceiver, PtpHostStateTimeTransmitter, FULL_CONFIDENCE,
};
use crate::tracker::{hosts_view, identities, PtpTracker, TrackerView};
use crate::lookup::all_distinct;

verus! {

/// Whether `host` stands for election in `domain`.
pub open spec fn is_candidate(host: HostView, domain: u8) -> bool {
    host.domain_number == Some(domain) && host.state is TimeTransmitter
}

/// How transmitter `a` ranks against transmitter `b`: negative where `a`
/// is the better clock.
pub open spec fn rank_of(a: HostView, b: HostView) -> int {
    bmca_rank(
        a.state.transmitter_base(),
        b.state.transmitter_base(),
        a.clock_identity,
        b.clock_identity,
    )
}

/// Whether the host at `w` prevails over the one at `j`: it is the better
/// clock, or the two tie and `w` does not come later.
pub open spec fn prevails(hosts: Seq<HostView>, w: int, j: int) -> bool {
    rank_of(hosts[w], hosts[j]) < 0 || (rank_of(hosts[w], hosts[j]) == 0 && w <= j)
}

/// Whether the host at `w` is the candidate of `domain` that prevails over
/// every candidate of `domain` among the first `n` hosts.
pub open spec fn is_best_among(hosts: Seq<HostView>, n: int, w: int, domain: u8) -> bool {
    &&& 0 <= w < n
    &&& is_candidate(hosts[w], domain)
    &&& forall|j: int|
        0 <= j < n && #[trigger] is_candidate(hosts[j], domain) ==> prevails(hosts, w, j)
}

/// Whether none of the first `n` hosts stands for election in `domain`.
pub open spec fn no_candidate_among(hosts: Seq<HostView>, n: int, domain: u8) -> bool {
    forall|j: int| 0 <= j < n ==> !#[trigger] is_candidate(hosts[j], domain)
}

/// The position of the winner of `domain`: the candidate that prevails
/// over every candidate of the domain; `None` where the domain has no
/// candidate.
pub open spec fn winner_of(hosts: Seq<HostView>, domain: u8) -> Option<int> {
    if exists|w: int| is_best_among(hosts, hosts.len() as int, w, domain) {
        Some(choose|w: int| is_best_among(hosts, hosts.len() as int, w, domain))
    } else {
        None
    }
}

/// The host at position `i` after the election among `hosts`.
///
/// A transmitter with a known domain is marked as winner exactly where it
/// is the winner of its domain. A receiver whose domain has a winner
/// follows that winner at full confidence. Every other host stays as it
/// is.
pub open spec fn host_elected(hosts: Seq<HostView>, i: int) -> HostView {
    let host = hosts[i];
    match host.domain_number {
        None => host,
        Some(domain) => match host.state {
            PtpHostState::TimeTransmitter(state) => HostView {
                state: PtpHostState::TimeTransmitter(
                    PtpHostStateTimeTransmitter {
                        is_bmca_winner: winner_of(hosts, domain) == Some(i),
                        ..state
                    },
                ),
                ..host
            },
            PtpHostState::TimeReceiver(state) => match winner_of(hosts, domain) {
                Some(w) => HostView {
                    state: PtpHostState::TimeReceiver(
                        PtpHostStateTimeReceiver {
                            selected_transmitter_identity: Some(hosts[w].clock_identity),
                            selected_transmitter_confidence: FULL_CONFIDENCE,
                            ..state
                        },
                    ),
                    ..host
                },
                None => host,
            },
            PtpHostState::Listening => host,
        },
    }
}

/// All hosts after the election.
pub open spec fn elected(hosts: Seq<HostView>) -> Seq<HostView> {
    Seq::new(hosts.len(), |i: int| host_elected(hosts, i))
}

/// A domain has at most one winner: the candidate that prevails over all
/// candidates is the one that `winner_of` names.
pub proof fn lemma_winner_unique(hosts: Seq<HostView>, w: int, domain: u8)
    requires
        is_best_among(hosts, hosts.len() as int, w, domain),
    ensures
        winner_of(hosts, domain) == Some(w),
{
    let v = choose|v: int| is_best_among(hosts, hosts.len() as int, v, domain);
    assert(prevails(hosts, w, v));
    assert(prevails(hosts, v, w));
    lemma_bmca_rank_antisymmetric(
        hosts[w].state.transmitter_base(),
        hosts[v].state.transmitter_base(),
        hosts[w].clock_identity,
        hosts[v].clock_identity,
    );
}

/// A domain without candidates has no winner.
pub proof fn lemma_no_winner(hosts: Seq<HostView>, domain: u8)
    requires
        no_candidate_among(hosts, hosts.len() as int, domain),
    ensures
        winner_of(hosts, domain) is None,
{
    if exists|w: int| is_best_among(hosts, hosts.len() as int, w, domain) {
        let w = choose|w: int| is_best_among(hosts, hosts.len() as int, w, domain);
        assert(is_candidate(hosts[w], domain));
    }
}

/// The election is decided: in a domain with a candidate there is a
/// winner, it is a candidate, and no candidate of the domain is a better
/// clock. Where no two hosts share an identity, the winner is strictly
/// better than every other candidate.
pub proof fn lemma_winner_is_best(hosts: Seq<HostView>, domain: u8, j: int)
    requires
        0 <= j < hosts.len(),
        is_candidate(hosts[j], domain),
    ensures
        winner_of(hosts, domain) matches Some(w) && 0 <= w < hosts.len() && is_candidate(
            hosts[w],
            domain,
        ) && rank_of(hosts[w], hosts[j]) <= 0 && (all_distinct(identities(hosts)) && w != j
            ==> rank_of(hosts[w], hosts[j]) < 0),
{
    lemma_best_exists(hosts, hosts.len() as int, domain, j);
    let w = choose|w: int| is_best_among(hosts, hosts.len() as int, w, domain);
    assert(prevails(hosts, w, j));
    if all_distinct(identities(hosts)) && w != j && rank_of(hosts[w], hosts[j]) == 0 {
        lemma_bmca_rank_tie(
            hosts[w].state.transmitter_base(),
            hosts[j].state.transmitter_base(),
            hosts[w].clock_identity,
            hosts[j].clock_identity,
        );
        assert(identities(hosts)[w] == identities(hosts)[j]);
    }
}

/// Among the first `n` hosts, a domain with a candidate has a best one.
pub proof fn lemma_best_exists(hosts: Seq<HostView>, n: int, domain: u8, j: int)
    requires
        0 <= j < n <= hosts.len(),
        is_candidate(hosts[j], domain),
    ensures
        exists|w: int| is_best_among(hosts, n, w, domain),
    decreases n,
{
    let m = n - 1;
    if no_candidate_among(hosts, m, domain) {
        assert(j == m);
        lemma_bmca_rank_tie(
            hosts[j].state.transmitter_base(),
            hosts[j].state.transmitter_base(),
            hosts[j].clock_identity,
            hosts[j].clock_identity,
        );
        assert(is_best_among(hosts, n, j, domain));
    } else {
        let k = choose|k: int| 0 <= k < m && is_candidate(hosts[k], domain);
        lemma_best_exists(hosts, m, domain, k);
        let b = choose|b: int| is_best_among(hosts, m, b, domain);
        lemma_best_step(hosts, m, domain, b);
        if is_candidate(hosts[m], domain) && rank_of(hosts[m], hosts[b]) < 0 {
            assert(is_best_among(hosts, n, m, domain));
        } else {
            assert(is_best_among(hosts, n, b, domain));
        }
    }
}

/// How the best of the first `n` hosts changes with one more host: a
/// candidate that is a better clock than the best so far takes its place;
/// otherwise the best so far stays.
pub proof fn lemma_best_step(hosts: Seq<HostView>, n: int, domain: u8, b: int)
    requires
        0 <= n < hosts.len(),
        is_best_among(hosts, n, b, domain),
    ensures
        is_candidate(hosts[n], domain) && rank_of(hosts[n], hosts[b]) < 0 ==> is_best_among(
            hosts,
            n + 1,
            n,
            domain,
        ),
        !(is_candidate(hosts[n], domain) && rank_of(hosts[n], hosts[b]) < 0) ==> is_best_among(
            hosts,
            n + 1,
            b,
            domain,
        ),
{
    let new = hosts[n];
    let best = hosts[b];
    lemma_bmca_rank_antisymmetric(
        new.state.transmitter_base(),
        best.state.transmitter_base(),
        new.clock_identity,
        best.clock_identity,
    );
    lemma_bmca_rank_tie(
        new.state.transmitter_base(),
        new.state.transmitter_base(),
        new.clock_identity,
        new.clock_identity,
    );
    if is_candidate(new, domain) && rank_of(new, best) < 0 {
        assert forall|j: int| 0 <= j < n + 1 && #[trigger] is_candidate(
            hosts[j],
            domain,
        ) implies prevails(hosts, n, j) by {
            if j < n {
                assert(prevails(hosts, b, j));
                lemma_bmca_rank_transitive(
                    new.state.transmitter_base(),
                    best.state.transmitter_base(),
                    hosts[j].state.transmitter_base(),
                    new.clock_identity,
                    best.clock_identity,
                    hosts[j].clock_identity,
                );
            }
        }
    } else {
        assert forall|j: int| 0 <= j < n + 1 && #[trigger] is_candidate(
            hosts[j],
            domain,
        ) implies prevails(hosts, b, j) by {
            if j < n {
                assert(prevails(hosts, b, j));
            }
        }
    }
}

impl TrackerView {
    /// The tracker after the election of the best transmitter of every
    /// domain.
    pub open spec fn after_election(self) -> TrackerView {
        TrackerView { hosts: elected(self.hosts), ..self }
    }
}

impl TrackerView {
    /// The tracker after one scan cycle at the monotonic time `now` and
    /// the wall-clock time `wall_clock`: at most a batch of queued frames
    /// is handled, the sync senders are pruned, and the election is run.
    pub open spec fn after_scan(self, now: u64, wall_clock: u64) -> TrackerView {
        self.after_frames(crate::tracker::BATCH_SIZE as nat, now, wall_clock).after_cleanup(
            now,
        ).after_election()
    }
}

impl PtpTracker {
    /// Runs one scan cycle: handles at most a batch of queued frames,
    /// prunes the sync senders and elects the best transmitter of every
    /// domain.
    pub fn scan_network(&mut self, now: u64, wall_clock: u64)
        ensures
            final(self)@ == old(self)@.after_scan(now, wall_clock),
            final(self).interfaces == old(self).interfaces,
            final(self).raw_socket_receiver.interfaces == old(self).raw_socket_receiver.interfaces,
            final(self).raw_socket_receiver.last_timestamp == old(
                self,
            ).raw_socket_receiver.last_timestamp,
            old(self)@.well_formed() ==> final(self)@.well_formed(),
    {
        proof {
            if old(self)@.well_formed() {
                lemma_after_scan_well_formed(old(self)@, now, wall_clock);
            }
        }
        self.process_ptp_messages(now, wall_clock);
        self.cleanup_old_sync_senders(now);
        self.run_bmca_election();
    }

    /// The best candidate of every domain among the hosts.
    fn find_winners(&self) -> (best: Vec<Option<usize>>)
        ensures
            best@.len() == 256,
            forall|d: u8| #[trigger]
                best@[d as int] == match winner_of(self@.hosts, d) {
                    Some(w) => Some(w as usize),
                    None => None,
                },
            forall|d: u8|
                match #[trigger] best@[d as int] {
                    Some(w) => w < self.hosts.len(),
                    None => true,
                },
    {
        let ghost hosts = self@.hosts;
        let mut best: Vec<Option<usize>> = Vec::new();
        while best.len() < 256
            invariant
                best@.len() <= 256,
                forall|d: int| 0 <= d < best@.len() ==> best@[d] is None,
            decreases 256 - best@.len(),
        {
            best.push(None);
        }
        let mut i: usize = 0;
        while i < self.hosts.len()
            invariant
                i <= self.hosts.len(),
                hosts == self@.hosts,
                best@.len() == 256,
                forall|d: u8|
                    match #[trigger] best@[d as int] {
                        Some(b) => is_best_among(hosts, i as int, b as int, d),
                        None => no_candidate_among(hosts, i as int, d),
                    },
            decreases self.hosts.len() - i,
        {
            let ghost before = best@;
            let host = &self.hosts[i];
            assert(hosts[i as int] == host@);
            let mut changed: Option<u8> = None;
            match (host.domain_number, &host.state) {
                (Some(domain), PtpHostState::TimeTransmitter(state)) => {
                    assert(is_candidate(hosts[i as int], domain));
                    match best[domain as usize] {
                        None => {
                            best[domain as usize] = Some(i);
                            proof {
                                lemma_bmca_rank_tie(
                                    *state,
                                    *state,
                                    host.clock_identity,
                                    host.clock_identity,
                                );
                                assert(no_candidate_among(hosts, i as int, domain));
                                assert(is_best_among(hosts, i + 1, i as int, domain));
                            }
                        },
                        Some(b) => {
                            assert(is_best_among(hosts, i as int, b as int, domain));
                            assert(hosts[b as int] == self.hosts[b as int]@);
                            proof {
                                lemma_best_step(hosts, i as int, domain, b as int);
                            }
                            match &self.hosts[b].state {
                                PtpHostState::TimeTransmitter(best_state) => {
                                    if state.outranks(
                                        best_state,
                                        host.clock_identity,
                                        self.hosts[b].clock_identity,
                                    ) {
                                        best[domain as usize] = Some(i);
                                    }
                                },
                                _ => {},
                            }
                        },
                    }
                },
                _ => {},
            }
            proof {
                assert forall|d: u8|
                    match #[trigger] best@[d as int] {
                        Some(b) => is_best_among(hosts, i + 1, b as int, d),
                        None => no_candidate_among(hosts, i + 1, d),
                    } by {
                    if is_candidate(hosts[i as int], d) {
                    } else {
                        assert(best@[d as int] == before[d as int]);
                        match before[d as int] {
                            Some(b) => {
                                assert(is_best_among(hosts, i as int, b as int, d));
                                assert forall|j: int|
                                    0 <= j < i + 1 && #[trigger] is_candidate(
                                        hosts[j],
                                        d,
                                    ) implies prevails(hosts, b as int, j) by {
                                    assert(j < i);
                                }
                            },
                            None => {
                                assert(no_candidate_among(hosts, i as int, d));
                            },
                        }
                    }
                }
            }
            i += 1;
        }
        proof {
            assert forall|d: u8| #[trigger]
                best@[d as int] == match winner_of(hosts, d) {
                    Some(w) => Some(w as usize),
                    None => None,
                } by {
                match best@[d as int] {
                    Some(b) => {
                        lemma_winner_unique(hosts, b as int, d);
                    },
                    None => {
                        lemma_no_winner(hosts, d);
                    },
                }
            }
            assert forall|d: u8|
                match #[trigger] best@[d as int] {
                    Some(w) => w < self.hosts.len(),
                    None => true,
                } by {
                match best@[d as int] {
                    Some(b) => {
                        assert(is_best_among(hosts, i as int, b as int, d));
                    },
                    None => {},
                }
            }
        }
        best
    }

    /// Elects the best transmitter of every domain, marks it as winner and
    /// makes every receiver of the domain follow it at full confidence.
    pub fn run_bmca_election(&mut self)
        ensures
            final(self)@ == old(self)@.after_election(),
            final(self).interfaces == old(self).interfaces,
            final(self).raw_socket_receiver == old(self).raw_socket_receiver,
            old(self)@.well_formed() ==> final(self)@.well_formed(),
    {
        proof {
            if old(self)@.well_formed() {
                lemma_after_election_well_formed(old(self)@);
            }
        }
        let best = self.find_winners();
        let ghost before = old(self)@.hosts;
        let mut i: usize = 0;
        while i < self.hosts.len()
            invariant
                i <= self.hosts.len(),
                self.hosts.len() == before.len(),
                best@.len() == 256,
                forall|d: u8| #[trigger]
                    best@[d as int] == match winner_of(before, d) {
                        Some(w) => Some(w as usize),
                        None => None,
                    },
                forall|d: u8|
                    match #[trigger] best@[d as int] {
                        Some(w) => w < before.len(),
                        None => true,
                    },
                forall|j: int|
                    0 <= j < i ==> (#[trigger] self.hosts[j])@ == host_elected(before, j),
                forall|j: int| i <= j < before.len() ==> (#[trigger] self.hosts[j])@ == before[j],
                self.last_packet == old(self).last_packet,
                self.recent_sync_senders == old(self).recent_sync_senders,
                self.interfaces == old(self).interfaces,
                self.raw_socket_receiver == old(self).raw_socket_receiver,
            decreases self.hosts.len() - i,
        {
            let ghost current = self.hosts@;
            match self.hosts[i].domain_number {
                Some(domain) => {
                    assert(best@[domain as int] == match winner_of(before, domain) {
                        Some(w) => Some(w as usize),
                        None => None,
                    });
                    match best[domain as usize] {
                        Some(w) => {
                            let winner = self.hosts[w].clock_identity;
                            assert(winner == before[w as int].clock_identity) by {
                                if w < i {
                                    assert(self.hosts[w as int]@ == host_elected(before, w as int));
                                } else {
                                    assert(self.hosts[w as int]@ == before[w as int]);
                                }
                            }
                            let host = &mut self.hosts[i];
                            match &mut host.state {
                                PtpHostState::TimeTransmitter(state) => {
                                    state.is_bmca_winner = w == i;
                                },
                                PtpHostState::TimeReceiver(state) => {
                                    state.selected_transmitter_identity = Some(winner);
                                    state.selected_transmitter_confidence = FULL_CONFIDENCE;
                                },
                                PtpHostState::Listening => {},
                            }
                        },
                        None => {
                            let host = &mut self.hosts[i];
                            match &mut host.state {
                                PtpHostState::TimeTransmitter(state) => {
                                    state.is_bmca_winner = false;
                                },
                                _ => {},
                            }
                        },
                    }
                },
                None => {},
            }
            assert(self.hosts[i as int]@ == host_elected(before, i as int));
            assert forall|j: int| 0 <= j < i + 1 implies (#[trigger] self.hosts[j])@
                == host_elected(before, j) by {
                if j < i {
                    assert(self.hosts[j] == current[j]);
                }
            }
            assert forall|j: int| i + 1 <= j < before.len() implies (#[trigger] self.hosts[j])@
                == before[j] by {
                assert(self.hosts[j] == current[j]);
            }
            i += 1;
        }
        assert(hosts_view(self.hosts@) =~= elected(before));
    }
}

/// The election changes no identity and no domain, and the role of a host
/// stays the role it had.
pub proof fn lemma_election_keeps_identities(hosts: Seq<HostView>)
    ensures
        identities(elected(hosts)) == identities(hosts),
        forall|i: int|
            0 <= i < hosts.len() ==> (#[trigger] elected(hosts)[i]).domain_number
                == hosts[i].domain_number && elected(hosts)[i].is_transmitter()
                == hosts[i].is_transmitter() && elected(hosts)[i].is_receiver()
                == hosts[i].is_receiver(),
{
    assert(identities(elected(hosts)) =~= identities(hosts));
}

/// Whether `host` is a receiver that follows the transmitter `winner` at
/// full confidence.
pub open spec fn follows(host: HostView, winner: crate::identity::ClockIdentity) -> bool {
    &&& host.state.receiver_base().selected_transmitter_identity == Some(winner)
    &&& host.state.receiver_base().selected_transmitter_confidence == FULL_CONFIDENCE
}

/// After the election, a domain with a candidate has exactly one host
/// marked as winner, and every receiver of the domain follows that host at
/// full confidence.
pub proof fn lemma_election_outcome(hosts: Seq<HostView>, domain: u8, j: int)
    requires
        0 <= j < hosts.len(),
        is_candidate(hosts[j], domain),
    ensures
        winner_of(hosts, domain) matches Some(w) && 0 <= w < hosts.len() && (forall|i: int|
            0 <= i < hosts.len() && is_candidate(hosts[i], domain) ==> (#[trigger] elected(
                hosts,
            )[i]).state.transmitter_base().is_bmca_winner == (i == w)) && (forall|i: int|
            0 <= i < hosts.len() && hosts[i].domain_number == Some(domain) && hosts[i].is_receiver()
                ==> follows(#[trigger] elected(hosts)[i], hosts[w].clock_identity)),
{
    lemma_winner_is_best(hosts, domain, j);
}

} // verus!
