//! Passive observation of PTP (IEEE 1588) and gPTP (802.1AS) traffic.
//!
//! The crate takes captured Ethernet frames apart, decodes the PTP message
//! that a frame carries, keeps one record per observed clock, and elects
//! the best transmitter of every timing domain. It never sends anything
//! and never reads a clock: whoever uses it hands in the frames and the
//! time.
//!
//! All of it is verified with Verus. The contracts are stated over byte
//! sequences and plain values:
//!
//! - [`wire`], [`identity`], [`timestamp`], [`header`] and [`messages`]
//!   decode the byte layout of PTP messages; [`encoding`] states the layout
//!   the other way round and proves that decoding recovers what was
//!   encoded.
//! - [`frame`] takes the PTP payload out of an Ethernet frame.
//! - [`state`] holds the role of a host and the ranking of transmitters;
//!   [`host`] the record of one clock; [`history`] its bounded packet
//!   history.
//! - [`source`] is the queue of captured frames; [`tracker`] attributes
//!   decoded messages to hosts; [`election`] elects the best transmitter of
//!   every domain; [`invariants`] proves what always holds of the registry.
//! - [`text`] writes numbers as text, [`lookup`] finds values in sequences,
//!   [`vendor`] names vendors, [`tree`] lays trees of hosts out in rows.

pub mod error;
pub mod wire;
pub mod text;
pub mod lookup;
pub mod vendor;
pub mod identity;
pub mod timestamp;
pub mod header;
pub mod messages;
pub mod encoding;
pub mod state;
pub mod packet;
pub mod history;
pub mod frame;
pub mod source;
pub mod host;
pub mod tracker;
pub mod election;
pub mod invariants;
pub mod tree;
