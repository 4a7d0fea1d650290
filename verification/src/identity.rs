//! Clock and port identities.

use vstd::prelude::*;
use crate::error::DecodeError;
use vstd::string::StringExecFns;
use crate::text::{hex2, hex4, push_hex2, push_hex4};
use crate::vendor::VendorTable;
use crate::wire::{be16, be32, be64, read_u16, read_u64};

verus! {

/// The eight bytes that name one PTP clock.
#[derive(Debug, Clone, Copy, Eq, Hash, PartialOrd, Ord)]
pub struct ClockIdentity {
    pub clock_id: [u8; 8],
}

impl PartialEq for ClockIdentity {
    fn eq(&self, other: &Self) -> (same: bool) {
        let mut i: usize = 0;
        while i < 8
            invariant
                i <= 8,
                forall|j: int| 0 <= j < i ==> self.clock_id[j] == other.clock_id[j],
            decreases 8 - i,
        {
            if self.clock_id[i] != other.clock_id[i] {
                return false;
            }
            i += 1;
        }
        assert(self.clock_id =~= other.clock_id);
        true
    }
}

impl vstd::std_specs::cmp::PartialEqSpecImpl for ClockIdentity {
    open spec fn obeys_eq_spec() -> bool {
        true
    }

    open spec fn eq_spec(&self, other: &Self) -> bool {
        *self == *other
    }
}

impl Default for ClockIdentity {
    fn default() -> (id: Self)
        ensures
            id == ClockIdentity::from_bytes(seq![0u8, 0u8, 0u8, 0u8, 0u8, 0u8, 0u8, 0u8]),
    {
        let id = ClockIdentity { clock_id: [0, 0, 0, 0, 0, 0, 0, 0] };
        assert(id.clock_id =~= ClockIdentity::from_bytes(
            seq![0u8, 0u8, 0u8, 0u8, 0u8, 0u8, 0u8, 0u8],
        ).clock_id);
        id
    }
}

impl ClockIdentity {
    /// The identity whose bytes are the first eight of `b`.
    pub open spec fn from_bytes(b: Seq<u8>) -> ClockIdentity {
        ClockIdentity { clock_id: [b[0], b[1], b[2], b[3], b[4], b[5], b[6], b[7]] }
    }

    /// The identity read as one unsigned number, first byte most significant.
    ///
    /// Two identities compare by this number exactly as their bytes compare
    /// lexicographically.
    pub open spec fn value(self) -> int {
        be64(self.clock_id@, 0)
    }

    /// The MAC address from which the identity was made: its first three
    /// and its last three bytes.
    pub open spec fn mac(self) -> [u8; 6] {
        [
            self.clock_id[0],
            self.clock_id[1],
            self.clock_id[2],
            self.clock_id[5],
            self.clock_id[6],
            self.clock_id[7],
        ]
    }

    /// The vendor that `table` names for the MAC address from which the
    /// identity was made.
    pub fn extract_vendor_name<'a>(&self, table: &'a VendorTable) -> (name: Option<&'a str>)
        ensures
            match name {
                Some(text) => table.vendor_of(self.mac()) == Some(text@),
                None => table.vendor_of(self.mac()) is None,
            },
    {
        let mac_bytes: [u8; 6] = [
            self.clock_id[0],
            self.clock_id[1],
            self.clock_id[2],
            self.clock_id[5],
            self.clock_id[6],
            self.clock_id[7],
        ];
        assert(mac_bytes =~= self.mac());
        table.lookup_vendor_bytes(mac_bytes)
    }

    /// The eight bytes as pairs of hexadecimal digits with colons between.
    pub open spec fn text(self) -> Seq<char> {
        hex2(self.clock_id[0]) + ":"@ + hex2(self.clock_id[1]) + ":"@ + hex2(self.clock_id[2])
            + ":"@ + hex2(self.clock_id[3]) + ":"@ + hex2(self.clock_id[4]) + ":"@ + hex2(
            self.clock_id[5],
        ) + ":"@ + hex2(self.clock_id[6]) + ":"@ + hex2(self.clock_id[7])
    }

    /// The eight bytes as pairs of hexadecimal digits with colons between.
    pub fn to_string(&self) -> (text: String)
        ensures
            text@ == self.text(),
    {
        let mut text = String::new();
        push_hex2(&mut text, self.clock_id[0]);
        let mut i: usize = 1;
        while i < 8
            invariant
                1 <= i <= 8,
                text@ == Self::text_prefix(self.clock_id@, i as int),
            decreases 8 - i,
        {
            text.append(":");
            push_hex2(&mut text, self.clock_id[i]);
            assert(text@ =~= Self::text_prefix(self.clock_id@, i + 1));
            i += 1;
        }
        assert(text@ =~= self.text()) by {
            reveal_with_fuel(ClockIdentity::text_prefix, 9);
        }
        text
    }

    /// The text of the first `n` bytes of an identity.
    pub open spec fn text_prefix(bytes: Seq<u8>, n: int) -> Seq<char>
        decreases n,
    {
        if n <= 1 {
            hex2(bytes[0])
        } else {
            Self::text_prefix(bytes, n - 1) + ":"@ + hex2(bytes[n - 1])
        }
    }

    /// Decodes an identity from exactly eight bytes.
    pub fn try_from(b: &[u8]) -> (result: Result<ClockIdentity, DecodeError>)
        ensures
            b@.len() == 8 ==> result == Ok::<ClockIdentity, DecodeError>(
                ClockIdentity::from_bytes(b@),
            ),
            b@.len() != 8 ==> result == Err::<ClockIdentity, DecodeError>(DecodeError::WrongLength),
    {
        if b.len() != 8 {
            Err(DecodeError::WrongLength)
        } else {
            Ok(ClockIdentity::read(b, 0))
        }
    }

    /// Reads the identity stored in the eight bytes of `data` from `at` on.
    pub(crate) fn read(data: &[u8], at: usize) -> (id: ClockIdentity)
        requires
            at + 8 <= data.len(),
        ensures
            id == ClockIdentity::from_bytes(data@.subrange(at as int, at + 8)),
    {
        let id = ClockIdentity {
            clock_id: [
                data[at],
                data[at + 1],
                data[at + 2],
                data[at + 3],
                data[at + 4],
                data[at + 5],
                data[at + 6],
                data[at + 7],
            ],
        };
        assert(id.clock_id =~= ClockIdentity::from_bytes(
            data@.subrange(at as int, at + 8),
        ).clock_id);
        id
    }

    /// The identity as one unsigned number, first byte most significant.
    pub fn to_u64(&self) -> (value: u64)
        ensures
            value == self.value(),
    {
        read_u64(self.clock_id.as_slice(), 0)
    }

    /// Whether the bytes `x` come before the bytes `y` in lexicographic
    /// order, where the two agree before position `k`.
    pub open spec fn bytes_before(x: Seq<u8>, y: Seq<u8>, k: int) -> bool
        decreases 8 - k,
    {
        if k < 0 || k >= 8 {
            false
        } else if x[k] != y[k] {
            x[k] < y[k]
        } else {
            Self::bytes_before(x, y, k + 1)
        }
    }

    /// The order of identities by their numbers is the lexicographic order
    /// of their bytes.
    pub proof fn lemma_value_order_is_lexicographic(a: ClockIdentity, b: ClockIdentity)
        ensures
            a.value() < b.value() <==> Self::bytes_before(a.clock_id@, b.clock_id@, 0),
    {
        let x = a.clock_id@;
        let y = b.clock_id@;
        reveal_with_fuel(ClockIdentity::bytes_before, 9);
        assert(be16(x, 0) < be16(y, 0) <==> x[0] < y[0] || (x[0] == y[0] && x[1] < y[1]));
        assert(be16(x, 2) < be16(y, 2) <==> x[2] < y[2] || (x[2] == y[2] && x[3] < y[3]));
        assert(be16(x, 4) < be16(y, 4) <==> x[4] < y[4] || (x[4] == y[4] && x[5] < y[5]));
        assert(be16(x, 6) < be16(y, 6) <==> x[6] < y[6] || (x[6] == y[6] && x[7] < y[7]));
        assert(be32(x, 0) < be32(y, 0) <==> be16(x, 0) < be16(y, 0) || (be16(x, 0) == be16(y, 0)
            && be16(x, 2) < be16(y, 2)));
        assert(be32(x, 4) < be32(y, 4) <==> be16(x, 4) < be16(y, 4) || (be16(x, 4) == be16(y, 4)
            && be16(x, 6) < be16(y, 6)));
        assert(be64(x, 0) < be64(y, 0) <==> be32(x, 0) < be32(y, 0) || (be32(x, 0) == be32(y, 0)
            && be32(x, 4) < be32(y, 4)));
        assert(be16(x, 0) == be16(y, 0) <==> x[0] == y[0] && x[1] == y[1]);
        assert(be16(x, 2) == be16(y, 2) <==> x[2] == y[2] && x[3] == y[3]);
        assert(be16(x, 4) == be16(y, 4) <==> x[4] == y[4] && x[5] == y[5]);
        assert(be32(x, 0) == be32(y, 0) <==> be16(x, 0) == be16(y, 0) && be16(x, 2) == be16(y, 2));
    }

    /// Identities with the same number are the same identity.
    pub proof fn lemma_value_injective(a: ClockIdentity, b: ClockIdentity)
        requires
            a.value() == b.value(),
        ensures
            a == b,
    {
        let x = a.clock_id@;
        let y = b.clock_id@;
        assert(be16(x, 0) == be16(y, 0) && be16(x, 2) == be16(y, 2) && be16(x, 4) == be16(y, 4)
            && be16(x, 6) == be16(y, 6));
        assert(a.clock_id =~= b.clock_id);
    }
}

/// One port of one clock.
#[derive(Debug, Clone, Copy, PartialEq, Eq, Hash, PartialOrd, Ord)]
pub struct PortIdentity {
    pub clock_identity: ClockIdentity,
    pub port_number: u16,
}

impl PortIdentity {
    /// The port identity stored in the first ten bytes of `b`.
    pub open spec fn from_bytes(b: Seq<u8>) -> PortIdentity {
        PortIdentity {
            clock_identity: ClockIdentity::from_bytes(b),
            port_number: be16(b, 8) as u16,
        }
    }

    /// The clock identity, a hyphen and the port number in four
    /// hexadecimal digits.
    pub open spec fn text(self) -> Seq<char> {
        self.clock_identity.text() + "-"@ + hex4(self.port_number)
    }

    /// The clock identity, a hyphen and the port number in four
    /// hexadecimal digits.
    pub fn to_string(&self) -> (text: String)
        ensures
            text@ == self.text(),
    {
        let mut text = self.clock_identity.to_string();
        text.append("-");
        push_hex4(&mut text, self.port_number);
        text
    }

    /// Decodes a port identity from the first ten bytes of `value`.
    pub fn try_from(value: &[u8]) -> (result: Result<PortIdentity, DecodeError>)
        ensures
            value@.len() >= 10 ==> result == Ok::<PortIdentity, DecodeError>(
                PortIdentity::from_bytes(value@),
            ),
            value@.len() < 10 ==> result == Err::<PortIdentity, DecodeError>(DecodeError::TooShort),
    {
        if value.len() < 10 {
            Err(DecodeError::TooShort)
        } else {
            let port = PortIdentity::read(value, 0);
            assert(port.clock_identity.clock_id =~= PortIdentity::from_bytes(
                value@,
            ).clock_identity.clock_id);
            Ok(port)
        }
    }

    /// Reads the port identity stored in the ten bytes of `data` from `at` on.
    pub(crate) fn read(data: &[u8], at: usize) -> (port: PortIdentity)
        requires
            at + 10 <= data.len(),
        ensures
            port == PortIdentity::from_bytes(data@.subrange(at as int, at + 10)),
    {
        let port = PortIdentity {
            clock_identity: ClockIdentity::read(data, at),
            port_number: read_u16(data, at + 8),
        };
        assert(port.clock_identity.clock_id =~= PortIdentity::from_bytes(
            data@.subrange(at as int, at + 10),
        ).clock_identity.clock_id);
        port
    }
}

} // verus!
