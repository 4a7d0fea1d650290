//! Vendor names by organizationally unique identifier.
//!
//! The table is handed in by whoever uses the library: the library holds
//! no vendor data of its own.

use vstd::prelude::*;
use crate::lookup::{first_index, lemma_first_index_is};

verus! {

/// Vendor names, each under the 24-bit identifier that starts the MAC
/// addresses of the vendor's devices.
#[derive(Debug, Clone)]
pub struct VendorTable {
    /// The identifiers, first byte most significant, with their names.
    pub entries: Vec<(u32, String)>,
}

/// The 24-bit identifier that starts the MAC address `mac`.
pub open spec fn oui_of(mac: [u8; 6]) -> u32 {
    (mac[0] as int * 0x1_0000 + mac[1] as int * 0x100 + mac[2] as int) as u32
}

/// The identifiers of `entries`, in their order.
pub open spec fn ouis_of(entries: Seq<(u32, String)>) -> Seq<u32> {
    Seq::new(entries.len(), |i: int| entries[i].0)
}

impl VendorTable {
    /// A table without entries.
    pub fn new() -> (table: Self)
        ensures
            table.entries@.len() == 0,
    {
        VendorTable { entries: Vec::new() }
    }

    /// Appends the vendor `name` under the identifier `oui`. Of several
    /// entries under one identifier, the first is the one found.
    pub fn add(&mut self, oui: u32, name: String)
        ensures
            final(self).entries@ == old(self).entries@.push((oui, name)),
    {
        self.entries.push((oui, name));
    }

    /// The name of the first entry under the identifier of `mac`, if
    /// any.
    pub open spec fn vendor_of(self, mac: [u8; 6]) -> Option<Seq<char>> {
        let at = first_index(ouis_of(self.entries@), oui_of(mac));
        if at < self.entries@.len() {
            Some(self.entries@[at].1@)
        } else {
            None
        }
    }

    /// Looks up the vendor of the device with the MAC address `mac`.
    pub fn lookup_vendor_bytes(&self, mac: [u8; 6]) -> (name: Option<&str>)
        ensures
            match name {
                Some(text) => self.vendor_of(mac) == Some(text@),
                None => self.vendor_of(mac) is None,
            },
    {
        let oui: u32 = (mac[0] as u32) * 0x1_0000 + (mac[1] as u32) * 0x100 + (mac[2] as u32);
        assert(oui == oui_of(mac));
        let ghost keys = ouis_of(self.entries@);
        let mut i: usize = 0;
        while i < self.entries.len()
            invariant
                i <= self.entries.len(),
                keys == ouis_of(self.entries@),
                oui == oui_of(mac),
                forall|j: int| 0 <= j < i ==> keys[j] != oui,
            decreases self.entries.len() - i,
        {
            if self.entries[i].0 == oui {
                proof {
                    lemma_first_index_is(keys, oui, i as int);
                }
                return Some(self.entries[i].1.as_str());
            }
            i += 1;
        }
        proof {
            lemma_first_index_is(keys, oui, i as int);
        }
        None
    }
}

} // verus!
