//! The discovery filter: which transport to scan and which devices to report.

use crate::address::{
    key_of, lemma_key_bounds, lemma_key_injective, lemma_octets_of_key, octets_of, Address,
};
use std::collections::HashSet;
use vstd::prelude::*;

verus! {

broadcast use vstd::std_specs::hash::group_hash_axioms;

/// The radio transport that discovery is restricted to.
#[derive(Clone, Copy, Debug, PartialEq, Eq, Structural)]
pub enum Transport {
    /// Classic and low energy alike.
    Auto,
    /// Low energy only.
    Le,
    /// Classic only.
    BrEdr,
}

/// The transport that the two restricting flags select. The low-energy flag
/// wins where both are set.
pub open spec fn transport_of(le_only: bool, br_edr_only: bool) -> Transport {
    if le_only {
        Transport::Le
    } else if br_edr_only {
        Transport::BrEdr
    } else {
        Transport::Auto
    }
}

/// Whether `keys` are exactly the keys of `addresses`.
spec fn holds_keys_of(keys: Set<u64>, addresses: Seq<Address>) -> bool {
    forall|k: u64|
        keys.contains(k) <==> exists|i: int|
            0 <= i < addresses.len() && #[trigger] addresses[i].key() == k
}

/// Adding the key of one more address keeps the keys those of the addresses.
proof fn lemma_holds_keys_of_push(keys: Set<u64>, addresses: Seq<Address>, address: Address)
    requires
        holds_keys_of(keys, addresses),
    ensures
        holds_keys_of(keys.insert(address.key() as u64), addresses.push(address)),
{
    lemma_key_bounds(address@);
    let more = addresses.push(address);
    let grown = keys.insert(address.key() as u64);
    assert forall|k: u64| grown.contains(k) implies exists|i: int|
        0 <= i < more.len() && #[trigger] more[i].key() == k by {
        if keys.contains(k) {
            let i = choose|i: int| 0 <= i < addresses.len() && #[trigger] addresses[i].key() == k;
            assert(more[i].key() == k);
        } else {
            assert(more[addresses.len() as int].key() == k);
        }
    }
    assert forall|k: u64|
        (exists|i: int| 0 <= i < more.len() && #[trigger] more[i].key() == k) implies grown.contains(
        k,
    ) by {
        let i = choose|i: int| 0 <= i < more.len() && #[trigger] more[i].key() == k;
        if i < addresses.len() {
            assert(addresses[i].key() == k);
        }
    }
}

/// Keys that are those of `addresses` lie below 2^48 and stand for exactly
/// the octets of `addresses`.
proof fn lemma_holds_keys_of(keys: Set<u64>, addresses: Seq<Address>)
    requires
        holds_keys_of(keys, addresses),
    ensures
        forall|k: u64| keys.contains(k) ==> k < 0x1_0000_0000_0000,
        forall|octets: Seq<u8>|
            (octets.len() == 6 && keys.contains(key_of(octets) as u64)) <==> exists|i: int|
                0 <= i < addresses.len() && #[trigger] addresses[i]@ == octets,
{
    assert forall|k: u64| keys.contains(k) implies k < 0x1_0000_0000_0000 by {
        let i = choose|i: int| 0 <= i < addresses.len() && #[trigger] addresses[i].key() == k;
        lemma_key_bounds(addresses[i]@);
    }
    assert forall|octets: Seq<u8>|
        (octets.len() == 6 && keys.contains(key_of(octets) as u64)) <==> exists|i: int|
            0 <= i < addresses.len() && #[trigger] addresses[i]@ == octets by {
        if octets.len() == 6 && keys.contains(key_of(octets) as u64) {
            let i = choose|i: int|
                0 <= i < addresses.len() && #[trigger] addresses[i].key() == key_of(octets) as u64;
            lemma_key_bounds(addresses[i]@);
            lemma_key_bounds(octets);
            lemma_key_injective(addresses[i]@, octets);
        }
        if exists|i: int| 0 <= i < addresses.len() && #[trigger] addresses[i]@ == octets {
            let i = choose|i: int| 0 <= i < addresses.len() && #[trigger] addresses[i]@ == octets;
            lemma_key_bounds(addresses[i]@);
            assert(addresses[i].key() == key_of(octets));
        }
    }
}

/// Process-wide discovery settings, fixed at startup.
pub struct DiscoveryFilter {
    transport: Transport,
    track_changes: bool,
    allow: HashSet<u64>,
}

impl DiscoveryFilter {
    /// Every key held is the key of an address.
    #[verifier::type_invariant]
    spec fn well_formed(&self) -> bool {
        forall|k: u64| self.allow@.contains(k) ==> k < 0x1_0000_0000_0000
    }

    /// The addresses on the allow-list.
    pub closed spec fn allow_list(&self) -> Set<Seq<u8>> {
        Set::new(|octets: Seq<u8>| octets.len() == 6 && self.allow@.contains(key_of(octets) as u64))
    }

    /// The transport selected.
    pub closed spec fn selected_transport(&self) -> Transport {
        self.transport
    }

    /// Whether property changes of reported devices are followed.
    pub closed spec fn follows_changes(&self) -> bool {
        self.track_changes
    }

    /// Whether a device at `address` is reported: the allow-list is empty or
    /// holds the address.
    pub open spec fn admits(&self, address: Seq<u8>) -> bool {
        self.allow_list().is_empty() || self.allow_list().contains(address)
    }

    /// The filter for the given startup choices, with `addresses` as its
    /// allow-list.
    pub fn new(le_only: bool, br_edr_only: bool, track_changes: bool, addresses: &Vec<Address>) -> (r:
        DiscoveryFilter)
        ensures
            r.selected_transport() == transport_of(le_only, br_edr_only),
            r.follows_changes() == track_changes,
            forall|octets: Seq<u8>|
                r.allow_list().contains(octets) <==> exists|i: int|
                    0 <= i < addresses.len() && #[trigger] addresses[i]@ == octets,
    {
        let transport = if le_only {
            Transport::Le
        } else if br_edr_only {
            Transport::BrEdr
        } else {
            Transport::Auto
        };
        let mut allow: HashSet<u64> = HashSet::new();
        let mut n: usize = 0;
        while n < addresses.len()
            invariant
                n <= addresses.len(),
                holds_keys_of(allow@, addresses@.take(n as int)),
            decreases addresses.len() - n,
        {
            let ghost before = allow@;
            let key = addresses[n].packed();
            allow.insert(key);
            proof {
                lemma_holds_keys_of_push(before, addresses@.take(n as int), addresses[n as int]);
                assert(addresses@.take(n + 1) =~= addresses@.take(n as int).push(
                    addresses[n as int],
                ));
            }
            n = n + 1;
        }
        proof {
            assert(addresses@.take(n as int) =~= addresses@);
            lemma_holds_keys_of(allow@, addresses@);
        }
        DiscoveryFilter { transport, track_changes, allow }
    }

    /// The transport that discovery is restricted to.
    pub fn transport(&self) -> (r: Transport)
        ensures
            r == self.selected_transport(),
    {
        self.transport
    }

    /// Whether property changes of reported devices are followed.
    pub fn track_changes(&self) -> (r: bool)
        ensures
            r == self.follows_changes(),
    {
        self.track_changes
    }

    /// Whether a device at `address` passes the filter.
    pub fn accepts(&self, address: &Address) -> (r: bool)
        ensures
            r == self.admits(address@),
    {
        proof {
            use_type_invariant(self);
            self.lemma_empty_allow_list();
            lemma_key_bounds(address@);
        }
        self.allow.is_empty() || self.allow.contains(&address.packed())
    }

    /// The allow-list is empty exactly when no key is held.
    proof fn lemma_empty_allow_list(&self)
        requires
            self.well_formed(),
        ensures
            self.allow_list().is_empty() <==> self.allow@.is_empty(),
    {
        if !self.allow@.is_empty() {
            let k = choose|k: u64| self.allow@.contains(k);
            lemma_octets_of_key(k as int);
            assert(self.allow_list().contains(octets_of(k as int)));
        }
        if !self.allow_list().is_empty() {
            let octets = choose|octets: Seq<u8>| self.allow_list().contains(octets);
            assert(self.allow@.contains(key_of(octets) as u64));
        }
    }
}

} // verus!
