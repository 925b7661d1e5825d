//! Startup flags: what the command line asks of the scanner.

use crate::address::{parsed_octets, Address};
use crate::filter::{transport_of, DiscoveryFilter};
use vstd::prelude::*;
use vstd::string::StringExecFns;

verus! {

/// The choices made on the command line. Flags are tested for presence only,
/// in any order; every token that reads as a hardware address joins the
/// allow-list.
#[derive(Debug, Clone)]
pub struct Flags {
    /// `--changes`: follow the property changes of reported devices.
    pub with_changes: bool,
    /// `--all-properties`: dump every property instead of the summary.
    pub all_properties: bool,
    /// `--le`: scan low energy only.
    pub le_only: bool,
    /// `--bredr`: scan classic only.
    pub br_edr_only: bool,
    /// The addresses named, in the order of the tokens.
    pub addresses: Vec<Address>,
}

/// Whether one of `args` is exactly `token`.
pub open spec fn has_token(args: Seq<String>, token: Seq<char>) -> bool {
    exists|i: int| 0 <= i < args.len() && (#[trigger] args[i])@ == token
}

/// The addresses that the tokens `args` spell, in order; tokens that do not
/// read as an address are passed over.
pub open spec fn listed_addresses(args: Seq<String>) -> Seq<Seq<u8>>
    decreases args.len(),
{
    if args.len() == 0 {
        Seq::empty()
    } else {
        let before = listed_addresses(args.drop_last());
        match parsed_octets(args.last()@) {
            Some(octets) => before.push(octets),
            None => before,
        }
    }
}

/// The octets of each address of a list.
pub open spec fn octets_of_all(addresses: Seq<Address>) -> Seq<Seq<u8>> {
    addresses.map_values(|address: Address| address@)
}

/// Whether one of `args` is exactly `token`.
pub fn contains_token(args: &Vec<String>, token: &str) -> (r: bool)
    ensures
        r == has_token(args@, token@),
{
    let wanted = String::from_str(token);
    let mut n: usize = 0;
    while n < args.len()
        invariant
            n <= args.len(),
            wanted@ == token@,
            forall|i: int| 0 <= i < n ==> (#[trigger] args[i])@ != token@,
        decreases args.len() - n,
    {
        if args[n] == wanted {
            return true;
        }
        n = n + 1;
    }
    false
}

/// The addresses among `args`, in order.
pub fn collect_addresses(args: &Vec<String>) -> (r: Vec<Address>)
    ensures
        octets_of_all(r@) == listed_addresses(args@),
{
    let mut found: Vec<Address> = Vec::new();
    let mut n: usize = 0;
    assert(args@.take(0) =~= Seq::<String>::empty());
    while n < args.len()
        invariant
            n <= args.len(),
            octets_of_all(found@) == listed_addresses(args@.take(n as int)),
        decreases args.len() - n,
    {
        let ghost before = found@;
        assert(args@.take(n + 1).drop_last() =~= args@.take(n as int));
        match Address::parse(args[n].as_str()) {
            Some(address) => {
                found.push(address);
                assert(octets_of_all(found@) =~= octets_of_all(before).push(address@));
            },
            None => {},
        }
        n = n + 1;
    }
    assert(args@.take(n as int) =~= args@);
    found
}

impl Flags {
    /// Reads the flags from the command-line tokens.
    pub fn from_args(args: &Vec<String>) -> (r: Flags)
        ensures
            r.with_changes == has_token(args@, "--changes"@),
            r.all_properties == has_token(args@, "--all-properties"@),
            r.le_only == has_token(args@, "--le"@),
            r.br_edr_only == has_token(args@, "--bredr"@),
            octets_of_all(r.addresses@) == listed_addresses(args@),
    {
        Flags {
            with_changes: contains_token(args, "--changes"),
            all_properties: contains_token(args, "--all-properties"),
            le_only: contains_token(args, "--le"),
            br_edr_only: contains_token(args, "--bredr"),
            addresses: collect_addresses(args),
        }
    }

    /// The discovery filter that these flags ask for.
    pub fn filter(&self) -> (r: DiscoveryFilter)
        ensures
            r.selected_transport() == transport_of(self.le_only, self.br_edr_only),
            r.follows_changes() == self.with_changes,
            forall|octets: Seq<u8>|
                r.allow_list().contains(octets) <==> octets_of_all(self.addresses@).contains(octets),
    {
        let r = DiscoveryFilter::new(
            self.le_only,
            self.br_edr_only,
            self.with_changes,
            &self.addresses,
        );
        proof {
            let all = octets_of_all(self.addresses@);
            assert forall|octets: Seq<u8>|
                r.allow_list().contains(octets) <==> all.contains(octets) by {
                if r.allow_list().contains(octets) {
                    let i = choose|i: int|
                        0 <= i < self.addresses.len() && #[trigger] self.addresses[i]@ == octets;
                    assert(all[i] == octets);
                }
                if all.contains(octets) {
                    let i = choose|i: int| 0 <= i < all.len() && all[i] == octets;
                    assert(self.addresses[i]@ == octets);
                }
            }
        }
        r
    }
}

} // verus!
