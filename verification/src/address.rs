//! Hardware addresses of wireless devices.

use vstd::prelude::*;

verus! {

/// A device hardware address: six raw bytes, written most significant first.
#[derive(Clone, Copy, Debug, PartialEq, Eq, Hash)]
pub struct Address {
    pub octets: [u8; 6],
}

impl View for Address {
    type V = Seq<u8>;

    open spec fn view(&self) -> Seq<u8> {
        self.octets@
    }
}

/// The number that six octets spell when read as base-256 digits, most
/// significant first. Sequences of another length have key 0.
pub open spec fn key_of(octets: Seq<u8>) -> int {
    if octets.len() == 6 {
        ((((octets[0] * 256 + octets[1]) * 256 + octets[2]) * 256 + octets[3]) * 256
            + octets[4]) * 256 + octets[5]
    } else {
        0
    }
}

/// The key of six octets lies below 2^48.
pub proof fn lemma_key_bounds(octets: Seq<u8>)
    requires
        octets.len() == 6,
    ensures
        0 <= key_of(octets) < 0x1_0000_0000_0000,
{
}

/// Six octets are told apart by their key.
pub proof fn lemma_key_injective(a: Seq<u8>, b: Seq<u8>)
    requires
        a.len() == 6,
        b.len() == 6,
        key_of(a) == key_of(b),
    ensures
        a == b,
{
    assert(a =~= b);
}

/// The octets that spell `key` in base 256, most significant first.
pub open spec fn octets_of(key: int) -> Seq<u8> {
    seq![
        ((key / 0x100_0000_0000) % 256) as u8,
        ((key / 0x1_0000_0000) % 256) as u8,
        ((key / 0x100_0000) % 256) as u8,
        ((key / 0x1_0000) % 256) as u8,
        ((key / 0x100) % 256) as u8,
        (key % 256) as u8,
    ]
}

/// Every number below 2^48 is the key of the octets that spell it.
pub proof fn lemma_octets_of_key(key: int)
    requires
        0 <= key < 0x1_0000_0000_0000,
    ensures
        octets_of(key).len() == 6,
        key_of(octets_of(key)) == key,
{
}

/// What the radio stack's address parser makes of a text: the six octets it
/// reads, or `None` where it rejects the text.
pub uninterp spec fn parsed_octets(text: Seq<char>) -> Option<Seq<u8>>;

/// Calls `<bluer::Address as FromStr>::from_str` and hands out the octets of
/// the address it returns, or `None` where it returns an error. The contract
/// only names that outcome; the accepted notation is the outside parser's.
#[verifier::external_body]
fn parse_octets(text: &str) -> (r: Option<[u8; 6]>)
    ensures
        r matches Some(octets) ==> parsed_octets(text@) == Some(octets@),
        r is None ==> parsed_octets(text@) is None,
{
    match text.parse::<bluer::Address>() {
        Ok(address) => Some(address.0),
        Err(_) => None,
    }
}

/// The hexadecimal digit of value `n`, in upper case.
pub open spec fn hex_digit(n: int) -> char {
    "0123456789ABCDEF"@[n]
}

/// The two hexadecimal digits of an octet.
pub open spec fn hex_pair(octet: u8) -> Seq<char> {
    seq![hex_digit(octet as int / 16), hex_digit(octet as int % 16)]
}

/// The colon-hexadecimal notation of six octets: two upper-case digits for
/// each, most significant octet first, with a colon between neighbours.
pub open spec fn text_of(octets: Seq<u8>) -> Seq<char> {
    hex_pair(octets[0]) + seq![':'] + hex_pair(octets[1]) + seq![':'] + hex_pair(octets[2])
        + seq![':'] + hex_pair(octets[3]) + seq![':'] + hex_pair(octets[4]) + seq![':']
        + hex_pair(octets[5])
}

/// Calls `to_string` on the `bluer::Address` of the octets, which goes through
/// its `Display`: each octet as two upper-case hexadecimal digits, joined by
/// colons. The contract states exactly that text.
#[verifier::external_body]
fn octets_text(octets: &[u8; 6]) -> (r: String)
    ensures
        r@ == text_of(octets@),
{
    bluer::Address(*octets).to_string()
}

impl Address {
    /// The address with the given octets.
    pub fn new(octets: [u8; 6]) -> (r: Address)
        ensures
            r.octets == octets,
    {
        Address { octets }
    }

    /// The key of this address.
    pub open spec fn key(&self) -> int {
        key_of(self@)
    }

    /// The address as one integer, for use as a set or map key.
    pub fn packed(&self) -> (r: u64)
        ensures
            r == self.key(),
    {
        let o = &self.octets;
        let mut r: u64 = o[0] as u64;
        r = r * 256 + o[1] as u64;
        r = r * 256 + o[2] as u64;
        r = r * 256 + o[3] as u64;
        r = r * 256 + o[4] as u64;
        r = r * 256 + o[5] as u64;
        r
    }

    /// The address in colon-hexadecimal notation, as the radio stack prints
    /// it.
    pub fn text(&self) -> (r: String)
        ensures
            r@ == text_of(self@),
            r@.len() == 17,
    {
        octets_text(&self.octets)
    }

    /// Reads an address from its text form. Succeeds exactly on the texts that
    /// the radio stack's parser accepts, with the octets that it reads.
    pub fn parse(text: &str) -> (r: Option<Address>)
        ensures
            r is Some <==> parsed_octets(text@) is Some,
            r matches Some(address) ==> parsed_octets(text@) == Some(address@),
    {
        match parse_octets(text) {
            Some(octets) => Some(Address { octets }),
            None => None,
        }
    }
}

} // verus!
