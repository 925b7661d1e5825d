//! Turning a device's property snapshot into an observation record.

use crate::address::Address;
use crate::types::{text_of, BLEData, Record, RSSI_UNAVAILABLE};
use std::collections::HashMap;
use vstd::prelude::*;
use vstd::string::StringExecFns;

verus! {

broadcast use vstd::std_specs::hash::group_hash_axioms;

/// The properties of a device that a record is derived from, as they were
/// read at one moment.
#[derive(Debug, Clone)]
pub struct Snapshot {
    /// Advertised device name.
    pub name: Option<String>,
    /// Received signal strength, where one is known.
    pub rssi: Option<i16>,
    /// Advertised transmit power, where one is known.
    pub tx_power: Option<i16>,
    /// Manufacturer data by company identifier, where any was advertised.
    pub manufacturer_data: Option<HashMap<u16, Vec<u8>>>,
}

/// The identifier that every record carries for the collecting station.
pub open spec fn collector_id() -> Seq<char> {
    "raspi-0"@
}

/// The low eight bits of `x`, read as an unsigned number.
pub open spec fn low_byte(x: int) -> u8 {
    (x % 256) as u8
}

/// The low eight bits of `x`, read as a two's-complement number.
pub open spec fn low_byte_signed(x: int) -> i8 {
    if x % 256 < 128 {
        (x % 256) as i8
    } else {
        (x % 256 - 256) as i8
    }
}

/// The low eight bits of a transmit power.
pub fn narrow_tx_power(tx: i16) -> (r: u8)
    ensures
        r == low_byte(tx as int),
{
    let r = #[verifier::truncate] (tx as u8);
    assert(r == low_byte(tx as int)) by {
        assert((tx as u8) as int == (tx as int) % 256) by (bit_vector);
    }
    r
}

/// The low eight bits of a signal strength, as a signed number.
pub fn narrow_rssi(rssi: i16) -> (r: i8)
    ensures
        r == low_byte_signed(rssi as int),
{
    let r = #[verifier::truncate] (rssi as i8);
    assert(r == low_byte_signed(rssi as int)) by {
        assert((rssi as u8) as int == (rssi as int) % 256) by (bit_vector);
        assert((rssi as u8) < 128 ==> (rssi as i8) as int == (rssi as u8) as int) by (bit_vector);
        assert((rssi as u8) >= 128 ==> (rssi as i8) as int == (rssi as u8) as int - 256)
            by (bit_vector);
    }
    r
}

/// The entry that a walk over the manufacturer data meets first. Which entry
/// that is, among several, is up to the map.
pub fn first_entry(data: &HashMap<u16, Vec<u8>>) -> (r: Option<(u16, Vec<u8>)>)
    ensures
        r is None <==> data@.len() == 0,
        r matches Some(entry) ==> data@.contains_key(entry.0) && data@[entry.0]@ == entry.1@,
{
    for entry in walk: data.iter()
        invariant
            walk.index() == 0,
            walk.seq().len() == data@.len(),
    {
        return Some((*entry.0, entry.1.clone()));
    }
    None
}

/// The record of a device at `address` whose snapshot gave these properties
/// at `time_stamp`, with `entry` taken from its manufacturer data.
pub open spec fn record_of(
    address: Seq<u8>,
    time_stamp: int,
    name: Option<Seq<char>>,
    tx_power: Option<i16>,
    rssi: Option<i16>,
    entry: Option<(u16, Seq<u8>)>,
) -> Record {
    Record {
        device_id: collector_id(),
        time_stamp,
        name,
        tx_power: match tx_power {
            Some(tx) => Some(low_byte(tx as int)),
            None => None,
        },
        company_identifier: match entry {
            Some(entry) => Some(entry.0),
            None => None,
        },
        manufacture_payload: match entry {
            Some(entry) => Some(entry.1),
            None => None,
        },
        rssi: match rssi {
            Some(rssi) => low_byte_signed(rssi as int),
            None => RSSI_UNAVAILABLE,
        },
        addr: address,
    }
}

/// Builds the record of one sighting from the properties read and the
/// manufacturer-data entry chosen.
pub fn assemble(
    address: Address,
    time_stamp: i64,
    name: Option<String>,
    tx_power: Option<i16>,
    rssi: Option<i16>,
    entry: Option<(u16, Vec<u8>)>,
) -> (r: BLEData)
    ensures
        r@ == record_of(
            address@,
            time_stamp as int,
            text_of(name),
            tx_power,
            rssi,
            match entry {
                Some(entry) => Some((entry.0, entry.1@)),
                None => None,
            },
        ),
        r@.well_formed(),
{
    let (company_identifier, manufacture_payload) = match entry {
        Some((company, payload)) => (Some(company), Some(payload)),
        None => (None, None),
    };
    BLEData {
        device_id: String::from_str("raspi-0"),
        time_stamp,
        name,
        tx_power: match tx_power {
            Some(tx) => Some(narrow_tx_power(tx)),
            None => None,
        },
        company_identifier,
        manufacture_payload,
        rssi: match rssi {
            Some(rssi) => narrow_rssi(rssi),
            None => RSSI_UNAVAILABLE,
        },
        addr: address.octets,
    }
}

impl Snapshot {
    /// Whether `entry` is an entry that a walk over the manufacturer data may
    /// meet first: none where there is no data or no entry, else one of the
    /// entries.
    pub open spec fn admits(&self, entry: Option<(u16, Seq<u8>)>) -> bool {
        match self.manufacturer_data {
            None => entry is None,
            Some(data) => match entry {
                None => data@.len() == 0,
                Some(entry) => data@.contains_key(entry.0) && data@[entry.0]@ == entry.1,
            },
        }
    }

    /// Whether `record` is a record of this snapshot, taken from the device at
    /// `address` at `time_stamp`.
    pub open spec fn derives(&self, address: Seq<u8>, time_stamp: int, record: Record) -> bool {
        &&& self.admits(record.manufacturer_entry())
        &&& record == record_of(
            address,
            time_stamp,
            text_of(self.name),
            self.tx_power,
            self.rssi,
            record.manufacturer_entry(),
        )
    }

    /// The record of this snapshot for the device at `address`, stamped with
    /// `time_stamp`. The manufacturer fields come from the first entry of the
    /// manufacturer data: both are absent where there is no such data or no
    /// entry in it, and both are present otherwise. A device without a signal
    /// strength is recorded with `RSSI_UNAVAILABLE`.
    pub fn into_record(self, address: Address, time_stamp: i64) -> (r: BLEData)
        ensures
            self.derives(address@, time_stamp as int, r@),
            r@.well_formed(),
            r.company_identifier is Some <==> r.manufacture_payload is Some,
            r.company_identifier is Some <==> (self.manufacturer_data matches Some(data)
                && data@.len() > 0),
            self.rssi is None ==> r.rssi == RSSI_UNAVAILABLE,
    {
        let entry = match &self.manufacturer_data {
            Some(data) => first_entry(data),
            None => None,
        };
        assemble(address, time_stamp, self.name, self.tx_power, self.rssi, entry)
    }
}

/// A record of a snapshot holds a company identifier and a payload together or
/// neither of them: neither where the snapshot has no manufacturer data or no
/// entry in it, else both, taken from one entry of the data.
pub proof fn lemma_manufacturer_fields_are_paired(
    snapshot: Snapshot,
    address: Seq<u8>,
    time_stamp: int,
    record: Record,
)
    requires
        snapshot.derives(address, time_stamp, record),
    ensures
        record.company_identifier is Some <==> record.manufacture_payload is Some,
        snapshot.manufacturer_data is None ==> record.company_identifier is None
            && record.manufacture_payload is None,
        snapshot.manufacturer_data matches Some(data) ==> {
            if data@.len() == 0 {
                record.company_identifier is None && record.manufacture_payload is None
            } else {
                &&& record.company_identifier matches Some(company)
                &&& record.manufacture_payload matches Some(payload)
                &&& data@.contains_key(company)
                &&& data@[company]@ == payload
            }
        },
{
}

/// A record of a snapshot without a signal strength holds the sentinel in its
/// place; the field is never left out.
pub proof fn lemma_missing_rssi_is_sentinel(
    snapshot: Snapshot,
    address: Seq<u8>,
    time_stamp: int,
    record: Record,
)
    requires
        snapshot.derives(address, time_stamp, record),
        snapshot.rssi is None,
    ensures
        record.rssi == RSSI_UNAVAILABLE,
        record.rssi == -128,
{
}

} // verus!
