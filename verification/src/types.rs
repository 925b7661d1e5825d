//! The observation record and the vocabulary of advertisement metadata.

use vstd::prelude::*;
use vstd::std_specs::convert::FromSpecImpl;

verus! {

/// One sighting of a device, as it is persisted.
#[derive(Debug, Clone)]
pub struct BLEData {
    /// Identifier of the collecting station.
    pub device_id: String,
    /// Capture time in seconds since the epoch.
    pub time_stamp: i64,
    /// Advertised device name.
    pub name: Option<String>,
    /// Advertised transmit power.
    pub tx_power: Option<u8>,
    /// Company identifier of the manufacturer data.
    pub company_identifier: Option<u16>,
    /// Payload of the manufacturer data.
    pub manufacture_payload: Option<Vec<u8>>,
    /// Received signal strength; `RSSI_UNAVAILABLE` where none was reported.
    pub rssi: i8,
    /// Hardware address of the device.
    pub addr: [u8; 6],
}

/// The signal strength recorded for a device that reports none.
pub const RSSI_UNAVAILABLE: i8 = -128;

/// The mathematical content of a [`BLEData`].
pub struct Record {
    pub device_id: Seq<char>,
    pub time_stamp: int,
    pub name: Option<Seq<char>>,
    pub tx_power: Option<u8>,
    pub company_identifier: Option<u16>,
    pub manufacture_payload: Option<Seq<u8>>,
    pub rssi: i8,
    pub addr: Seq<u8>,
}

/// The characters of an optional text.
pub open spec fn text_of(text: Option<String>) -> Option<Seq<char>> {
    match text {
        Some(text) => Some(text@),
        None => None,
    }
}

/// The bytes of an optional byte string.
pub open spec fn bytes_of(bytes: Option<Vec<u8>>) -> Option<Seq<u8>> {
    match bytes {
        Some(bytes) => Some(bytes@),
        None => None,
    }
}

impl Record {
    /// The manufacturer-data entry that the record was made from, if it was
    /// made from one.
    pub open spec fn manufacturer_entry(self) -> Option<(u16, Seq<u8>)> {
        match (self.company_identifier, self.manufacture_payload) {
            (Some(company), Some(payload)) => Some((company, payload)),
            _ => None,
        }
    }

    /// The company identifier and the payload stem from one manufacturer-data
    /// entry: both are present or both are absent. The address has six bytes.
    pub open spec fn well_formed(self) -> bool {
        &&& self.company_identifier is Some <==> self.manufacture_payload is Some
        &&& self.addr.len() == 6
    }
}

impl View for BLEData {
    type V = Record;

    open spec fn view(&self) -> Record {
        Record {
            device_id: self.device_id@,
            time_stamp: self.time_stamp as int,
            name: text_of(self.name),
            tx_power: self.tx_power,
            company_identifier: self.company_identifier,
            manufacture_payload: bytes_of(self.manufacture_payload),
            rssi: self.rssi,
            addr: self.addr@,
        }
    }
}

/// A Bluetooth UUID.
#[derive(Copy, Clone, Debug)]
pub enum BleUuid {
    /// A 16-bit UUID.
    Uuid16(u16),
    /// A 32-bit UUID.
    Uuid32(u32),
    /// A 128-bit UUID.
    Uuid128([u8; 16]),
}

/// Primary advertising channel.
#[derive(Copy, Clone, PartialEq, Debug)]
pub enum PrimPhy {
    /// 1Mbps phy
    Phy1M,
    /// Coded phy
    Coded,
}

/// Kind of an advertisement.
#[derive(Copy, Clone, PartialEq, Debug)]
pub enum AdvType {
    /// indirect advertising
    Ind,
    /// direct advertising
    DirectInd,
    /// indirect scan response
    ScanInd,
    /// indirect advertising - not connectable
    NonconnInd,
    /// scan response
    ScanResponse,
}

/// Bluetooth Device address type
#[derive(PartialEq, Eq, Debug, Clone)]
pub enum BLEAddressType {
    Public,
    Random,
    PublicID,
    RandomID,
}

impl PrimPhy {
    /// The number that stands for this channel.
    pub open spec fn code(self) -> u8 {
        match self {
            PrimPhy::Phy1M => 1,
            PrimPhy::Coded => 3,
        }
    }

    /// The channel that `number` stands for; the number itself comes back
    /// where it stands for none.
    pub fn try_from_primitive(number: u8) -> (r: Result<PrimPhy, u8>)
        ensures
            r is Ok <==> number == 1 || number == 3,
            match r {
                Ok(phy) => phy.code() == number,
                Err(rejected) => rejected == number,
            },
    {
        if number == 1 {
            Ok(PrimPhy::Phy1M)
        } else if number == 3 {
            Ok(PrimPhy::Coded)
        } else {
            Err(number)
        }
    }
}

impl From<PrimPhy> for u8 {
    fn from(phy: PrimPhy) -> (r: u8) {
        match phy {
            PrimPhy::Phy1M => 1,
            PrimPhy::Coded => 3,
        }
    }
}

impl FromSpecImpl<PrimPhy> for u8 {
    open spec fn obeys_from_spec() -> bool {
        true
    }

    open spec fn from_spec(phy: PrimPhy) -> u8 {
        phy.code()
    }
}

impl BLEAddressType {
    /// The number that stands for this address type.
    pub open spec fn code(self) -> u8 {
        match self {
            BLEAddressType::Public => 0,
            BLEAddressType::Random => 1,
            BLEAddressType::PublicID => 2,
            BLEAddressType::RandomID => 3,
        }
    }

    /// The address type that `number` stands for; the number itself comes
    /// back where it stands for none.
    pub fn try_from_primitive(number: u8) -> (r: Result<BLEAddressType, u8>)
        ensures
            r is Ok <==> number <= 3,
            match r {
                Ok(kind) => kind.code() == number,
                Err(rejected) => rejected == number,
            },
    {
        if number == 0 {
            Ok(BLEAddressType::Public)
        } else if number == 1 {
            Ok(BLEAddressType::Random)
        } else if number == 2 {
            Ok(BLEAddressType::PublicID)
        } else if number == 3 {
            Ok(BLEAddressType::RandomID)
        } else {
            Err(number)
        }
    }
}

} // verus!
