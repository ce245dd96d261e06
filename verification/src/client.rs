//! Client-side configuration values: connection modes with their TSAP
//! derivation, and the presentation-level area selectors that project
//! onto S7 item requests.

use vstd::prelude::*;
use crate::s7_comm::{Area as S7Area, DbNumber, ItemRequest, TransportSize};

verus! {

/// Errors of the session layer.
#[derive(Debug, Clone, Copy, PartialEq, Eq, Structural)]
pub enum Error {
    /// A setup response was not the PDU kind the handshake expects.
    ConnectError,
    /// A response was not the kind the running operation expects.
    ProtocolError,
    /// A bit address outside 0..=7.
    InvalidBitAddr(u16),
}

/// Connection class towards the PLC, from highest to lowest priority.
#[derive(Debug, Clone, Copy, PartialEq, Eq, Structural)]
pub enum ConnectionType {
    /// 1: programming-device connection
    PG,
    /// 2: HMI-panel connection
    OP,
    /// 3: generic data-transfer connection
    Basic,
}

impl ConnectionType {
    pub open spec fn spec_code(self) -> u8 {
        match self {
            ConnectionType::PG => 1,
            ConnectionType::OP => 2,
            ConnectionType::Basic => 3,
        }
    }

    pub fn code(&self) -> (r: u8)
        ensures
            r == self.spec_code(),
    {
        match self {
            ConnectionType::PG => 1,
            ConnectionType::OP => 2,
            ConnectionType::Basic => 3,
        }
    }
}

impl Default for ConnectionType {
    fn default() -> (r: Self)
        ensures
            r == ConnectionType::OP,
    {
        Self::OP
    }
}

/// How the local and remote TSAPs of the COTP connect are chosen.
#[derive(Debug, Clone, Copy, PartialEq, Eq, Structural)]
pub enum ConnectMode {
    /// Explicit 16-bit TSAPs.
    Tsap { conn_type: ConnectionType, local_tsap: u16, remote_tsap: u16 },
    /// TSAPs derived from the rack and slot of the CPU.
    RackSlot { conn_type: ConnectionType, rack: u16, slot: u16 },
}

impl ConnectMode {
    pub fn init_tsap(conn_type: ConnectionType, local_tsap: u16, remote_tsap: u16) -> (r: Self)
        ensures
            r == (ConnectMode::Tsap { conn_type, local_tsap, remote_tsap }),
    {
        Self::Tsap { conn_type, local_tsap, remote_tsap }
    }

    pub fn init_rack_slot(conn_type: ConnectionType, rack: u16, slot: u16) -> (r: Self)
        ensures
            r == (ConnectMode::RackSlot { conn_type, rack, slot }),
    {
        Self::RackSlot { conn_type, rack, slot }
    }

    pub fn conn_type(&self) -> (r: &ConnectionType)
        ensures
            *r == self.spec_conn_type(),
    {
        match self {
            ConnectMode::Tsap { conn_type, .. } => conn_type,
            ConnectMode::RackSlot { conn_type, .. } => conn_type,
        }
    }

    pub open spec fn spec_conn_type(self) -> ConnectionType {
        match self {
            ConnectMode::Tsap { conn_type, .. } => conn_type,
            ConnectMode::RackSlot { conn_type, .. } => conn_type,
        }
    }

    /// The local TSAP bytes of the Connect Request.
    pub open spec fn spec_local_tsap(self) -> Seq<u8> {
        match self {
            ConnectMode::Tsap { local_tsap, .. } => crate::enc_u16(local_tsap),
            ConnectMode::RackSlot { .. } => seq![0x01u8, 0x00u8],
        }
    }

    pub fn local_tsap(&self) -> (r: [u8; 2])
        ensures
            r@ == self.spec_local_tsap(),
    {
        let r = match self {
            ConnectMode::Tsap { local_tsap, .. } => [
                (*local_tsap / 256) as u8,
                (*local_tsap % 256) as u8,
            ],
            ConnectMode::RackSlot { .. } => [0x01, 0x00],
        };
        proof {
            assert(r@ =~= self.spec_local_tsap());
        }
        r
    }

    /// The remote TSAP bytes of the Connect Request: for rack/slot
    /// addressing, the connection type and `(rack << 5) | (slot & 0x1f)`.
    pub open spec fn spec_remote_tsap(self) -> Seq<u8> {
        match self {
            ConnectMode::Tsap { remote_tsap, .. } => crate::enc_u16(remote_tsap),
            ConnectMode::RackSlot { conn_type, rack, slot } => seq![
                conn_type.spec_code(),
                ((rack % 8) * 32 + slot % 32) as u8,
            ],
        }
    }

    pub fn remote_tsap(&self) -> (r: [u8; 2])
        ensures
            r@ == self.spec_remote_tsap(),
    {
        let r = match self {
            ConnectMode::Tsap { remote_tsap, .. } => [
                (*remote_tsap / 256) as u8,
                (*remote_tsap % 256) as u8,
            ],
            ConnectMode::RackSlot { conn_type, rack, slot } => [
                conn_type.code(),
                ((*rack % 8) as u8) * 32 + (*slot % 32) as u8,
            ],
        };
        proof {
            assert(r@ =~= self.spec_remote_tsap());
        }
        r
    }
}

/// A bit position within a byte.
#[derive(Debug, Clone, Copy, PartialEq, Eq, Structural)]
pub enum BitAddr {
    Addr0,
    Addr1,
    Addr2,
    Addr3,
    Addr4,
    Addr5,
    Addr6,
    Addr7,
}

impl BitAddr {
    pub open spec fn spec_code(self) -> u8 {
        match self {
            BitAddr::Addr0 => 0,
            BitAddr::Addr1 => 1,
            BitAddr::Addr2 => 2,
            BitAddr::Addr3 => 3,
            BitAddr::Addr4 => 4,
            BitAddr::Addr5 => 5,
            BitAddr::Addr6 => 6,
            BitAddr::Addr7 => 7,
        }
    }

    pub fn code(&self) -> (r: u8)
        ensures
            r == self.spec_code(),
            r <= 7,
    {
        match self {
            BitAddr::Addr0 => 0,
            BitAddr::Addr1 => 1,
            BitAddr::Addr2 => 2,
            BitAddr::Addr3 => 3,
            BitAddr::Addr4 => 4,
            BitAddr::Addr5 => 5,
            BitAddr::Addr6 => 6,
            BitAddr::Addr7 => 7,
        }
    }

    /// The bit position named by `value`; bit addresses outside 0..=7
    /// are rejected.
    pub fn try_from(value: u16) -> (r: Result<BitAddr, Error>)
        ensures
            match r {
                Ok(b) => value <= 7 && b.spec_code() == value,
                Err(e) => value > 7 && e == Error::InvalidBitAddr(value),
            },
    {
        match value {
            0 => Ok(Self::Addr0),
            1 => Ok(Self::Addr1),
            2 => Ok(Self::Addr2),
            3 => Ok(Self::Addr3),
            4 => Ok(Self::Addr4),
            5 => Ok(Self::Addr5),
            6 => Ok(Self::Addr6),
            7 => Ok(Self::Addr7),
            _ => Err(Error::InvalidBitAddr(value)),
        }
    }
}

/// Granularity of one read or write: a single bit or a byte run.
#[derive(Debug, Clone, Copy, PartialEq, Eq, Structural)]
pub enum DataSizeType {
    Bit { addr: u16, bit_addr: BitAddr },
    Byte { addr: u16, len: u16 },
}

impl DataSizeType {
    /// The bit offset within the addressed byte.
    pub fn bit_addr(&self) -> (r: u8)
        ensures
            r == self.spec_bit_addr(),
            r <= 7,
    {
        match self {
            DataSizeType::Bit { bit_addr, .. } => bit_addr.code(),
            _ => 0x00,
        }
    }

    pub open spec fn spec_bit_addr(self) -> u8 {
        match self {
            DataSizeType::Bit { bit_addr, .. } => bit_addr.spec_code(),
            _ => 0,
        }
    }

    /// The item count: one for a bit, the run length for bytes.
    pub fn len(&self) -> (r: u16)
        ensures
            r == self.spec_len(),
    {
        match self {
            DataSizeType::Bit { .. } => 1u16,
            DataSizeType::Byte { len, .. } => *len,
        }
    }

    pub open spec fn spec_len(self) -> u16 {
        match self {
            DataSizeType::Bit { .. } => 1u16,
            DataSizeType::Byte { len, .. } => len,
        }
    }

    pub fn byte_addr(&self) -> (r: u16)
        ensures
            r == self.spec_byte_addr(),
    {
        match self {
            DataSizeType::Bit { addr, .. } => *addr,
            DataSizeType::Byte { addr, .. } => *addr,
        }
    }

    pub open spec fn spec_byte_addr(self) -> u16 {
        match self {
            DataSizeType::Bit { addr, .. } => addr,
            DataSizeType::Byte { addr, .. } => addr,
        }
    }

    pub fn to_transport_size(&self) -> (r: TransportSize)
        ensures
            r == self.spec_transport_size(),
    {
        match self {
            DataSizeType::Bit { .. } => TransportSize::Bit,
            _ => TransportSize::NoBit,
        }
    }

    pub open spec fn spec_transport_size(self) -> TransportSize {
        match self {
            DataSizeType::Bit { .. } => TransportSize::Bit,
            _ => TransportSize::NoBit,
        }
    }
}

/// Presentation-level selector of a PLC memory region.
#[derive(Debug, Clone, Copy, PartialEq, Eq, Structural)]
pub enum Area {
    ProcessInput(DataSizeType),
    ProcessOutput(DataSizeType),
    /// Flag registers internal to the CPU.
    Merker(DataSizeType),
    /// A numbered data block and an access within it.
    DataBausteine(u16, DataSizeType),
    /// The V memory of S7-200 style CPUs: data block one.
    V(DataSizeType),
}

impl Area {
    /// The S7 area code the selector projects onto.
    pub fn area_data(&self) -> (r: S7Area)
        ensures
            r == self.spec_area_data(),
    {
        match self {
            Area::ProcessInput(_) => S7Area::ProcessInput,
            Area::ProcessOutput(_) => S7Area::ProcessOutput,
            Area::Merker(_) => S7Area::Merker,
            Area::V(_) => S7Area::DataBlocks,
            Area::DataBausteine(_, _) => S7Area::DataBlocks,
        }
    }

    pub open spec fn spec_area_data(self) -> S7Area {
        match self {
            Area::ProcessInput(_) => S7Area::ProcessInput,
            Area::ProcessOutput(_) => S7Area::ProcessOutput,
            Area::Merker(_) => S7Area::Merker,
            Area::V(_) => S7Area::DataBlocks,
            Area::DataBausteine(_, _) => S7Area::DataBlocks,
        }
    }

    /// The data block number the selector addresses; zero outside the
    /// data block areas.
    pub fn db_number(&self) -> (r: u16)
        ensures
            r == self.spec_db_number(),
    {
        match self {
            Area::ProcessInput(_) => 0,
            Area::ProcessOutput(_) => 0,
            Area::Merker(_) => 0,
            Area::V(_) => 1,
            Area::DataBausteine(db_number, _) => *db_number,
        }
    }

    pub open spec fn spec_db_number(self) -> u16 {
        match self {
            Area::ProcessInput(_) => 0,
            Area::ProcessOutput(_) => 0,
            Area::Merker(_) => 0,
            Area::V(_) => 1,
            Area::DataBausteine(db_number, _) => db_number,
        }
    }

    pub open spec fn spec_data_size(self) -> DataSizeType {
        match self {
            Area::ProcessInput(ds) => ds,
            Area::ProcessOutput(ds) => ds,
            Area::Merker(ds) => ds,
            Area::V(ds) => ds,
            Area::DataBausteine(_, ds) => ds,
        }
    }

    /// The access granularity of the selector.
    pub fn data_size(&self) -> (r: DataSizeType)
        ensures
            r == self.spec_data_size(),
    {
        match self {
            Area::ProcessInput(ds) => *ds,
            Area::ProcessOutput(ds) => *ds,
            Area::Merker(ds) => *ds,
            Area::V(ds) => *ds,
            Area::DataBausteine(_, ds) => *ds,
        }
    }
}

/// The item request an area selector projects onto.
pub open spec fn spec_area_item_request(a: Area) -> ItemRequest {
    ItemRequest::spec_new(
        a.spec_data_size().spec_transport_size(),
        DbNumber::spec_from(a.spec_db_number()),
        a.spec_area_data(),
        a.spec_data_size().spec_byte_addr(),
        a.spec_data_size().spec_bit_addr(),
        a.spec_data_size().spec_len(),
    )
}

impl From<Area> for ItemRequest {
    /// Projects the selector onto the S7 triple of area code, data
    /// block number and transport size, with its address and length.
    fn from(a: Area) -> (r: ItemRequest) {
        let ds = a.data_size();
        ItemRequest::new(
            ds.to_transport_size(),
            DbNumber::from_code(a.db_number()),
            a.area_data(),
            ds.byte_addr(),
            ds.bit_addr(),
            ds.len(),
        )
    }
}

impl vstd::std_specs::convert::FromSpecImpl<Area> for ItemRequest {
    open spec fn obeys_from_spec() -> bool {
        true
    }

    open spec fn from_spec(a: Area) -> ItemRequest {
        spec_area_item_request(a)
    }
}

/// The projected item request of any selector is well-formed: its bit
/// address stays below eight and every tagged field carries a known tag.
pub proof fn lemma_area_item_request_wf(a: Area)
    ensures
        spec_area_item_request(a).wf(),
{
}

} // verus!
