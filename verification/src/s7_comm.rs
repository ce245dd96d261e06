//! S7 application layer: tagged enumerations, item addressing and the
//! fixed-size headers shared by Job and AckData frames.
//!
//! Wire reference: the public S7 dissection (Wireshark `packet-s7comm`).
//! All multi-byte integers are big-endian.

use vstd::prelude::*;
use crate::buf::{buf_data, buf_len, buf_byte_at, buf_put_u8, buf_put_u16, buf_put_slice, buf_get_u8, buf_get_u16, buf_split_to};
use crate::{be16_at, enc_u16};
use crate::s7_model::{
    SpecDataItemVal, SpecDataItemWriteResponse, SpecWriteVarJob, SpecReadVarJob,
    SpecWriteVarAckData, SpecReadVarAckData, SpecJob, SpecAckData, SpecFrame, enc_item_requests,
    enc_data_items, enc_write_responses, parse_data_item, parse_data_items, parse_item_requests,
    parse_write_responses, parse_job, parse_ack_data, parse_frame, s7_total, s7_need_more,
    wf_data_items, wf_item_requests, lemma_parse_item_requests_bound, lemma_parse_data_items_bound,
    lemma_parse_write_responses_bound,
};
use bytes::BytesMut;

verus! {

/// Errors of the S7 codec layer.
#[derive(Debug, Clone, Copy, PartialEq, Eq, Structural)]
pub enum Error {
    /// A framed body holds fewer bytes than its length fields promise.
    DataNotEnough,
    /// A parameter or data section was not exactly filled by its items.
    LengthMismatch,
    /// The remote operation/service code is neither Job (1) nor AckData (3).
    UnsupportedRosctr(u8),
    /// The function code is none of SetupCommunication, ReadVar, WriteVar.
    UnsupportedFunction(u8),
    /// A data item carries an unknown return code.
    UnsupportedReturnCode(u8),
}

/// Return code of a data item or write response.
#[derive(Debug, Clone, Copy, PartialEq, Eq, Structural)]
pub enum ReturnCode {
    /// 0
    Reserved,
    /// 1: hardware error
    HwFault,
    /// 3: accessing the object not allowed
    NotAllow,
    /// 5: invalid address
    InvalidAddress,
    /// 6: data type not supported
    NotSupported,
    /// 7: data type inconsistent
    SizeMismatch,
    /// 0x0a: object does not exist
    NotExist,
    /// 0xff: success
    Success,
}

impl ReturnCode {
    pub open spec fn spec_code(self) -> u8 {
        match self {
            ReturnCode::Reserved => 0,
            ReturnCode::HwFault => 1,
            ReturnCode::NotAllow => 3,
            ReturnCode::InvalidAddress => 5,
            ReturnCode::NotSupported => 6,
            ReturnCode::SizeMismatch => 7,
            ReturnCode::NotExist => 0x0a,
            ReturnCode::Success => 0xff,
        }
    }

    pub open spec fn spec_try_from(v: u8) -> Option<ReturnCode> {
        if v == 0 {
            Some(ReturnCode::Reserved)
        } else if v == 1 {
            Some(ReturnCode::HwFault)
        } else if v == 3 {
            Some(ReturnCode::NotAllow)
        } else if v == 5 {
            Some(ReturnCode::InvalidAddress)
        } else if v == 6 {
            Some(ReturnCode::NotSupported)
        } else if v == 7 {
            Some(ReturnCode::SizeMismatch)
        } else if v == 0x0a {
            Some(ReturnCode::NotExist)
        } else if v == 0xff {
            Some(ReturnCode::Success)
        } else {
            None
        }
    }

    pub fn code(self) -> (r: u8)
        ensures
            r == self.spec_code(),
    {
        match self {
            ReturnCode::Reserved => 0,
            ReturnCode::HwFault => 1,
            ReturnCode::NotAllow => 3,
            ReturnCode::InvalidAddress => 5,
            ReturnCode::NotSupported => 6,
            ReturnCode::SizeMismatch => 7,
            ReturnCode::NotExist => 0x0a,
            ReturnCode::Success => 0xff,
        }
    }

    pub fn try_from_code(v: u8) -> (r: Result<ReturnCode, Error>)
        ensures
            match r {
                Ok(c) => Self::spec_try_from(v) == Some(c),
                Err(e) => Self::spec_try_from(v) is None && e == Error::UnsupportedReturnCode(v),
            },
    {
        match v {
            0 => Ok(ReturnCode::Reserved),
            1 => Ok(ReturnCode::HwFault),
            3 => Ok(ReturnCode::NotAllow),
            5 => Ok(ReturnCode::InvalidAddress),
            6 => Ok(ReturnCode::NotSupported),
            7 => Ok(ReturnCode::SizeMismatch),
            0x0a => Ok(ReturnCode::NotExist),
            0xff => Ok(ReturnCode::Success),
            _ => Err(Error::UnsupportedReturnCode(v)),
        }
    }

    pub fn is_ok(&self) -> (r: bool)
        ensures
            r == (*self is Success),
    {
        match self {
            ReturnCode::Success => true,
            _ => false,
        }
    }
}

/// Round trip of the return code tags: decoding the code of a return
/// code gives the return code back.
pub proof fn lemma_return_code_round(c: ReturnCode)
    ensures
        ReturnCode::spec_try_from(c.spec_code()) == Some(c),
{
}

/// Transport size of an `ItemRequest` (tag byte 3 of the item).
#[derive(Debug, Clone, Copy, PartialEq, Eq, Structural)]
pub enum TransportSize {
    /// 0x01
    Bit,
    /// 0x02
    NoBit,
    NotSupport(u8),
}

impl TransportSize {
    pub open spec fn wf(self) -> bool {
        match self {
            TransportSize::NotSupport(v) => v != 0x01 && v != 0x02,
            _ => true,
        }
    }

    pub open spec fn spec_code(self) -> u8 {
        match self {
            TransportSize::Bit => 0x01,
            TransportSize::NoBit => 0x02,
            TransportSize::NotSupport(v) => v,
        }
    }

    pub open spec fn spec_from(v: u8) -> TransportSize {
        if v == 0x01 {
            TransportSize::Bit
        } else if v == 0x02 {
            TransportSize::NoBit
        } else {
            TransportSize::NotSupport(v)
        }
    }

    pub fn code(self) -> (r: u8)
        ensures
            r == self.spec_code(),
    {
        match self {
            TransportSize::Bit => 0x01,
            TransportSize::NoBit => 0x02,
            TransportSize::NotSupport(v) => v,
        }
    }

    pub fn from_code(v: u8) -> (r: TransportSize)
        ensures
            r == Self::spec_from(v),
            r.wf(),
    {
        match v {
            0x01 => TransportSize::Bit,
            0x02 => TransportSize::NoBit,
            _ => TransportSize::NotSupport(v),
        }
    }
}

pub proof fn lemma_transport_size_round(s: TransportSize)
    ensures
        s.wf() ==> TransportSize::spec_from(s.spec_code()) == s,
{
}

/// Transport size of a `DataItemVal` (its second byte).
#[derive(Debug, Clone, Copy, PartialEq, Eq, Structural)]
pub enum DataTransportSize {
    /// 0x03
    Bit,
    /// 0x04
    NoBit,
    NotSupport(u8),
}

impl DataTransportSize {
    pub open spec fn wf(self) -> bool {
        match self {
            DataTransportSize::NotSupport(v) => v != 0x03 && v != 0x04,
            _ => true,
        }
    }

    pub open spec fn spec_code(self) -> u8 {
        match self {
            DataTransportSize::Bit => 0x03,
            DataTransportSize::NoBit => 0x04,
            DataTransportSize::NotSupport(v) => v,
        }
    }

    pub open spec fn spec_from(v: u8) -> DataTransportSize {
        if v == 0x03 {
            DataTransportSize::Bit
        } else if v == 0x04 {
            DataTransportSize::NoBit
        } else {
            DataTransportSize::NotSupport(v)
        }
    }

    pub fn code(self) -> (r: u8)
        ensures
            r == self.spec_code(),
    {
        match self {
            DataTransportSize::Bit => 0x03,
            DataTransportSize::NoBit => 0x04,
            DataTransportSize::NotSupport(v) => v,
        }
    }

    pub fn from_code(v: u8) -> (r: DataTransportSize)
        ensures
            r == Self::spec_from(v),
            r.wf(),
    {
        match v {
            0x03 => DataTransportSize::Bit,
            0x04 => DataTransportSize::NoBit,
            _ => DataTransportSize::NotSupport(v),
        }
    }
}

pub proof fn lemma_data_transport_size_round(s: DataTransportSize)
    ensures
        s.wf() ==> DataTransportSize::spec_from(s.spec_code()) == s,
{
}

/// Presentation-level transport width of a value (not part of the three
/// frame formats; kept for callers that classify item widths).
#[derive(Debug, Clone, Copy, PartialEq, Eq, Structural)]
pub enum TransportType {
    /// 0
    Bit,
    /// 1
    Byte,
    /// 2
    Word,
    /// 3
    DWord,
    /// 4
    Float,
    NotSupport(u8),
}

impl TransportType {
    pub open spec fn spec_code(self) -> u8 {
        match self {
            TransportType::Bit => 0,
            TransportType::Byte => 1,
            TransportType::Word => 2,
            TransportType::DWord => 3,
            TransportType::Float => 4,
            TransportType::NotSupport(v) => v,
        }
    }

    pub fn code(self) -> (r: u8)
        ensures
            r == self.spec_code(),
    {
        match self {
            TransportType::Bit => 0,
            TransportType::Byte => 1,
            TransportType::Word => 2,
            TransportType::DWord => 3,
            TransportType::Float => 4,
            TransportType::NotSupport(v) => v,
        }
    }

    pub fn from_code(v: u8) -> (r: TransportType)
        ensures
            r == match v {
                0u8 => TransportType::Bit,
                1u8 => TransportType::Byte,
                2u8 => TransportType::Word,
                3u8 => TransportType::DWord,
                4u8 => TransportType::Float,
                _ => TransportType::NotSupport(v),
            },
    {
        match v {
            0 => TransportType::Bit,
            1 => TransportType::Byte,
            2 => TransportType::Word,
            3 => TransportType::DWord,
            4 => TransportType::Float,
            _ => TransportType::NotSupport(v),
        }
    }
}

/// Memory area selector of an `ItemRequest`.
#[derive(Debug, Clone, Copy, PartialEq, Eq, Structural)]
pub enum Area {
    /// 0x81
    ProcessInput,
    /// 0x82
    ProcessOutput,
    /// 0x84
    DataBlocks,
    /// 0x83
    Merker,
    /// 0x1c
    Counter,
    /// 0x1d
    Timer,
    NotSupport(u8),
}

impl Area {
    pub open spec fn wf(self) -> bool {
        match self {
            Area::NotSupport(v) => v != 0x81 && v != 0x82 && v != 0x84 && v != 0x83 && v != 0x1c
                && v != 0x1d,
            _ => true,
        }
    }

    pub open spec fn spec_code(self) -> u8 {
        match self {
            Area::ProcessInput => 0x81,
            Area::ProcessOutput => 0x82,
            Area::DataBlocks => 0x84,
            Area::Merker => 0x83,
            Area::Counter => 0x1c,
            Area::Timer => 0x1d,
            Area::NotSupport(v) => v,
        }
    }

    pub open spec fn spec_from(v: u8) -> Area {
        if v == 0x81 {
            Area::ProcessInput
        } else if v == 0x82 {
            Area::ProcessOutput
        } else if v == 0x84 {
            Area::DataBlocks
        } else if v == 0x83 {
            Area::Merker
        } else if v == 0x1c {
            Area::Counter
        } else if v == 0x1d {
            Area::Timer
        } else {
            Area::NotSupport(v)
        }
    }

    pub fn code(self) -> (r: u8)
        ensures
            r == self.spec_code(),
    {
        match self {
            Area::ProcessInput => 0x81,
            Area::ProcessOutput => 0x82,
            Area::DataBlocks => 0x84,
            Area::Merker => 0x83,
            Area::Counter => 0x1c,
            Area::Timer => 0x1d,
            Area::NotSupport(v) => v,
        }
    }

    pub fn from_code(v: u8) -> (r: Area)
        ensures
            r == Self::spec_from(v),
            r.wf(),
    {
        match v {
            0x81 => Area::ProcessInput,
            0x82 => Area::ProcessOutput,
            0x84 => Area::DataBlocks,
            0x83 => Area::Merker,
            0x1c => Area::Counter,
            0x1d => Area::Timer,
            _ => Area::NotSupport(v),
        }
    }
}

pub proof fn lemma_area_round(a: Area)
    ensures
        a.wf() ==> Area::spec_from(a.spec_code()) == a,
{
}

/// Syntax id of an `ItemRequest`; S7Any is the only recognized value.
#[derive(Debug, Clone, Copy, PartialEq, Eq, Structural)]
pub enum Syntax {
    /// 0x10
    S7Any,
    NotSupport(u8),
}

impl Syntax {
    pub open spec fn wf(self) -> bool {
        match self {
            Syntax::NotSupport(v) => v != 0x10,
            _ => true,
        }
    }

    pub open spec fn spec_code(self) -> u8 {
        match self {
            Syntax::S7Any => 0x10,
            Syntax::NotSupport(v) => v,
        }
    }

    pub open spec fn spec_from(v: u8) -> Syntax {
        if v == 0x10 {
            Syntax::S7Any
        } else {
            Syntax::NotSupport(v)
        }
    }

    pub fn code(self) -> (r: u8)
        ensures
            r == self.spec_code(),
    {
        match self {
            Syntax::S7Any => 0x10,
            Syntax::NotSupport(v) => v,
        }
    }

    pub fn from_code(v: u8) -> (r: Syntax)
        ensures
            r == Self::spec_from(v),
            r.wf(),
    {
        if v == 0x10 {
            Syntax::S7Any
        } else {
            Syntax::NotSupport(v)
        }
    }
}

pub proof fn lemma_syntax_round(s: Syntax)
    ensures
        s.wf() ==> Syntax::spec_from(s.spec_code()) == s,
{
}

/// Data block number of an `ItemRequest`; zero means "no data block".
#[derive(Debug, Clone, Copy, PartialEq, Eq, Structural)]
pub enum DbNumber {
    /// 0
    NotIn,
    DbNumber(u16),
}

impl DbNumber {
    pub open spec fn wf(self) -> bool {
        match self {
            DbNumber::DbNumber(v) => v != 0,
            _ => true,
        }
    }

    pub open spec fn spec_code(self) -> u16 {
        match self {
            DbNumber::NotIn => 0,
            DbNumber::DbNumber(v) => v,
        }
    }

    pub open spec fn spec_from(v: u16) -> DbNumber {
        if v == 0 {
            DbNumber::NotIn
        } else {
            DbNumber::DbNumber(v)
        }
    }

    pub fn code(self) -> (r: u16)
        ensures
            r == self.spec_code(),
    {
        match self {
            DbNumber::NotIn => 0,
            DbNumber::DbNumber(v) => v,
        }
    }

    pub fn from_code(v: u16) -> (r: DbNumber)
        ensures
            r == Self::spec_from(v),
            r.wf(),
    {
        if v == 0 {
            DbNumber::NotIn
        } else {
            DbNumber::DbNumber(v)
        }
    }
}

pub proof fn lemma_db_number_round(d: DbNumber)
    ensures
        d.wf() ==> DbNumber::spec_from(d.spec_code()) == d,
{
}

/// A bit-granular PLC memory address. On the wire it packs into three
/// bytes holding the big-endian 19-bit value `byte_addr * 8 + bit_addr`.
#[derive(Debug, Clone, Copy, PartialEq, Eq, Structural)]
pub struct Address {
    pub byte_addr: u16,
    pub bit_addr: u8,
}

impl Address {
    pub open spec fn wf(self) -> bool {
        self.bit_addr <= 7
    }

    /// The packed 19-bit value.
    pub open spec fn spec_num(self) -> int {
        self.byte_addr * 8 + self.bit_addr
    }

    /// The three wire bytes, big-endian.
    pub open spec fn spec_bytes(self) -> Seq<u8> {
        seq![
            (self.spec_num() / 65536) as u8,
            ((self.spec_num() / 256) % 256) as u8,
            (self.spec_num() % 256) as u8,
        ]
    }

    /// The address stored in three wire bytes: bits 3..19 give the byte
    /// address, the low three bits the bit address.
    pub open spec fn spec_from_bytes(index_0: u8, index_1: u8, index_2: u8) -> Address {
        let n = index_0 * 65536 + index_1 * 256 + index_2;
        Address { byte_addr: ((n / 8) % 65536) as u16, bit_addr: (n % 8) as u8 }
    }

    pub fn to_bytes(&self) -> (r: [u8; 3])
        ensures
            r@ == self.spec_bytes(),
    {
        let n: u32 = (self.byte_addr as u32) * 8 + (self.bit_addr as u32);
        let r = [(n / 65536) as u8, ((n / 256) % 256) as u8, (n % 256) as u8];
        proof {
            assert(r@ =~= self.spec_bytes());
        }
        r
    }

    pub fn from_bytes(index_0: u8, index_1: u8, index_2: u8) -> (r: Address)
        ensures
            r == Address::spec_from_bytes(index_0, index_1, index_2),
            r.wf(),
    {
        let n: u32 = (index_0 as u32) * 65536 + (index_1 as u32) * 256 + (index_2 as u32);
        Address { byte_addr: ((n / 8) % 65536) as u16, bit_addr: (n % 8) as u8 }
    }
}

/// Packing a well-formed address into its three wire bytes and reading
/// them back yields the same address, for every byte address and every
/// bit address up to 7.
pub proof fn lemma_address_round_trip(a: Address)
    requires
        a.wf(),
    ensures
        Address::spec_from_bytes(a.spec_bytes()[0], a.spec_bytes()[1], a.spec_bytes()[2]) == a,
{
    let n = a.spec_num();
    assert(0 <= n < 524288);
    let b0 = (n / 65536) as u8;
    let b1 = ((n / 256) % 256) as u8;
    let b2 = (n % 256) as u8;
    assert(b0 == n / 65536 && b1 == (n / 256) % 256 && b2 == n % 256);
    assert(b0 * 65536 + b1 * 256 + b2 == n) by (nonlinear_arith)
        requires
            b0 == n / 65536 && b1 == (n / 256) % 256 && b2 == n % 256 && 0 <= n < 524288,
    ;
    assert((n / 8) % 65536 == a.byte_addr && n % 8 == a.bit_addr) by (nonlinear_arith)
        requires
            n == a.byte_addr * 8 + a.bit_addr && a.byte_addr < 65536 && a.bit_addr <= 7,
    ;
}

/// Header of a Job frame: 10 bytes on the wire, the second of which is
/// the ROSCTR (1 for Job) that is not stored in the struct.
#[derive(Debug, Clone, Copy, PartialEq, Eq, Structural)]
pub struct Header {
    /// 0x32
    pub protocol_id: u8,
    pub reserved: u16,
    pub pdu_ref: u16,
    pub parameter_len: u16,
    pub data_len: u16,
}

impl Header {
    pub fn init(pdu_ref: u16, parameter_len: u16, data_len: u16) -> (r: Self)
        ensures
            r == (Header { protocol_id: 0x32, reserved: 0, pdu_ref, parameter_len, data_len }),
    {
        Self { protocol_id: 0x32, reserved: 0, pdu_ref, parameter_len, data_len }
    }

    /// The ten header bytes, given the ROSCTR to write in byte 1.
    pub open spec fn spec_enc(self, rosctr: u8) -> Seq<u8> {
        seq![self.protocol_id, rosctr] + enc_u16(self.reserved) + enc_u16(self.pdu_ref)
            + enc_u16(self.parameter_len) + enc_u16(self.data_len)
    }

    /// The header stored in the first ten bytes of `b`.
    pub open spec fn spec_parse(b: Seq<u8>) -> Header {
        Header {
            protocol_id: b[0],
            reserved: be16_at(b, 2) as u16,
            pdu_ref: be16_at(b, 4) as u16,
            parameter_len: be16_at(b, 6) as u16,
            data_len: be16_at(b, 8) as u16,
        }
    }

    pub(crate) fn encode(&self, rosctr: u8, dst: &mut BytesMut)
        ensures
            buf_data(*final(dst)) == buf_data(*old(dst)) + self.spec_enc(rosctr),
    {
        buf_put_u8(dst, self.protocol_id);
        buf_put_u8(dst, rosctr);
        buf_put_u16(dst, self.reserved);
        buf_put_u16(dst, self.pdu_ref);
        buf_put_u16(dst, self.parameter_len);
        buf_put_u16(dst, self.data_len);
        proof {
            assert(buf_data(*dst) =~= buf_data(*old(dst)) + self.spec_enc(rosctr));
        }
    }

    pub(crate) fn decode(src: &mut BytesMut) -> (r: Self)
        requires
            buf_data(*old(src)).len() >= 10,
        ensures
            r == Header::spec_parse(buf_data(*old(src))),
            buf_data(*final(src)) == buf_data(*old(src)).skip(10),
    {
        let ghost b = buf_data(*src);
        let protocol_id = buf_get_u8(src);
        let _rosctr = buf_get_u8(src);
        proof {
            assert(buf_data(*src) =~= b.skip(2));
        }
        let reserved = buf_get_u16(src);
        proof {
            assert(buf_data(*src) =~= b.skip(4));
        }
        let pdu_ref = buf_get_u16(src);
        proof {
            assert(buf_data(*src) =~= b.skip(6));
        }
        let parameter_len = buf_get_u16(src);
        proof {
            assert(buf_data(*src) =~= b.skip(8));
        }
        let data_len = buf_get_u16(src);
        proof {
            assert(buf_data(*src) =~= b.skip(10));
        }
        Self { protocol_id, reserved, pdu_ref, parameter_len, data_len }
    }
}

impl Default for Header {
    fn default() -> (r: Self)
        ensures
            r == (Header {
                protocol_id: 0x32u8,
                reserved: 0u16,
                pdu_ref: 0x0400u16,
                parameter_len: 0u16,
                data_len: 0u16,
            }),
    {
        Self { protocol_id: 0x32, reserved: 0, pdu_ref: 0x0400, parameter_len: 0, data_len: 0 }
    }
}

/// Header of an AckData frame: the Job header plus an error class and
/// an error code, 12 bytes on the wire (ROSCTR 3).
#[derive(Debug, Clone, Copy, PartialEq, Eq, Structural)]
pub struct HearderAckData {
    /// 0x32
    pub protocol_id: u8,
    pub reserved: u16,
    pub pdu_ref: u16,
    pub parameter_len: u16,
    pub data_len: u16,
    pub error_class: u8,
    pub error_code: u8,
}

impl HearderAckData {
    pub fn init(pdu_ref: u16, parameter_len: u16, data_len: u16, error_class: u8, error_code: u8)
        -> (r: Self)
        ensures
            r == (HearderAckData {
                protocol_id: 0x32u8,
                reserved: 0u16,
                pdu_ref,
                parameter_len,
                data_len,
                error_class,
                error_code,
            }),
    {
        Self {
            protocol_id: 0x32,
            reserved: 0,
            pdu_ref,
            parameter_len,
            data_len,
            error_class,
            error_code,
        }
    }

    pub open spec fn spec_enc(self) -> Seq<u8> {
        seq![self.protocol_id, 3u8] + enc_u16(self.reserved) + enc_u16(self.pdu_ref)
            + enc_u16(self.parameter_len) + enc_u16(self.data_len)
            + seq![self.error_class, self.error_code]
    }

    /// The header stored in the first twelve bytes of `b`.
    pub open spec fn spec_parse(b: Seq<u8>) -> HearderAckData {
        HearderAckData {
            protocol_id: b[0],
            reserved: be16_at(b, 2) as u16,
            pdu_ref: be16_at(b, 4) as u16,
            parameter_len: be16_at(b, 6) as u16,
            data_len: be16_at(b, 8) as u16,
            error_class: b[10],
            error_code: b[11],
        }
    }

    pub(crate) fn encode(&self, dst: &mut BytesMut)
        ensures
            buf_data(*final(dst)) == buf_data(*old(dst)) + self.spec_enc(),
    {
        buf_put_u8(dst, self.protocol_id);
        buf_put_u8(dst, 0x03);
        buf_put_u16(dst, self.reserved);
        buf_put_u16(dst, self.pdu_ref);
        buf_put_u16(dst, self.parameter_len);
        buf_put_u16(dst, self.data_len);
        buf_put_u8(dst, self.error_class);
        buf_put_u8(dst, self.error_code);
        proof {
            assert(buf_data(*dst) =~= buf_data(*old(dst)) + self.spec_enc());
        }
    }

    pub(crate) fn decode(src: &mut BytesMut) -> (r: Self)
        requires
            buf_data(*old(src)).len() >= 12,
        ensures
            r == HearderAckData::spec_parse(buf_data(*old(src))),
            buf_data(*final(src)) == buf_data(*old(src)).skip(12),
    {
        let ghost b = buf_data(*src);
        let protocol_id = buf_get_u8(src);
        let _rosctr = buf_get_u8(src);
        proof {
            assert(buf_data(*src) =~= b.skip(2));
        }
        let reserved = buf_get_u16(src);
        proof {
            assert(buf_data(*src) =~= b.skip(4));
        }
        let pdu_ref = buf_get_u16(src);
        proof {
            assert(buf_data(*src) =~= b.skip(6));
        }
        let parameter_len = buf_get_u16(src);
        proof {
            assert(buf_data(*src) =~= b.skip(8));
        }
        let data_len = buf_get_u16(src);
        proof {
            assert(buf_data(*src) =~= b.skip(10));
        }
        let error_class = buf_get_u8(src);
        let error_code = buf_get_u8(src);
        proof {
            assert(buf_data(*src) =~= b.skip(12));
        }
        Self {
            protocol_id,
            reserved,
            pdu_ref,
            parameter_len,
            data_len,
            error_class,
            error_code,
        }
    }
}

/// Negotiation body of a SetupCommunication Job or AckData: 7 bytes.
#[derive(Debug, Clone, Copy, PartialEq, Eq, Structural)]
pub struct SetupCommunication {
    pub reserved: u8,
    pub max_amq_calling: u16,
    pub max_amq_called: u16,
    pub pdu_length: u16,
}

impl SetupCommunication {
    pub fn init(max_amq_calling: u16, max_amq_called: u16, pdu_length: u16) -> (r: Self)
        ensures
            r == (SetupCommunication { reserved: 0u8, max_amq_calling, max_amq_called, pdu_length }),
    {
        Self { reserved: 0, max_amq_calling, max_amq_called, pdu_length }
    }

    pub open spec fn spec_enc(self) -> Seq<u8> {
        seq![self.reserved] + enc_u16(self.max_amq_calling) + enc_u16(self.max_amq_called)
            + enc_u16(self.pdu_length)
    }

    /// The body stored in the first seven bytes of `b`.
    pub open spec fn spec_parse(b: Seq<u8>) -> SetupCommunication {
        SetupCommunication {
            reserved: b[0],
            max_amq_calling: be16_at(b, 1) as u16,
            max_amq_called: be16_at(b, 3) as u16,
            pdu_length: be16_at(b, 5) as u16,
        }
    }

    pub(crate) fn encode(self, dst: &mut BytesMut)
        ensures
            buf_data(*final(dst)) == buf_data(*old(dst)) + self.spec_enc(),
    {
        buf_put_u8(dst, self.reserved);
        buf_put_u16(dst, self.max_amq_calling);
        buf_put_u16(dst, self.max_amq_called);
        buf_put_u16(dst, self.pdu_length);
        proof {
            assert(buf_data(*dst) =~= buf_data(*old(dst)) + self.spec_enc());
        }
    }

    pub(crate) fn decode(src: &mut BytesMut) -> (r: Result<Self, Error>)
        ensures
            match r {
                Ok(s) => buf_data(*old(src)).len() >= 7
                    && s == SetupCommunication::spec_parse(buf_data(*old(src)))
                    && buf_data(*final(src)) == buf_data(*old(src)).skip(7),
                Err(e) => buf_data(*old(src)).len() < 7 && e == Error::DataNotEnough
                    && buf_data(*final(src)) == buf_data(*old(src)),
            },
    {
        let ghost b = buf_data(*src);
        if buf_len(src) < 7 {
            return Err(Error::DataNotEnough);
        }
        let reserved = buf_get_u8(src);
        let max_amq_calling = buf_get_u16(src);
        proof {
            assert(buf_data(*src) =~= b.skip(3));
        }
        let max_amq_called = buf_get_u16(src);
        proof {
            assert(buf_data(*src) =~= b.skip(5));
        }
        let pdu_length = buf_get_u16(src);
        proof {
            assert(buf_data(*src) =~= b.skip(7));
        }
        Ok(Self { reserved, max_amq_calling, max_amq_called, pdu_length })
    }

    pub fn pdu_length(&self) -> (r: u16)
        ensures
            r == self.pdu_length,
    {
        self.pdu_length
    }
}

pub const PARAM_ITEM_VAR_SPEC: u8 = 0x12;
pub const PARAM_ITEM_VAR_SPEC_LENGTH: u8 = 0x0a;

/// One variable selector of a ReadVar or WriteVar Job. Exactly twelve
/// bytes on the wire; `follow_length` is that count minus two.
#[derive(Debug, Clone, Copy, PartialEq, Eq, Structural)]
pub struct ItemRequest {
    pub variable_specification: u8,
    pub follow_length: u8,
    pub syntax_id: Syntax,
    pub transport_size_type: TransportSize,
    pub length: u16,
    pub db_number: DbNumber,
    pub area: Area,
    pub address: Address,
}

impl ItemRequest {
    pub open spec fn wf(self) -> bool {
        &&& self.syntax_id.wf()
        &&& self.transport_size_type.wf()
        &&& self.db_number.wf()
        &&& self.area.wf()
        &&& self.address.wf()
    }

    pub open spec fn spec_enc(self) -> Seq<u8> {
        seq![
            self.variable_specification,
            self.follow_length,
            self.syntax_id.spec_code(),
            self.transport_size_type.spec_code(),
        ] + enc_u16(self.length) + enc_u16(self.db_number.spec_code())
            + seq![self.area.spec_code()] + self.address.spec_bytes()
    }

    /// The item stored in the first twelve bytes of `b`.
    pub open spec fn spec_parse(b: Seq<u8>) -> ItemRequest {
        ItemRequest {
            variable_specification: b[0],
            follow_length: b[1],
            syntax_id: Syntax::spec_from(b[2]),
            transport_size_type: TransportSize::spec_from(b[3]),
            length: be16_at(b, 4) as u16,
            db_number: DbNumber::spec_from(be16_at(b, 6) as u16),
            area: Area::spec_from(b[8]),
            address: Address::spec_from_bytes(b[9], b[10], b[11]),
        }
    }

    /// The item that `new` constructs.
    pub open spec fn spec_new(
        transport_size_type: TransportSize,
        db_number: DbNumber,
        area: Area,
        byte_addr: u16,
        bit_addr: u8,
        length: u16,
    ) -> ItemRequest {
        ItemRequest {
            variable_specification: PARAM_ITEM_VAR_SPEC,
            follow_length: PARAM_ITEM_VAR_SPEC_LENGTH,
            syntax_id: Syntax::S7Any,
            transport_size_type,
            length,
            db_number,
            area,
            address: Address { byte_addr, bit_addr },
        }
    }

    /// The item that `init_byte` constructs.
    pub open spec fn spec_init_byte(
        db_number: Option<u16>,
        area: Area,
        byte_addr: u16,
        length: u16,
    ) -> ItemRequest {
        ItemRequest::spec_new(
            TransportSize::NoBit,
            match db_number {
                Some(x) => DbNumber::DbNumber(x),
                None => DbNumber::NotIn,
            },
            area,
            byte_addr,
            0u8,
            length,
        )
    }

    /// The item that `init_bit` constructs.
    pub open spec fn spec_init_bit(
        db_number: Option<u16>,
        area: Area,
        byte_addr: u16,
        bit_addr: u8,
    ) -> ItemRequest {
        ItemRequest::spec_new(
            TransportSize::Bit,
            match db_number {
                Some(x) => DbNumber::DbNumber(x),
                None => DbNumber::NotIn,
            },
            area,
            byte_addr,
            bit_addr,
            1u16,
        )
    }

    pub fn new(
        transport_size_type: TransportSize,
        db_number: DbNumber,
        area: Area,
        byte_addr: u16,
        bit_addr: u8,
        length: u16,
    ) -> (r: Self)
        requires
            bit_addr <= 7,
        ensures
            r == (ItemRequest {
                variable_specification: PARAM_ITEM_VAR_SPEC,
                follow_length: PARAM_ITEM_VAR_SPEC_LENGTH,
                syntax_id: Syntax::S7Any,
                transport_size_type,
                length,
                db_number,
                area,
                address: Address { byte_addr, bit_addr },
            }),
    {
        Self {
            variable_specification: PARAM_ITEM_VAR_SPEC,
            follow_length: PARAM_ITEM_VAR_SPEC_LENGTH,
            syntax_id: Syntax::S7Any,
            transport_size_type,
            length,
            db_number,
            area,
            address: Address { byte_addr, bit_addr },
        }
    }

    pub fn init_byte(db_number: Option<u16>, area: Area, byte_addr: u16, length: u16) -> (r: Self)
        ensures
            r == (ItemRequest {
                variable_specification: PARAM_ITEM_VAR_SPEC,
                follow_length: PARAM_ITEM_VAR_SPEC_LENGTH,
                syntax_id: Syntax::S7Any,
                transport_size_type: TransportSize::NoBit,
                length,
                db_number: match db_number {
                    Some(x) => DbNumber::DbNumber(x),
                    None => DbNumber::NotIn,
                },
                area,
                address: Address { byte_addr, bit_addr: 0u8 },
            }),
    {
        let db_number = match db_number {
            Some(x) => DbNumber::DbNumber(x),
            None => DbNumber::NotIn,
        };
        Self::new(TransportSize::NoBit, db_number, area, byte_addr, 0, length)
    }

    pub fn init_bit(db_number: Option<u16>, area: Area, byte_addr: u16, bit_addr: u8) -> (r: Self)
        requires
            bit_addr <= 7,
        ensures
            r == (ItemRequest {
                variable_specification: PARAM_ITEM_VAR_SPEC,
                follow_length: PARAM_ITEM_VAR_SPEC_LENGTH,
                syntax_id: Syntax::S7Any,
                transport_size_type: TransportSize::Bit,
                length: 1u16,
                db_number: match db_number {
                    Some(x) => DbNumber::DbNumber(x),
                    None => DbNumber::NotIn,
                },
                area,
                address: Address { byte_addr, bit_addr },
            }),
    {
        let db_number = match db_number {
            Some(x) => DbNumber::DbNumber(x),
            None => DbNumber::NotIn,
        };
        Self::new(TransportSize::Bit, db_number, area, byte_addr, bit_addr, 1)
    }

    pub fn bytes_len(&self) -> (r: u16)
        ensures
            r == 12,
            r == self.spec_enc().len(),
    {
        12
    }

    pub(crate) fn encode(self, dst: &mut BytesMut)
        ensures
            buf_data(*final(dst)) == buf_data(*old(dst)) + self.spec_enc(),
    {
        buf_put_u8(dst, self.variable_specification);
        buf_put_u8(dst, self.follow_length);
        buf_put_u8(dst, self.syntax_id.code());
        buf_put_u8(dst, self.transport_size_type.code());
        buf_put_u16(dst, self.length);
        buf_put_u16(dst, self.db_number.code());
        buf_put_u8(dst, self.area.code());
        let addr = self.address.to_bytes();
        buf_put_slice(dst, addr.as_slice());
        proof {
            assert(buf_data(*dst) =~= buf_data(*old(dst)) + self.spec_enc());
        }
    }

    pub(crate) fn decode(src: &mut BytesMut) -> (r: Result<Self, Error>)
        ensures
            match r {
                Ok(item) => buf_data(*old(src)).len() >= 12
                    && item == ItemRequest::spec_parse(buf_data(*old(src)))
                    && buf_data(*final(src)) == buf_data(*old(src)).skip(12),
                Err(e) => buf_data(*old(src)).len() < 12 && e == Error::DataNotEnough
                    && buf_data(*final(src)) == buf_data(*old(src)),
            },
    {
        let ghost b = buf_data(*src);
        if buf_len(src) < 12 {
            return Err(Error::DataNotEnough);
        }
        let variable_specification = buf_get_u8(src);
        let follow_length = buf_get_u8(src);
        proof {
            assert(buf_data(*src) =~= b.skip(2));
        }
        let syntax_id = Syntax::from_code(buf_get_u8(src));
        proof {
            assert(buf_data(*src) =~= b.skip(3));
        }
        let transport_size_type = TransportSize::from_code(buf_get_u8(src));
        proof {
            assert(buf_data(*src) =~= b.skip(4));
        }
        let length = buf_get_u16(src);
        proof {
            assert(buf_data(*src) =~= b.skip(6));
        }
        let db_number = DbNumber::from_code(buf_get_u16(src));
        proof {
            assert(buf_data(*src) =~= b.skip(8));
        }
        let area = Area::from_code(buf_get_u8(src));
        proof {
            assert(buf_data(*src) =~= b.skip(9));
        }
        let a0 = buf_get_u8(src);
        let a1 = buf_get_u8(src);
        let a2 = buf_get_u8(src);
        proof {
            assert(buf_data(*src) =~= b.skip(12));
        }
        let address = Address::from_bytes(a0, a1, a2);
        Ok(Self {
            variable_specification,
            follow_length,
            syntax_id,
            transport_size_type,
            length,
            db_number,
            area,
            address,
        })
    }
}

/// The models of a sequence of data item values.
pub open spec fn view_data_items(v: Seq<DataItemVal>) -> Seq<SpecDataItemVal> {
    v.map_values(|d: DataItemVal| d@)
}

/// The models of a sequence of write responses.
pub open spec fn view_write_responses(v: Seq<DataItemWriteResponse>) -> Seq<
    SpecDataItemWriteResponse,
> {
    v.map_values(|d: DataItemWriteResponse| d@)
}

/// Acknowledgement of one written item.
#[derive(Debug, Clone, Copy, PartialEq, Eq, Structural)]
pub struct DataItemWriteResponse {
    pub return_code: ReturnCode,
}

impl View for DataItemWriteResponse {
    type V = SpecDataItemWriteResponse;

    open spec fn view(&self) -> SpecDataItemWriteResponse {
        SpecDataItemWriteResponse { return_code: self.return_code }
    }
}

impl DataItemWriteResponse {
    pub fn init(return_code: ReturnCode) -> (r: Self)
        ensures
            r == (DataItemWriteResponse { return_code }),
    {
        Self { return_code }
    }

    pub(crate) fn encode(&self, dst: &mut BytesMut)
        ensures
            buf_data(*final(dst)) == buf_data(*old(dst)).push(self.return_code.spec_code()),
    {
        buf_put_u8(dst, self.return_code.code());
    }
}

/// One value read from the PLC or sent to it, together with its return
/// code and transport size.
#[derive(Debug, Clone)]
pub struct DataItemVal {
    pub return_code: ReturnCode,
    pub transport_size_type: DataTransportSize,
    /// Bit count for `NoBit` transport (eight per payload byte); value
    /// count for bit transport.
    pub length: u16,
    pub data: Vec<u8>,
}

impl View for DataItemVal {
    type V = SpecDataItemVal;

    open spec fn view(&self) -> SpecDataItemVal {
        SpecDataItemVal {
            return_code: self.return_code,
            transport_size_type: self.transport_size_type,
            length: self.length,
            data: self.data@,
        }
    }
}

impl DataItemVal {
    pub fn init_with_bytes(return_code: ReturnCode, data: &[u8]) -> (r: Self)
        requires
            data@.len() <= 8191,
        ensures
            r@ == (SpecDataItemVal {
                return_code,
                transport_size_type: DataTransportSize::NoBit,
                length: (data@.len() * 8) as u16,
                data: data@,
            }),
            r@.wf(),
    {
        let mut copy: Vec<u8> = Vec::new();
        let mut i: usize = 0;
        while i < data.len()
            invariant
                i <= data@.len(),
                copy@ == data@.take(i as int),
            decreases data@.len() - i,
        {
            copy.push(data[i]);
            proof {
                assert(copy@ =~= data@.take(i as int + 1));
            }
            i += 1;
        }
        proof {
            assert(copy@ =~= data@);
        }
        Self {
            return_code,
            transport_size_type: DataTransportSize::NoBit,
            length: (data.len() as u16) * 8,
            data: copy,
        }
    }

    pub fn init_with_bit(return_code: ReturnCode, data: bool) -> (r: Self)
        ensures
            r@ == (SpecDataItemVal {
                return_code,
                transport_size_type: DataTransportSize::Bit,
                length: 1u16,
                data: seq![if data { 1u8 } else { 0u8 }],
            }),
            r@.wf(),
    {
        let v: Vec<u8> = if data {
            vec![1]
        } else {
            vec![0]
        };
        let r = Self {
            return_code,
            transport_size_type: DataTransportSize::Bit,
            length: 1,
            data: v,
        };
        proof {
            assert(r@.data =~= seq![if data { 1u8 } else { 0u8 }]);
        }
        r
    }

    /// A copy of the item; the derived clone carries no contract.
    pub fn clone_item(&self) -> (r: Self)
        ensures
            r@ == self@,
    {
        let mut copy: Vec<u8> = Vec::new();
        let mut i: usize = 0;
        while i < self.data.len()
            invariant
                i <= self.data@.len(),
                copy@ == self.data@.take(i as int),
            decreases self.data@.len() - i,
        {
            copy.push(self.data[i]);
            proof {
                assert(copy@ =~= self.data@.take(i as int + 1));
            }
            i += 1;
        }
        proof {
            assert(copy@ =~= self.data@);
        }
        Self {
            return_code: self.return_code,
            transport_size_type: self.transport_size_type,
            length: self.length,
            data: copy,
        }
    }

    /// The item's width on the wire without any pad byte.
    pub fn bytes_len(&self) -> (r: u16)
        requires
            self.data@.len() + 4 <= 0xFFFF,
        ensures
            r == self@.spec_enc().len(),
    {
        self.data.len() as u16 + 4
    }

    pub(crate) fn encode(&self, dst: &mut BytesMut)
        ensures
            buf_data(*final(dst)) == buf_data(*old(dst)) + self@.spec_enc(),
    {
        buf_put_u8(dst, self.return_code.code());
        buf_put_u8(dst, self.transport_size_type.code());
        buf_put_u16(dst, self.length);
        buf_put_slice(dst, self.data.as_slice());
        proof {
            assert(buf_data(*dst) =~= buf_data(*old(dst)) + self@.spec_enc());
        }
    }

    pub(crate) fn decode(src: &mut BytesMut, is_last: bool) -> (r: Result<Self, Error>)
        ensures
            match parse_data_item(buf_data(*old(src)), is_last) {
                Ok(p) => match r {
                    Ok(item) => item@ == p.0 && buf_data(*final(src)) == buf_data(*old(src)).skip(
                        p.1,
                    ),
                    Err(_) => false,
                },
                Err(e) => r == Err::<DataItemVal, Error>(e),
            },
    {
        let ghost b = buf_data(*src);
        if buf_len(src) < 4 {
            return Err(Error::DataNotEnough);
        }
        let rc_byte = buf_get_u8(src);
        let return_code = match ReturnCode::try_from_code(rc_byte) {
            Ok(c) => c,
            Err(e) => {
                return Err(e);
            },
        };
        let ts = DataTransportSize::from_code(buf_get_u8(src));
        proof {
            assert(buf_data(*src) =~= b.skip(2));
        }
        let length = buf_get_u16(src);
        proof {
            assert(buf_data(*src) =~= b.skip(4));
            assert(length == be16_at(b, 2));
        }
        let nbytes: usize = if ts == DataTransportSize::NoBit {
            (length / 8) as usize
        } else {
            length as usize
        };
        let pad: usize = if !is_last && nbytes % 2 == 1 {
            1
        } else {
            0
        };
        if buf_len(src) < nbytes + pad {
            return Err(Error::DataNotEnough);
        }
        let mut data: Vec<u8> = Vec::new();
        let mut j: usize = 0;
        while j < nbytes
            invariant
                j <= nbytes,
                b.len() >= 4 + nbytes + pad,
                buf_data(*src) == b.skip(4 + j as int),
                data@ == b.subrange(4, 4 + j as int),
            decreases nbytes - j,
        {
            let byte = buf_get_u8(src);
            data.push(byte);
            proof {
                assert(buf_data(*src) =~= b.skip(4 + (j + 1) as int));
                assert(data@ =~= b.subrange(4, 4 + (j + 1) as int));
            }
            j += 1;
        }
        if pad == 1 {
            let _fill = buf_get_u8(src);
            proof {
                assert(buf_data(*src) =~= b.skip(4 + nbytes as int + 1));
            }
        }
        let r = Self { return_code, transport_size_type: ts, length, data };
        proof {
            let p = parse_data_item(b, is_last);
            assert(p is Ok);
            assert(r@ == p->Ok_0.0);
            assert(buf_data(*src) == b.skip(p->Ok_0.1));
        }
        Ok(r)
    }
}

/// Writes `items` as a data section: every item except the last is
/// padded to an even payload width.
pub(crate) fn encode_data_items(items: &Vec<DataItemVal>, dst: &mut BytesMut)
    ensures
        buf_data(*final(dst)) == buf_data(*old(dst)) + enc_data_items(view_data_items(items@)),
{
    let ghost s = view_data_items(items@);
    proof {
        assert(s.skip(0) =~= s);
    }
    let n = items.len();
    let mut i: usize = 0;
    while i < n
        invariant
            i <= n,
            n == items@.len(),
            s == view_data_items(items@),
            buf_data(*dst) + enc_data_items(s.skip(i as int)) == buf_data(*old(dst))
                + enc_data_items(s),
        decreases n - i,
    {
        let item = &items[i];
        item.encode(dst);
        if i + 1 < n && item.data.len() % 2 == 1 {
            buf_put_u8(dst, 0);
        }
        proof {
            let rest = s.skip(i as int);
            assert(rest[0] == s[i as int]);
            assert(rest.skip(1) =~= s.skip(i as int + 1));
            if i + 1 < n {
                assert(enc_data_items(rest) == s[i as int].spec_enc_padded() + enc_data_items(
                    s.skip(i as int + 1),
                ));
                assert(s[i as int].spec_enc_padded() == s[i as int].spec_enc() + if s[
                    i as int
                ].data.len() % 2 == 1 {
                    seq![0u8]
                } else {
                    Seq::<u8>::empty()
                });
            } else {
                assert(rest.len() == 1);
                assert(enc_data_items(rest) == s[i as int].spec_enc());
                assert(s.skip(i as int + 1) =~= Seq::<SpecDataItemVal>::empty());
            }
            assert(buf_data(*dst) + enc_data_items(s.skip(i as int + 1)) =~= buf_data(*old(dst))
                + enc_data_items(s));
        }
        i += 1;
    }
    proof {
        assert(s.skip(n as int) =~= Seq::<SpecDataItemVal>::empty());
        assert(buf_data(*dst) + enc_data_items(s.skip(n as int)) =~= buf_data(*dst));
    }
}

/// Reads `count` data items from a data section.
pub(crate) fn decode_data_items(src: &mut BytesMut, count: u8) -> (r: Result<
    Vec<DataItemVal>,
    Error,
>)
    ensures
        match parse_data_items(buf_data(*old(src)), count as nat) {
            Ok(p) => match r {
                Ok(v) => view_data_items(v@) == p.0 && buf_data(*final(src)) == buf_data(
                    *old(src),
                ).skip(p.1),
                Err(_) => false,
            },
            Err(e) => r == Err::<Vec<DataItemVal>, Error>(e),
        },
{
    let ghost b0 = buf_data(*src);
    let n = count as usize;
    let mut acc: Vec<DataItemVal> = Vec::new();
    let mut i: usize = 0;
    let ghost mut consumed: int = 0;
    proof {
        assert(view_data_items(acc@) =~= Seq::<SpecDataItemVal>::empty());
        assert(b0.skip(0) =~= b0);
        if parse_data_items(b0, count as nat) is Ok {
            let p = parse_data_items(b0, count as nat)->Ok_0;
            assert(view_data_items(acc@) + p.0 =~= p.0);
        }
    }
    while i < n
        invariant
            i <= n,
            n == count,
            b0 == buf_data(*old(src)),
            view_data_items(acc@).len() == i,
            0 <= consumed <= b0.len(),
            buf_data(*src) == b0.skip(consumed),
            parse_data_items(b0, count as nat) == match parse_data_items(
                buf_data(*src),
                (n - i) as nat,
            ) {
                Ok(p) => Ok::<_, Error>((view_data_items(acc@) + p.0, consumed + p.1)),
                Err(e) => Err::<(Seq<SpecDataItemVal>, int), Error>(e),
            },
        decreases n - i,
    {
        let ghost remaining = buf_data(*src);
        let ghost rem_n = (n - i) as nat;
        let item = match DataItemVal::decode(src, i + 1 == n) {
            Ok(item) => item,
            Err(e) => {
                proof {
                    assert((i + 1 == n) == (rem_n == 1));
                    assert(parse_data_item(remaining, rem_n == 1) is Err);
                    assert(parse_data_items(remaining, rem_n) == Err::<
                        (Seq<SpecDataItemVal>, int),
                        Error,
                    >(e));
                }
                return Err(e);
            },
        };
        proof {
            assert((i + 1 == n) == (rem_n == 1));
            assert(parse_data_item(remaining, rem_n == 1) is Ok);
        }
        let ghost step = parse_data_item(remaining, rem_n == 1)->Ok_0;
        let ghost acc_pre = view_data_items(acc@);
        acc.push(item);
        proof {
            assert(view_data_items(acc@) =~= acc_pre.push(item@));
            assert(buf_data(*src) == remaining.skip(step.1));
            assert(0 <= step.1 <= remaining.len());
            assert(remaining.len() == b0.len() - consumed);
            assert(b0.skip(consumed).skip(step.1) =~= b0.skip(consumed + step.1));
            assert(parse_data_items(remaining, rem_n) == match parse_data_items(
                remaining.skip(step.1),
                (rem_n - 1) as nat,
            ) {
                Ok(p) => Ok::<_, Error>((seq![step.0] + p.0, step.1 + p.1)),
                Err(e) => Err::<(Seq<SpecDataItemVal>, int), Error>(e),
            });
            if parse_data_items(buf_data(*src), (rem_n - 1) as nat) is Ok {
                let p = parse_data_items(buf_data(*src), (rem_n - 1) as nat)->Ok_0;
                assert(acc_pre.push(item@) + p.0 =~= acc_pre + (seq![step.0] + p.0));
            }
            consumed = consumed + step.1;
        }
        i += 1;
    }
    proof {
        assert(parse_data_items(buf_data(*src), 0) == Ok::<_, Error>((
            Seq::<SpecDataItemVal>::empty(),
            0int,
        )));
        assert(view_data_items(acc@) + Seq::<SpecDataItemVal>::empty() =~= view_data_items(acc@));
    }
    Ok(acc)
}

/// A well-formed item re-read from its own encoding is unchanged, and
/// that encoding is always exactly twelve bytes wide.
pub proof fn lemma_item_request_round(i: ItemRequest, rest: Seq<u8>)
    requires
        i.wf(),
    ensures
        i.spec_enc().len() == 12,
        ItemRequest::spec_parse(i.spec_enc() + rest) == i,
{
    let e = i.spec_enc() + rest;
    assert(i.spec_enc().len() == 12);
    assert(e[0] == i.variable_specification && e[1] == i.follow_length);
    assert(e[2] == i.syntax_id.spec_code() && e[3] == i.transport_size_type.spec_code());
    assert(be16_at(e, 4) == i.length);
    assert(be16_at(e, 6) == i.db_number.spec_code());
    assert(e[8] == i.area.spec_code());
    assert(e[9] == i.address.spec_bytes()[0] && e[10] == i.address.spec_bytes()[1]
        && e[11] == i.address.spec_bytes()[2]);
    lemma_syntax_round(i.syntax_id);
    lemma_transport_size_round(i.transport_size_type);
    lemma_db_number_round(i.db_number);
    lemma_area_round(i.area);
    lemma_address_round_trip(i.address);
}

/// Writes `items` one after the other, twelve bytes each.
pub(crate) fn encode_item_requests(items: &Vec<ItemRequest>, dst: &mut BytesMut)
    ensures
        buf_data(*final(dst)) == buf_data(*old(dst)) + enc_item_requests(items@),
{
    let ghost s = items@;
    proof {
        assert(s.skip(0) =~= s);
    }
    let n = items.len();
    let mut i: usize = 0;
    while i < n
        invariant
            i <= n,
            n == items@.len(),
            s == items@,
            buf_data(*dst) + enc_item_requests(s.skip(i as int)) == buf_data(*old(dst))
                + enc_item_requests(s),
        decreases n - i,
    {
        let item = items[i];
        item.encode(dst);
        proof {
            let rest = s.skip(i as int);
            assert(rest[0] == s[i as int]);
            assert(rest.skip(1) =~= s.skip(i as int + 1));
            assert(buf_data(*dst) + enc_item_requests(s.skip(i as int + 1)) =~= buf_data(
                *old(dst),
            ) + enc_item_requests(s));
        }
        i += 1;
    }
    proof {
        assert(s.skip(n as int) =~= Seq::<ItemRequest>::empty());
        assert(buf_data(*dst) + enc_item_requests(s.skip(n as int)) =~= buf_data(*dst));
    }
}

/// Reads `count` item requests from a parameter section.
pub(crate) fn decode_item_requests(src: &mut BytesMut, count: u8) -> (r: Result<
    Vec<ItemRequest>,
    Error,
>)
    ensures
        match parse_item_requests(buf_data(*old(src)), count as nat) {
            Ok(p) => match r {
                Ok(v) => v@ == p.0 && buf_data(*final(src)) == buf_data(*old(src)).skip(p.1),
                Err(_) => false,
            },
            Err(e) => r == Err::<Vec<ItemRequest>, Error>(e),
        },
{
    let ghost b0 = buf_data(*src);
    let n = count as usize;
    let mut acc: Vec<ItemRequest> = Vec::new();
    let mut i: usize = 0;
    proof {
        assert(b0.skip(0) =~= b0);
        if parse_item_requests(b0, count as nat) is Ok {
            let p = parse_item_requests(b0, count as nat)->Ok_0;
            assert(acc@ + p.0 =~= p.0);
        }
    }
    while i < n
        invariant
            i <= n,
            n == count,
            b0 == buf_data(*old(src)),
            acc@.len() == i,
            0 <= 12 * i <= b0.len(),
            buf_data(*src) == b0.skip(12 * i),
            parse_item_requests(b0, count as nat) == match parse_item_requests(
                buf_data(*src),
                (n - i) as nat,
            ) {
                Ok(p) => Ok::<_, Error>((acc@ + p.0, 12 * i + p.1)),
                Err(e) => Err::<(Seq<ItemRequest>, int), Error>(e),
            },
        decreases n - i,
    {
        let ghost remaining = buf_data(*src);
        let ghost rem_n = (n - i) as nat;
        let item = match ItemRequest::decode(src) {
            Ok(item) => item,
            Err(e) => {
                proof {
                    assert(parse_item_requests(remaining, rem_n) == Err::<
                        (Seq<ItemRequest>, int),
                        Error,
                    >(e));
                }
                return Err(e);
            },
        };
        let ghost acc_pre = acc@;
        acc.push(item);
        proof {
            assert(acc@ =~= acc_pre.push(item));
            assert(remaining.len() == b0.len() - 12 * i);
            assert(b0.skip(12 * i).skip(12) =~= b0.skip(12 * (i + 1)));
            if parse_item_requests(buf_data(*src), (rem_n - 1) as nat) is Ok {
                let p = parse_item_requests(buf_data(*src), (rem_n - 1) as nat)->Ok_0;
                assert(acc_pre.push(item) + p.0 =~= acc_pre + (seq![
                    ItemRequest::spec_parse(remaining),
                ] + p.0));
            }
        }
        i += 1;
    }
    proof {
        assert(parse_item_requests(buf_data(*src), 0) == Ok::<_, Error>((
            Seq::<ItemRequest>::empty(),
            0int,
        )));
        assert(acc@ + Seq::<ItemRequest>::empty() =~= acc@);
    }
    Ok(acc)
}

/// Writes the responses of a WriteVar acknowledgement, one byte each.
pub(crate) fn encode_write_responses(items: &Vec<DataItemWriteResponse>, dst: &mut BytesMut)
    ensures
        buf_data(*final(dst)) == buf_data(*old(dst)) + enc_write_responses(
            view_write_responses(items@),
        ),
{
    let ghost s = view_write_responses(items@);
    proof {
        assert(s.skip(0) =~= s);
    }
    let n = items.len();
    let mut i: usize = 0;
    while i < n
        invariant
            i <= n,
            n == items@.len(),
            s == view_write_responses(items@),
            buf_data(*dst) + enc_write_responses(s.skip(i as int)) == buf_data(*old(dst))
                + enc_write_responses(s),
        decreases n - i,
    {
        let item = items[i];
        item.encode(dst);
        proof {
            let rest = s.skip(i as int);
            assert(rest[0] == s[i as int]);
            assert(rest.skip(1) =~= s.skip(i as int + 1));
            assert(buf_data(*dst) + enc_write_responses(s.skip(i as int + 1)) =~= buf_data(
                *old(dst),
            ) + enc_write_responses(s));
        }
        i += 1;
    }
    proof {
        assert(s.skip(n as int) =~= Seq::<SpecDataItemWriteResponse>::empty());
        assert(buf_data(*dst) + enc_write_responses(s.skip(n as int)) =~= buf_data(*dst));
    }
}

/// Reads `count` write responses from a data section.
pub(crate) fn decode_write_responses(src: &mut BytesMut, count: u8) -> (r: Result<
    Vec<DataItemWriteResponse>,
    Error,
>)
    ensures
        match parse_write_responses(buf_data(*old(src)), count as nat) {
            Ok(p) => match r {
                Ok(v) => view_write_responses(v@) == p.0 && buf_data(*final(src)) == buf_data(
                    *old(src),
                ).skip(p.1),
                Err(_) => false,
            },
            Err(e) => r == Err::<Vec<DataItemWriteResponse>, Error>(e),
        },
{
    let ghost b0 = buf_data(*src);
    let n = count as usize;
    let mut acc: Vec<DataItemWriteResponse> = Vec::new();
    let mut i: usize = 0;
    proof {
        assert(view_write_responses(acc@) =~= Seq::<SpecDataItemWriteResponse>::empty());
        assert(b0.skip(0) =~= b0);
        if parse_write_responses(b0, count as nat) is Ok {
            let p = parse_write_responses(b0, count as nat)->Ok_0;
            assert(view_write_responses(acc@) + p.0 =~= p.0);
        }
    }
    while i < n
        invariant
            i <= n,
            n == count,
            b0 == buf_data(*old(src)),
            view_write_responses(acc@).len() == i,
            0 <= i <= b0.len(),
            buf_data(*src) == b0.skip(i as int),
            parse_write_responses(b0, count as nat) == match parse_write_responses(
                buf_data(*src),
                (n - i) as nat,
            ) {
                Ok(p) => Ok::<_, Error>((view_write_responses(acc@) + p.0, i + p.1)),
                Err(e) => Err::<(Seq<SpecDataItemWriteResponse>, int), Error>(e),
            },
        decreases n - i,
    {
        let ghost remaining = buf_data(*src);
        let ghost rem_n = (n - i) as nat;
        if buf_len(src) < 1 {
            proof {
                assert(parse_write_responses(remaining, rem_n) == Err::<
                    (Seq<SpecDataItemWriteResponse>, int),
                    Error,
                >(Error::DataNotEnough));
            }
            return Err(Error::DataNotEnough);
        }
        let rc_byte = buf_get_u8(src);
        let return_code = match ReturnCode::try_from_code(rc_byte) {
            Ok(c) => c,
            Err(e) => {
                proof {
                    assert(parse_write_responses(remaining, rem_n) == Err::<
                        (Seq<SpecDataItemWriteResponse>, int),
                        Error,
                    >(e));
                }
                return Err(e);
            },
        };
        let ghost acc_pre = view_write_responses(acc@);
        acc.push(DataItemWriteResponse { return_code });
        proof {
            assert(view_write_responses(acc@) =~= acc_pre.push(
                SpecDataItemWriteResponse { return_code },
            ));
            assert(b0.skip(i as int).skip(1) =~= b0.skip(i as int + 1));
            if parse_write_responses(buf_data(*src), (rem_n - 1) as nat) is Ok {
                let p = parse_write_responses(buf_data(*src), (rem_n - 1) as nat)->Ok_0;
                assert(acc_pre.push(SpecDataItemWriteResponse { return_code }) + p.0 =~= acc_pre
                    + (seq![SpecDataItemWriteResponse { return_code }] + p.0));
            }
        }
        i += 1;
    }
    proof {
        assert(parse_write_responses(buf_data(*src), 0) == Ok::<_, Error>((
            Seq::<SpecDataItemWriteResponse>::empty(),
            0int,
        )));
        assert(view_write_responses(acc@) + Seq::<SpecDataItemWriteResponse>::empty()
            =~= view_write_responses(acc@));
    }
    Ok(acc)
}

/// Payload of a WriteVar Job: the selectors and the values to write.
#[derive(Debug)]
pub struct WriteVarJob {
    pub count: u8,
    pub parameters_item: Vec<ItemRequest>,
    pub data_item: Vec<DataItemVal>,
}

impl View for WriteVarJob {
    type V = SpecWriteVarJob;

    open spec fn view(&self) -> SpecWriteVarJob {
        SpecWriteVarJob {
            count: self.count,
            parameters_item: self.parameters_item@,
            data_item: view_data_items(self.data_item@),
        }
    }
}

impl Default for WriteVarJob {
    fn default() -> (r: Self)
        ensures
            r@ == (SpecWriteVarJob {
                count: 0u8,
                parameters_item: Seq::<ItemRequest>::empty(),
                data_item: Seq::<SpecDataItemVal>::empty(),
            }),
    {
        let r = Self { count: 0, parameters_item: Vec::new(), data_item: Vec::new() };
        proof {
            assert(r@.data_item =~= Seq::<SpecDataItemVal>::empty());
        }
        r
    }
}

impl WriteVarJob {
    /// The exact width of the data section this job serializes to.
    pub fn bytes_len_data(&self) -> (r: u16)
        requires
            wf_data_items(self@.data_item),
            enc_data_items(self@.data_item).len() <= 0xFFFF,
        ensures
            r == enc_data_items(self@.data_item).len(),
    {
        data_items_wire_len(&self.data_item)
    }

    /// The exact width of the parameter section: function code, count
    /// and twelve bytes per item.
    pub fn bytes_len_parameter(&self) -> (r: u16)
        requires
            self@.count == self@.parameters_item.len(),
        ensures
            r == SpecJob::WriteVar(self@).param_bytes().len(),
    {
        proof {
            crate::s7_model::lemma_enc_item_requests_len(self@.parameters_item);
        }
        2 + 12 * (self.count as u16)
    }

    pub fn add_item(&mut self, x: (ItemRequest, DataItemVal))
        requires
            old(self).count < 255,
        ensures
            final(self)@ == (SpecWriteVarJob {
                count: (old(self).count + 1) as u8,
                parameters_item: old(self)@.parameters_item.push(x.0),
                data_item: old(self)@.data_item.push(x.1@),
            }),
    {
        self.count += 1;
        self.parameters_item.push(x.0);
        let ghost pre = view_data_items(self.data_item@);
        self.data_item.push(x.1);
        proof {
            assert(view_data_items(self.data_item@) =~= pre.push(x.1@));
        }
    }

    pub(crate) fn encode(&self, dst: &mut BytesMut)
        ensures
            buf_data(*final(dst)) == buf_data(*old(dst)) + seq![self.count]
                + enc_item_requests(self.parameters_item@) + enc_data_items(
                view_data_items(self.data_item@),
            ),
    {
        buf_put_u8(dst, self.count);
        encode_item_requests(&self.parameters_item, dst);
        encode_data_items(&self.data_item, dst);
        proof {
            assert(buf_data(*dst) =~= buf_data(*old(dst)) + seq![self.count]
                + enc_item_requests(self.parameters_item@) + enc_data_items(
                view_data_items(self.data_item@),
            ));
        }
    }
}

/// The serialized width of a data section, pads included.
pub(crate) fn data_items_wire_len(items: &Vec<DataItemVal>) -> (r: u16)
    requires
        wf_data_items(view_data_items(items@)),
        enc_data_items(view_data_items(items@)).len() <= 0xFFFF,
    ensures
        r == enc_data_items(view_data_items(items@)).len(),
{
    let ghost s = view_data_items(items@);
    proof {
        assert(s.skip(0) =~= s);
    }
    let n = items.len();
    let mut sum: usize = 0;
    let mut i: usize = 0;
    while i < n
        invariant
            i <= n,
            n == items@.len(),
            s == view_data_items(items@),
            wf_data_items(s),
            enc_data_items(s).len() <= 0xFFFF,
            sum + enc_data_items(s.skip(i as int)).len() == enc_data_items(s).len(),
        decreases n - i,
    {
        let item = &items[i];
        proof {
            assert(s[i as int].wf());
            assert(s[i as int].data.len() == item.data@.len());
            if s[i as int].transport_size_type is NoBit {
                assert(s[i as int].data.len() * 8 <= 0xFFFF);
            }
            let rest = s.skip(i as int);
            assert(rest[0] == s[i as int]);
            assert(rest.skip(1) =~= s.skip(i as int + 1));
        }
        let mut step: usize = 4 + item.data.len();
        if i + 1 < n && item.data.len() % 2 == 1 {
            step += 1;
        }
        sum += step;
        i += 1;
    }
    proof {
        assert(s.skip(n as int) =~= Seq::<SpecDataItemVal>::empty());
    }
    sum as u16
}

/// Payload of a ReadVar Job: the selectors to read.
#[derive(Debug)]
pub struct ReadVarJob {
    pub count: u8,
    pub parameters_item: Vec<ItemRequest>,
}

impl View for ReadVarJob {
    type V = SpecReadVarJob;

    open spec fn view(&self) -> SpecReadVarJob {
        SpecReadVarJob { count: self.count, parameters_item: self.parameters_item@ }
    }
}

impl Default for ReadVarJob {
    fn default() -> (r: Self)
        ensures
            r@ == (SpecReadVarJob { count: 0u8, parameters_item: Seq::<ItemRequest>::empty() }),
    {
        Self { count: 0, parameters_item: Vec::new() }
    }
}

impl ReadVarJob {
    /// A ReadVar Job carries no data section.
    pub fn bytes_len_data(&self) -> (r: u16)
        ensures
            r == 0,
    {
        0
    }

    pub fn bytes_len_parameter(&self) -> (r: u16)
        requires
            self@.count == self@.parameters_item.len(),
        ensures
            r == SpecJob::ReadVar(self@).param_bytes().len(),
    {
        proof {
            crate::s7_model::lemma_enc_item_requests_len(self@.parameters_item);
        }
        2 + 12 * (self.count as u16)
    }

    pub fn add_item(&mut self, x: ItemRequest)
        requires
            old(self).count < 255,
        ensures
            final(self)@ == (SpecReadVarJob {
                count: (old(self).count + 1) as u8,
                parameters_item: old(self)@.parameters_item.push(x),
            }),
    {
        self.count += 1;
        self.parameters_item.push(x);
    }

    pub(crate) fn encode(&self, dst: &mut BytesMut)
        ensures
            buf_data(*final(dst)) == buf_data(*old(dst)) + seq![self.count]
                + enc_item_requests(self.parameters_item@),
    {
        buf_put_u8(dst, self.count);
        encode_item_requests(&self.parameters_item, dst);
        proof {
            assert(buf_data(*dst) =~= buf_data(*old(dst)) + seq![self.count]
                + enc_item_requests(self.parameters_item@));
        }
    }
}

/// Payload of a WriteVar AckData: one response per item written.
#[derive(Debug)]
pub struct WriteVarAckData {
    pub count: u8,
    pub data_item: Vec<DataItemWriteResponse>,
}

impl View for WriteVarAckData {
    type V = SpecWriteVarAckData;

    open spec fn view(&self) -> SpecWriteVarAckData {
        SpecWriteVarAckData { count: self.count, data_item: view_write_responses(self.data_item@) }
    }
}

impl Default for WriteVarAckData {
    fn default() -> (r: Self)
        ensures
            r@ == (SpecWriteVarAckData {
                count: 0u8,
                data_item: Seq::<SpecDataItemWriteResponse>::empty(),
            }),
    {
        let r = Self { count: 0, data_item: Vec::new() };
        proof {
            assert(r@.data_item =~= Seq::<SpecDataItemWriteResponse>::empty());
        }
        r
    }
}

impl WriteVarAckData {
    pub fn data_item(self) -> (r: Vec<DataItemWriteResponse>)
        ensures
            view_write_responses(r@) == self@.data_item,
    {
        self.data_item
    }

    pub fn add_response(self, response: DataItemWriteResponse) -> (r: Self)
        requires
            self.count < 255,
        ensures
            r@ == (SpecWriteVarAckData {
                count: (self.count + 1) as u8,
                data_item: self@.data_item.push(response@),
            }),
    {
        let mut this = self;
        let ghost pre = view_write_responses(this.data_item@);
        this.count += 1;
        this.data_item.push(response);
        proof {
            assert(view_write_responses(this.data_item@) =~= pre.push(response@));
        }
        this
    }

    pub(crate) fn encode(&self, dst: &mut BytesMut)
        ensures
            buf_data(*final(dst)) == buf_data(*old(dst)) + seq![self.count] + enc_write_responses(
                view_write_responses(self.data_item@),
            ),
    {
        buf_put_u8(dst, self.count);
        encode_write_responses(&self.data_item, dst);
        proof {
            assert(buf_data(*dst) =~= buf_data(*old(dst)) + seq![self.count]
                + enc_write_responses(view_write_responses(self.data_item@)));
        }
    }
}

/// Payload of a ReadVar AckData: one data item per item requested.
#[derive(Debug)]
pub struct ReadVarAckData {
    pub count: u8,
    pub data_item: Vec<DataItemVal>,
}

impl View for ReadVarAckData {
    type V = SpecReadVarAckData;

    open spec fn view(&self) -> SpecReadVarAckData {
        SpecReadVarAckData { count: self.count, data_item: view_data_items(self.data_item@) }
    }
}

impl Default for ReadVarAckData {
    fn default() -> (r: Self)
        ensures
            r@ == (SpecReadVarAckData {
                count: 0u8,
                data_item: Seq::<SpecDataItemVal>::empty(),
            }),
    {
        let r = Self { count: 0, data_item: Vec::new() };
        proof {
            assert(r@.data_item =~= Seq::<SpecDataItemVal>::empty());
        }
        r
    }
}

impl ReadVarAckData {
    pub fn data_item(self) -> (r: Vec<DataItemVal>)
        ensures
            view_data_items(r@) == self@.data_item,
    {
        self.data_item
    }

    pub fn add_response(self, value: DataItemVal) -> (r: Self)
        requires
            self.count < 255,
        ensures
            r@ == (SpecReadVarAckData {
                count: (self.count + 1) as u8,
                data_item: self@.data_item.push(value@),
            }),
    {
        let mut this = self;
        let ghost pre = view_data_items(this.data_item@);
        this.count += 1;
        this.data_item.push(value);
        proof {
            assert(view_data_items(this.data_item@) =~= pre.push(value@));
        }
        this
    }

    pub(crate) fn encode(&self, dst: &mut BytesMut)
        ensures
            buf_data(*final(dst)) == buf_data(*old(dst)) + seq![self.count] + enc_data_items(
                view_data_items(self.data_item@),
            ),
    {
        buf_put_u8(dst, self.count);
        encode_data_items(&self.data_item, dst);
        proof {
            assert(buf_data(*dst) =~= buf_data(*old(dst)) + seq![self.count] + enc_data_items(
                view_data_items(self.data_item@),
            ));
        }
    }
}

/// The request payload of a Job frame.
#[derive(Debug)]
pub enum Job {
    /// function 0xf0
    SetupCommunication(SetupCommunication),
    /// function 0x05
    WriteVar(WriteVarJob),
    /// function 0x04
    ReadVar(ReadVarJob),
}

impl View for Job {
    type V = SpecJob;

    open spec fn view(&self) -> SpecJob {
        match self {
            Job::SetupCommunication(s) => SpecJob::SetupCommunication(*s),
            Job::WriteVar(w) => SpecJob::WriteVar(w@),
            Job::ReadVar(r) => SpecJob::ReadVar(r@),
        }
    }
}

impl Job {
    /// Reads a Job payload out of its exact parameter and data sections.
    pub(crate) fn decode(param: &mut BytesMut, data: &mut BytesMut) -> (r: Result<Job, Error>)
        ensures
            match parse_job(buf_data(*old(param)), buf_data(*old(data))) {
                Ok(g) => match r {
                    Ok(j) => j@ == g,
                    Err(_) => false,
                },
                Err(e) => r == Err::<Job, Error>(e),
            },
    {
        let ghost p0 = buf_data(*param);
        let ghost d0 = buf_data(*data);
        if buf_len(param) < 1 {
            return Err(Error::DataNotEnough);
        }
        let function = buf_get_u8(param);
        if function == 0xf0 {
            let setup = match SetupCommunication::decode(param) {
                Ok(s) => s,
                Err(e) => {
                    return Err(e);
                },
            };
            proof {
                assert(buf_data(*param) =~= p0.skip(8));
            }
            if buf_len(param) != 0 || buf_len(data) != 0 {
                return Err(Error::LengthMismatch);
            }
            Ok(Job::SetupCommunication(setup))
        } else if function == 0x04 {
            if buf_len(param) < 1 {
                return Err(Error::DataNotEnough);
            }
            let count = buf_get_u8(param);
            proof {
                assert(buf_data(*param) =~= p0.skip(2));
                assert(count == p0[1]);
            }
            let items = match decode_item_requests(param, count) {
                Ok(v) => v,
                Err(e) => {
                    return Err(e);
                },
            };
            if buf_len(param) != 0 || buf_len(data) != 0 {
                return Err(Error::LengthMismatch);
            }
            proof {
                let c = parse_item_requests(p0.skip(2), count as nat)->Ok_0.1;
                lemma_parse_item_requests_bound(p0.skip(2), count as nat);
                assert(p0.skip(2).skip(c) =~= p0.skip(2 + c));
                assert(p0.len() == 2 + c);
            }
            Ok(Job::ReadVar(ReadVarJob { count, parameters_item: items }))
        } else if function == 0x05 {
            if buf_len(param) < 1 {
                return Err(Error::DataNotEnough);
            }
            let count = buf_get_u8(param);
            proof {
                assert(buf_data(*param) =~= p0.skip(2));
                assert(count == p0[1]);
            }
            let items = match decode_item_requests(param, count) {
                Ok(v) => v,
                Err(e) => {
                    return Err(e);
                },
            };
            let ditems = match decode_data_items(data, count) {
                Ok(v) => v,
                Err(e) => {
                    return Err(e);
                },
            };
            if buf_len(param) != 0 || buf_len(data) != 0 {
                return Err(Error::LengthMismatch);
            }
            proof {
                let c = parse_item_requests(p0.skip(2), count as nat)->Ok_0.1;
                lemma_parse_item_requests_bound(p0.skip(2), count as nat);
                assert(p0.skip(2).skip(c) =~= p0.skip(2 + c));
                assert(p0.len() == 2 + c);
                let c2 = parse_data_items(d0, count as nat)->Ok_0.1;
                lemma_parse_data_items_bound(d0, count as nat);
                assert(d0.skip(c2).len() == 0);
                assert(d0.len() == c2);
            }
            Ok(Job::WriteVar(WriteVarJob { count, parameters_item: items, data_item: ditems }))
        } else {
            Err(Error::UnsupportedFunction(function))
        }
    }
}

/// The response payload of an AckData frame.
#[derive(Debug)]
pub enum AckData {
    /// function 0xf0
    SetupCommunication(SetupCommunication),
    /// function 0x05
    WriteVar(WriteVarAckData),
    /// function 0x04
    ReadVar(ReadVarAckData),
}

impl View for AckData {
    type V = SpecAckData;

    open spec fn view(&self) -> SpecAckData {
        match self {
            AckData::SetupCommunication(s) => SpecAckData::SetupCommunication(*s),
            AckData::WriteVar(w) => SpecAckData::WriteVar(w@),
            AckData::ReadVar(r) => SpecAckData::ReadVar(r@),
        }
    }
}

impl AckData {
    /// Reads an AckData payload out of its exact parameter and data
    /// sections.
    pub(crate) fn decode(param: &mut BytesMut, data: &mut BytesMut) -> (r: Result<AckData, Error>)
        ensures
            match parse_ack_data(buf_data(*old(param)), buf_data(*old(data))) {
                Ok(g) => match r {
                    Ok(a) => a@ == g,
                    Err(_) => false,
                },
                Err(e) => r == Err::<AckData, Error>(e),
            },
    {
        let ghost p0 = buf_data(*param);
        let ghost d0 = buf_data(*data);
        if buf_len(param) < 1 {
            return Err(Error::DataNotEnough);
        }
        let function = buf_get_u8(param);
        if function == 0xf0 {
            let setup = match SetupCommunication::decode(param) {
                Ok(s) => s,
                Err(e) => {
                    return Err(e);
                },
            };
            proof {
                assert(buf_data(*param) =~= p0.skip(8));
            }
            if buf_len(param) != 0 || buf_len(data) != 0 {
                return Err(Error::LengthMismatch);
            }
            Ok(AckData::SetupCommunication(setup))
        } else if function == 0x04 {
            if buf_len(param) < 1 {
                return Err(Error::DataNotEnough);
            }
            let count = buf_get_u8(param);
            proof {
                assert(buf_data(*param) =~= p0.skip(2));
                assert(count == p0[1]);
            }
            let ditems = match decode_data_items(data, count) {
                Ok(v) => v,
                Err(e) => {
                    return Err(e);
                },
            };
            if buf_len(param) != 0 || buf_len(data) != 0 {
                return Err(Error::LengthMismatch);
            }
            proof {
                let c = parse_data_items(d0, count as nat)->Ok_0.1;
                lemma_parse_data_items_bound(d0, count as nat);
                assert(d0.skip(c).len() == 0);
                assert(d0.len() == c);
                assert(p0.len() == 2);
            }
            Ok(AckData::ReadVar(ReadVarAckData { count, data_item: ditems }))
        } else if function == 0x05 {
            if buf_len(param) < 1 {
                return Err(Error::DataNotEnough);
            }
            let count = buf_get_u8(param);
            proof {
                assert(buf_data(*param) =~= p0.skip(2));
                assert(count == p0[1]);
            }
            let resps = match decode_write_responses(data, count) {
                Ok(v) => v,
                Err(e) => {
                    return Err(e);
                },
            };
            if buf_len(param) != 0 || buf_len(data) != 0 {
                return Err(Error::LengthMismatch);
            }
            proof {
                let c = parse_write_responses(d0, count as nat)->Ok_0.1;
                lemma_parse_write_responses_bound(d0, count as nat);
                assert(d0.skip(c).len() == 0);
                assert(d0.len() == c);
                assert(p0.len() == 2);
            }
            Ok(AckData::WriteVar(WriteVarAckData { count, data_item: resps }))
        } else {
            Err(Error::UnsupportedFunction(function))
        }
    }
}

/// One S7 application frame: a request (Job) or a response (AckData).
#[derive(Debug)]
pub enum Frame {
    /// ROSCTR 0x01
    Job { header: Header, job: Job },
    /// ROSCTR 0x03
    AckData { header: HearderAckData, ack_data: AckData },
}

impl View for Frame {
    type V = SpecFrame;

    open spec fn view(&self) -> SpecFrame {
        match self {
            Frame::Job { header, job } => SpecFrame::Job { header: *header, job: job@ },
            Frame::AckData { header, ack_data } => SpecFrame::AckData {
                header: *header,
                ack_data: ack_data@,
            },
        }
    }
}

impl Frame {
    /// Reads one frame out of a buffer that holds exactly that frame.
    pub(crate) fn decode_complete(src: &mut BytesMut) -> (r: Result<Frame, Error>)
        ensures
            match parse_frame(buf_data(*old(src))) {
                Ok(g) => match r {
                    Ok(f) => f@ == g,
                    Err(_) => false,
                },
                Err(e) => r == Err::<Frame, Error>(e),
            },
    {
        let ghost b = buf_data(*src);
        let n = buf_len(src);
        if n < 10 {
            return Err(Error::DataNotEnough);
        }
        let rosctr = buf_byte_at(src, 1);
        let plen = (buf_byte_at(src, 6) as u16) * 256 + (buf_byte_at(src, 7) as u16);
        let dlen = (buf_byte_at(src, 8) as u16) * 256 + (buf_byte_at(src, 9) as u16);
        if rosctr == 1 {
            let total: usize = 10 + plen as usize + dlen as usize;
            if n < total {
                return Err(Error::DataNotEnough);
            }
            if n > total {
                return Err(Error::LengthMismatch);
            }
            let header = Header::decode(src);
            let mut param = buf_split_to(src, plen as usize);
            proof {
                assert(buf_data(param) =~= b.subrange(10, 10 + plen as int));
                assert(buf_data(*src) =~= b.subrange(10 + plen as int, total as int));
            }
            let job = match Job::decode(&mut param, src) {
                Ok(j) => j,
                Err(e) => {
                    return Err(e);
                },
            };
            Ok(Frame::Job { header, job })
        } else if rosctr == 3 {
            let total: usize = 12 + plen as usize + dlen as usize;
            if n < total {
                return Err(Error::DataNotEnough);
            }
            if n > total {
                return Err(Error::LengthMismatch);
            }
            let header = HearderAckData::decode(src);
            let mut param = buf_split_to(src, plen as usize);
            proof {
                assert(buf_data(param) =~= b.subrange(12, 12 + plen as int));
                assert(buf_data(*src) =~= b.subrange(12 + plen as int, total as int));
            }
            let ack_data = match AckData::decode(&mut param, src) {
                Ok(a) => a,
                Err(e) => {
                    return Err(e);
                },
            };
            Ok(Frame::AckData { header, ack_data })
        } else {
            Err(Error::UnsupportedRosctr(rosctr))
        }
    }
}

/// Serializer for S7 frames.
#[derive(Debug)]
pub struct S7CommEncoder;

impl Default for S7CommEncoder {
    fn default() -> (r: Self) {
        S7CommEncoder
    }
}

impl S7CommEncoder {
    /// Appends the frame's encoding to `dst`. Never fails; the `Result`
    /// mirrors the fallible shape of layered encoders.
    pub fn encode(&mut self, item: Frame, dst: &mut BytesMut) -> (r: Result<(), Error>)
        ensures
            r is Ok,
            buf_data(*final(dst)) == buf_data(*old(dst)) + item@.spec_enc(),
    {
        match &item {
            Frame::Job { header, job } => {
                header.encode(0x01, dst);
                match job {
                    Job::SetupCommunication(data) => {
                        buf_put_u8(dst, 0xf0);
                        data.encode(dst);
                    },
                    Job::WriteVar(data) => {
                        buf_put_u8(dst, 0x05);
                        data.encode(dst);
                    },
                    Job::ReadVar(data) => {
                        buf_put_u8(dst, 0x04);
                        data.encode(dst);
                    },
                }
                proof {
                    assert(buf_data(*dst) =~= buf_data(*old(dst)) + item@.spec_enc());
                }
            },
            Frame::AckData { header, ack_data } => {
                header.encode(dst);
                match ack_data {
                    AckData::SetupCommunication(data) => {
                        buf_put_u8(dst, 0xf0);
                        data.encode(dst);
                    },
                    AckData::WriteVar(data) => {
                        buf_put_u8(dst, 0x05);
                        data.encode(dst);
                    },
                    AckData::ReadVar(data) => {
                        buf_put_u8(dst, 0x04);
                        data.encode(dst);
                    },
                }
                proof {
                    assert(buf_data(*dst) =~= buf_data(*old(dst)) + item@.spec_enc());
                }
            },
        }
        Ok(())
    }
}

/// Length-aware, resumable deserializer for S7 frames.
#[derive(Debug)]
pub struct S7CommDecoder;

impl Default for S7CommDecoder {
    fn default() -> (r: Self) {
        S7CommDecoder
    }
}

impl S7CommDecoder {
    /// Reads one frame if the buffer holds it whole. While the length
    /// fields announce more bytes than are buffered, returns `None` and
    /// leaves the buffer untouched, so the caller can retry with more
    /// input.
    pub fn decode(&mut self, src: &mut BytesMut) -> (r: Result<Option<Frame>, Error>)
        ensures
            match r {
                Ok(opt) => match opt {
                    None => s7_need_more(buf_data(*old(src))) && buf_data(*final(src)) == buf_data(
                        *old(src),
                    ),
                    Some(f) => !s7_need_more(buf_data(*old(src))) && parse_frame(
                        buf_data(*old(src)).take(s7_total(buf_data(*old(src)))),
                    ) == Ok::<SpecFrame, Error>(f@) && buf_data(*final(src)) == buf_data(
                        *old(src),
                    ).skip(s7_total(buf_data(*old(src)))),
                },
                Err(e) => !s7_need_more(buf_data(*old(src))) && buf_data(*old(src)).len() >= 10 && (
                (buf_data(*old(src))[1] == 1 || buf_data(*old(src))[1] == 3) ==> parse_frame(
                    buf_data(*old(src)).take(s7_total(buf_data(*old(src)))),
                ) == Err::<SpecFrame, Error>(e)) && (!(buf_data(*old(src))[1] == 1 || buf_data(
                    *old(src),
                )[1] == 3) ==> e == Error::UnsupportedRosctr(buf_data(*old(src))[1])),
            },
    {
        let ghost b = buf_data(*src);
        let n = buf_len(src);
        if n < 10 {
            return Ok(None);
        }
        let rosctr = buf_byte_at(src, 1);
        if rosctr != 1 && rosctr != 3 {
            return Err(Error::UnsupportedRosctr(rosctr));
        }
        let plen = (buf_byte_at(src, 6) as u16) * 256 + (buf_byte_at(src, 7) as u16);
        let dlen = (buf_byte_at(src, 8) as u16) * 256 + (buf_byte_at(src, 9) as u16);
        let hdr: usize = if rosctr == 3 {
            12
        } else {
            10
        };
        let total: usize = hdr + plen as usize + dlen as usize;
        proof {
            assert(total == s7_total(b));
        }
        if n < total {
            return Ok(None);
        }
        let mut body = buf_split_to(src, total);
        match Frame::decode_complete(&mut body) {
            Ok(f) => Ok(Some(f)),
            Err(e) => Err(e),
        }
    }
}

} // verus!
