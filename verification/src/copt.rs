//! COTP (ISO 8073, class 0) transport layer: Connect Request/Confirm
//! negotiation and Data Transfer PDUs around an S7 payload.
//!
//! Wire format: `li | pdu_code | body`, where `li` counts the header
//! bytes after itself.

use vstd::prelude::*;
use crate::buf::{buf_data, buf_len, buf_byte_at, buf_put_u8, buf_get_u8, buf_put_slice,
    buf_split_to};
use crate::copt_model::{SpecParameter, SpecConnectComm, SpecDtData, SpecPduType, SpecCoptFrame,
    enc_params, wf_params, parse_param_step, parse_params, parse_connect_comm, parse_copt_frame,
    copt_need_more, copt_total, merge_byte};
use crate::s7_comm::{Frame, S7CommEncoder, S7CommDecoder};
use crate::s7_model::{s7_need_more, s7_total};
use bytes::BytesMut;

verus! {

/// Errors of the COTP codec layer.
#[derive(Debug, Clone, Copy, PartialEq, Eq, Structural)]
pub enum Error {
    /// A framed body holds fewer bytes than its length fields promise.
    DataNotEnough,
    /// The frame is wider than its header announces, or a Data Transfer
    /// header length is not the two bytes of class 0.
    LengthMismatch,
    /// The PDU code is none of Connect Request/Confirm, Data Transfer.
    UnsupportedPduType(u8),
    /// A Connect parameter carries an unknown tag.
    UnsupportedParameter(u8),
    /// A TPDU size parameter is not exactly one byte wide.
    InvalidParameterLength(u8),
    /// The TPDU size byte is outside the defined sizes.
    UnsupportedTpduSize(u8),
    /// The S7 payload of a Data Transfer PDU was refused.
    Payload(crate::s7_comm::Error),
}

/// Conversion of a payload layer's error into this layer's error.
pub trait ToCoptError {
    fn to_err(self) -> Error;
}

impl ToCoptError for crate::s7_comm::Error {
    fn to_err(self) -> (r: Error)
        ensures
            r == Error::Payload(self),
    {
        Error::Payload(self)
    }
}

/// The negotiable TPDU size of a connection, in octets.
#[derive(Debug, Clone, Copy, PartialEq, Eq, Structural)]
pub enum TpduSize {
    /// 0x0d; not allowed in class 0
    L8192,
    /// 0x0c; not allowed in class 0
    L4096,
    /// 0x0b
    L2048,
    /// 0x0a
    L1024,
    /// 0x09
    L512,
    /// 0x08
    L256,
    /// 0x07
    L128,
}

impl TpduSize {
    pub open spec fn spec_code(self) -> u8 {
        match self {
            TpduSize::L8192 => 0x0d,
            TpduSize::L4096 => 0x0c,
            TpduSize::L2048 => 0x0b,
            TpduSize::L1024 => 0x0a,
            TpduSize::L512 => 0x09,
            TpduSize::L256 => 0x08,
            TpduSize::L128 => 0x07,
        }
    }

    pub open spec fn spec_try_from(v: u8) -> Option<TpduSize> {
        if v == 0x0d {
            Some(TpduSize::L8192)
        } else if v == 0x0c {
            Some(TpduSize::L4096)
        } else if v == 0x0b {
            Some(TpduSize::L2048)
        } else if v == 0x0a {
            Some(TpduSize::L1024)
        } else if v == 0x09 {
            Some(TpduSize::L512)
        } else if v == 0x08 {
            Some(TpduSize::L256)
        } else if v == 0x07 {
            Some(TpduSize::L128)
        } else {
            None
        }
    }

    /// The size in octets that the code stands for.
    pub open spec fn spec_octets(self) -> u16 {
        match self {
            TpduSize::L8192 => 8192,
            TpduSize::L4096 => 4096,
            TpduSize::L2048 => 2048,
            TpduSize::L1024 => 1024,
            TpduSize::L512 => 512,
            TpduSize::L256 => 256,
            TpduSize::L128 => 128,
        }
    }

    pub fn code(self) -> (r: u8)
        ensures
            r == self.spec_code(),
    {
        match self {
            TpduSize::L8192 => 0x0d,
            TpduSize::L4096 => 0x0c,
            TpduSize::L2048 => 0x0b,
            TpduSize::L1024 => 0x0a,
            TpduSize::L512 => 0x09,
            TpduSize::L256 => 0x08,
            TpduSize::L128 => 0x07,
        }
    }

    pub fn try_from_code(v: u8) -> (r: Result<TpduSize, Error>)
        ensures
            match r {
                Ok(t) => Self::spec_try_from(v) == Some(t),
                Err(e) => Self::spec_try_from(v) is None && e == Error::UnsupportedTpduSize(v),
            },
    {
        match v {
            0x0d => Ok(TpduSize::L8192),
            0x0c => Ok(TpduSize::L4096),
            0x0b => Ok(TpduSize::L2048),
            0x0a => Ok(TpduSize::L1024),
            0x09 => Ok(TpduSize::L512),
            0x08 => Ok(TpduSize::L256),
            0x07 => Ok(TpduSize::L128),
            _ => Err(Error::UnsupportedTpduSize(v)),
        }
    }

    /// A PDU reference derived from the negotiated size: its octet count.
    pub fn pdu_ref(&self) -> (r: u16)
        ensures
            r == self.spec_octets(),
    {
        match self {
            TpduSize::L8192 => 8192,
            TpduSize::L4096 => 4096,
            TpduSize::L2048 => 2048,
            TpduSize::L1024 => 1024,
            TpduSize::L512 => 512,
            TpduSize::L256 => 256,
            TpduSize::L128 => 128,
        }
    }

    /// Class-0 connections only admit sizes up to 2048 octets; decoding
    /// still accepts the larger codes, and this validator flags them.
    pub fn valid_in_class0(&self) -> (r: bool)
        ensures
            r == !(*self is L8192 || *self is L4096),
    {
        match self {
            TpduSize::L8192 => false,
            TpduSize::L4096 => false,
            _ => true,
        }
    }
}

/// Round trip of the TPDU size codes.
pub proof fn lemma_tpdu_size_round(t: TpduSize)
    ensures
        TpduSize::spec_try_from(t.spec_code()) == Some(t),
{
}

/// One variable part of a Connect Request/Confirm.
#[derive(Debug, Clone)]
pub enum Parameter {
    /// tag 0xc0
    TpduSize(TpduSize),
    /// tag 0xc1
    SrcTsap(Vec<u8>),
    /// tag 0xc2
    DstTsap(Vec<u8>),
}

impl View for Parameter {
    type V = SpecParameter;

    open spec fn view(&self) -> SpecParameter {
        match self {
            Parameter::TpduSize(t) => SpecParameter::TpduSize(*t),
            Parameter::SrcTsap(d) => SpecParameter::SrcTsap(d@),
            Parameter::DstTsap(d) => SpecParameter::DstTsap(d@),
        }
    }
}

/// The models of a parameter list.
pub open spec fn view_params(v: Seq<Parameter>) -> Seq<SpecParameter> {
    v.map_values(|p: Parameter| p@)
}

impl Parameter {
    pub fn new_dst_tsap(data: Vec<u8>) -> (r: Self)
        ensures
            r@ == SpecParameter::DstTsap(data@),
    {
        Self::DstTsap(data)
    }

    pub fn new_src_tsap(data: Vec<u8>) -> (r: Self)
        ensures
            r@ == SpecParameter::SrcTsap(data@),
    {
        Self::SrcTsap(data)
    }

    pub fn new_tpdu_size(size: TpduSize) -> (r: Self)
        ensures
            r@ == SpecParameter::TpduSize(size),
    {
        Self::TpduSize(size)
    }

    /// The parameter's width on the wire: tag, length byte, payload.
    pub fn length(&self) -> (r: u8)
        requires
            self@.wf(),
        ensures
            r == self@.spec_enc().len(),
    {
        match self {
            Parameter::TpduSize(_) => 3u8,
            Parameter::SrcTsap(data) => 2 + data.len() as u8,
            Parameter::DstTsap(data) => 2 + data.len() as u8,
        }
    }

    pub(crate) fn encode(&self, dst: &mut BytesMut)
        requires
            self@.wf(),
        ensures
            buf_data(*final(dst)) == buf_data(*old(dst)) + self@.spec_enc(),
    {
        match self {
            Parameter::TpduSize(data) => {
                buf_put_u8(dst, 0xc0);
                buf_put_u8(dst, 1);
                buf_put_u8(dst, data.code());
                proof {
                    assert(buf_data(*dst) =~= buf_data(*old(dst)) + self@.spec_enc());
                }
            },
            Parameter::SrcTsap(data) => {
                buf_put_u8(dst, 0xc1);
                buf_put_u8(dst, data.len() as u8);
                buf_put_slice(dst, data.as_slice());
                proof {
                    assert(buf_data(*dst) =~= buf_data(*old(dst)) + self@.spec_enc());
                }
            },
            Parameter::DstTsap(data) => {
                buf_put_u8(dst, 0xc2);
                buf_put_u8(dst, data.len() as u8);
                buf_put_slice(dst, data.as_slice());
                proof {
                    assert(buf_data(*dst) =~= buf_data(*old(dst)) + self@.spec_enc());
                }
            },
        }
    }

    pub(crate) fn decode(src: &mut BytesMut) -> (r: Result<Parameter, Error>)
        ensures
            match parse_param_step(buf_data(*old(src))) {
                Ok(p) => match r {
                    Ok(param) => param@ == p.0 && buf_data(*final(src)) == buf_data(
                        *old(src),
                    ).skip(p.1),
                    Err(_) => false,
                },
                Err(e) => r == Err::<Parameter, Error>(e),
            },
    {
        let ghost b = buf_data(*src);
        if buf_len(src) < 2 {
            return Err(Error::DataNotEnough);
        }
        let ty = buf_byte_at(src, 0);
        let length = buf_byte_at(src, 1);
        if buf_len(src) < 2 + length as usize {
            return Err(Error::DataNotEnough);
        }
        if ty == 0xc0 {
            if length != 1 {
                return Err(Error::InvalidParameterLength(length));
            }
            let _ty = buf_get_u8(src);
            let _len = buf_get_u8(src);
            let code = buf_get_u8(src);
            proof {
                assert(buf_data(*src) =~= b.skip(3));
                assert(code == b[2]);
            }
            let size = match TpduSize::try_from_code(code) {
                Ok(s) => s,
                Err(e) => {
                    return Err(e);
                },
            };
            Ok(Parameter::TpduSize(size))
        } else if ty == 0xc1 || ty == 0xc2 {
            let _ty = buf_get_u8(src);
            let _len = buf_get_u8(src);
            proof {
                assert(buf_data(*src) =~= b.skip(2));
            }
            let mut data: Vec<u8> = Vec::new();
            let mut j: usize = 0;
            while j < length as usize
                invariant
                    j <= length,
                    b.len() >= 2 + length,
                    buf_data(*src) == b.skip(2 + j as int),
                    data@ == b.subrange(2, 2 + j as int),
                decreases length - j,
            {
                let byte = buf_get_u8(src);
                data.push(byte);
                proof {
                    assert(buf_data(*src) =~= b.skip(2 + (j + 1) as int));
                    assert(data@ =~= b.subrange(2, 2 + (j + 1) as int));
                }
                j += 1;
            }
            if ty == 0xc1 {
                Ok(Parameter::SrcTsap(data))
            } else {
                Ok(Parameter::DstTsap(data))
            }
        } else {
            Err(Error::UnsupportedParameter(ty))
        }
    }
}

/// The fixed part and parameters of a Connect Request/Confirm.
#[derive(Debug)]
pub struct ConnectComm {
    pub destination_ref: [u8; 2],
    pub source_ref: [u8; 2],
    /// 0..=15, the transport class (0 here)
    pub class: u8,
    pub extended_formats: bool,
    pub no_explicit_flow_control: bool,
    pub parameters: Vec<Parameter>,
}

impl View for ConnectComm {
    type V = SpecConnectComm;

    open spec fn view(&self) -> SpecConnectComm {
        SpecConnectComm {
            destination_ref: self.destination_ref@,
            source_ref: self.source_ref@,
            class: self.class,
            extended_formats: self.extended_formats,
            no_explicit_flow_control: self.no_explicit_flow_control,
            parameters: view_params(self.parameters@),
        }
    }
}

impl ConnectComm {
    /// The body's width on the wire: the five fixed bytes plus the
    /// parameters.
    pub fn length(&self) -> (r: u8)
        requires
            self@.wf(),
        ensures
            r == self@.spec_enc().len(),
    {
        let ghost s = view_params(self.parameters@);
        proof {
            assert(s.skip(0) =~= s);
        }
        let n = self.parameters.len();
        let mut sum: usize = 0;
        let mut i: usize = 0;
        while i < n
            invariant
                i <= n,
                n == self.parameters@.len(),
                s == view_params(self.parameters@),
                wf_params(s),
                enc_params(s).len() <= 249,
                sum + enc_params(s.skip(i as int)).len() == enc_params(s).len(),
            decreases n - i,
        {
            let p = &self.parameters[i];
            proof {
                assert(s[i as int].wf());
                let rest = s.skip(i as int);
                assert(rest[0] == s[i as int]);
                assert(rest.skip(1) =~= s.skip(i as int + 1));
            }
            let step = p.length();
            sum += step as usize;
            i += 1;
        }
        proof {
            assert(s.skip(n as int) =~= Seq::<SpecParameter>::empty());
        }
        5 + sum as u8
    }

    pub(crate) fn encode(&self, dst: &mut BytesMut)
        requires
            self@.wf(),
        ensures
            buf_data(*final(dst)) == buf_data(*old(dst)) + self@.spec_enc(),
    {
        buf_put_slice(dst, self.destination_ref.as_slice());
        buf_put_slice(dst, self.source_ref.as_slice());
        let flags = (self.class % 16) * 16 + (if self.extended_formats {
            2
        } else {
            0
        }) + (if self.no_explicit_flow_control {
            1
        } else {
            0
        });
        buf_put_u8(dst, flags);
        let ghost mid = buf_data(*dst);
        let ghost s = view_params(self.parameters@);
        proof {
            assert(flags == merge_byte(
                self.class,
                self.extended_formats,
                self.no_explicit_flow_control,
            ));
            assert(s.skip(0) =~= s);
        }
        let n = self.parameters.len();
        let mut i: usize = 0;
        while i < n
            invariant
                i <= n,
                n == self.parameters@.len(),
                s == view_params(self.parameters@),
                wf_params(s),
                buf_data(*dst) + enc_params(s.skip(i as int)) == mid + enc_params(s),
            decreases n - i,
        {
            let p = &self.parameters[i];
            proof {
                assert(s[i as int].wf());
            }
            p.encode(dst);
            proof {
                let rest = s.skip(i as int);
                assert(rest[0] == s[i as int]);
                assert(rest.skip(1) =~= s.skip(i as int + 1));
                assert(buf_data(*dst) + enc_params(s.skip(i as int + 1)) =~= mid + enc_params(s));
            }
            i += 1;
        }
        proof {
            assert(s.skip(n as int) =~= Seq::<SpecParameter>::empty());
            assert(buf_data(*dst) + enc_params(s.skip(n as int)) =~= buf_data(*dst));
            assert(buf_data(*dst) =~= buf_data(*old(dst)) + self@.spec_enc());
        }
    }

    /// Reads a Connect body out of its exact byte slice; the parameter
    /// list runs to the end of the slice.
    pub(crate) fn decode(src: &mut BytesMut) -> (r: Result<Self, Error>)
        ensures
            match parse_connect_comm(buf_data(*old(src))) {
                Ok(g) => match r {
                    Ok(c) => c@ == g,
                    Err(_) => false,
                },
                Err(e) => r == Err::<ConnectComm, Error>(e),
            },
    {
        let ghost b = buf_data(*src);
        if buf_len(src) < 5 {
            return Err(Error::DataNotEnough);
        }
        let d0 = buf_get_u8(src);
        let d1 = buf_get_u8(src);
        let s0 = buf_get_u8(src);
        let s1 = buf_get_u8(src);
        let merge = buf_get_u8(src);
        proof {
            assert(buf_data(*src) =~= b.skip(5));
            assert(merge == b[4]);
        }
        let destination_ref = [d0, d1];
        let source_ref = [s0, s1];
        let class = merge / 16;
        let extended_formats = (merge / 2) % 2 == 1;
        let no_explicit_flow_control = merge % 2 == 1;
        let ghost p0 = buf_data(*src);
        let mut parameters: Vec<Parameter> = Vec::new();
        proof {
            assert(view_params(parameters@) =~= Seq::<SpecParameter>::empty());
            if parse_params(p0) is Ok {
                let ps = parse_params(p0)->Ok_0;
                assert(view_params(parameters@) + ps =~= ps);
            }
        }
        while buf_len(src) > 0
            invariant
                buf_data(*old(src)).len() >= 5,
                p0 == buf_data(*old(src)).skip(5),
                parse_params(p0) == match parse_params(buf_data(*src)) {
                    Ok(ps) => Ok::<_, Error>(view_params(parameters@) + ps),
                    Err(e) => Err::<Seq<SpecParameter>, Error>(e),
                },
            decreases buf_data(*src).len(),
        {
            let ghost remaining = buf_data(*src);
            let param = match Parameter::decode(src) {
                Ok(p) => p,
                Err(e) => {
                    proof {
                        assert(parse_params(remaining) == Err::<Seq<SpecParameter>, Error>(e));
                    }
                    return Err(e);
                },
            };
            let ghost step = parse_param_step(remaining)->Ok_0;
            let ghost acc_pre = view_params(parameters@);
            parameters.push(param);
            proof {
                assert(view_params(parameters@) =~= acc_pre.push(param@));
                assert(buf_data(*src) == remaining.skip(step.1));
                assert(0 < step.1 <= remaining.len());
                if parse_params(buf_data(*src)) is Ok {
                    let ps = parse_params(buf_data(*src))->Ok_0;
                    assert(acc_pre.push(param@) + ps =~= acc_pre + (seq![step.0] + ps));
                }
            }
        }
        proof {
            assert(buf_data(*src).len() == 0);
            assert(parse_params(buf_data(*src)) == Ok::<_, Error>(Seq::<SpecParameter>::empty()));
            assert(view_params(parameters@) + Seq::<SpecParameter>::empty() =~= view_params(
                parameters@,
            ));
        }
        let r = Self {
            destination_ref,
            source_ref,
            class,
            extended_formats,
            no_explicit_flow_control,
            parameters,
        };
        proof {
            assert(r@.destination_ref =~= b.subrange(0, 2));
            assert(r@.source_ref =~= b.subrange(2, 4));
        }
        Ok(r)
    }
}

/// A Data Transfer PDU around one S7 frame.
#[derive(Debug)]
pub struct DtData {
    pub tpdu_number: u8,
    pub last_data_unit: bool,
    pub payload: Frame,
}

impl View for DtData {
    type V = SpecDtData;

    open spec fn view(&self) -> SpecDtData {
        SpecDtData {
            tpdu_number: self.tpdu_number,
            last_data_unit: self.last_data_unit,
            payload: self.payload@,
        }
    }
}

impl DtData {
    pub fn tpdu_number(&self) -> (r: u8)
        ensures
            r == self.tpdu_number,
    {
        self.tpdu_number
    }

    pub fn last_data_unit(&self) -> (r: bool)
        ensures
            r == self.last_data_unit,
    {
        self.last_data_unit
    }

    pub fn payload(self) -> (r: Frame)
        ensures
            r@ == self@.payload,
    {
        self.payload
    }
}

/// The PDU kinds of class-0 COTP handled here.
#[derive(Debug)]
pub enum PduType {
    /// 0xe0
    ConnectRequest(ConnectComm),
    /// 0xd0
    ConnectConfirm(ConnectComm),
    /// 0xf0
    DtData(DtData),
}

impl View for PduType {
    type V = SpecPduType;

    open spec fn view(&self) -> SpecPduType {
        match self {
            PduType::ConnectRequest(c) => SpecPduType::ConnectRequest(c@),
            PduType::ConnectConfirm(c) => SpecPduType::ConnectConfirm(c@),
            PduType::DtData(d) => SpecPduType::DtData(d@),
        }
    }
}

impl PduType {
    /// The header bytes after the length byte and the PDU code: the
    /// whole Connect body, or the single merge byte of a Data Transfer.
    pub fn length(&self) -> (r: u8)
        requires
            (SpecCoptFrame { pdu_type: self@ }).wf(),
        ensures
            r <= 254,
            r as int + 1 == (SpecCoptFrame { pdu_type: self@ }).spec_enc()[0],
    {
        proof {
            crate::copt_model::lemma_copt_enc_header_facts(SpecCoptFrame { pdu_type: self@ });
        }
        match self {
            PduType::ConnectRequest(conn) => {
                proof {
                    crate::copt_model::lemma_connect_comm_round(conn@);
                }
                conn.length()
            },
            PduType::ConnectConfirm(conn) => {
                proof {
                    crate::copt_model::lemma_connect_comm_round(conn@);
                }
                conn.length()
            },
            PduType::DtData(_) => 1,
        }
    }
}

/// One COTP frame.
#[derive(Debug)]
pub struct CoptFrame {
    pub pdu_type: PduType,
}

impl View for CoptFrame {
    type V = SpecCoptFrame;

    open spec fn view(&self) -> SpecCoptFrame {
        SpecCoptFrame { pdu_type: self.pdu_type@ }
    }
}

impl CoptFrame {
    /// The value of the length byte: the header length excluding the
    /// byte itself.
    pub fn length(&self) -> (r: u8)
        requires
            self@.wf(),
        ensures
            r == self@.spec_enc()[0],
    {
        self.pdu_type.length() + 1
    }

    /// Reads one frame out of a buffer that holds exactly that frame.
    pub(crate) fn decode_complete(src: &mut BytesMut) -> (r: Result<CoptFrame, Error>)
        ensures
            match parse_copt_frame(buf_data(*old(src))) {
                Ok(g) => match r {
                    Ok(f) => f@ == g,
                    Err(_) => false,
                },
                Err(e) => r == Err::<CoptFrame, Error>(e),
            },
    {
        let ghost b = buf_data(*src);
        let n = buf_len(src);
        if n < 2 {
            return Err(Error::DataNotEnough);
        }
        let li = buf_byte_at(src, 0);
        let code = buf_byte_at(src, 1);
        if code == 0xe0 || code == 0xd0 {
            let length: usize = li as usize + 1;
            if n < length {
                return Err(Error::DataNotEnough);
            }
            if n > length {
                return Err(Error::LengthMismatch);
            }
            let _li = buf_get_u8(src);
            let _code = buf_get_u8(src);
            proof {
                assert(buf_data(*src) =~= b.skip(2));
            }
            let conn = match ConnectComm::decode(src) {
                Ok(c) => c,
                Err(e) => {
                    return Err(e);
                },
            };
            if code == 0xe0 {
                Ok(CoptFrame { pdu_type: PduType::ConnectRequest(conn) })
            } else {
                Ok(CoptFrame { pdu_type: PduType::ConnectConfirm(conn) })
            }
        } else if code == 0xf0 {
            if li != 2 {
                return Err(Error::LengthMismatch);
            }
            if n < 3 {
                return Err(Error::DataNotEnough);
            }
            let _li = buf_get_u8(src);
            let _code = buf_get_u8(src);
            let merge = buf_get_u8(src);
            proof {
                assert(buf_data(*src) =~= b.skip(3));
                assert(merge == b[2]);
            }
            let payload = match Frame::decode_complete(src) {
                Ok(f) => f,
                Err(e) => {
                    return Err(Error::Payload(e));
                },
            };
            let tpdu_number = merge % 128;
            let last_data_unit = merge / 128 == 1;
            Ok(CoptFrame {
                pdu_type: PduType::DtData(DtData { tpdu_number, last_data_unit, payload }),
            })
        } else {
            Err(Error::UnsupportedPduType(code))
        }
    }
}

/// Serializer for COTP frames; carries the serializer of the payload.
pub struct CoptEncoder(pub S7CommEncoder);

impl CoptEncoder {
    /// Appends the frame's encoding to `dst`.
    pub fn encode(&mut self, item: CoptFrame, dst: &mut BytesMut) -> (r: Result<(), Error>)
        requires
            item@.wf(),
        ensures
            r is Ok,
            buf_data(*final(dst)) == buf_data(*old(dst)) + item@.spec_enc(),
    {
        proof {
            crate::copt_model::lemma_copt_enc_header_facts(item@);
        }
        let li = item.length();
        buf_put_u8(dst, li);
        match item.pdu_type {
            PduType::ConnectRequest(conn) => {
                buf_put_u8(dst, 0xe0);
                conn.encode(dst);
                proof {
                    assert(buf_data(*dst) =~= buf_data(*old(dst)) + item@.spec_enc());
                }
                Ok(())
            },
            PduType::ConnectConfirm(conn) => {
                buf_put_u8(dst, 0xd0);
                conn.encode(dst);
                proof {
                    assert(buf_data(*dst) =~= buf_data(*old(dst)) + item@.spec_enc());
                }
                Ok(())
            },
            PduType::DtData(conn) => {
                buf_put_u8(dst, 0xf0);
                let merge = conn.tpdu_number % 128 + if conn.last_data_unit {
                    128
                } else {
                    0
                };
                buf_put_u8(dst, merge);
                let ghost mid = buf_data(*dst);
                let mut inner = S7CommEncoder;
                let res = inner.encode(conn.payload, dst);
                proof {
                    assert(buf_data(*dst) =~= buf_data(*old(dst)) + item@.spec_enc());
                }
                res.map_err(|e| Error::Payload(e))
            },
        }
    }
}

/// Length-aware, resumable deserializer for COTP frames; carries the
/// deserializer of the payload.
pub struct CoptDecoder(pub S7CommDecoder);

impl CoptDecoder {
    /// Reads one frame if the buffer holds it whole; returns `None` and
    /// leaves the buffer untouched while bytes are missing.
    pub fn decode(&mut self, src: &mut BytesMut) -> (r: Result<Option<CoptFrame>, Error>)
        ensures
            match r {
                Ok(opt) => match opt {
                    None => copt_need_more(buf_data(*old(src))) && buf_data(*final(src))
                        == buf_data(*old(src)),
                    Some(f) => !copt_need_more(buf_data(*old(src))) && parse_copt_frame(
                        buf_data(*old(src)).take(copt_total(buf_data(*old(src)))),
                    ) == Ok::<SpecCoptFrame, Error>(f@) && buf_data(*final(src)) == buf_data(
                        *old(src),
                    ).skip(copt_total(buf_data(*old(src)))),
                },
                Err(e) => !copt_need_more(buf_data(*old(src))) && buf_data(*old(src)).len() >= 2
                    && {
                    let b = buf_data(*old(src));
                    if !(b[1] == 0xe0 || b[1] == 0xd0 || b[1] == 0xf0) {
                        e == Error::UnsupportedPduType(b[1])
                    } else if b[1] == 0xf0 && b[0] != 2 {
                        e == Error::LengthMismatch
                    } else if b[1] == 0xf0 && !(b.skip(3)[1] == 1 || b.skip(3)[1] == 3) {
                        e == Error::Payload(crate::s7_comm::Error::UnsupportedRosctr(b.skip(3)[1]))
                    } else {
                        parse_copt_frame(b.take(copt_total(b))) == Err::<SpecCoptFrame, Error>(e)
                    }
                },
            },
    {
        let ghost b = buf_data(*src);
        let n = buf_len(src);
        if n < 2 {
            return Ok(None);
        }
        let li = buf_byte_at(src, 0);
        let code = buf_byte_at(src, 1);
        if code == 0xe0 || code == 0xd0 {
            let length: usize = li as usize + 1;
            if n < length {
                return Ok(None);
            }
            let mut body = buf_split_to(src, length);
            proof {
                assert(length == copt_total(b));
            }
            match CoptFrame::decode_complete(&mut body) {
                Ok(f) => Ok(Some(f)),
                Err(e) => Err(e),
            }
        } else if code == 0xf0 {
            if li != 2 {
                return Err(Error::LengthMismatch);
            }
            if n < 13 {
                proof {
                    if n >= 3 {
                        assert(b.skip(3).len() < 10);
                    }
                }
                return Ok(None);
            }
            proof {
                assert(b.skip(3).len() == n - 3);
                assert(b.skip(3)[1] == b[4]);
                assert(b.skip(3)[6] == b[9] && b.skip(3)[7] == b[10]);
                assert(b.skip(3)[8] == b[11] && b.skip(3)[9] == b[12]);
            }
            let rosctr = buf_byte_at(src, 4);
            if rosctr != 1 && rosctr != 3 {
                return Err(Error::Payload(crate::s7_comm::Error::UnsupportedRosctr(rosctr)));
            }
            let plen = (buf_byte_at(src, 9) as u16) * 256 + (buf_byte_at(src, 10) as u16);
            let dlen = (buf_byte_at(src, 11) as u16) * 256 + (buf_byte_at(src, 12) as u16);
            let hdr: usize = if rosctr == 3 {
                12
            } else {
                10
            };
            let total: usize = 3 + hdr + plen as usize + dlen as usize;
            proof {
                assert(total == copt_total(b));
            }
            if n < total {
                return Ok(None);
            }
            let mut body = buf_split_to(src, total);
            match CoptFrame::decode_complete(&mut body) {
                Ok(f) => Ok(Some(f)),
                Err(e) => Err(e),
            }
        } else {
            Err(Error::UnsupportedPduType(code))
        }
    }
}

} // verus!
