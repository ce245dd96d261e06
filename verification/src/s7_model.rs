//! Mathematical model of the S7 wire format.
//!
//! For every frame shape there is a model value (`Spec…`), its byte
//! encoding, and a parse function over byte sequences. The executable
//! codec in `s7_comm` is specified against these, and the round-trip
//! lemmas here state that parsing an encoding gives the value back.

use vstd::prelude::*;
use crate::s7_comm::{
    Area, DataTransportSize, DbNumber, Error, Header, HearderAckData, ItemRequest, ReturnCode,
    SetupCommunication, Syntax, TransportSize, lemma_return_code_round,
    lemma_data_transport_size_round, lemma_item_request_round,
};
use crate::be16_at;

verus! {

/// Model of a `DataItemVal`: one read or written value.
#[verifier::ext_equal]
pub struct SpecDataItemVal {
    pub return_code: ReturnCode,
    pub transport_size_type: DataTransportSize,
    pub length: u16,
    pub data: Seq<u8>,
}

impl SpecDataItemVal {
    /// The `length` field counts bits for byte transport and values for
    /// bit transport, and always describes `data` exactly.
    pub open spec fn wf(self) -> bool {
        &&& self.transport_size_type.wf()
        &&& if self.transport_size_type is NoBit {
            self.length == self.data.len() * 8
        } else {
            self.length == self.data.len()
        }
    }

    /// The item's bytes without any trailing pad.
    pub open spec fn spec_enc(self) -> Seq<u8> {
        seq![self.return_code.spec_code(), self.transport_size_type.spec_code()]
            + crate::enc_u16(self.length) + self.data
    }

    /// The item's bytes in a non-final position: a zero pad byte follows
    /// an odd-length payload.
    pub open spec fn spec_enc_padded(self) -> Seq<u8> {
        self.spec_enc() + if self.data.len() % 2 == 1 {
            seq![0u8]
        } else {
            Seq::<u8>::empty()
        }
    }
}

/// Model of a write acknowledgement item: a bare return code.
#[verifier::ext_equal]
pub struct SpecDataItemWriteResponse {
    pub return_code: ReturnCode,
}

pub open spec fn wf_item_requests(s: Seq<ItemRequest>) -> bool {
    forall|i: int| 0 <= i < s.len() ==> (#[trigger] s[i]).wf()
}

pub open spec fn wf_data_items(s: Seq<SpecDataItemVal>) -> bool {
    forall|i: int| 0 <= i < s.len() ==> (#[trigger] s[i]).wf()
}

/// Concatenated encoding of the item requests of a ReadVar/WriteVar Job.
pub open spec fn enc_item_requests(s: Seq<ItemRequest>) -> Seq<u8>
    decreases s.len(),
{
    if s.len() == 0 {
        Seq::<u8>::empty()
    } else {
        s[0].spec_enc() + enc_item_requests(s.skip(1))
    }
}

/// Concatenated encoding of a sequence of data items. Every item but
/// the last is padded to an even payload length; the last is not.
pub open spec fn enc_data_items(s: Seq<SpecDataItemVal>) -> Seq<u8>
    decreases s.len(),
{
    if s.len() == 0 {
        Seq::<u8>::empty()
    } else if s.len() == 1 {
        s[0].spec_enc()
    } else {
        s[0].spec_enc_padded() + enc_data_items(s.skip(1))
    }
}

/// Concatenated encoding of write responses: one return code each.
pub open spec fn enc_write_responses(s: Seq<SpecDataItemWriteResponse>) -> Seq<u8>
    decreases s.len(),
{
    if s.len() == 0 {
        Seq::<u8>::empty()
    } else {
        seq![s[0].return_code.spec_code()] + enc_write_responses(s.skip(1))
    }
}

pub proof fn lemma_enc_item_requests_len(s: Seq<ItemRequest>)
    ensures
        enc_item_requests(s).len() == 12 * s.len(),
    decreases s.len(),
{
    if s.len() > 0 {
        lemma_enc_item_requests_len(s.skip(1));
    }
}

pub proof fn lemma_enc_write_responses_len(s: Seq<SpecDataItemWriteResponse>)
    ensures
        enc_write_responses(s).len() == s.len(),
    decreases s.len(),
{
    if s.len() > 0 {
        lemma_enc_write_responses_len(s.skip(1));
    }
}

/// One data item parsed from the front of `b`. Returns the item and the
/// number of bytes it occupies, the trailing pad included.
pub open spec fn parse_data_item(b: Seq<u8>, is_last: bool) -> Result<(SpecDataItemVal, int), Error> {
    if b.len() < 4 {
        Err(Error::DataNotEnough)
    } else {
        match ReturnCode::spec_try_from(b[0]) {
            None => Err(Error::UnsupportedReturnCode(b[0])),
            Some(rc) => {
                let ts = DataTransportSize::spec_from(b[1]);
                let len16 = be16_at(b, 2);
                let nbytes: int = if ts is NoBit {
                    len16 / 8
                } else {
                    len16
                };
                let padn: int = if !is_last && nbytes % 2 == 1 {
                    1
                } else {
                    0
                };
                if b.len() < 4 + nbytes + padn {
                    Err(Error::DataNotEnough)
                } else {
                    Ok((
                        SpecDataItemVal {
                            return_code: rc,
                            transport_size_type: ts,
                            length: len16 as u16,
                            data: b.subrange(4, 4 + nbytes),
                        },
                        4 + nbytes + padn,
                    ))
                }
            },
        }
    }
}

/// `n` data items parsed from the front of `b`; only the `n`-th is
/// unpadded.
pub open spec fn parse_data_items(b: Seq<u8>, n: nat) -> Result<(Seq<SpecDataItemVal>, int), Error>
    decreases n,
{
    if n == 0 {
        Ok((Seq::<SpecDataItemVal>::empty(), 0))
    } else {
        match parse_data_item(b, n == 1) {
            Err(e) => Err(e),
            Ok((d, c)) => match parse_data_items(b.skip(c), (n - 1) as nat) {
                Err(e) => Err(e),
                Ok((s, c2)) => Ok((seq![d] + s, c + c2)),
            },
        }
    }
}

/// `n` item requests parsed from the front of `b`, twelve bytes each.
pub open spec fn parse_item_requests(b: Seq<u8>, n: nat) -> Result<(Seq<ItemRequest>, int), Error>
    decreases n,
{
    if n == 0 {
        Ok((Seq::<ItemRequest>::empty(), 0))
    } else if b.len() < 12 {
        Err(Error::DataNotEnough)
    } else {
        match parse_item_requests(b.skip(12), (n - 1) as nat) {
            Err(e) => Err(e),
            Ok((s, c)) => Ok((seq![ItemRequest::spec_parse(b)] + s, 12 + c)),
        }
    }
}

/// `n` write responses parsed from the front of `b`, one byte each.
pub open spec fn parse_write_responses(b: Seq<u8>, n: nat) -> Result<
    (Seq<SpecDataItemWriteResponse>, int),
    Error,
>
    decreases n,
{
    if n == 0 {
        Ok((Seq::<SpecDataItemWriteResponse>::empty(), 0))
    } else if b.len() < 1 {
        Err(Error::DataNotEnough)
    } else {
        match ReturnCode::spec_try_from(b[0]) {
            None => Err(Error::UnsupportedReturnCode(b[0])),
            Some(rc) => match parse_write_responses(b.skip(1), (n - 1) as nat) {
                Err(e) => Err(e),
                Ok((s, c)) => Ok((seq![SpecDataItemWriteResponse { return_code: rc }] + s, 1 + c)),
            },
        }
    }
}

/// Parsing the encoding of well-formed item requests yields them back
/// and consumes exactly their twelve bytes each.
pub proof fn lemma_item_requests_round(s: Seq<ItemRequest>, rest: Seq<u8>)
    requires
        wf_item_requests(s),
    ensures
        parse_item_requests(enc_item_requests(s) + rest, s.len() as nat) == Ok::<_, Error>((
            s,
            12 * s.len() as int,
        )),
    decreases s.len(),
{
    let b = enc_item_requests(s) + rest;
    if s.len() == 0 {
        assert(s =~= Seq::<ItemRequest>::empty());
    } else {
        let first = s[0];
        assert(first.wf());
        lemma_item_request_round(first, enc_item_requests(s.skip(1)) + rest);
        assert(b =~= first.spec_enc() + (enc_item_requests(s.skip(1)) + rest));
        lemma_enc_item_requests_len(s);
        assert(b.len() >= 12);
        assert(ItemRequest::spec_parse(b) == first) by {
            assert(first.spec_enc() + (enc_item_requests(s.skip(1)) + rest) == b);
        }
        assert(wf_item_requests(s.skip(1))) by {
            assert(forall|i: int|
                0 <= i < s.skip(1).len() ==> s.skip(1)[i] == s[i + 1] && (#[trigger] s.skip(
                    1,
                )[i]).wf());
        }
        lemma_item_requests_round(s.skip(1), rest);
        assert(b.skip(12) =~= enc_item_requests(s.skip(1)) + rest) by {
            assert(first.spec_enc().len() == 12);
        }
        assert(seq![ItemRequest::spec_parse(b)] + s.skip(1) =~= s);
    }
}

/// Parsing the encoding of well-formed data items yields them back and
/// consumes the whole encoding.
#[verifier::rlimit(40)]
pub proof fn lemma_data_items_round(s: Seq<SpecDataItemVal>, rest: Seq<u8>)
    requires
        wf_data_items(s),
    ensures
        parse_data_items(enc_data_items(s) + rest, s.len() as nat) == Ok::<_, Error>((
            s,
            enc_data_items(s).len() as int,
        )),
    decreases s.len(),
{
    let b = enc_data_items(s) + rest;
    if s.len() == 0 {
        assert(s =~= Seq::<SpecDataItemVal>::empty());
        assert(enc_data_items(s).len() == 0);
    } else {
        let first = s[0];
        assert(first.wf());
        let e1 = if s.len() == 1 {
            first.spec_enc()
        } else {
            first.spec_enc_padded()
        };
        let tail_bytes = enc_data_items(s.skip(1)) + rest;
        assert(b =~= e1 + tail_bytes);
        // the head item parses back to itself
        let nbytes = first.data.len() as int;
        assert(first.spec_enc().len() == 4 + nbytes);
        assert(b[0] == first.return_code.spec_code());
        assert(b[1] == first.transport_size_type.spec_code());
        assert(be16_at(b, 2) == first.length);
        lemma_return_code_round(first.return_code);
        lemma_data_transport_size_round(first.transport_size_type);
        assert(DataTransportSize::spec_from(b[1]) == first.transport_size_type);
        let parsed_n: int = if first.transport_size_type is NoBit {
            be16_at(b, 2) / 8
        } else {
            be16_at(b, 2)
        };
        assert(parsed_n == nbytes) by {
            if first.transport_size_type is NoBit {
                assert(first.length == nbytes * 8);
                assert((nbytes * 8) / 8 == nbytes) by (nonlinear_arith);
            }
        }
        let padn: int = if s.len() > 1 && nbytes % 2 == 1 {
            1
        } else {
            0
        };
        assert(e1.len() == 4 + nbytes + padn);
        assert(b.len() >= 4 + nbytes + padn);
        assert(b.subrange(4, 4 + nbytes) =~= first.data);
        assert(parse_data_item(b, s.len() == 1) == Ok::<_, Error>((first, 4 + nbytes + padn)));
        // the tail parses back to itself
        assert(wf_data_items(s.skip(1))) by {
            assert(forall|i: int|
                0 <= i < s.skip(1).len() ==> s.skip(1)[i] == s[i + 1] && (#[trigger] s.skip(
                    1,
                )[i]).wf());
        }
        lemma_data_items_round(s.skip(1), rest);
        assert(b.skip(4 + nbytes + padn) =~= tail_bytes);
        assert(seq![first] + s.skip(1) =~= s);
        assert(enc_data_items(s).len() == e1.len() + enc_data_items(s.skip(1)).len());
    }
}

/// Model of a WriteVar Job: item requests and the values to write.
#[verifier::ext_equal]
pub struct SpecWriteVarJob {
    pub count: u8,
    pub parameters_item: Seq<ItemRequest>,
    pub data_item: Seq<SpecDataItemVal>,
}

/// Model of a ReadVar Job: item requests only.
#[verifier::ext_equal]
pub struct SpecReadVarJob {
    pub count: u8,
    pub parameters_item: Seq<ItemRequest>,
}

/// Model of a WriteVar AckData: one response per written item.
#[verifier::ext_equal]
pub struct SpecWriteVarAckData {
    pub count: u8,
    pub data_item: Seq<SpecDataItemWriteResponse>,
}

/// Model of a ReadVar AckData: one data item per requested item.
#[verifier::ext_equal]
pub struct SpecReadVarAckData {
    pub count: u8,
    pub data_item: Seq<SpecDataItemVal>,
}

/// Model of the parameter/data payload of a Job frame.
#[verifier::ext_equal]
pub enum SpecJob {
    SetupCommunication(SetupCommunication),
    WriteVar(SpecWriteVarJob),
    ReadVar(SpecReadVarJob),
}

/// Model of the parameter/data payload of an AckData frame.
#[verifier::ext_equal]
pub enum SpecAckData {
    SetupCommunication(SetupCommunication),
    WriteVar(SpecWriteVarAckData),
    ReadVar(SpecReadVarAckData),
}

/// Model of a whole S7 frame.
#[verifier::ext_equal]
pub enum SpecFrame {
    Job { header: Header, job: SpecJob },
    AckData { header: HearderAckData, ack_data: SpecAckData },
}

impl SpecWriteVarJob {
    pub open spec fn wf(self) -> bool {
        &&& self.count == self.parameters_item.len()
        &&& self.count == self.data_item.len()
        &&& wf_item_requests(self.parameters_item)
        &&& wf_data_items(self.data_item)
        &&& enc_data_items(self.data_item).len() <= 0xFFFF
    }
}

impl SpecReadVarJob {
    pub open spec fn wf(self) -> bool {
        &&& self.count == self.parameters_item.len()
        &&& wf_item_requests(self.parameters_item)
    }
}

impl SpecWriteVarAckData {
    pub open spec fn wf(self) -> bool {
        self.count == self.data_item.len()
    }
}

impl SpecReadVarAckData {
    pub open spec fn wf(self) -> bool {
        &&& self.count == self.data_item.len()
        &&& wf_data_items(self.data_item)
        &&& enc_data_items(self.data_item).len() <= 0xFFFF
    }
}

impl SpecJob {
    pub open spec fn wf(self) -> bool {
        match self {
            SpecJob::SetupCommunication(_) => true,
            SpecJob::WriteVar(w) => w.wf(),
            SpecJob::ReadVar(r) => r.wf(),
        }
    }

    /// The parameter section: function code, then the function's own
    /// parameter bytes.
    pub open spec fn param_bytes(self) -> Seq<u8> {
        match self {
            SpecJob::SetupCommunication(s) => seq![0xf0u8] + s.spec_enc(),
            SpecJob::WriteVar(w) => seq![0x05u8, w.count] + enc_item_requests(w.parameters_item),
            SpecJob::ReadVar(r) => seq![0x04u8, r.count] + enc_item_requests(r.parameters_item),
        }
    }

    /// The data section that follows the parameter section.
    pub open spec fn data_bytes(self) -> Seq<u8> {
        match self {
            SpecJob::SetupCommunication(_) => Seq::<u8>::empty(),
            SpecJob::WriteVar(w) => enc_data_items(w.data_item),
            SpecJob::ReadVar(_) => Seq::<u8>::empty(),
        }
    }
}

impl SpecAckData {
    pub open spec fn wf(self) -> bool {
        match self {
            SpecAckData::SetupCommunication(_) => true,
            SpecAckData::WriteVar(w) => w.wf(),
            SpecAckData::ReadVar(r) => r.wf(),
        }
    }

    pub open spec fn param_bytes(self) -> Seq<u8> {
        match self {
            SpecAckData::SetupCommunication(s) => seq![0xf0u8] + s.spec_enc(),
            SpecAckData::WriteVar(w) => seq![0x05u8, w.count],
            SpecAckData::ReadVar(r) => seq![0x04u8, r.count],
        }
    }

    pub open spec fn data_bytes(self) -> Seq<u8> {
        match self {
            SpecAckData::SetupCommunication(_) => Seq::<u8>::empty(),
            SpecAckData::WriteVar(w) => enc_write_responses(w.data_item),
            SpecAckData::ReadVar(r) => enc_data_items(r.data_item),
        }
    }
}

impl SpecFrame {
    /// Well-formed frames carry length fields that equal the true byte
    /// count of the section they describe.
    pub open spec fn wf(self) -> bool {
        match self {
            SpecFrame::Job { header, job } => {
                &&& job.wf()
                &&& header.parameter_len == job.param_bytes().len()
                &&& header.data_len == job.data_bytes().len()
            },
            SpecFrame::AckData { header, ack_data } => {
                &&& ack_data.wf()
                &&& header.parameter_len == ack_data.param_bytes().len()
                &&& header.data_len == ack_data.data_bytes().len()
            },
        }
    }

    pub open spec fn spec_enc(self) -> Seq<u8> {
        match self {
            SpecFrame::Job { header, job } => header.spec_enc(1) + job.param_bytes()
                + job.data_bytes(),
            SpecFrame::AckData { header, ack_data } => header.spec_enc() + ack_data.param_bytes()
                + ack_data.data_bytes(),
        }
    }
}

/// The payload of a Job frame parsed from its parameter section `p` and
/// data section `d`; both sections must be consumed exactly.
pub open spec fn parse_job(p: Seq<u8>, d: Seq<u8>) -> Result<SpecJob, Error> {
    if p.len() < 1 {
        Err(Error::DataNotEnough)
    } else if p[0] == 0xf0 {
        if p.len() < 8 {
            Err(Error::DataNotEnough)
        } else if p.len() == 8 && d.len() == 0 {
            Ok(SpecJob::SetupCommunication(SetupCommunication::spec_parse(p.skip(1))))
        } else {
            Err(Error::LengthMismatch)
        }
    } else if p[0] == 0x04 {
        if p.len() < 2 {
            Err(Error::DataNotEnough)
        } else {
            match parse_item_requests(p.skip(2), p[1] as nat) {
                Err(e) => Err(e),
                Ok((items, c)) => if 2 + c == p.len() && d.len() == 0 {
                    Ok(SpecJob::ReadVar(SpecReadVarJob { count: p[1], parameters_item: items }))
                } else {
                    Err(Error::LengthMismatch)
                },
            }
        }
    } else if p[0] == 0x05 {
        if p.len() < 2 {
            Err(Error::DataNotEnough)
        } else {
            match parse_item_requests(p.skip(2), p[1] as nat) {
                Err(e) => Err(e),
                Ok((items, c)) => match parse_data_items(d, p[1] as nat) {
                    Err(e) => Err(e),
                    Ok((ditems, c2)) => if 2 + c == p.len() && c2 == d.len() {
                        Ok(SpecJob::WriteVar(SpecWriteVarJob {
                            count: p[1],
                            parameters_item: items,
                            data_item: ditems,
                        }))
                    } else {
                        Err(Error::LengthMismatch)
                    },
                },
            }
        }
    } else {
        Err(Error::UnsupportedFunction(p[0]))
    }
}

/// The payload of an AckData frame parsed from its sections.
pub open spec fn parse_ack_data(p: Seq<u8>, d: Seq<u8>) -> Result<SpecAckData, Error> {
    if p.len() < 1 {
        Err(Error::DataNotEnough)
    } else if p[0] == 0xf0 {
        if p.len() < 8 {
            Err(Error::DataNotEnough)
        } else if p.len() == 8 && d.len() == 0 {
            Ok(SpecAckData::SetupCommunication(SetupCommunication::spec_parse(p.skip(1))))
        } else {
            Err(Error::LengthMismatch)
        }
    } else if p[0] == 0x04 {
        if p.len() < 2 {
            Err(Error::DataNotEnough)
        } else {
            match parse_data_items(d, p[1] as nat) {
                Err(e) => Err(e),
                Ok((ditems, c)) => if p.len() == 2 && c == d.len() {
                    Ok(SpecAckData::ReadVar(SpecReadVarAckData { count: p[1], data_item: ditems }))
                } else {
                    Err(Error::LengthMismatch)
                },
            }
        }
    } else if p[0] == 0x05 {
        if p.len() < 2 {
            Err(Error::DataNotEnough)
        } else {
            match parse_write_responses(d, p[1] as nat) {
                Err(e) => Err(e),
                Ok((resps, c)) => if p.len() == 2 && c == d.len() {
                    Ok(SpecAckData::WriteVar(SpecWriteVarAckData { count: p[1], data_item: resps }))
                } else {
                    Err(Error::LengthMismatch)
                },
            }
        }
    } else {
        Err(Error::UnsupportedFunction(p[0]))
    }
}

/// The byte count that the header of the frame starting at `b` claims
/// for the whole frame (meaningful once ten bytes are present).
pub open spec fn s7_total(b: Seq<u8>) -> int {
    (if b[1] == 3 {
        12int
    } else {
        10int
    }) + be16_at(b, 6) + be16_at(b, 8)
}

/// True while too few bytes are buffered to hold the frame that the
/// header (or its absence) announces.
pub open spec fn s7_need_more(b: Seq<u8>) -> bool {
    b.len() < 10 || ((b[1] == 1 || b[1] == 3) && b.len() < s7_total(b))
}

/// A whole S7 frame parsed from the exact byte slice `b`.
pub open spec fn parse_frame(b: Seq<u8>) -> Result<SpecFrame, Error> {
    if b.len() < 10 {
        Err(Error::DataNotEnough)
    } else if b[1] == 1 {
        let h = Header::spec_parse(b);
        let total = 10 + h.parameter_len + h.data_len;
        if b.len() < total {
            Err(Error::DataNotEnough)
        } else if b.len() > total {
            Err(Error::LengthMismatch)
        } else {
            match parse_job(
                b.subrange(10, 10 + h.parameter_len),
                b.subrange(10 + h.parameter_len, total as int),
            ) {
                Err(e) => Err(e),
                Ok(j) => Ok(SpecFrame::Job { header: h, job: j }),
            }
        }
    } else if b[1] == 3 {
        if b.len() < 12 {
            Err(Error::DataNotEnough)
        } else {
            let h = HearderAckData::spec_parse(b);
            let total = 12 + h.parameter_len + h.data_len;
            if b.len() < total {
                Err(Error::DataNotEnough)
            } else if b.len() > total {
                Err(Error::LengthMismatch)
            } else {
                match parse_ack_data(
                    b.subrange(12, 12 + h.parameter_len),
                    b.subrange(12 + h.parameter_len, total as int),
                ) {
                    Err(e) => Err(e),
                    Ok(a) => Ok(SpecFrame::AckData { header: h, ack_data: a }),
                }
            }
        }
    } else {
        Err(Error::UnsupportedRosctr(b[1]))
    }
}

/// Structural facts about the encoding of a well-formed frame: the
/// ROSCTR byte, the advertised length fields and the total width.
pub proof fn lemma_s7_enc_header_facts(f: SpecFrame)
    requires
        f.wf(),
    ensures
        f.spec_enc().len() >= 10,
        match f {
            SpecFrame::Job { header, job } => f.spec_enc()[1] == 1
                && be16_at(f.spec_enc(), 6) == header.parameter_len
                && be16_at(f.spec_enc(), 8) == header.data_len
                && f.spec_enc().len() == 10 + header.parameter_len + header.data_len
                && s7_total(f.spec_enc()) == f.spec_enc().len(),
            SpecFrame::AckData { header, ack_data } => f.spec_enc()[1] == 3
                && be16_at(f.spec_enc(), 6) == header.parameter_len
                && be16_at(f.spec_enc(), 8) == header.data_len
                && f.spec_enc().len() == 12 + header.parameter_len + header.data_len
                && s7_total(f.spec_enc()) == f.spec_enc().len(),
        },
{
    let e = f.spec_enc();
    match f {
        SpecFrame::Job { header, job } => {
            assert(e[1] == 1);
            assert(e[6] == header.parameter_len / 256 && e[7] == header.parameter_len % 256);
            assert(e[8] == header.data_len / 256 && e[9] == header.data_len % 256);
        },
        SpecFrame::AckData { header, ack_data } => {
            assert(e[1] == 3);
            assert(e[6] == header.parameter_len / 256 && e[7] == header.parameter_len % 256);
            assert(e[8] == header.data_len / 256 && e[9] == header.data_len % 256);
        },
    }
}

/// Round trip of the S7 codec: parsing the encoding of any well-formed
/// frame yields that frame back.
pub proof fn lemma_s7_round_trip(f: SpecFrame)
    requires
        f.wf(),
    ensures
        parse_frame(f.spec_enc()) == Ok::<_, Error>(f),
{
    let e = f.spec_enc();
    lemma_s7_enc_header_facts(f);
    match f {
        SpecFrame::Job { header, job } => {
            assert(Header::spec_parse(e) == header) by {
                assert(e[0] == header.protocol_id);
                assert(e[2] == header.reserved / 256 && e[3] == header.reserved % 256);
                assert(e[4] == header.pdu_ref / 256 && e[5] == header.pdu_ref % 256);
            }
            let p = e.subrange(10, 10 + header.parameter_len as int);
            let d = e.subrange(10 + header.parameter_len as int, e.len() as int);
            assert(p =~= job.param_bytes());
            assert(d =~= job.data_bytes());
            lemma_parse_job_round(job);
        },
        SpecFrame::AckData { header, ack_data } => {
            assert(HearderAckData::spec_parse(e) == header) by {
                assert(e[0] == header.protocol_id);
                assert(e[2] == header.reserved / 256 && e[3] == header.reserved % 256);
                assert(e[4] == header.pdu_ref / 256 && e[5] == header.pdu_ref % 256);
                assert(e[10] == header.error_class && e[11] == header.error_code);
            }
            let p = e.subrange(12, 12 + header.parameter_len as int);
            let d = e.subrange(12 + header.parameter_len as int, e.len() as int);
            assert(p =~= ack_data.param_bytes());
            assert(d =~= ack_data.data_bytes());
            lemma_parse_ack_data_round(ack_data);
        },
    }
}

/// Parsing the two sections of a well-formed Job payload yields it back.
pub proof fn lemma_parse_job_round(j: SpecJob)
    requires
        j.wf(),
    ensures
        parse_job(j.param_bytes(), j.data_bytes()) == Ok::<_, Error>(j),
{
    let p = j.param_bytes();
    let d = j.data_bytes();
    match j {
        SpecJob::SetupCommunication(s) => {
            assert(p.len() == 8);
            assert(p.skip(1) =~= s.spec_enc());
            assert(SetupCommunication::spec_parse(s.spec_enc()) == s) by {
                let e = s.spec_enc();
                assert(e[0] == s.reserved);
                assert(e[1] == s.max_amq_calling / 256 && e[2] == s.max_amq_calling % 256);
                assert(e[3] == s.max_amq_called / 256 && e[4] == s.max_amq_called % 256);
                assert(e[5] == s.pdu_length / 256 && e[6] == s.pdu_length % 256);
            }
        },
        SpecJob::ReadVar(r) => {
            assert(p[0] == 0x04 && p[1] == r.count);
            assert(p.skip(2) =~= enc_item_requests(r.parameters_item) + Seq::<u8>::empty());
            lemma_item_requests_round(r.parameters_item, Seq::<u8>::empty());
            lemma_enc_item_requests_len(r.parameters_item);
            assert(parse_item_requests(p.skip(2), r.count as nat) == Ok::<_, Error>((
                r.parameters_item,
                12 * r.parameters_item.len() as int,
            )));
        },
        SpecJob::WriteVar(w) => {
            assert(p[0] == 0x05 && p[1] == w.count);
            assert(p.skip(2) =~= enc_item_requests(w.parameters_item) + Seq::<u8>::empty());
            lemma_item_requests_round(w.parameters_item, Seq::<u8>::empty());
            lemma_enc_item_requests_len(w.parameters_item);
            assert(d =~= enc_data_items(w.data_item) + Seq::<u8>::empty());
            lemma_data_items_round(w.data_item, Seq::<u8>::empty());
        },
    }
}

/// Parsing the two sections of a well-formed AckData payload yields it
/// back.
pub proof fn lemma_parse_ack_data_round(a: SpecAckData)
    requires
        a.wf(),
    ensures
        parse_ack_data(a.param_bytes(), a.data_bytes()) == Ok::<_, Error>(a),
{
    let p = a.param_bytes();
    let d = a.data_bytes();
    match a {
        SpecAckData::SetupCommunication(s) => {
            assert(p.len() == 8);
            assert(p.skip(1) =~= s.spec_enc());
            assert(SetupCommunication::spec_parse(s.spec_enc()) == s) by {
                let e = s.spec_enc();
                assert(e[0] == s.reserved);
                assert(e[1] == s.max_amq_calling / 256 && e[2] == s.max_amq_calling % 256);
                assert(e[3] == s.max_amq_called / 256 && e[4] == s.max_amq_called % 256);
                assert(e[5] == s.pdu_length / 256 && e[6] == s.pdu_length % 256);
            }
        },
        SpecAckData::ReadVar(r) => {
            assert(p[0] == 0x04 && p[1] == r.count);
            assert(d =~= enc_data_items(r.data_item) + Seq::<u8>::empty());
            lemma_data_items_round(r.data_item, Seq::<u8>::empty());
        },
        SpecAckData::WriteVar(w) => {
            assert(p[0] == 0x05 && p[1] == w.count);
            assert(d =~= enc_write_responses(w.data_item) + Seq::<u8>::empty());
            lemma_write_responses_round(w.data_item, Seq::<u8>::empty());
            lemma_enc_write_responses_len(w.data_item);
            assert(parse_write_responses(d, p[1] as nat) == Ok::<_, Error>((
                w.data_item,
                w.data_item.len() as int,
            )));
            assert(parse_ack_data(p, d) is Ok);
        },
    }
}

/// Resumability of the S7 decoder: every strict prefix of a well-formed
/// frame's encoding still reads as "need more bytes".
pub proof fn lemma_s7_prefix_needs_more(f: SpecFrame, i: int)
    requires
        f.wf(),
        0 <= i < f.spec_enc().len(),
    ensures
        s7_need_more(f.spec_enc().take(i)),
{
    let e = f.spec_enc();
    lemma_s7_enc_header_facts(f);
    let p = e.take(i);
    if i >= 10 {
        assert(p[1] == e[1]);
        assert(be16_at(p, 6) == be16_at(e, 6) && be16_at(p, 8) == be16_at(e, 8));
        assert(s7_total(p) == s7_total(e));
    }
}

/// Appending bytes to a buffer that holds a whole well-formed encoding
/// leaves the frame that a parse of the total finds unchanged.
pub proof fn lemma_s7_enc_with_rest(f: SpecFrame, rest: Seq<u8>)
    requires
        f.wf(),
    ensures
        !s7_need_more(f.spec_enc() + rest),
        s7_total(f.spec_enc() + rest) == f.spec_enc().len(),
        (f.spec_enc() + rest).take(f.spec_enc().len() as int) == f.spec_enc(),
        (f.spec_enc() + rest).skip(f.spec_enc().len() as int) == rest,
{
    let e = f.spec_enc();
    let b = e + rest;
    lemma_s7_enc_header_facts(f);
    assert(b[1] == e[1]);
    assert(be16_at(b, 6) == be16_at(e, 6) && be16_at(b, 8) == be16_at(e, 8));
    assert(b.take(e.len() as int) =~= e);
    assert(b.skip(e.len() as int) =~= rest);
}

/// Parse of an exact well-formed encoding with the header totals read
/// from any extension of it.
pub proof fn lemma_s7_decode_of_enc(f: SpecFrame, rest: Seq<u8>)
    requires
        f.wf(),
    ensures
        !s7_need_more(f.spec_enc() + rest),
        s7_total(f.spec_enc() + rest) == f.spec_enc().len(),
        parse_frame((f.spec_enc() + rest).take(s7_total(f.spec_enc() + rest))) == Ok::<_, Error>(f),
        (f.spec_enc() + rest).skip(s7_total(f.spec_enc() + rest)) == rest,
{
    lemma_s7_enc_with_rest(f, rest);
    lemma_s7_round_trip(f);
}

/// Parsing the encoding of write responses yields them back.
pub proof fn lemma_write_responses_round(s: Seq<SpecDataItemWriteResponse>, rest: Seq<u8>)
    ensures
        parse_write_responses(enc_write_responses(s) + rest, s.len() as nat) == Ok::<_, Error>((
            s,
            s.len() as int,
        )),
    decreases s.len(),
{
    let b = enc_write_responses(s) + rest;
    if s.len() == 0 {
        assert(s =~= Seq::<SpecDataItemWriteResponse>::empty());
        lemma_enc_write_responses_len(s);
    } else {
        let first = s[0];
        lemma_return_code_round(first.return_code);
        assert(b[0] == first.return_code.spec_code());
        lemma_write_responses_round(s.skip(1), rest);
        assert(b.skip(1) =~= enc_write_responses(s.skip(1)) + rest);
        assert(seq![SpecDataItemWriteResponse { return_code: first.return_code }] + s.skip(1)
            =~= s);
        lemma_enc_write_responses_len(s);
    }
}

/// A successful parse never consumes more bytes than it was given.
pub proof fn lemma_parse_item_requests_bound(b: Seq<u8>, n: nat)
    requires
        parse_item_requests(b, n) is Ok,
    ensures
        0 <= parse_item_requests(b, n)->Ok_0.1 <= b.len(),
    decreases n,
{
    if n > 0 {
        lemma_parse_item_requests_bound(b.skip(12), (n - 1) as nat);
    }
}

/// A successful parse never consumes more bytes than it was given.
pub proof fn lemma_parse_data_items_bound(b: Seq<u8>, n: nat)
    requires
        parse_data_items(b, n) is Ok,
    ensures
        0 <= parse_data_items(b, n)->Ok_0.1 <= b.len(),
    decreases n,
{
    if n > 0 {
        let c = parse_data_item(b, n == 1)->Ok_0.1;
        assert(0 <= c <= b.len());
        lemma_parse_data_items_bound(b.skip(c), (n - 1) as nat);
    }
}

/// A successful parse never consumes more bytes than it was given.
pub proof fn lemma_parse_write_responses_bound(b: Seq<u8>, n: nat)
    requires
        parse_write_responses(b, n) is Ok,
    ensures
        0 <= parse_write_responses(b, n)->Ok_0.1 <= b.len(),
    decreases n,
{
    if n > 0 {
        lemma_parse_write_responses_bound(b.skip(1), (n - 1) as nat);
    }
}

} // verus!
