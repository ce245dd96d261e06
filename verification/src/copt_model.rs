//! Mathematical model of the COTP (class 0) wire format, and of the
//! TPKT framing around it.
//!
//! As in `s7_model`, every frame shape has a model value, an encoding
//! and a parse function, with round-trip lemmas tying them together.

use vstd::prelude::*;
use crate::copt::{Error, TpduSize};
use crate::s7_model::{SpecFrame, s7_need_more, s7_total, parse_frame, lemma_s7_enc_header_facts,
    lemma_s7_round_trip, lemma_s7_prefix_needs_more};
use crate::be16_at;

verus! {

/// Model of one variable part of a Connect Request/Confirm.
#[verifier::ext_equal]
pub enum SpecParameter {
    TpduSize(TpduSize),
    SrcTsap(Seq<u8>),
    DstTsap(Seq<u8>),
}

impl SpecParameter {
    pub open spec fn wf(self) -> bool {
        match self {
            SpecParameter::TpduSize(_) => true,
            SpecParameter::SrcTsap(d) => d.len() <= 253,
            SpecParameter::DstTsap(d) => d.len() <= 253,
        }
    }

    /// Tag byte, length byte, payload.
    pub open spec fn spec_enc(self) -> Seq<u8> {
        match self {
            SpecParameter::TpduSize(t) => seq![0xc0u8, 1u8, t.spec_code()],
            SpecParameter::SrcTsap(d) => seq![0xc1u8, d.len() as u8] + d,
            SpecParameter::DstTsap(d) => seq![0xc2u8, d.len() as u8] + d,
        }
    }
}

pub open spec fn wf_params(s: Seq<SpecParameter>) -> bool {
    forall|i: int| 0 <= i < s.len() ==> (#[trigger] s[i]).wf()
}

/// Concatenated encoding of a parameter list.
pub open spec fn enc_params(s: Seq<SpecParameter>) -> Seq<u8>
    decreases s.len(),
{
    if s.len() == 0 {
        Seq::<u8>::empty()
    } else {
        s[0].spec_enc() + enc_params(s.skip(1))
    }
}

/// One parameter parsed from the front of `b`, with the bytes consumed.
pub open spec fn parse_param_step(b: Seq<u8>) -> Result<(SpecParameter, int), Error> {
    if b.len() < 2 {
        Err(Error::DataNotEnough)
    } else {
        let t = b[0];
        let l = b[1] as int;
        if b.len() < 2 + l {
            Err(Error::DataNotEnough)
        } else if t == 0xc0 {
            if l != 1 {
                Err(Error::InvalidParameterLength(b[1]))
            } else {
                match TpduSize::spec_try_from(b[2]) {
                    None => Err(Error::UnsupportedTpduSize(b[2])),
                    Some(ts) => Ok((SpecParameter::TpduSize(ts), 3)),
                }
            }
        } else if t == 0xc1 {
            Ok((SpecParameter::SrcTsap(b.subrange(2, 2 + l)), 2 + l))
        } else if t == 0xc2 {
            Ok((SpecParameter::DstTsap(b.subrange(2, 2 + l)), 2 + l))
        } else {
            Err(Error::UnsupportedParameter(t))
        }
    }
}

/// All parameters parsed from `b`; the list runs to the end of the body.
pub open spec fn parse_params(b: Seq<u8>) -> Result<Seq<SpecParameter>, Error>
    decreases b.len(),
{
    if b.len() == 0 {
        Ok(Seq::<SpecParameter>::empty())
    } else {
        match parse_param_step(b) {
            Err(e) => Err(e),
            Ok((p, c)) => if 0 < c <= b.len() {
                match parse_params(b.skip(c)) {
                    Err(e) => Err(e),
                    Ok(ps) => Ok(seq![p] + ps),
                }
            } else {
                Err(Error::DataNotEnough)
            },
        }
    }
}

/// Parsing the encoding of one well-formed parameter in front of any
/// remainder yields the parameter and its exact width.
pub proof fn lemma_param_step_round(p: SpecParameter, rest: Seq<u8>)
    requires
        p.wf(),
    ensures
        parse_param_step(p.spec_enc() + rest) == Ok::<_, Error>((p, p.spec_enc().len() as int)),
{
    let b = p.spec_enc() + rest;
    match p {
        SpecParameter::TpduSize(t) => {
            assert(b[0] == 0xc0 && b[1] == 1 && b[2] == t.spec_code());
            crate::copt::lemma_tpdu_size_round(t);
        },
        SpecParameter::SrcTsap(d) => {
            assert(b[0] == 0xc1 && b[1] == d.len() as u8);
            assert(b.subrange(2, 2 + d.len() as int) =~= d);
        },
        SpecParameter::DstTsap(d) => {
            assert(b[0] == 0xc2 && b[1] == d.len() as u8);
            assert(b.subrange(2, 2 + d.len() as int) =~= d);
        },
    }
}

/// Parsing the encoding of a well-formed parameter list yields it back.
pub proof fn lemma_params_round(s: Seq<SpecParameter>)
    requires
        wf_params(s),
    ensures
        parse_params(enc_params(s)) == Ok::<_, Error>(s),
    decreases s.len(),
{
    if s.len() == 0 {
        assert(s =~= Seq::<SpecParameter>::empty());
    } else {
        let first = s[0];
        assert(first.wf());
        let b = enc_params(s);
        assert(b =~= first.spec_enc() + enc_params(s.skip(1)));
        lemma_param_step_round(first, enc_params(s.skip(1)));
        assert(first.spec_enc().len() >= 2);
        assert(b.skip(first.spec_enc().len() as int) =~= enc_params(s.skip(1)));
        assert(wf_params(s.skip(1))) by {
            assert(forall|i: int|
                0 <= i < s.skip(1).len() ==> s.skip(1)[i] == s[i + 1] && (#[trigger] s.skip(
                    1,
                )[i]).wf());
        }
        lemma_params_round(s.skip(1));
        assert(seq![first] + s.skip(1) =~= s);
    }
}

/// Model of the fixed part and parameters of a Connect Request/Confirm.
#[verifier::ext_equal]
pub struct SpecConnectComm {
    pub destination_ref: Seq<u8>,
    pub source_ref: Seq<u8>,
    pub class: u8,
    pub extended_formats: bool,
    pub no_explicit_flow_control: bool,
    pub parameters: Seq<SpecParameter>,
}

/// The flags byte: class in the high four bits, extended formats in
/// bit 1, no explicit flow control in bit 0, all joined by or-ing.
pub open spec fn merge_byte(class: u8, extended_formats: bool, no_explicit_flow_control: bool)
    -> u8 {
    ((class % 16) * 16 + (if extended_formats {
        2int
    } else {
        0int
    }) + (if no_explicit_flow_control {
        1int
    } else {
        0int
    })) as u8
}

/// The flags byte determines class and both flags (the class up to its
/// low four bits).
pub proof fn lemma_merge_round(class: u8, extended_formats: bool, no_explicit_flow_control: bool)
    requires
        class <= 15,
    ensures
        merge_byte(class, extended_formats, no_explicit_flow_control) / 16 == class,
        ((merge_byte(class, extended_formats, no_explicit_flow_control) / 2) % 2 == 1)
            == extended_formats,
        (merge_byte(class, extended_formats, no_explicit_flow_control) % 2 == 1)
            == no_explicit_flow_control,
{
    let e: int = if extended_formats {
        2
    } else {
        0
    };
    let f: int = if no_explicit_flow_control {
        1
    } else {
        0
    };
    let m = class * 16 + e + f;
    assert(merge_byte(class, extended_formats, no_explicit_flow_control) == m);
    assert(m / 16 == class && (m / 2) % 2 == e / 2 && m % 2 == f) by (nonlinear_arith)
        requires
            m == class * 16 + e + f && class <= 15 && (e == 0 || e == 2) && (f == 0 || f == 1),
    ;
}

impl SpecConnectComm {
    pub open spec fn wf(self) -> bool {
        &&& self.destination_ref.len() == 2
        &&& self.source_ref.len() == 2
        &&& self.class <= 15
        &&& wf_params(self.parameters)
        &&& enc_params(self.parameters).len() <= 249
    }

    /// The body after the length and PDU-code bytes.
    pub open spec fn spec_enc(self) -> Seq<u8> {
        self.destination_ref + self.source_ref + seq![
            merge_byte(self.class, self.extended_formats, self.no_explicit_flow_control),
        ] + enc_params(self.parameters)
    }
}

/// A Connect body parsed from its exact byte slice.
pub open spec fn parse_connect_comm(b: Seq<u8>) -> Result<SpecConnectComm, Error> {
    if b.len() < 5 {
        Err(Error::DataNotEnough)
    } else {
        match parse_params(b.skip(5)) {
            Err(e) => Err(e),
            Ok(ps) => Ok(SpecConnectComm {
                destination_ref: b.subrange(0, 2),
                source_ref: b.subrange(2, 4),
                class: b[4] / 16,
                extended_formats: (b[4] / 2) % 2 == 1,
                no_explicit_flow_control: b[4] % 2 == 1,
                parameters: ps,
            }),
        }
    }
}

/// Parsing the encoding of a well-formed Connect body yields it back.
pub proof fn lemma_connect_comm_round(c: SpecConnectComm)
    requires
        c.wf(),
    ensures
        parse_connect_comm(c.spec_enc()) == Ok::<_, Error>(c),
        c.spec_enc().len() == 5 + enc_params(c.parameters).len(),
{
    let b = c.spec_enc();
    assert(b.subrange(0, 2) =~= c.destination_ref);
    assert(b.subrange(2, 4) =~= c.source_ref);
    assert(b[4] == merge_byte(c.class, c.extended_formats, c.no_explicit_flow_control));
    lemma_merge_round(c.class, c.extended_formats, c.no_explicit_flow_control);
    assert(b.skip(5) =~= enc_params(c.parameters));
    lemma_params_round(c.parameters);
}

/// Model of a Data Transfer PDU carrying one S7 frame.
#[verifier::ext_equal]
pub struct SpecDtData {
    pub tpdu_number: u8,
    pub last_data_unit: bool,
    pub payload: SpecFrame,
}

impl SpecDtData {
    pub open spec fn wf(self) -> bool {
        &&& self.tpdu_number <= 127
        &&& self.payload.wf()
    }

    /// The single byte joining the TPDU number (bits 0..6) and the
    /// last-data-unit flag (bit 7).
    pub open spec fn merge(self) -> u8 {
        (self.tpdu_number % 128 + if self.last_data_unit {
            128int
        } else {
            0int
        }) as u8
    }
}

/// Model of a COTP frame.
#[verifier::ext_equal]
pub enum SpecPduType {
    ConnectRequest(SpecConnectComm),
    ConnectConfirm(SpecConnectComm),
    DtData(SpecDtData),
}

#[verifier::ext_equal]
pub struct SpecCoptFrame {
    pub pdu_type: SpecPduType,
}

impl SpecCoptFrame {
    pub open spec fn wf(self) -> bool {
        match self.pdu_type {
            SpecPduType::ConnectRequest(c) => c.wf(),
            SpecPduType::ConnectConfirm(c) => c.wf(),
            SpecPduType::DtData(d) => d.wf(),
        }
    }

    /// Length byte (the header length excluding itself), PDU code, body.
    pub open spec fn spec_enc(self) -> Seq<u8> {
        match self.pdu_type {
            SpecPduType::ConnectRequest(c) => seq![(c.spec_enc().len() + 1) as u8, 0xe0u8]
                + c.spec_enc(),
            SpecPduType::ConnectConfirm(c) => seq![(c.spec_enc().len() + 1) as u8, 0xd0u8]
                + c.spec_enc(),
            SpecPduType::DtData(d) => seq![2u8, 0xf0u8, d.merge()] + d.payload.spec_enc(),
        }
    }
}

/// True while too few bytes are buffered to hold the COTP frame that
/// the buffered header announces.
pub open spec fn copt_need_more(b: Seq<u8>) -> bool {
    if b.len() < 2 {
        true
    } else if b[1] == 0xe0 || b[1] == 0xd0 {
        b.len() < b[0] + 1
    } else if b[1] == 0xf0 {
        b[0] == 2 && (b.len() < 3 || s7_need_more(b.skip(3)))
    } else {
        false
    }
}

/// The byte count of the complete frame that starts at `b`.
pub open spec fn copt_total(b: Seq<u8>) -> int {
    if b[1] == 0xf0 {
        3 + s7_total(b.skip(3))
    } else {
        b[0] + 1
    }
}

/// A COTP frame parsed from its exact byte slice.
pub open spec fn parse_copt_frame(b: Seq<u8>) -> Result<SpecCoptFrame, Error> {
    if b.len() < 2 {
        Err(Error::DataNotEnough)
    } else if b[1] == 0xe0 || b[1] == 0xd0 {
        let length = b[0] + 1;
        if b.len() < length {
            Err(Error::DataNotEnough)
        } else if b.len() > length {
            Err(Error::LengthMismatch)
        } else {
            match parse_connect_comm(b.skip(2)) {
                Err(e) => Err(e),
                Ok(c) => Ok(SpecCoptFrame {
                    pdu_type: if b[1] == 0xe0 {
                        SpecPduType::ConnectRequest(c)
                    } else {
                        SpecPduType::ConnectConfirm(c)
                    },
                }),
            }
        }
    } else if b[1] == 0xf0 {
        if b[0] != 2 {
            Err(Error::LengthMismatch)
        } else if b.len() < 3 {
            Err(Error::DataNotEnough)
        } else {
            match parse_frame(b.skip(3)) {
                Err(e) => Err(Error::Payload(e)),
                Ok(f) => Ok(SpecCoptFrame {
                    pdu_type: SpecPduType::DtData(SpecDtData {
                        tpdu_number: b[2] % 128,
                        last_data_unit: b[2] / 128 == 1,
                        payload: f,
                    }),
                }),
            }
        }
    } else {
        Err(Error::UnsupportedPduType(b[1]))
    }
}

/// Structural facts about the encoding of a well-formed COTP frame.
pub proof fn lemma_copt_enc_header_facts(c: SpecCoptFrame)
    requires
        c.wf(),
    ensures
        c.spec_enc().len() >= 3,
        copt_total(c.spec_enc()) == c.spec_enc().len(),
        match c.pdu_type {
            SpecPduType::ConnectRequest(conn) => c.spec_enc()[1] == 0xe0 && c.spec_enc()[0]
                == conn.spec_enc().len() + 1,
            SpecPduType::ConnectConfirm(conn) => c.spec_enc()[1] == 0xd0 && c.spec_enc()[0]
                == conn.spec_enc().len() + 1,
            SpecPduType::DtData(d) => c.spec_enc()[1] == 0xf0 && c.spec_enc()[0] == 2,
        },
{
    let e = c.spec_enc();
    match c.pdu_type {
        SpecPduType::ConnectRequest(conn) => {
            lemma_connect_comm_round(conn);
        },
        SpecPduType::ConnectConfirm(conn) => {
            lemma_connect_comm_round(conn);
        },
        SpecPduType::DtData(d) => {
            assert(e.skip(3) =~= d.payload.spec_enc());
            lemma_s7_enc_header_facts(d.payload);
        },
    }
}

/// Round trip of the COTP codec: parsing the encoding of any
/// well-formed frame yields that frame back.
pub proof fn lemma_copt_round_trip(c: SpecCoptFrame)
    requires
        c.wf(),
    ensures
        parse_copt_frame(c.spec_enc()) == Ok::<_, Error>(c),
{
    let e = c.spec_enc();
    lemma_copt_enc_header_facts(c);
    match c.pdu_type {
        SpecPduType::ConnectRequest(conn) => {
            assert(e.skip(2) =~= conn.spec_enc());
            lemma_connect_comm_round(conn);
        },
        SpecPduType::ConnectConfirm(conn) => {
            assert(e.skip(2) =~= conn.spec_enc());
            lemma_connect_comm_round(conn);
        },
        SpecPduType::DtData(d) => {
            assert(e.skip(3) =~= d.payload.spec_enc());
            lemma_s7_round_trip(d.payload);
            assert(e[2] == d.merge());
            assert(d.merge() % 128 == d.tpdu_number && (d.merge() / 128 == 1)
                == d.last_data_unit) by {
                assert(d.tpdu_number % 128 == d.tpdu_number);
            }
        },
    }
}

/// Resumability of the COTP decoder: every strict prefix of a
/// well-formed frame's encoding still reads as "need more bytes".
pub proof fn lemma_copt_prefix_needs_more(c: SpecCoptFrame, i: int)
    requires
        c.wf(),
        0 <= i < c.spec_enc().len(),
    ensures
        copt_need_more(c.spec_enc().take(i)),
{
    let e = c.spec_enc();
    lemma_copt_enc_header_facts(c);
    let p = e.take(i);
    if i >= 2 {
        assert(p[0] == e[0] && p[1] == e[1]);
        match c.pdu_type {
            SpecPduType::ConnectRequest(conn) => {},
            SpecPduType::ConnectConfirm(conn) => {},
            SpecPduType::DtData(d) => {
                if i >= 3 {
                    assert(p.skip(3) =~= d.payload.spec_enc().take(i - 3));
                    lemma_s7_prefix_needs_more(d.payload, i - 3);
                }
            },
        }
    }
}

/// Appending bytes to a whole well-formed COTP encoding leaves the
/// frame that a parse of the advertised total finds unchanged.
#[verifier::rlimit(100)]
pub proof fn lemma_copt_decode_of_enc(c: SpecCoptFrame, rest: Seq<u8>)
    requires
        c.wf(),
    ensures
        !copt_need_more(c.spec_enc() + rest),
        copt_total(c.spec_enc() + rest) == c.spec_enc().len(),
        parse_copt_frame((c.spec_enc() + rest).take(copt_total(c.spec_enc() + rest))) == Ok::<
            _,
            Error,
        >(c),
        (c.spec_enc() + rest).skip(copt_total(c.spec_enc() + rest)) == rest,
{
    let e = c.spec_enc();
    let b = e + rest;
    lemma_copt_enc_header_facts(c);
    assert(b[0] == e[0] && b[1] == e[1]);
    match c.pdu_type {
        SpecPduType::ConnectRequest(_) => {
            assert(!copt_need_more(b) && copt_total(b) == e.len());
        },
        SpecPduType::ConnectConfirm(_) => {
            assert(!copt_need_more(b) && copt_total(b) == e.len());
        },
        SpecPduType::DtData(d) => {
            assert(b.skip(3) =~= d.payload.spec_enc() + rest);
            crate::s7_model::lemma_s7_enc_with_rest(d.payload, rest);
            assert(!s7_need_more(b.skip(3)));
            assert(!copt_need_more(b));
            assert(s7_total(b.skip(3)) == d.payload.spec_enc().len());
            assert(copt_total(b) == e.len());
        },
    }
    assert(b.take(e.len() as int) =~= e);
    assert(b.skip(e.len() as int) =~= rest);
    lemma_copt_round_trip(c);
}

} // verus!
