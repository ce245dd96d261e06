//! TPKT framing (RFC 1006): a four-byte header whose length field
//! covers the whole frame, header included, around a COTP payload.

use vstd::prelude::*;
use crate::buf::{buf_data, buf_len, buf_byte_at, buf_new, buf_put_u8, buf_put_u16, buf_put_buf,
    buf_split_to};
use crate::copt::{CoptFrame, CoptEncoder, CoptDecoder};
use crate::copt_model::{SpecCoptFrame, parse_copt_frame};
use crate::{be16_at, enc_u16};
use bytes::BytesMut;

verus! {

/// Errors of the TPKT framing layer.
#[derive(Debug, Clone, Copy, PartialEq, Eq, Structural)]
pub enum Error {
    /// The length field is smaller than the four header bytes it covers.
    InvalidLength,
    /// The frame is wider than its length field announces.
    LengthMismatch,
    /// A framed body holds fewer bytes than its length field promises.
    DataNotEnough,
    /// The COTP payload of the frame was refused.
    Payload(crate::copt::Error),
}

/// Model of a TPKT frame.
#[verifier::ext_equal]
pub struct SpecTpktFrame {
    pub version: u8,
    pub payload: SpecCoptFrame,
}

impl SpecTpktFrame {
    pub open spec fn wf(self) -> bool {
        &&& self.payload.wf()
        &&& self.payload.spec_enc().len() + 4 <= 0xFFFF
    }

    /// Version, a zero byte, the total length big-endian, the payload.
    pub open spec fn spec_enc(self) -> Seq<u8> {
        seq![self.version, 0u8] + enc_u16((self.payload.spec_enc().len() + 4) as u16)
            + self.payload.spec_enc()
    }
}

/// True while too few bytes are buffered to hold the frame that the
/// length field (or its absence) announces.
pub open spec fn tpkt_need_more(b: Seq<u8>) -> bool {
    b.len() < 4 || b.len() < be16_at(b, 2)
}

/// The byte count the length field claims for the whole frame.
pub open spec fn tpkt_total(b: Seq<u8>) -> int {
    be16_at(b, 2)
}

/// A TPKT frame parsed from its exact byte slice.
pub open spec fn parse_tpkt_frame(b: Seq<u8>) -> Result<SpecTpktFrame, Error> {
    if b.len() < 4 {
        Err(Error::DataNotEnough)
    } else {
        let length = be16_at(b, 2);
        if length < 4 {
            Err(Error::InvalidLength)
        } else if b.len() < length {
            Err(Error::DataNotEnough)
        } else if b.len() > length {
            Err(Error::LengthMismatch)
        } else {
            match parse_copt_frame(b.subrange(4, length)) {
                Err(e) => Err(Error::Payload(e)),
                Ok(c) => Ok(SpecTpktFrame { version: b[0], payload: c }),
            }
        }
    }
}

/// Structural facts about the encoding of a well-formed TPKT frame.
pub proof fn lemma_tpkt_enc_header_facts(t: SpecTpktFrame)
    requires
        t.wf(),
    ensures
        t.spec_enc().len() >= 4,
        t.spec_enc().len() == t.payload.spec_enc().len() + 4,
        be16_at(t.spec_enc(), 2) == t.spec_enc().len(),
        t.spec_enc()[0] == t.version,
{
    let e = t.spec_enc();
    let total = t.payload.spec_enc().len() + 4;
    assert(e[2] == total as int / 256 && e[3] == total as int % 256);
}

/// Round trip of the TPKT codec: parsing the encoding of any
/// well-formed frame yields that frame back.
pub proof fn lemma_tpkt_round_trip(t: SpecTpktFrame)
    requires
        t.wf(),
    ensures
        parse_tpkt_frame(t.spec_enc()) == Ok::<_, Error>(t),
{
    let e = t.spec_enc();
    lemma_tpkt_enc_header_facts(t);
    assert(e.subrange(4, e.len() as int) =~= t.payload.spec_enc());
    crate::copt_model::lemma_copt_round_trip(t.payload);
}

/// Resumability of the TPKT decoder: every strict prefix of a
/// well-formed frame's encoding still reads as "need more bytes".
pub proof fn lemma_tpkt_prefix_needs_more(t: SpecTpktFrame, i: int)
    requires
        t.wf(),
        0 <= i < t.spec_enc().len(),
    ensures
        tpkt_need_more(t.spec_enc().take(i)),
{
    let e = t.spec_enc();
    lemma_tpkt_enc_header_facts(t);
    let p = e.take(i);
    if i >= 4 {
        assert(be16_at(p, 2) == be16_at(e, 2));
    }
}

/// Appending bytes to a whole well-formed TPKT encoding leaves the
/// frame that a parse of the advertised total finds unchanged.
pub proof fn lemma_tpkt_decode_of_enc(t: SpecTpktFrame, rest: Seq<u8>)
    requires
        t.wf(),
    ensures
        !tpkt_need_more(t.spec_enc() + rest),
        tpkt_total(t.spec_enc() + rest) == t.spec_enc().len(),
        parse_tpkt_frame((t.spec_enc() + rest).take(tpkt_total(t.spec_enc() + rest))) == Ok::<
            _,
            Error,
        >(t),
        (t.spec_enc() + rest).skip(tpkt_total(t.spec_enc() + rest)) == rest,
{
    let e = t.spec_enc();
    let b = e + rest;
    lemma_tpkt_enc_header_facts(t);
    assert(be16_at(b, 2) == be16_at(e, 2));
    assert(b.take(e.len() as int) =~= e);
    assert(b.skip(e.len() as int) =~= rest);
    lemma_tpkt_round_trip(t);
}

/// Conversion of a payload layer's error into this layer's error.
pub trait ToTpktError {
    fn to_err(self) -> Error;
}

impl ToTpktError for crate::copt::Error {
    fn to_err(self) -> (r: Error)
        ensures
            r == Error::Payload(self),
    {
        Error::Payload(self)
    }
}

/// One TPKT frame around a COTP payload.
#[derive(Debug)]
pub struct TpktFrame {
    pub version: u8,
    pub payload: CoptFrame,
}

impl View for TpktFrame {
    type V = SpecTpktFrame;

    open spec fn view(&self) -> SpecTpktFrame {
        SpecTpktFrame { version: self.version, payload: self.payload@ }
    }
}

impl TpktFrame {
    pub fn new(payload: CoptFrame) -> (r: Self)
        ensures
            r@ == (SpecTpktFrame { version: 3u8, payload: payload@ }),
    {
        Self { version: 3, payload }
    }

    pub fn version_mut(&mut self, version: u8)
        ensures
            final(self)@ == (SpecTpktFrame { version, payload: old(self)@.payload }),
    {
        self.version = version;
    }

    pub fn payload(self) -> (r: CoptFrame)
        ensures
            r@ == self@.payload,
    {
        self.payload
    }

    /// Serializes the frame into a fresh buffer.
    pub fn to_bytes(self) -> (r: Result<BytesMut, Error>)
        requires
            self@.wf(),
        ensures
            match r {
                Ok(b) => buf_data(b) == self@.spec_enc(),
                Err(_) => false,
            },
    {
        let mut encoder = TpktEncoder(CoptEncoder(crate::s7_comm::S7CommEncoder));
        let mut dst = buf_new();
        match encoder.encode(self, &mut dst) {
            Ok(()) => {
                proof {
                    assert(buf_data(dst) =~= self@.spec_enc());
                }
                Ok(dst)
            },
            Err(e) => Err(e),
        }
    }
}

/// Serializer for TPKT frames; carries the serializer of the payload.
pub struct TpktEncoder(pub CoptEncoder);

impl TpktEncoder {
    /// Appends the frame's encoding to `dst`: the payload is encoded
    /// first, so the length field can cover it exactly.
    pub fn encode(&mut self, item: TpktFrame, dst: &mut BytesMut) -> (r: Result<(), Error>)
        requires
            item@.wf(),
        ensures
            r is Ok,
            buf_data(*final(dst)) == buf_data(*old(dst)) + item@.spec_enc(),
    {
        let ghost spec_frame = item@;
        let mut payload = buf_new();
        let version = item.version;
        match self.0.encode(item.payload, &mut payload) {
            Ok(()) => {},
            Err(e) => {
                proof {
                    assert(false);
                }
                return Err(Error::Payload(e));
            },
        }
        let length = buf_len(&payload) as u16 + 4;
        buf_put_u8(dst, version);
        buf_put_u8(dst, 0);
        buf_put_u16(dst, length);
        buf_put_buf(dst, &payload);
        proof {
            assert(buf_data(*dst) =~= buf_data(*old(dst)) + spec_frame.spec_enc());
        }
        Ok(())
    }
}

/// Length-aware, resumable deserializer for TPKT frames; carries the
/// deserializer of the payload.
pub struct TpktDecoder(pub CoptDecoder);

impl TpktDecoder {
    /// Reads one frame if the buffer holds it whole. While the length
    /// field announces more bytes than are buffered, returns `None` and
    /// leaves the buffer untouched, so the caller can resume with more
    /// input. A payload that falls short inside the framed body is a
    /// fatal decode error, not an incomplete frame.
    pub fn decode(&mut self, src: &mut BytesMut) -> (r: Result<Option<TpktFrame>, Error>)
        ensures
            match r {
                Ok(opt) => match opt {
                    None => tpkt_need_more(buf_data(*old(src))) && buf_data(*final(src))
                        == buf_data(*old(src)),
                    Some(f) => !tpkt_need_more(buf_data(*old(src))) && parse_tpkt_frame(
                        buf_data(*old(src)).take(tpkt_total(buf_data(*old(src)))),
                    ) == Ok::<SpecTpktFrame, Error>(f@) && buf_data(*final(src)) == buf_data(
                        *old(src),
                    ).skip(tpkt_total(buf_data(*old(src)))),
                },
                Err(e) => !tpkt_need_more(buf_data(*old(src))) && {
                    let b = buf_data(*old(src));
                    if tpkt_total(b) < 4 {
                        e == Error::InvalidLength
                    } else {
                        parse_tpkt_frame(b.take(tpkt_total(b))) == Err::<SpecTpktFrame, Error>(e)
                    }
                },
            },
    {
        let ghost b = buf_data(*src);
        let n = buf_len(src);
        if n < 4 {
            return Ok(None);
        }
        let length16 = (buf_byte_at(src, 2) as u16) * 256 + (buf_byte_at(src, 3) as u16);
        let length = length16 as usize;
        if length < 4 {
            return Err(Error::InvalidLength);
        }
        if n < length {
            return Ok(None);
        }
        let mut framed = buf_split_to(src, length);
        let version = crate::buf::buf_get_u8(&mut framed);
        let _reserved = crate::buf::buf_get_u8(&mut framed);
        let _length = crate::buf::buf_get_u16(&mut framed);
        proof {
            assert(buf_data(framed) =~= b.take(length as int).subrange(4, length as int));
        }
        match CoptFrame::decode_complete(&mut framed) {
            Ok(payload) => Ok(Some(TpktFrame { version, payload })),
            Err(e) => Err(Error::Payload(e)),
        }
    }
}

} // verus!
