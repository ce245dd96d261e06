//! The pure decision logic of a client session: building the framed
//! request bytes of the handshake and of read/write operations, picking
//! the negotiated values out of responses, and the session lifecycle.
//!
//! The byte-stream I/O around these functions lives outside the
//! library; it hands frames in and carries the returned bytes out.

use vstd::prelude::*;
use crate::buf::{buf_data, buf_new};
use crate::client::{Area, ConnectMode, Error};
use crate::copt::{CoptEncoder, CoptFrame, Parameter, PduType, TpduSize, view_params};
use crate::copt_builder::ConnectBuilder;
use crate::copt_model::{SpecConnectComm, SpecCoptFrame, SpecDtData, SpecParameter, SpecPduType,
    enc_params, wf_params};
use crate::s7_builder::{pairs_requests, pairs_values};
use crate::s7_comm::{DataItemVal, DataItemWriteResponse, Frame, Header, ItemRequest, ReturnCode,
    S7CommEncoder, SetupCommunication, view_data_items, view_write_responses};
use crate::s7_model::{SpecFrame, SpecJob, SpecReadVarJob, SpecWriteVarJob, SpecAckData,
    enc_data_items, enc_item_requests, wf_data_items, wf_item_requests, lemma_s7_enc_header_facts,
    lemma_enc_item_requests_len};
use crate::tpkt::{SpecTpktFrame, TpktEncoder, TpktFrame};
use crate::client::spec_area_item_request;
use bytes::BytesMut;

verus! {

/// Serializer of the full stack: TPKT around COTP around S7.
pub struct S7Encoder(pub TpktEncoder);

impl Default for S7Encoder {
    fn default() -> (r: Self) {
        S7Encoder(TpktEncoder(CoptEncoder(S7CommEncoder)))
    }
}

impl S7Encoder {
    /// Appends the frame's encoding to `dst`.
    pub fn encode(&mut self, item: TpktFrame, dst: &mut BytesMut) -> (r: Result<
        (),
        crate::tpkt::Error,
    >)
        requires
            item@.wf(),
        ensures
            r is Ok,
            buf_data(*final(dst)) == buf_data(*old(dst)) + item@.spec_enc(),
    {
        self.0.encode(item, dst)
    }
}

/// The lifecycle of a session. Operations are admitted only in
/// `Ready`; any fault is terminal.
#[derive(Debug, Clone, Copy, PartialEq, Eq, Structural)]
pub enum SessionState {
    /// No exchange has happened yet.
    New,
    /// The COTP Connect Confirm has been received.
    CoptConnected,
    /// The S7 SetupCommunication Job has been sent.
    S7Setup,
    /// The setup acknowledgement has been received; operations may run.
    Ready,
    /// A fault or an out-of-order exchange ended the session.
    Failed,
}

/// What the transport loop observed.
#[derive(Debug, Clone, Copy, PartialEq, Eq, Structural)]
pub enum SessionEvent {
    /// A Connect Confirm answered the Connect Request.
    ConnectConfirmed,
    /// The SetupCommunication Job went out.
    SetupSent,
    /// The setup AckData arrived.
    SetupAcknowledged,
    /// An error, a timeout, or an unexpected frame.
    Fault,
}

/// The successor state: the handshake advances only in order, and
/// everything else fails the session.
pub open spec fn spec_transition(state: SessionState, event: SessionEvent) -> SessionState {
    match (state, event) {
        (SessionState::New, SessionEvent::ConnectConfirmed) => SessionState::CoptConnected,
        (SessionState::CoptConnected, SessionEvent::SetupSent) => SessionState::S7Setup,
        (SessionState::S7Setup, SessionEvent::SetupAcknowledged) => SessionState::Ready,
        _ => SessionState::Failed,
    }
}

/// Advances the session lifecycle on one event.
pub fn transition(state: SessionState, event: SessionEvent) -> (r: SessionState)
    ensures
        r == spec_transition(state, event),
{
    match (state, event) {
        (SessionState::New, SessionEvent::ConnectConfirmed) => SessionState::CoptConnected,
        (SessionState::CoptConnected, SessionEvent::SetupSent) => SessionState::S7Setup,
        (SessionState::S7Setup, SessionEvent::SetupAcknowledged) => SessionState::Ready,
        _ => SessionState::Failed,
    }
}

/// Whether read and write operations may run in this state.
pub fn can_operate(state: &SessionState) -> (r: bool)
    ensures
        r == (*state is Ready),
{
    match state {
        SessionState::Ready => true,
        _ => false,
    }
}

/// A failed session never leaves the failed state: no event sequence
/// brings it back to `Ready`.
pub proof fn lemma_failed_is_terminal(event: SessionEvent)
    ensures
        spec_transition(SessionState::Failed, event) == SessionState::Failed,
{
}

/// Only the ordered handshake reaches `Ready`: a transition yields
/// `Ready` exactly from `S7Setup` on its acknowledgement.
pub proof fn lemma_ready_only_after_setup(state: SessionState, event: SessionEvent)
    ensures
        spec_transition(state, event) == SessionState::Ready <==> (state is S7Setup
            && event is SetupAcknowledged),
{
}

/// The Connect Request frame of the handshake: class 0 without
/// extended formats or explicit flow control, TPDU size 1024, and the
/// TSAPs the connect mode derives.
pub open spec fn spec_connect_request_frame(conn_mode: ConnectMode) -> SpecTpktFrame {
    SpecTpktFrame {
        version: 3,
        payload: SpecCoptFrame {
            pdu_type: SpecPduType::ConnectRequest(SpecConnectComm {
                destination_ref: seq![0u8, 0u8],
                source_ref: seq![0u8, 1u8],
                class: 0,
                extended_formats: false,
                no_explicit_flow_control: false,
                parameters: seq![
                    SpecParameter::TpduSize(TpduSize::L1024),
                    SpecParameter::SrcTsap(conn_mode.spec_local_tsap()),
                    SpecParameter::DstTsap(conn_mode.spec_remote_tsap()),
                ],
            }),
        },
    }
}

/// Serializes the Connect Request the handshake opens with.
pub fn build_framed_copt_connect_request(conn_mode: &ConnectMode) -> (r: Result<
    BytesMut,
    crate::tpkt::Error,
>)
    ensures
        match r {
            Ok(b) => buf_data(b) == spec_connect_request_frame(*conn_mode).spec_enc(),
            Err(_) => false,
        },
{
    let local = conn_mode.local_tsap();
    let remote = conn_mode.remote_tsap();
    let mut local_vec: Vec<u8> = Vec::new();
    local_vec.push(local[0]);
    local_vec.push(local[1]);
    let mut remote_vec: Vec<u8> = Vec::new();
    remote_vec.push(remote[0]);
    remote_vec.push(remote[1]);
    proof {
        assert(local_vec@ =~= conn_mode.spec_local_tsap());
        assert(remote_vec@ =~= conn_mode.spec_remote_tsap());
    }
    let copt_frame = ConnectBuilder::default().source_ref([0, 1]).destination_ref(
        [0, 0],
    ).class_and_others(0, false, false).push_parameter(
        Parameter::new_tpdu_size(TpduSize::L1024),
    ).push_parameter(Parameter::new_src_tsap(local_vec)).push_parameter(
        Parameter::new_dst_tsap(remote_vec),
    ).build_to_request();
    let frame = TpktFrame::new(copt_frame);
    proof {
        assert(frame@ =~= spec_connect_request_frame(*conn_mode));
        lemma_connect_request_frame_wf(*conn_mode);
    }
    let mut dst = buf_new();
    let mut encoder = S7Encoder::default();
    match encoder.encode(frame, &mut dst) {
        Ok(()) => {
            proof {
                assert(buf_data(dst) =~= spec_connect_request_frame(*conn_mode).spec_enc());
            }
            Ok(dst)
        },
        Err(e) => Err(e),
    }
}

/// The Connect Request of any connect mode is a well-formed frame: the
/// TSAPs are two bytes each, so the parameters stay within the header
/// budget of a class-0 connect.
pub proof fn lemma_connect_request_frame_wf(conn_mode: ConnectMode)
    ensures
        spec_connect_request_frame(conn_mode).wf(),
{
    let f = spec_connect_request_frame(conn_mode);
    let c = f.payload.pdu_type->ConnectRequest_0;
    assert(conn_mode.spec_local_tsap().len() == 2 && conn_mode.spec_remote_tsap().len() == 2);
    assert(wf_params(c.parameters)) by {
        assert(forall|i: int| 0 <= i < 3 ==> (#[trigger] c.parameters[i]).wf());
    }
    assert(enc_params(c.parameters).len() <= 249) by {
        let ps = c.parameters;
        assert(ps.skip(1).skip(1) =~= ps.skip(2));
        assert(ps.skip(2).skip(1) =~= ps.skip(3));
        assert(ps.skip(3) =~= Seq::<SpecParameter>::empty());
        assert(ps[0].spec_enc().len() == 3);
        assert(ps[1].spec_enc().len() == 4);
        assert(ps[2].spec_enc().len() == 4);
        assert(enc_params(ps.skip(3)) =~= Seq::<u8>::empty());
        assert(enc_params(ps.skip(2)) == ps.skip(2)[0].spec_enc() + enc_params(ps.skip(3)));
        assert(enc_params(ps.skip(1)) == ps.skip(1)[0].spec_enc() + enc_params(ps.skip(2)));
        assert(enc_params(ps) == ps[0].spec_enc() + enc_params(ps.skip(1)));
        assert(ps.skip(1)[0] == ps[1] && ps.skip(2)[0] == ps[2]);
    }
    crate::copt_model::lemma_copt_enc_header_facts(f.payload);
    crate::copt_model::lemma_connect_comm_round(c);
}

/// A SetupCommunication Job, wrapped for the wire.
pub open spec fn spec_setup_frame_full(
    pdu_ref: u16,
    max_amq_calling: u16,
    max_amq_called: u16,
    pdu_length: u16,
) -> SpecTpktFrame {
    SpecTpktFrame {
        version: 3,
        payload: SpecCoptFrame {
            pdu_type: SpecPduType::DtData(SpecDtData {
                tpdu_number: 0,
                last_data_unit: true,
                payload: SpecFrame::Job {
                    header: Header {
                        protocol_id: 0x32,
                        reserved: 0,
                        pdu_ref,
                        parameter_len: 8,
                        data_len: 0,
                    },
                    job: SpecJob::SetupCommunication(SetupCommunication {
                        reserved: 0,
                        max_amq_calling,
                        max_amq_called,
                        pdu_length,
                    }),
                },
            }),
        },
    }
}

/// The SetupCommunication Job of the handshake: one calling and one
/// called queue.
pub open spec fn spec_setup_frame(pdu_ref: u16, pdu_length: u16) -> SpecTpktFrame {
    spec_setup_frame_full(pdu_ref, 1, 1, pdu_length)
}

/// Serializes the SetupCommunication Job that negotiates one calling
/// and one called queue and offers `pdu_length` as the S7 PDU size.
pub fn build_framed_s7_setup(pdu_ref: u16, pdu_length: u16) -> (r: Result<
    BytesMut,
    crate::tpkt::Error,
>)
    ensures
        match r {
            Ok(b) => buf_data(b) == spec_setup_frame(pdu_ref, pdu_length).spec_enc(),
            Err(_) => false,
        },
{
    let s7_frame = Frame::job_setup(pdu_ref).max_amq_calling(1).max_amq_called(1).pdu_length(
        pdu_length,
    ).build();
    let copt_frame = CoptFrame::builder_of_dt_data(s7_frame).build(0, true);
    let frame = TpktFrame::new(copt_frame);
    proof {
        assert(frame@ =~= spec_setup_frame(pdu_ref, pdu_length));
        lemma_s7_enc_header_facts(frame@.payload.pdu_type->DtData_0.payload);
    }
    let mut dst = buf_new();
    let mut encoder = S7Encoder::default();
    match encoder.encode(frame, &mut dst) {
        Ok(()) => {
            proof {
                assert(buf_data(dst) =~= spec_setup_frame(pdu_ref, pdu_length).spec_enc());
            }
            Ok(dst)
        },
        Err(e) => Err(e),
    }
}

/// The item requests that a list of area selectors projects onto.
pub open spec fn spec_area_items(areas: Seq<Area>) -> Seq<ItemRequest> {
    areas.map_values(|a: Area| spec_area_item_request(a))
}

/// The ReadVar Job frame for a list of areas, wrapped for the wire.
pub open spec fn spec_read_frame(pdu_ref: u16, areas: Seq<Area>) -> SpecTpktFrame {
    SpecTpktFrame {
        version: 3,
        payload: SpecCoptFrame {
            pdu_type: SpecPduType::DtData(SpecDtData {
                tpdu_number: 0,
                last_data_unit: true,
                payload: SpecFrame::Job {
                    header: Header {
                        protocol_id: 0x32,
                        reserved: 0,
                        pdu_ref,
                        parameter_len: (2 + 12 * areas.len()) as u16,
                        data_len: 0,
                    },
                    job: SpecJob::ReadVar(SpecReadVarJob {
                        count: areas.len() as u8,
                        parameters_item: spec_area_items(areas),
                    }),
                },
            }),
        },
    }
}

/// Serializes a ReadVar Job with one item request per area selector.
pub fn build_framed_s7_read(pdu_ref: u16, areas: &Vec<Area>) -> (r: Result<
    BytesMut,
    crate::tpkt::Error,
>)
    requires
        areas@.len() <= 255,
    ensures
        match r {
            Ok(b) => buf_data(b) == spec_read_frame(pdu_ref, areas@).spec_enc(),
            Err(_) => false,
        },
{
    let mut builder = Frame::job_read_var(pdu_ref);
    let n = areas.len();
    let mut i: usize = 0;
    while i < n
        invariant
            i <= n,
            n == areas@.len() <= 255,
            builder.pdu_ref == pdu_ref,
            builder.items@ == spec_area_items(areas@).take(i as int),
        decreases n - i,
    {
        let item = ItemRequest::from(areas[i]);
        builder = builder.add_item(item);
        proof {
            assert(spec_area_items(areas@).take(i as int).push(item) =~= spec_area_items(
                areas@,
            ).take(i as int + 1));
        }
        i += 1;
    }
    proof {
        assert(spec_area_items(areas@).take(n as int) =~= spec_area_items(areas@));
    }
    let s7_frame = builder.build();
    let copt_frame = CoptFrame::builder_of_dt_data(s7_frame).build(0, true);
    let frame = TpktFrame::new(copt_frame);
    proof {
        assert(frame@ =~= spec_read_frame(pdu_ref, areas@));
        lemma_read_frame_wf(pdu_ref, areas@);
    }
    let mut dst = buf_new();
    let mut encoder = S7Encoder::default();
    match encoder.encode(frame, &mut dst) {
        Ok(()) => {
            proof {
                assert(buf_data(dst) =~= spec_read_frame(pdu_ref, areas@).spec_enc());
            }
            Ok(dst)
        },
        Err(e) => Err(e),
    }
}

/// The ReadVar frame of up to 255 selectors is well formed: every
/// projected item carries known tags, and the sections stay far below
/// the 16-bit length fields.
pub proof fn lemma_read_frame_wf(pdu_ref: u16, areas: Seq<Area>)
    requires
        areas.len() <= 255,
    ensures
        spec_read_frame(pdu_ref, areas).wf(),
{
    let f = spec_read_frame(pdu_ref, areas);
    let items = spec_area_items(areas);
    assert(wf_item_requests(items)) by {
        assert(forall|i: int|
            0 <= i < items.len() ==> (#[trigger] items[i]) == spec_area_item_request(areas[i])
                && items[i].wf());
    }
    lemma_enc_item_requests_len(items);
    lemma_s7_enc_header_facts(f.payload.pdu_type->DtData_0.payload);
}

/// Builds and serializes a single-item WriteVar Job writing `data` at
/// byte granularity.
pub fn build_framed_s7_write_bytes(
    pdu_ref: u16,
    db_number: Option<u16>,
    area: crate::s7_comm::Area,
    byte_addr: u16,
    data: &[u8],
) -> (r: Result<BytesMut, crate::tpkt::Error>)
    requires
        data@.len() <= 8191,
        area.wf(),
        db_number matches Some(x) ==> x != 0,
    ensures
        match r {
            Ok(b) => buf_data(b) == spec_write_bytes_frame(
                pdu_ref,
                db_number,
                area,
                byte_addr,
                data@,
            ).spec_enc(),
            Err(_) => false,
        },
{
    let builder = Frame::job_write_var(pdu_ref).write_bytes(db_number, area, byte_addr, data);
    proof {
        lemma_single_write_wf(pdu_ref, db_number, area, byte_addr, data@);
        assert(pairs_requests(builder.items@) =~= seq![
            ItemRequest::spec_init_byte(db_number, area, byte_addr, data@.len() as u16),
        ]);
        assert(pairs_values(builder.items@) =~= seq![spec_write_bytes_item(data@)]);
    }
    let s7_frame = builder.build();
    let copt_frame = CoptFrame::builder_of_dt_data(s7_frame).build(0, true);
    let frame = TpktFrame::new(copt_frame);
    proof {
        assert(frame@ =~= spec_write_bytes_frame(pdu_ref, db_number, area, byte_addr, data@));
    }
    let mut dst = buf_new();
    let mut encoder = S7Encoder::default();
    match encoder.encode(frame, &mut dst) {
        Ok(()) => {
            proof {
                assert(buf_data(dst) =~= spec_write_bytes_frame(
                    pdu_ref,
                    db_number,
                    area,
                    byte_addr,
                    data@,
                ).spec_enc());
            }
            Ok(dst)
        },
        Err(e) => Err(e),
    }
}

/// The single data item of a byte write.
pub open spec fn spec_write_bytes_item(data: Seq<u8>) -> crate::s7_model::SpecDataItemVal {
    crate::s7_model::SpecDataItemVal {
        return_code: ReturnCode::Reserved,
        transport_size_type: crate::s7_comm::DataTransportSize::NoBit,
        length: (data.len() * 8) as u16,
        data,
    }
}

/// The WriteVar Job frame of one byte-granular write.
pub open spec fn spec_write_bytes_frame(
    pdu_ref: u16,
    db_number: Option<u16>,
    area: crate::s7_comm::Area,
    byte_addr: u16,
    data: Seq<u8>,
) -> SpecTpktFrame {
    SpecTpktFrame {
        version: 3,
        payload: SpecCoptFrame {
            pdu_type: SpecPduType::DtData(SpecDtData {
                tpdu_number: 0,
                last_data_unit: true,
                payload: SpecFrame::Job {
                    header: Header {
                        protocol_id: 0x32,
                        reserved: 0,
                        pdu_ref,
                        parameter_len: 14,
                        data_len: (4 + data.len()) as u16,
                    },
                    job: SpecJob::WriteVar(SpecWriteVarJob {
                        count: 1,
                        parameters_item: seq![
                            ItemRequest::spec_init_byte(db_number, area, byte_addr, data.len() as u16),
                        ],
                        data_item: seq![spec_write_bytes_item(data)],
                    }),
                },
            }),
        },
    }
}

/// A single byte-granular write is a well-formed frame if the payload
/// fits the 16-bit bit-count field; the frame carries no pad byte.
pub proof fn lemma_single_write_wf(
    pdu_ref: u16,
    db_number: Option<u16>,
    area: crate::s7_comm::Area,
    byte_addr: u16,
    data: Seq<u8>,
)
    requires
        data.len() <= 8191,
        area.wf(),
        db_number matches Some(x) ==> x != 0,
    ensures
        spec_write_bytes_frame(pdu_ref, db_number, area, byte_addr, data).wf(),
        enc_data_items(seq![spec_write_bytes_item(data)]).len() == 4 + data.len(),
        enc_item_requests(
            seq![ItemRequest::spec_init_byte(db_number, area, byte_addr, data.len() as u16)],
        ).len() == 12,
{
    let f = spec_write_bytes_frame(pdu_ref, db_number, area, byte_addr, data);
    let items = seq![ItemRequest::spec_init_byte(db_number, area, byte_addr, data.len() as u16)];
    let ditems = seq![spec_write_bytes_item(data)];
    assert(wf_item_requests(items)) by {
        assert(items[0].wf());
    }
    assert(wf_data_items(ditems)) by {
        assert(ditems[0].wf());
    }
    lemma_enc_item_requests_len(items);
    assert(enc_data_items(ditems) == ditems[0].spec_enc());
    lemma_s7_enc_header_facts(f.payload.pdu_type->DtData_0.payload);
}

/// The negotiated TPDU size a Connect Confirm carries: the value of
/// the last TPDU size parameter, if any is present.
pub open spec fn spec_last_tpdu_size(ps: Seq<SpecParameter>) -> Option<TpduSize>
    decreases ps.len(),
{
    if ps.len() == 0 {
        None
    } else {
        match ps.last() {
            SpecParameter::TpduSize(t) => Some(t),
            _ => spec_last_tpdu_size(ps.drop_last()),
        }
    }
}

/// The decision step after the Connect Request: a Connect Confirm
/// yields the TPDU size the peer confirmed (if it sent one); any other
/// frame fails the handshake.
pub fn handle_connect_confirm(frame: &CoptFrame) -> (r: Result<Option<TpduSize>, Error>)
    ensures
        match frame@.pdu_type {
            SpecPduType::ConnectConfirm(c) => r == Ok::<_, Error>(spec_last_tpdu_size(
                c.parameters,
            )),
            _ => r == Err::<Option<TpduSize>, Error>(Error::ConnectError),
        },
{
    match &frame.pdu_type {
        PduType::ConnectConfirm(comm) => {
            let ghost ps = view_params(comm.parameters@);
            let mut found: Option<TpduSize> = None;
            let n = comm.parameters.len();
            let mut i: usize = 0;
            proof {
                assert(ps.take(0) =~= Seq::<SpecParameter>::empty());
            }
            while i < n
                invariant
                    i <= n,
                    n == comm.parameters@.len(),
                    ps == view_params(comm.parameters@),
                    found == spec_last_tpdu_size(ps.take(i as int)),
                decreases n - i,
            {
                match &comm.parameters[i] {
                    Parameter::TpduSize(size) => {
                        found = Some(*size);
                    },
                    _ => {},
                }
                proof {
                    assert(ps.take(i as int + 1).last() == ps[i as int]);
                    assert(ps.take(i as int + 1).drop_last() =~= ps.take(i as int));
                }
                i += 1;
            }
            proof {
                assert(ps.take(n as int) =~= ps);
            }
            Ok(found)
        },
        _ => Err(Error::ConnectError),
    }
}

/// The decision step after the setup Job: a Data Transfer whose S7
/// payload acknowledges the setup yields the PDU length the peer
/// granted; another Data Transfer payload changes nothing; any other
/// PDU kind fails the handshake.
pub fn handle_setup_ack(frame: CoptFrame) -> (r: Result<Option<u16>, Error>)
    ensures
        match frame@.pdu_type {
            SpecPduType::DtData(d) => match d.payload {
                SpecFrame::AckData { ack_data, .. } => match ack_data {
                    SpecAckData::SetupCommunication(s) => r == Ok::<_, Error>(
                        Some(s.pdu_length),
                    ),
                    _ => r == Ok::<_, Error>(None::<u16>),
                },
                _ => r == Ok::<_, Error>(None::<u16>),
            },
            _ => r == Err::<Option<u16>, Error>(Error::ConnectError),
        },
{
    match frame.pdu_type {
        PduType::DtData(comm) => {
            match comm.payload() {
                Frame::AckData { ack_data, .. } => {
                    match ack_data {
                        crate::s7_comm::AckData::SetupCommunication(data) => {
                            Ok(Some(data.pdu_length()))
                        },
                        _ => Ok(None),
                    }
                },
                _ => Ok(None),
            }
        },
        _ => Err(Error::ConnectError),
    }
}

/// The decision step after a ReadVar Job: only a Data Transfer whose
/// S7 payload is a ReadVar AckData answers a read, and its data items
/// are the result.
pub fn handle_read_response(frame: CoptFrame) -> (r: Result<Vec<DataItemVal>, Error>)
    ensures
        match frame@.pdu_type {
            SpecPduType::DtData(d) => match d.payload {
                SpecFrame::AckData { ack_data, .. } => match ack_data {
                    SpecAckData::ReadVar(rv) => r matches Ok(v) && view_data_items(v@)
                        == rv.data_item,
                    _ => r == Err::<Vec<DataItemVal>, Error>(Error::ProtocolError),
                },
                _ => r == Err::<Vec<DataItemVal>, Error>(Error::ProtocolError),
            },
            _ => r == Err::<Vec<DataItemVal>, Error>(Error::ProtocolError),
        },
{
    match frame.pdu_type {
        PduType::DtData(comm) => {
            match comm.payload() {
                Frame::AckData { ack_data, .. } => {
                    match ack_data {
                        crate::s7_comm::AckData::ReadVar(data) => Ok(data.data_item()),
                        _ => Err(Error::ProtocolError),
                    }
                },
                _ => Err(Error::ProtocolError),
            }
        },
        _ => Err(Error::ProtocolError),
    }
}

/// The decision step after a WriteVar Job: only a Data Transfer whose
/// S7 payload is a WriteVar AckData answers a write, and its responses
/// are the result.
pub fn handle_write_response(frame: CoptFrame) -> (r: Result<Vec<DataItemWriteResponse>, Error>)
    ensures
        match frame@.pdu_type {
            SpecPduType::DtData(d) => match d.payload {
                SpecFrame::AckData { ack_data, .. } => match ack_data {
                    SpecAckData::WriteVar(wv) => r matches Ok(v) && view_write_responses(v@)
                        == wv.data_item,
                    _ => r == Err::<Vec<DataItemWriteResponse>, Error>(Error::ProtocolError),
                },
                _ => r == Err::<Vec<DataItemWriteResponse>, Error>(Error::ProtocolError),
            },
            _ => r == Err::<Vec<DataItemWriteResponse>, Error>(Error::ProtocolError),
        },
{
    match frame.pdu_type {
        PduType::DtData(comm) => {
            match comm.payload() {
                Frame::AckData { ack_data, .. } => {
                    match ack_data {
                        crate::s7_comm::AckData::WriteVar(data) => Ok(data.data_item()),
                        _ => Err(Error::ProtocolError),
                    }
                },
                _ => Err(Error::ProtocolError),
            }
        },
        _ => Err(Error::ProtocolError),
    }
}

/// The ReadVar Job frame of an explicit item list, wrapped for the wire.
pub open spec fn spec_read_items_frame(pdu_ref: u16, items: Seq<ItemRequest>) -> SpecTpktFrame {
    SpecTpktFrame {
        version: 3,
        payload: SpecCoptFrame {
            pdu_type: SpecPduType::DtData(SpecDtData {
                tpdu_number: 0,
                last_data_unit: true,
                payload: SpecFrame::Job {
                    header: Header {
                        protocol_id: 0x32,
                        reserved: 0,
                        pdu_ref,
                        parameter_len: (2 + 12 * items.len()) as u16,
                        data_len: 0,
                    },
                    job: SpecJob::ReadVar(SpecReadVarJob {
                        count: items.len() as u8,
                        parameters_item: items,
                    }),
                },
            }),
        },
    }
}

/// A ReadVar frame of up to 255 well-formed items is well formed.
pub proof fn lemma_read_items_frame_wf(pdu_ref: u16, items: Seq<ItemRequest>)
    requires
        items.len() <= 255,
        wf_item_requests(items),
    ensures
        spec_read_items_frame(pdu_ref, items).wf(),
{
    let f = spec_read_items_frame(pdu_ref, items);
    lemma_enc_item_requests_len(items);
    lemma_s7_enc_header_facts(f.payload.pdu_type->DtData_0.payload);
}

/// The WriteVar Job frame of an explicit item list, wrapped for the
/// wire.
pub open spec fn spec_write_items_frame(
    pdu_ref: u16,
    items: Seq<ItemRequest>,
    values: Seq<crate::s7_model::SpecDataItemVal>,
) -> SpecTpktFrame {
    SpecTpktFrame {
        version: 3,
        payload: SpecCoptFrame {
            pdu_type: SpecPduType::DtData(SpecDtData {
                tpdu_number: 0,
                last_data_unit: true,
                payload: SpecFrame::Job {
                    header: Header {
                        protocol_id: 0x32,
                        reserved: 0,
                        pdu_ref,
                        parameter_len: (2 + 12 * items.len()) as u16,
                        data_len: enc_data_items(values).len() as u16,
                    },
                    job: SpecJob::WriteVar(SpecWriteVarJob {
                        count: items.len() as u8,
                        parameters_item: items,
                        data_item: values,
                    }),
                },
            }),
        },
    }
}

/// A WriteVar frame of matching well-formed items and values is well
/// formed when its data section fits the 16-bit length field.
pub proof fn lemma_write_items_frame_wf(
    pdu_ref: u16,
    items: Seq<ItemRequest>,
    values: Seq<crate::s7_model::SpecDataItemVal>,
)
    requires
        items.len() <= 255,
        items.len() == values.len(),
        wf_item_requests(items),
        wf_data_items(values),
        19 + 12 * items.len() + enc_data_items(values).len() <= 0xFFFF,
    ensures
        spec_write_items_frame(pdu_ref, items, values).wf(),
{
    let f = spec_write_items_frame(pdu_ref, items, values);
    lemma_enc_item_requests_len(items);
    lemma_s7_enc_header_facts(f.payload.pdu_type->DtData_0.payload);
}

/// Builder of a framed Connect Request: the connect parameters plus
/// the serialization step.
#[derive(Debug)]
pub struct CoptConnectRequestBuilder {
    pub source_ref: [u8; 2],
    pub destination_ref: [u8; 2],
    pub class: u8,
    pub extended_formats: bool,
    pub no_explicit_flow_control: bool,
    pub parameters: Vec<Parameter>,
}

impl CoptConnectRequestBuilder {
    /// The Connect body the builder will serialize.
    pub open spec fn spec_comm(self) -> SpecConnectComm {
        SpecConnectComm {
            destination_ref: self.destination_ref@,
            source_ref: self.source_ref@,
            class: self.class,
            extended_formats: self.extended_formats,
            no_explicit_flow_control: self.no_explicit_flow_control,
            parameters: view_params(self.parameters@),
        }
    }
}

impl Default for CoptConnectRequestBuilder {
    fn default() -> (r: Self)
        ensures
            r.spec_comm() == (SpecConnectComm {
                destination_ref: seq![0u8, 0u8],
                source_ref: seq![0u8, 0u8],
                class: 0u8,
                extended_formats: false,
                no_explicit_flow_control: false,
                parameters: Seq::<SpecParameter>::empty(),
            }),
    {
        let r = Self {
            source_ref: [0, 0],
            destination_ref: [0, 0],
            class: 0,
            extended_formats: false,
            no_explicit_flow_control: false,
            parameters: Vec::new(),
        };
        proof {
            assert(r.spec_comm().destination_ref =~= seq![0u8, 0u8]);
            assert(r.spec_comm().source_ref =~= seq![0u8, 0u8]);
            assert(r.spec_comm().parameters =~= Seq::<SpecParameter>::empty());
        }
        r
    }
}

impl CoptConnectRequestBuilder {
    pub fn source_ref(self, source_ref: [u8; 2]) -> (r: Self)
        ensures
            r.spec_comm() == (SpecConnectComm { source_ref: source_ref@, ..self.spec_comm() }),
    {
        Self { source_ref, ..self }
    }

    pub fn destination_ref(self, destination_ref: [u8; 2]) -> (r: Self)
        ensures
            r.spec_comm() == (SpecConnectComm {
                destination_ref: destination_ref@,
                ..self.spec_comm()
            }),
    {
        Self { destination_ref, ..self }
    }

    pub fn class_and_others(
        self,
        class: u8,
        extended_formats: bool,
        no_explicit_flow_control: bool,
    ) -> (r: Self)
        ensures
            r.spec_comm() == (SpecConnectComm {
                class,
                extended_formats,
                no_explicit_flow_control,
                ..self.spec_comm()
            }),
    {
        Self { class, extended_formats, no_explicit_flow_control, ..self }
    }

    pub fn push_parameter(self, parameter: Parameter) -> (r: Self)
        ensures
            r.spec_comm() == (SpecConnectComm {
                parameters: self.spec_comm().parameters.push(parameter@),
                ..self.spec_comm()
            }),
    {
        let mut this = self;
        let ghost pre = view_params(this.parameters@);
        this.parameters.push(parameter);
        proof {
            assert(view_params(this.parameters@) =~= pre.push(parameter@));
        }
        this
    }

    pub fn pdu_size(self, pdu_size: TpduSize) -> (r: Self)
        ensures
            r.spec_comm() == (SpecConnectComm {
                parameters: self.spec_comm().parameters.push(SpecParameter::TpduSize(pdu_size)),
                ..self.spec_comm()
            }),
    {
        self.push_parameter(Parameter::TpduSize(pdu_size))
    }

    pub fn src_tsap(self, src_tsap: [u8; 2]) -> (r: Self)
        ensures
            r.spec_comm() == (SpecConnectComm {
                parameters: self.spec_comm().parameters.push(SpecParameter::SrcTsap(src_tsap@)),
                ..self.spec_comm()
            }),
    {
        let mut v: Vec<u8> = Vec::new();
        v.push(src_tsap[0]);
        v.push(src_tsap[1]);
        proof {
            assert(v@ =~= src_tsap@);
        }
        self.push_parameter(Parameter::new_src_tsap(v))
    }

    pub fn dst_tsap(self, dst_tsap: [u8; 2]) -> (r: Self)
        ensures
            r.spec_comm() == (SpecConnectComm {
                parameters: self.spec_comm().parameters.push(SpecParameter::DstTsap(dst_tsap@)),
                ..self.spec_comm()
            }),
    {
        let mut v: Vec<u8> = Vec::new();
        v.push(dst_tsap[0]);
        v.push(dst_tsap[1]);
        proof {
            assert(v@ =~= dst_tsap@);
        }
        self.push_parameter(Parameter::new_dst_tsap(v))
    }

    /// Serializes the Connect Request this builder describes.
    pub fn build_to_request(self) -> (r: Result<BytesMut, crate::tpkt::Error>)
        requires
            self.spec_comm().wf(),
        ensures
            match r {
                Ok(b) => buf_data(b) == (SpecTpktFrame {
                    version: 3u8,
                    payload: SpecCoptFrame {
                        pdu_type: SpecPduType::ConnectRequest(self.spec_comm()),
                    },
                }).spec_enc(),
                Err(_) => false,
            },
    {
        let ghost comm = self.spec_comm();
        let Self {
            source_ref,
            destination_ref,
            class,
            extended_formats,
            no_explicit_flow_control,
            parameters,
        } = self;
        let copt_frame = CoptFrame {
            pdu_type: PduType::ConnectRequest(crate::copt::ConnectComm {
                destination_ref,
                source_ref,
                class,
                extended_formats,
                no_explicit_flow_control,
                parameters,
            }),
        };
        let frame = TpktFrame::new(copt_frame);
        proof {
            crate::copt_model::lemma_copt_enc_header_facts(frame@.payload);
            crate::copt_model::lemma_connect_comm_round(comm);
        }
        let mut dst = buf_new();
        let mut encoder = S7Encoder::default();
        match encoder.encode(frame, &mut dst) {
            Ok(()) => Ok(dst),
            Err(e) => Err(e),
        }
    }
}

/// Builder of a framed SetupCommunication Job.
#[derive(Debug)]
pub struct CoptSetupBuilder {
    pub pdu_ref: u16,
    pub max_amq_calling: u16,
    pub max_amq_called: u16,
    pub pdu_length: u16,
}

impl Default for CoptSetupBuilder {
    fn default() -> (r: Self)
        ensures
            r == (CoptSetupBuilder {
                pdu_ref: 0u16,
                max_amq_calling: 0u16,
                max_amq_called: 0u16,
                pdu_length: 0u16,
            }),
    {
        Self { pdu_ref: 0, max_amq_calling: 0, max_amq_called: 0, pdu_length: 0 }
    }
}

impl CoptSetupBuilder {
    pub fn pdu_ref(self, pdu_ref: u16) -> (r: Self)
        ensures
            r == (CoptSetupBuilder { pdu_ref, ..self }),
    {
        Self { pdu_ref, ..self }
    }

    pub fn max_amq_calling(self, max_amq_calling: u16) -> (r: Self)
        ensures
            r == (CoptSetupBuilder { max_amq_calling, ..self }),
    {
        Self { max_amq_calling, ..self }
    }

    pub fn max_amq_called(self, max_amq_called: u16) -> (r: Self)
        ensures
            r == (CoptSetupBuilder { max_amq_called, ..self }),
    {
        Self { max_amq_called, ..self }
    }

    pub fn pdu_length(self, pdu_length: u16) -> (r: Self)
        ensures
            r == (CoptSetupBuilder { pdu_length, ..self }),
    {
        Self { pdu_length, ..self }
    }

    /// Serializes the SetupCommunication Job this builder describes.
    pub fn build_to_request(self) -> (r: Result<BytesMut, crate::tpkt::Error>)
        ensures
            match r {
                Ok(b) => buf_data(b) == spec_setup_frame_full(
                    self.pdu_ref,
                    self.max_amq_calling,
                    self.max_amq_called,
                    self.pdu_length,
                ).spec_enc(),
                Err(_) => false,
            },
    {
        let s7_frame = Frame::job_setup(self.pdu_ref).max_amq_calling(
            self.max_amq_calling,
        ).max_amq_called(self.max_amq_called).pdu_length(self.pdu_length).build();
        let copt_frame = CoptFrame::builder_of_dt_data(s7_frame).build(0, true);
        let frame = TpktFrame::new(copt_frame);
        proof {
            assert(frame@ =~= spec_setup_frame_full(
                self.pdu_ref,
                self.max_amq_calling,
                self.max_amq_called,
                self.pdu_length,
            ));
            lemma_s7_enc_header_facts(frame@.payload.pdu_type->DtData_0.payload);
        }
        let mut dst = buf_new();
        let mut encoder = S7Encoder::default();
        match encoder.encode(frame, &mut dst) {
            Ok(()) => Ok(dst),
            Err(e) => Err(e),
        }
    }
}

/// Builder of a framed ReadVar Job.
#[derive(Debug)]
pub struct S7ReadBuilder {
    pub pdu_ref: u16,
    pub items: Vec<ItemRequest>,
}

impl Default for S7ReadBuilder {
    fn default() -> (r: Self)
        ensures
            r.pdu_ref == 0,
            r.items@ == Seq::<ItemRequest>::empty(),
    {
        Self { pdu_ref: 0, items: Vec::new() }
    }
}

impl S7ReadBuilder {
    pub fn pdu_ref(self, pdu_ref: u16) -> (r: Self)
        ensures
            r.pdu_ref == pdu_ref,
            r.items@ == self.items@,
    {
        Self { pdu_ref, ..self }
    }

    pub fn add_item(self, item: ItemRequest) -> (r: Self)
        ensures
            r.pdu_ref == self.pdu_ref,
            r.items@ == self.items@.push(item),
    {
        let mut this = self;
        this.items.push(item);
        this
    }

    /// Adds a byte-granular read from a data block.
    pub fn read_db_bytes(self, db_number: u16, byte_addr: u16, len: u16) -> (r: Self)
        ensures
            r.pdu_ref == self.pdu_ref,
            r.items@ == self.items@.push(ItemRequest::spec_init_byte(
                Some(db_number),
                crate::s7_comm::Area::DataBlocks,
                byte_addr,
                len,
            )),
    {
        self.add_item(
            ItemRequest::init_byte(
                Some(db_number),
                crate::s7_comm::Area::DataBlocks,
                byte_addr,
                len,
            ),
        )
    }

    /// Serializes the ReadVar Job this builder describes.
    pub fn build(self) -> (r: Result<BytesMut, crate::tpkt::Error>)
        requires
            self.items@.len() <= 255,
            wf_item_requests(self.items@),
        ensures
            match r {
                Ok(b) => buf_data(b) == spec_read_items_frame(self.pdu_ref, self.items@).spec_enc(),
                Err(_) => false,
            },
    {
        let ghost items = self.items@;
        let pdu_ref = self.pdu_ref;
        let mut read_builder = Frame::job_read_var(pdu_ref);
        let n = self.items.len();
        let mut i: usize = 0;
        while i < n
            invariant
                i <= n,
                n == items.len() <= 255,
                self.items@ == items,
                read_builder.pdu_ref == pdu_ref,
                read_builder.items@ == items.take(i as int),
            decreases n - i,
        {
            read_builder = read_builder.add_item(self.items[i]);
            proof {
                assert(items.take(i as int).push(items[i as int]) =~= items.take(i as int + 1));
            }
            i += 1;
        }
        proof {
            assert(items.take(n as int) =~= items);
        }
        let s7_frame = read_builder.build();
        let copt_frame = CoptFrame::builder_of_dt_data(s7_frame).build(0, true);
        let frame = TpktFrame::new(copt_frame);
        proof {
            assert(frame@ =~= spec_read_items_frame(pdu_ref, items));
            lemma_read_items_frame_wf(pdu_ref, items);
        }
        let mut dst = buf_new();
        let mut encoder = S7Encoder::default();
        match encoder.encode(frame, &mut dst) {
            Ok(()) => Ok(dst),
            Err(e) => Err(e),
        }
    }
}

/// Builder of a framed WriteVar Job.
#[derive(Debug)]
pub struct S7WriteBuilder {
    pub pdu_ref: u16,
    pub items: Vec<(ItemRequest, DataItemVal)>,
}

impl Default for S7WriteBuilder {
    fn default() -> (r: Self)
        ensures
            r.pdu_ref == 0,
            r.items@ == Seq::<(ItemRequest, DataItemVal)>::empty(),
    {
        Self { pdu_ref: 0, items: Vec::new() }
    }
}

impl S7WriteBuilder {
    pub fn pdu_ref(self, pdu_ref: u16) -> (r: Self)
        ensures
            r.pdu_ref == pdu_ref,
            r.items@ == self.items@,
    {
        Self { pdu_ref, ..self }
    }

    fn add_item(self, item: (ItemRequest, DataItemVal)) -> (r: Self)
        ensures
            r.pdu_ref == self.pdu_ref,
            r.items@ == self.items@.push(item),
    {
        let mut this = self;
        this.items.push(item);
        this
    }

    /// Adds a byte-granular write of `data` to `area`.
    pub fn write_bytes(
        self,
        db_number: Option<u16>,
        area: crate::s7_comm::Area,
        byte_addr: u16,
        data: &[u8],
    ) -> (r: Self)
        requires
            data@.len() <= 8191,
        ensures
            r.pdu_ref == self.pdu_ref,
            r.items@.len() == self.items@.len() + 1,
            pairs_requests(r.items@) == pairs_requests(self.items@).push(
                ItemRequest::spec_init_byte(db_number, area, byte_addr, data@.len() as u16),
            ),
            pairs_values(r.items@) == pairs_values(self.items@).push(spec_write_bytes_item(data@)),
    {
        let req = ItemRequest::init_byte(db_number, area, byte_addr, data.len() as u16);
        let data_val = DataItemVal::init_with_bytes(ReturnCode::Reserved, data);
        let r = self.add_item((req, data_val));
        proof {
            assert(pairs_requests(r.items@) =~= pairs_requests(self.items@).push(req));
            assert(pairs_values(r.items@) =~= pairs_values(self.items@).push(data_val@));
        }
        r
    }

    /// Adds a single-bit write to `area`.
    pub fn write_bit(
        self,
        db_number: Option<u16>,
        area: crate::s7_comm::Area,
        byte_addr: u16,
        bit_addr: u8,
        data: bool,
    ) -> (r: Self)
        requires
            bit_addr <= 7,
        ensures
            r.pdu_ref == self.pdu_ref,
            r.items@.len() == self.items@.len() + 1,
            pairs_requests(r.items@) == pairs_requests(self.items@).push(
                ItemRequest::spec_init_bit(db_number, area, byte_addr, bit_addr),
            ),
            pairs_values(r.items@) == pairs_values(self.items@).push(spec_write_bit_item(data)),
    {
        let req = ItemRequest::init_bit(db_number, area, byte_addr, bit_addr);
        let data_val = DataItemVal::init_with_bit(ReturnCode::Reserved, data);
        let r = self.add_item((req, data_val));
        proof {
            assert(pairs_requests(r.items@) =~= pairs_requests(self.items@).push(req));
            assert(pairs_values(r.items@) =~= pairs_values(self.items@).push(data_val@));
        }
        r
    }

    /// Serializes the WriteVar Job this builder describes.
    pub fn build(self) -> (r: Result<BytesMut, crate::tpkt::Error>)
        requires
            self.items@.len() <= 255,
            wf_item_requests(pairs_requests(self.items@)),
            wf_data_items(pairs_values(self.items@)),
            19 + 12 * self.items@.len() + enc_data_items(pairs_values(self.items@)).len()
                <= 0xFFFF,
        ensures
            match r {
                Ok(b) => buf_data(b) == spec_write_items_frame(
                    self.pdu_ref,
                    pairs_requests(self.items@),
                    pairs_values(self.items@),
                ).spec_enc(),
                Err(_) => false,
            },
    {
        let ghost items = pairs_requests(self.items@);
        let ghost values = pairs_values(self.items@);
        let pdu_ref = self.pdu_ref;
        let ghost pairs = self.items@;
        let mut write_builder = Frame::job_write_var(pdu_ref);
        let n = self.items.len();
        let mut i: usize = 0;
        while i < n
            invariant
                i <= n,
                n == pairs.len() <= 255,
                self.items@ == pairs,
                items == pairs_requests(pairs),
                values == pairs_values(pairs),
                write_builder.pdu_ref == pdu_ref,
                write_builder.items@.len() == i,
                pairs_requests(write_builder.items@) == items.take(i as int),
                pairs_values(write_builder.items@) == values.take(i as int),
            decreases n - i,
        {
            let pair = (self.items[i].0, self.items[i].1.clone_item());
            write_builder = write_builder.add_item(pair);
            proof {
                assert(pairs_requests(write_builder.items@) =~= items.take(i as int).push(
                    pairs[i as int].0,
                ));
                assert(items.take(i as int).push(items[i as int]) =~= items.take(i as int + 1));
                assert(pairs_values(write_builder.items@) =~= values.take(i as int).push(
                    pairs[i as int].1@,
                ));
                assert(values.take(i as int).push(values[i as int]) =~= values.take(i as int + 1));
            }
            i += 1;
        }
        proof {
            assert(items.take(n as int) =~= items);
            assert(values.take(n as int) =~= values);
            assert(pairs_requests(write_builder.items@) == items);
            assert(pairs_values(write_builder.items@) == values);
        }
        let s7_frame = write_builder.build();
        let copt_frame = CoptFrame::builder_of_dt_data(s7_frame).build(0, true);
        let frame = TpktFrame::new(copt_frame);
        proof {
            assert(frame@ =~= spec_write_items_frame(pdu_ref, items, values));
            lemma_write_items_frame_wf(pdu_ref, items, values);
        }
        let mut dst = buf_new();
        let mut encoder = S7Encoder::default();
        match encoder.encode(frame, &mut dst) {
            Ok(()) => Ok(dst),
            Err(e) => Err(e),
        }
    }
}

/// The single data item of a bit write: one byte holding zero or one.
pub open spec fn spec_write_bit_item(data: bool) -> crate::s7_model::SpecDataItemVal {
    crate::s7_model::SpecDataItemVal {
        return_code: ReturnCode::Reserved,
        transport_size_type: crate::s7_comm::DataTransportSize::Bit,
        length: 1u16,
        data: seq![
            if data {
                1u8
            } else {
                0u8
            },
        ],
    }
}

/// Builds and serializes a single-item WriteVar Job writing one bit.
/// A bit address outside 0..=7 is rejected before anything is built.
pub fn build_framed_s7_write_bit(
    pdu_ref: u16,
    db_number: Option<u16>,
    area: crate::s7_comm::Area,
    byte_addr: u16,
    bit_addr: u16,
    value: bool,
) -> (r: Result<BytesMut, Error>)
    requires
        area.wf(),
        db_number matches Some(x) ==> x != 0,
    ensures
        match r {
            Ok(b) => bit_addr <= 7 && buf_data(b) == spec_write_items_frame(
                pdu_ref,
                seq![
                    ItemRequest::spec_init_bit(db_number, area, byte_addr, bit_addr as u8),
                ],
                seq![spec_write_bit_item(value)],
            ).spec_enc(),
            Err(e) => bit_addr > 7 && e == Error::InvalidBitAddr(bit_addr),
        },
{
    let bit = match crate::client::BitAddr::try_from(bit_addr) {
        Ok(b) => b,
        Err(e) => {
            return Err(e);
        },
    };
    let builder = S7WriteBuilder::default().pdu_ref(pdu_ref).write_bit(
        db_number,
        area,
        byte_addr,
        bit.code(),
        value,
    );
    proof {
        assert(pairs_requests(builder.items@) =~= seq![
            ItemRequest::spec_init_bit(db_number, area, byte_addr, bit_addr as u8),
        ]);
        assert(pairs_values(builder.items@) =~= seq![spec_write_bit_item(value)]);
        let items = pairs_requests(builder.items@);
        let values = pairs_values(builder.items@);
        assert(wf_item_requests(items)) by {
            assert(items[0].wf());
        }
        assert(wf_data_items(values)) by {
            assert(values[0].wf());
        }
        assert(enc_data_items(values) == values[0].spec_enc());
    }
    match builder.build() {
        Ok(b) => Ok(b),
        Err(_) => {
            proof {
                assert(false);
            }
            Err(Error::ProtocolError)
        },
    }
}

/// Starts a framed Connect Request.
pub fn build_copt_connect_request() -> (r: CoptConnectRequestBuilder)
    ensures
        r.spec_comm() == (SpecConnectComm {
            destination_ref: seq![0u8, 0u8],
            source_ref: seq![0u8, 0u8],
            class: 0u8,
            extended_formats: false,
            no_explicit_flow_control: false,
            parameters: Seq::<SpecParameter>::empty(),
        }),
{
    CoptConnectRequestBuilder::default()
}

/// Starts a framed SetupCommunication Job.
pub fn build_s7_setup() -> (r: CoptSetupBuilder)
    ensures
        r == (CoptSetupBuilder {
            pdu_ref: 0u16,
            max_amq_calling: 0u16,
            max_amq_called: 0u16,
            pdu_length: 0u16,
        }),
{
    CoptSetupBuilder::default()
}

/// Starts a framed WriteVar Job.
pub fn build_s7_write() -> (r: S7WriteBuilder)
    ensures
        r.pdu_ref == 0,
        r.items@ == Seq::<(ItemRequest, DataItemVal)>::empty(),
{
    S7WriteBuilder::default()
}

/// Starts a framed ReadVar Job.
pub fn build_s7_read() -> (r: S7ReadBuilder)
    ensures
        r.pdu_ref == 0,
        r.items@ == Seq::<ItemRequest>::empty(),
{
    S7ReadBuilder::default()
}

/// Entry points to the framed builders, grouped under one name.
#[derive(Debug)]
pub struct Builder;

impl Builder {
    pub fn build_copt_connect_request() -> (r: CoptConnectRequestBuilder)
        ensures
            r.spec_comm() == (SpecConnectComm {
                destination_ref: seq![0u8, 0u8],
                source_ref: seq![0u8, 0u8],
                class: 0u8,
                extended_formats: false,
                no_explicit_flow_control: false,
                parameters: Seq::<SpecParameter>::empty(),
            }),
    {
        CoptConnectRequestBuilder::default()
    }

    pub fn build_copt_setup() -> (r: CoptSetupBuilder)
        ensures
            r == (CoptSetupBuilder {
                pdu_ref: 0u16,
                max_amq_calling: 0u16,
                max_amq_called: 0u16,
                pdu_length: 0u16,
            }),
    {
        CoptSetupBuilder::default()
    }
}

} // verus!

