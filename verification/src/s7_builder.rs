//! Fluent builders for S7 Job frames. They exist so that the header's
//! `parameter_len` and `data_len` are computed from the accumulated
//! items at build time and can never drift from the serialized frame.

use vstd::prelude::*;
use crate::s7_comm::{Area, DataItemVal, Frame, Header, ItemRequest, Job, ReadVarJob, ReturnCode,
    SetupCommunication, TransportSize, DbNumber, WriteVarJob, view_data_items};
use crate::s7_model::{SpecFrame, SpecJob, SpecReadVarJob, SpecWriteVarJob, SpecDataItemVal,
    enc_data_items, enc_item_requests, wf_data_items, wf_item_requests,
    lemma_enc_item_requests_len};

verus! {

/// Builder of a SetupCommunication Job.
#[derive(Debug)]
pub struct FrameJobSetupBuilder {
    pub pdu_ref: u16,
    pub max_amq_calling: u16,
    pub max_amq_called: u16,
    pub pdu_length: u16,
}

impl Default for FrameJobSetupBuilder {
    fn default() -> (r: Self)
        ensures
            r == (FrameJobSetupBuilder {
                pdu_ref: 0u16,
                max_amq_calling: 0u16,
                max_amq_called: 0u16,
                pdu_length: 0u16,
            }),
    {
        Self { pdu_ref: 0, max_amq_calling: 0, max_amq_called: 0, pdu_length: 0 }
    }
}

impl FrameJobSetupBuilder {
    pub fn pdu_ref(self, pdu_ref: u16) -> (r: Self)
        ensures
            r == (FrameJobSetupBuilder { pdu_ref, ..self }),
    {
        Self { pdu_ref, ..self }
    }

    pub fn max_amq_calling(self, max_amq_calling: u16) -> (r: Self)
        ensures
            r == (FrameJobSetupBuilder { max_amq_calling, ..self }),
    {
        Self { max_amq_calling, ..self }
    }

    pub fn max_amq_called(self, max_amq_called: u16) -> (r: Self)
        ensures
            r == (FrameJobSetupBuilder { max_amq_called, ..self }),
    {
        Self { max_amq_called, ..self }
    }

    pub fn pdu_length(self, pdu_length: u16) -> (r: Self)
        ensures
            r == (FrameJobSetupBuilder { pdu_length, ..self }),
    {
        Self { pdu_length, ..self }
    }

    /// The finished frame; its parameter length is the eight bytes a
    /// setup body always occupies.
    pub fn build(self) -> (r: Frame)
        ensures
            r@ == (SpecFrame::Job {
                header: Header {
                    protocol_id: 0x32u8,
                    reserved: 0u16,
                    pdu_ref: self.pdu_ref,
                    parameter_len: 8u16,
                    data_len: 0u16,
                },
                job: SpecJob::SetupCommunication(SetupCommunication {
                    reserved: 0u8,
                    max_amq_calling: self.max_amq_calling,
                    max_amq_called: self.max_amq_called,
                    pdu_length: self.pdu_length,
                }),
            }),
            r@.wf(),
    {
        let header = Header::init(self.pdu_ref, 8, 0);
        let setup = SetupCommunication::init(
            self.max_amq_calling,
            self.max_amq_called,
            self.pdu_length,
        );
        Frame::Job { header, job: Job::SetupCommunication(setup) }
    }
}

/// Builder of a ReadVar Job.
#[derive(Debug)]
pub struct FrameJobReadVarBuilder {
    pub pdu_ref: u16,
    pub items: Vec<ItemRequest>,
}

impl Default for FrameJobReadVarBuilder {
    fn default() -> (r: Self)
        ensures
            r.pdu_ref == 0,
            r.items@ == Seq::<ItemRequest>::empty(),
    {
        Self { pdu_ref: 0, items: Vec::new() }
    }
}

impl FrameJobReadVarBuilder {
    pub fn pdu_ref(self, pdu_ref: u16) -> (r: Self)
        ensures
            r.pdu_ref == pdu_ref,
            r.items@ == self.items@,
    {
        Self { pdu_ref, ..self }
    }

    pub fn add_item(self, item: ItemRequest) -> (r: Self)
        ensures
            r.pdu_ref == self.pdu_ref,
            r.items@ == self.items@.push(item),
    {
        let mut this = self;
        this.items.push(item);
        this
    }

    /// Adds a byte-granular read of `len` bytes from `area`.
    pub fn read_bytes(self, db_number: Option<u16>, area: Area, byte_addr: u16, len: u16) -> (r:
        Self)
        ensures
            r.pdu_ref == self.pdu_ref,
            r.items@ == self.items@.push(ItemRequest::spec_init_byte(
                db_number,
                area,
                byte_addr,
                len,
            )),
    {
        let req = ItemRequest::init_byte(db_number, area, byte_addr, len);
        self.add_item(req)
    }

    /// Adds a byte-granular read from a data block.
    pub fn read_db_bytes(self, db_number: u16, byte_addr: u16, len: u16) -> (r: Self)
        ensures
            r.pdu_ref == self.pdu_ref,
            r.items@ == self.items@.push(ItemRequest::spec_init_byte(
                Some(db_number),
                Area::DataBlocks,
                byte_addr,
                len,
            )),
    {
        self.read_bytes(Some(db_number), Area::DataBlocks, byte_addr, len)
    }

    /// The finished frame. Its `parameter_len` is the exact width of
    /// the parameter section: two bytes plus twelve per item.
    pub fn build(self) -> (r: Frame)
        requires
            self.items@.len() <= 255,
        ensures
            r@ == (SpecFrame::Job {
                header: Header {
                    protocol_id: 0x32u8,
                    reserved: 0u16,
                    pdu_ref: self.pdu_ref,
                    parameter_len: (2 + 12 * self.items@.len()) as u16,
                    data_len: 0u16,
                },
                job: SpecJob::ReadVar(SpecReadVarJob {
                    count: self.items@.len() as u8,
                    parameters_item: self.items@,
                }),
            }),
            r@ matches SpecFrame::Job { header, job } ==> header.parameter_len
                == job.param_bytes().len() && header.data_len == job.data_bytes().len(),
            wf_item_requests(self.items@) ==> r@.wf(),
    {
        let ghost s = self.items@;
        let mut job = ReadVarJob::default();
        let n = self.items.len();
        let mut i: usize = 0;
        while i < n
            invariant
                i <= n,
                n == s.len() <= 255,
                self.items@ == s,
                job@.count == i,
                job@.parameters_item == s.take(i as int),
            decreases n - i,
        {
            job.add_item(self.items[i]);
            proof {
                assert(s.take(i as int).push(s[i as int]) =~= s.take(i as int + 1));
            }
            i += 1;
        }
        proof {
            assert(s.take(n as int) =~= s);
            lemma_enc_item_requests_len(s);
        }
        let data_len = job.bytes_len_data();
        let parameter_len = job.bytes_len_parameter();
        let header = Header::init(self.pdu_ref, parameter_len, data_len);
        Frame::Job { header, job: Job::ReadVar(job) }
    }
}

/// Builder of a WriteVar Job.
#[derive(Debug)]
pub struct FrameJobWriteVarBuilder {
    pub pdu_ref: u16,
    pub items: Vec<(ItemRequest, DataItemVal)>,
}

/// The item requests of the accumulated pairs.
pub open spec fn pairs_requests(s: Seq<(ItemRequest, DataItemVal)>) -> Seq<ItemRequest> {
    s.map_values(|x: (ItemRequest, DataItemVal)| x.0)
}

/// The models of the data items of the accumulated pairs.
pub open spec fn pairs_values(s: Seq<(ItemRequest, DataItemVal)>) -> Seq<SpecDataItemVal> {
    s.map_values(|x: (ItemRequest, DataItemVal)| x.1@)
}

impl Default for FrameJobWriteVarBuilder {
    fn default() -> (r: Self)
        ensures
            r.pdu_ref == 0,
            r.items@ == Seq::<(ItemRequest, DataItemVal)>::empty(),
    {
        Self { pdu_ref: 0, items: Vec::new() }
    }
}

impl FrameJobWriteVarBuilder {
    pub fn pdu_ref(self, pdu_ref: u16) -> (r: Self)
        ensures
            r.pdu_ref == pdu_ref,
            r.items@ == self.items@,
    {
        Self { pdu_ref, ..self }
    }

    pub fn add_item(self, item: (ItemRequest, DataItemVal)) -> (r: Self)
        ensures
            r.pdu_ref == self.pdu_ref,
            r.items@ == self.items@.push(item),
    {
        let mut this = self;
        this.items.push(item);
        this
    }

    /// Adds a byte-granular write of `data` to `area`.
    pub fn write_bytes(self, db_number: Option<u16>, area: Area, byte_addr: u16, data: &[u8]) -> (r:
        Self)
        requires
            data@.len() <= 8191,
        ensures
            r.pdu_ref == self.pdu_ref,
            r.items@.len() == self.items@.len() + 1,
            pairs_requests(r.items@) == pairs_requests(self.items@).push(
                ItemRequest::spec_init_byte(db_number, area, byte_addr, data@.len() as u16),
            ),
            pairs_values(r.items@) == pairs_values(self.items@).push(SpecDataItemVal {
                return_code: ReturnCode::Reserved,
                transport_size_type: crate::s7_comm::DataTransportSize::NoBit,
                length: (data@.len() * 8) as u16,
                data: data@,
            }),
    {
        let req = ItemRequest::init_byte(db_number, area, byte_addr, data.len() as u16);
        let data_val = DataItemVal::init_with_bytes(ReturnCode::Reserved, data);
        let r = self.add_item((req, data_val));
        proof {
            assert(pairs_requests(r.items@) =~= pairs_requests(self.items@).push(req));
            assert(pairs_values(r.items@) =~= pairs_values(self.items@).push(data_val@));
        }
        r
    }

    /// Adds a byte-granular write to a data block.
    pub fn write_db_bytes(self, db_number: u16, byte_addr: u16, bit_addr: u8, data: &[u8]) -> (r:
        Self)
        requires
            data@.len() <= 8191,
            bit_addr <= 7,
        ensures
            r.pdu_ref == self.pdu_ref,
            r.items@.len() == self.items@.len() + 1,
            pairs_requests(r.items@) == pairs_requests(self.items@).push(
                ItemRequest::spec_new(
                    TransportSize::NoBit,
                    DbNumber::spec_from(db_number),
                    Area::DataBlocks,
                    byte_addr,
                    bit_addr,
                    data@.len() as u16,
                ),
            ),
            pairs_values(r.items@) == pairs_values(self.items@).push(SpecDataItemVal {
                return_code: ReturnCode::Reserved,
                transport_size_type: crate::s7_comm::DataTransportSize::NoBit,
                length: (data@.len() * 8) as u16,
                data: data@,
            }),
    {
        let req = ItemRequest::new(
            TransportSize::NoBit,
            DbNumber::from_code(db_number),
            Area::DataBlocks,
            byte_addr,
            bit_addr,
            data.len() as u16,
        );
        let data_val = DataItemVal::init_with_bytes(ReturnCode::Reserved, data);
        let r = self.add_item((req, data_val));
        proof {
            assert(pairs_requests(r.items@) =~= pairs_requests(self.items@).push(req));
            assert(pairs_values(r.items@) =~= pairs_values(self.items@).push(data_val@));
        }
        r
    }

    /// The finished frame. `parameter_len` is the exact width of the
    /// parameter section and `data_len` the exact width of the data
    /// section as serialized, pad bytes included.
    pub fn build(self) -> (r: Frame)
        requires
            self.items@.len() <= 255,
            wf_data_items(pairs_values(self.items@)),
            enc_data_items(pairs_values(self.items@)).len() <= 0xFFFF,
        ensures
            r@ == (SpecFrame::Job {
                header: Header {
                    protocol_id: 0x32u8,
                    reserved: 0u16,
                    pdu_ref: self.pdu_ref,
                    parameter_len: (2 + 12 * self.items@.len()) as u16,
                    data_len: enc_data_items(pairs_values(self.items@)).len() as u16,
                },
                job: SpecJob::WriteVar(SpecWriteVarJob {
                    count: self.items@.len() as u8,
                    parameters_item: pairs_requests(self.items@),
                    data_item: pairs_values(self.items@),
                }),
            }),
            r@ matches SpecFrame::Job { header, job } ==> header.parameter_len
                == job.param_bytes().len() && header.data_len == job.data_bytes().len(),
            wf_item_requests(pairs_requests(self.items@)) ==> r@.wf(),
    {
        let ghost s = self.items@;
        let mut job = WriteVarJob::default();
        let n = self.items.len();
        let mut i: usize = 0;
        while i < n
            invariant
                i <= n,
                n == s.len() <= 255,
                self.items@ == s,
                job@.count == i,
                job@.parameters_item == pairs_requests(s).take(i as int),
                job@.data_item == pairs_values(s).take(i as int),
            decreases n - i,
        {
            let pair = (self.items[i].0, self.items[i].1.clone_item());
            job.add_item(pair);
            proof {
                assert(pairs_requests(s).take(i as int).push(s[i as int].0) =~= pairs_requests(
                    s,
                ).take(i as int + 1));
                assert(pairs_values(s).take(i as int).push(s[i as int].1@) =~= pairs_values(
                    s,
                ).take(i as int + 1));
            }
            i += 1;
        }
        proof {
            assert(pairs_requests(s).take(n as int) =~= pairs_requests(s));
            assert(pairs_values(s).take(n as int) =~= pairs_values(s));
            lemma_enc_item_requests_len(pairs_requests(s));
        }
        let data_len = job.bytes_len_data();
        let parameter_len = job.bytes_len_parameter();
        let header = Header::init(self.pdu_ref, parameter_len, data_len);
        Frame::Job { header, job: Job::WriteVar(job) }
    }
}

impl Frame {
    /// Starts a SetupCommunication Job with the given PDU reference.
    pub fn job_setup(pdu_ref: u16) -> (r: FrameJobSetupBuilder)
        ensures
            r == (FrameJobSetupBuilder {
                pdu_ref,
                max_amq_calling: 0u16,
                max_amq_called: 0u16,
                pdu_length: 0u16,
            }),
    {
        FrameJobSetupBuilder::default().pdu_ref(pdu_ref)
    }

    /// Starts a WriteVar Job with the given PDU reference.
    pub fn job_write_var(pdu_ref: u16) -> (r: FrameJobWriteVarBuilder)
        ensures
            r.pdu_ref == pdu_ref,
            r.items@ == Seq::<(ItemRequest, DataItemVal)>::empty(),
    {
        FrameJobWriteVarBuilder::default().pdu_ref(pdu_ref)
    }

    /// Starts a ReadVar Job with the given PDU reference.
    pub fn job_read_var(pdu_ref: u16) -> (r: FrameJobReadVarBuilder)
        ensures
            r.pdu_ref == pdu_ref,
            r.items@ == Seq::<ItemRequest>::empty(),
    {
        FrameJobReadVarBuilder::default().pdu_ref(pdu_ref)
    }
}

} // verus!
