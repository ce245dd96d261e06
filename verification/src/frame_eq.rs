//! Equality of frames and their parts, defined as equality of their
//! models. Types whose fields are all scalars derive their equality;
//! the ones holding vectors get it here by hand.

use vstd::prelude::*;
use crate::copt::{ConnectComm, CoptFrame, DtData, Parameter, PduType};
use crate::s7_comm::{AckData, DataItemVal, DataItemWriteResponse, Frame, Job, ReadVarAckData,
    ReadVarJob, WriteVarAckData, WriteVarJob, ItemRequest, view_data_items, view_write_responses};
use crate::tpkt::TpktFrame;
use crate::copt::view_params;
use vstd::std_specs::cmp::PartialEqSpec;

verus! {

/// Byte vectors are equal exactly when they hold the same bytes.
proof fn lemma_vec_u8_eq(a: &Vec<u8>, b: &Vec<u8>)
    ensures
        a.eq_spec(b) <==> a@ == b@,
{
    if a.eq_spec(b) {
        assert(a@ =~= b@);
    }
    if a@ == b@ {
        assert(forall|i: int| 0 <= i < a@.len() ==> a@[i] == b@[i]);
    }
}

impl PartialEq for Parameter {
    fn eq(&self, other: &Parameter) -> (r: bool) {
        match (self, other) {
            (Parameter::TpduSize(a), Parameter::TpduSize(b)) => a == b,
            (Parameter::SrcTsap(a), Parameter::SrcTsap(b)) => {
                let r = a == b;
                proof {
                    lemma_vec_u8_eq(a, b);
                }
                r
            },
            (Parameter::DstTsap(a), Parameter::DstTsap(b)) => {
                let r = a == b;
                proof {
                    lemma_vec_u8_eq(a, b);
                }
                r
            },
            _ => false,
        }
    }
}

impl vstd::std_specs::cmp::PartialEqSpecImpl for Parameter {
    open spec fn obeys_eq_spec() -> bool {
        true
    }

    open spec fn eq_spec(&self, other: &Parameter) -> bool {
        self@ == other@
    }
}

/// Whether two parameter vectors hold the same parameters.
fn vec_params_eq(a: &Vec<Parameter>, b: &Vec<Parameter>) -> (r: bool)
    ensures
        r == (view_params(a@) == view_params(b@)),
{
    if a.len() != b.len() {
        proof {
            assert(view_params(a@).len() != view_params(b@).len());
        }
        return false;
    }
    let mut i: usize = 0;
    while i < a.len()
        invariant
            i <= a@.len(),
            a@.len() == b@.len(),
            forall|j: int| #![auto] 0 <= j < i ==> a@[j]@ == b@[j]@,
        decreases a@.len() - i,
    {
        if !(a[i] == b[i]) {
            proof {
                if view_params(a@) == view_params(b@) {
                    assert(view_params(a@)[i as int] == view_params(b@)[i as int]);
                }
            }
            return false;
        }
        i += 1;
    }
    proof {
        assert(view_params(a@) =~= view_params(b@));
    }
    true
}

impl PartialEq for ConnectComm {
    fn eq(&self, other: &ConnectComm) -> (r: bool) {
        let r = self.destination_ref[0] == other.destination_ref[0] && self.destination_ref[1]
            == other.destination_ref[1] && self.source_ref[0] == other.source_ref[0]
            && self.source_ref[1] == other.source_ref[1] && self.class == other.class
            && self.extended_formats == other.extended_formats && self.no_explicit_flow_control
            == other.no_explicit_flow_control && vec_params_eq(&self.parameters, &other.parameters);
        proof {
            if r {
                assert(self.destination_ref@ =~= other.destination_ref@);
                assert(self.source_ref@ =~= other.source_ref@);
            }
            if self@ == other@ {
                assert(self.destination_ref@[0] == other.destination_ref@[0]);
                assert(self.destination_ref@[1] == other.destination_ref@[1]);
                assert(self.source_ref@[0] == other.source_ref@[0]);
                assert(self.source_ref@[1] == other.source_ref@[1]);
            }
        }
        r
    }
}

impl vstd::std_specs::cmp::PartialEqSpecImpl for ConnectComm {
    open spec fn obeys_eq_spec() -> bool {
        true
    }

    open spec fn eq_spec(&self, other: &ConnectComm) -> bool {
        self@ == other@
    }
}

impl PartialEq for DataItemVal {
    fn eq(&self, other: &DataItemVal) -> (r: bool) {
        let r = self.return_code == other.return_code && self.transport_size_type
            == other.transport_size_type && self.length == other.length && self.data == other.data;
        proof {
            lemma_vec_u8_eq(&self.data, &other.data);
        }
        r
    }
}

impl vstd::std_specs::cmp::PartialEqSpecImpl for DataItemVal {
    open spec fn obeys_eq_spec() -> bool {
        true
    }

    open spec fn eq_spec(&self, other: &DataItemVal) -> bool {
        self@ == other@
    }
}

/// Whether two data item vectors hold the same items.
fn vec_data_items_eq(a: &Vec<DataItemVal>, b: &Vec<DataItemVal>) -> (r: bool)
    ensures
        r == (view_data_items(a@) == view_data_items(b@)),
{
    if a.len() != b.len() {
        proof {
            assert(view_data_items(a@).len() != view_data_items(b@).len());
        }
        return false;
    }
    let mut i: usize = 0;
    while i < a.len()
        invariant
            i <= a@.len(),
            a@.len() == b@.len(),
            forall|j: int| #![auto] 0 <= j < i ==> a@[j]@ == b@[j]@,
        decreases a@.len() - i,
    {
        if !(a[i] == b[i]) {
            proof {
                if view_data_items(a@) == view_data_items(b@) {
                    assert(view_data_items(a@)[i as int] == view_data_items(b@)[i as int]);
                }
            }
            return false;
        }
        i += 1;
    }
    proof {
        assert(view_data_items(a@) =~= view_data_items(b@));
    }
    true
}

/// Whether two response vectors hold the same return codes.
fn vec_responses_eq(a: &Vec<DataItemWriteResponse>, b: &Vec<DataItemWriteResponse>) -> (r: bool)
    ensures
        r == (view_write_responses(a@) == view_write_responses(b@)),
{
    if a.len() != b.len() {
        proof {
            assert(view_write_responses(a@).len() != view_write_responses(b@).len());
        }
        return false;
    }
    let mut i: usize = 0;
    while i < a.len()
        invariant
            i <= a@.len(),
            a@.len() == b@.len(),
            forall|j: int| #![auto] 0 <= j < i ==> a@[j]@ == b@[j]@,
        decreases a@.len() - i,
    {
        if !(a[i] == b[i]) {
            proof {
                if view_write_responses(a@) == view_write_responses(b@) {
                    assert(view_write_responses(a@)[i as int] == view_write_responses(
                        b@,
                    )[i as int]);
                }
            }
            return false;
        }
        i += 1;
    }
    proof {
        assert(view_write_responses(a@) =~= view_write_responses(b@));
    }
    true
}

/// Whether two item request vectors hold the same items.
fn vec_items_eq(a: &Vec<ItemRequest>, b: &Vec<ItemRequest>) -> (r: bool)
    ensures
        r == (a@ == b@),
{
    if a.len() != b.len() {
        return false;
    }
    let mut i: usize = 0;
    while i < a.len()
        invariant
            i <= a@.len(),
            a@.len() == b@.len(),
            forall|j: int| #![auto] 0 <= j < i ==> a@[j] == b@[j],
        decreases a@.len() - i,
    {
        if !(a[i] == b[i]) {
            return false;
        }
        i += 1;
    }
    proof {
        assert(a@ =~= b@);
    }
    true
}

impl PartialEq for WriteVarJob {
    fn eq(&self, other: &WriteVarJob) -> (r: bool) {
        self.count == other.count && vec_items_eq(&self.parameters_item, &other.parameters_item)
            && vec_data_items_eq(&self.data_item, &other.data_item)
    }
}

impl vstd::std_specs::cmp::PartialEqSpecImpl for WriteVarJob {
    open spec fn obeys_eq_spec() -> bool {
        true
    }

    open spec fn eq_spec(&self, other: &WriteVarJob) -> bool {
        self@ == other@
    }
}

impl PartialEq for ReadVarJob {
    fn eq(&self, other: &ReadVarJob) -> (r: bool) {
        self.count == other.count && vec_items_eq(&self.parameters_item, &other.parameters_item)
    }
}

impl vstd::std_specs::cmp::PartialEqSpecImpl for ReadVarJob {
    open spec fn obeys_eq_spec() -> bool {
        true
    }

    open spec fn eq_spec(&self, other: &ReadVarJob) -> bool {
        self@ == other@
    }
}

impl PartialEq for WriteVarAckData {
    fn eq(&self, other: &WriteVarAckData) -> (r: bool) {
        self.count == other.count && vec_responses_eq(&self.data_item, &other.data_item)
    }
}

impl vstd::std_specs::cmp::PartialEqSpecImpl for WriteVarAckData {
    open spec fn obeys_eq_spec() -> bool {
        true
    }

    open spec fn eq_spec(&self, other: &WriteVarAckData) -> bool {
        self@ == other@
    }
}

impl PartialEq for ReadVarAckData {
    fn eq(&self, other: &ReadVarAckData) -> (r: bool) {
        self.count == other.count && vec_data_items_eq(&self.data_item, &other.data_item)
    }
}

impl vstd::std_specs::cmp::PartialEqSpecImpl for ReadVarAckData {
    open spec fn obeys_eq_spec() -> bool {
        true
    }

    open spec fn eq_spec(&self, other: &ReadVarAckData) -> bool {
        self@ == other@
    }
}

impl PartialEq for Job {
    fn eq(&self, other: &Job) -> (r: bool) {
        match (self, other) {
            (Job::SetupCommunication(a), Job::SetupCommunication(b)) => a == b,
            (Job::WriteVar(a), Job::WriteVar(b)) => a == b,
            (Job::ReadVar(a), Job::ReadVar(b)) => a == b,
            _ => false,
        }
    }
}

impl vstd::std_specs::cmp::PartialEqSpecImpl for Job {
    open spec fn obeys_eq_spec() -> bool {
        true
    }

    open spec fn eq_spec(&self, other: &Job) -> bool {
        self@ == other@
    }
}

impl PartialEq for AckData {
    fn eq(&self, other: &AckData) -> (r: bool) {
        match (self, other) {
            (AckData::SetupCommunication(a), AckData::SetupCommunication(b)) => a == b,
            (AckData::WriteVar(a), AckData::WriteVar(b)) => a == b,
            (AckData::ReadVar(a), AckData::ReadVar(b)) => a == b,
            _ => false,
        }
    }
}

impl vstd::std_specs::cmp::PartialEqSpecImpl for AckData {
    open spec fn obeys_eq_spec() -> bool {
        true
    }

    open spec fn eq_spec(&self, other: &AckData) -> bool {
        self@ == other@
    }
}

impl PartialEq for Frame {
    fn eq(&self, other: &Frame) -> (r: bool) {
        match (self, other) {
            (
                Frame::Job { header: h1, job: j1 },
                Frame::Job { header: h2, job: j2 },
            ) => h1 == h2 && j1 == j2,
            (
                Frame::AckData { header: h1, ack_data: a1 },
                Frame::AckData { header: h2, ack_data: a2 },
            ) => h1 == h2 && a1 == a2,
            _ => false,
        }
    }
}

impl vstd::std_specs::cmp::PartialEqSpecImpl for Frame {
    open spec fn obeys_eq_spec() -> bool {
        true
    }

    open spec fn eq_spec(&self, other: &Frame) -> bool {
        self@ == other@
    }
}

impl PartialEq for DtData {
    fn eq(&self, other: &DtData) -> (r: bool) {
        self.tpdu_number == other.tpdu_number && self.last_data_unit == other.last_data_unit
            && self.payload == other.payload
    }
}

impl vstd::std_specs::cmp::PartialEqSpecImpl for DtData {
    open spec fn obeys_eq_spec() -> bool {
        true
    }

    open spec fn eq_spec(&self, other: &DtData) -> bool {
        self@ == other@
    }
}

impl PartialEq for PduType {
    fn eq(&self, other: &PduType) -> (r: bool) {
        match (self, other) {
            (PduType::ConnectRequest(a), PduType::ConnectRequest(b)) => a == b,
            (PduType::ConnectConfirm(a), PduType::ConnectConfirm(b)) => a == b,
            (PduType::DtData(a), PduType::DtData(b)) => a == b,
            _ => false,
        }
    }
}

impl vstd::std_specs::cmp::PartialEqSpecImpl for PduType {
    open spec fn obeys_eq_spec() -> bool {
        true
    }

    open spec fn eq_spec(&self, other: &PduType) -> bool {
        self@ == other@
    }
}

impl PartialEq for CoptFrame {
    fn eq(&self, other: &CoptFrame) -> (r: bool) {
        self.pdu_type == other.pdu_type
    }
}

impl vstd::std_specs::cmp::PartialEqSpecImpl for CoptFrame {
    open spec fn obeys_eq_spec() -> bool {
        true
    }

    open spec fn eq_spec(&self, other: &CoptFrame) -> bool {
        self@ == other@
    }
}

impl PartialEq for TpktFrame {
    fn eq(&self, other: &TpktFrame) -> (r: bool) {
        self.version == other.version && self.payload == other.payload
    }
}

impl vstd::std_specs::cmp::PartialEqSpecImpl for TpktFrame {
    open spec fn obeys_eq_spec() -> bool {
        true
    }

    open spec fn eq_spec(&self, other: &TpktFrame) -> bool {
        self@ == other@
    }
}

} // verus!
