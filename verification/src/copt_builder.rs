//! Fluent builders for COTP frames: Connect Request/Confirm
//! negotiation frames and Data Transfer PDUs.

use vstd::prelude::*;
use crate::copt::{ConnectComm, CoptFrame, DtData, Parameter, PduType, view_params};
use crate::copt_model::{SpecConnectComm, SpecCoptFrame, SpecDtData, SpecPduType, enc_params,
    wf_params};
use crate::s7_comm::Frame;

verus! {

/// Builder of a Connect Request or Connect Confirm frame.
#[derive(Debug)]
pub struct ConnectBuilder {
    pub destination_ref: [u8; 2],
    pub source_ref: [u8; 2],
    pub class: u8,
    pub extended_formats: bool,
    pub no_explicit_flow_control: bool,
    pub parameters: Vec<Parameter>,
}

impl ConnectBuilder {
    /// The Connect body the builder will produce.
    pub open spec fn spec_comm(self) -> SpecConnectComm {
        SpecConnectComm {
            destination_ref: self.destination_ref@,
            source_ref: self.source_ref@,
            class: self.class,
            extended_formats: self.extended_formats,
            no_explicit_flow_control: self.no_explicit_flow_control,
            parameters: view_params(self.parameters@),
        }
    }
}

impl Default for ConnectBuilder {
    fn default() -> (r: Self)
        ensures
            r.spec_comm() == (SpecConnectComm {
                destination_ref: seq![0u8, 0u8],
                source_ref: seq![0u8, 0u8],
                class: 0u8,
                extended_formats: false,
                no_explicit_flow_control: false,
                parameters: Seq::<crate::copt_model::SpecParameter>::empty(),
            }),
    {
        let r = Self {
            destination_ref: [0, 0],
            source_ref: [0, 0],
            class: 0,
            extended_formats: false,
            no_explicit_flow_control: false,
            parameters: Vec::new(),
        };
        proof {
            assert(r.spec_comm().destination_ref =~= seq![0u8, 0u8]);
            assert(r.spec_comm().source_ref =~= seq![0u8, 0u8]);
            assert(r.spec_comm().parameters =~= Seq::<crate::copt_model::SpecParameter>::empty());
        }
        r
    }
}

impl ConnectBuilder {
    pub fn source_ref(self, source_ref: [u8; 2]) -> (r: Self)
        ensures
            r.spec_comm() == (SpecConnectComm { source_ref: source_ref@, ..self.spec_comm() }),
    {
        Self { source_ref, ..self }
    }

    pub fn destination_ref(self, destination_ref: [u8; 2]) -> (r: Self)
        ensures
            r.spec_comm() == (SpecConnectComm {
                destination_ref: destination_ref@,
                ..self.spec_comm()
            }),
    {
        Self { destination_ref, ..self }
    }

    pub fn class_and_others(
        self,
        class: u8,
        extended_formats: bool,
        no_explicit_flow_control: bool,
    ) -> (r: Self)
        ensures
            r.spec_comm() == (SpecConnectComm {
                class,
                extended_formats,
                no_explicit_flow_control,
                ..self.spec_comm()
            }),
    {
        Self { class, extended_formats, no_explicit_flow_control, ..self }
    }

    pub fn push_parameter(self, parameter: Parameter) -> (r: Self)
        ensures
            r.spec_comm() == (SpecConnectComm {
                parameters: self.spec_comm().parameters.push(parameter@),
                ..self.spec_comm()
            }),
    {
        let mut this = self;
        let ghost pre = view_params(this.parameters@);
        this.parameters.push(parameter);
        proof {
            assert(view_params(this.parameters@) =~= pre.push(parameter@));
        }
        this
    }

    /// The finished Connect Request frame.
    pub fn build_to_request(self) -> (r: CoptFrame)
        ensures
            r@ == (SpecCoptFrame { pdu_type: SpecPduType::ConnectRequest(self.spec_comm()) }),
            self.spec_comm().wf() ==> r@.wf(),
    {
        let Self {
            destination_ref,
            source_ref,
            class,
            extended_formats,
            no_explicit_flow_control,
            parameters,
        } = self;
        CoptFrame {
            pdu_type: PduType::ConnectRequest(ConnectComm {
                destination_ref,
                source_ref,
                class,
                extended_formats,
                no_explicit_flow_control,
                parameters,
            }),
        }
    }

    /// The finished Connect Confirm frame.
    pub fn build_to_confirm(self) -> (r: CoptFrame)
        ensures
            r@ == (SpecCoptFrame { pdu_type: SpecPduType::ConnectConfirm(self.spec_comm()) }),
            self.spec_comm().wf() ==> r@.wf(),
    {
        let Self {
            destination_ref,
            source_ref,
            class,
            extended_formats,
            no_explicit_flow_control,
            parameters,
        } = self;
        CoptFrame {
            pdu_type: PduType::ConnectConfirm(ConnectComm {
                destination_ref,
                source_ref,
                class,
                extended_formats,
                no_explicit_flow_control,
                parameters,
            }),
        }
    }
}

/// Builder of a Data Transfer frame around one S7 frame.
#[derive(Debug)]
pub struct DtDataBuilder {
    pub payload: Frame,
}

impl DtDataBuilder {
    pub fn new(payload: Frame) -> (r: Self)
        ensures
            r.payload@ == payload@,
    {
        Self { payload }
    }

    /// The finished Data Transfer frame.
    pub fn build(self, tpdu_number: u8, last_data_unit: bool) -> (r: CoptFrame)
        ensures
            r@ == (SpecCoptFrame {
                pdu_type: SpecPduType::DtData(SpecDtData {
                    tpdu_number,
                    last_data_unit,
                    payload: self.payload@,
                }),
            }),
            tpdu_number <= 127 && self.payload@.wf() ==> r@.wf(),
    {
        CoptFrame {
            pdu_type: PduType::DtData(DtData { tpdu_number, last_data_unit, payload: self.payload }),
        }
    }
}

impl CoptFrame {
    /// Starts a Data Transfer frame around `payload`.
    pub fn builder_of_dt_data(payload: Frame) -> (r: DtDataBuilder)
        ensures
            r.payload@ == payload@,
    {
        DtDataBuilder::new(payload)
    }

    /// Starts a Connect Request/Confirm frame.
    pub fn builder_of_connect() -> (r: ConnectBuilder)
        ensures
            r.spec_comm() == (SpecConnectComm {
                destination_ref: seq![0u8, 0u8],
                source_ref: seq![0u8, 0u8],
                class: 0u8,
                extended_formats: false,
                no_explicit_flow_control: false,
                parameters: Seq::<crate::copt_model::SpecParameter>::empty(),
            }),
    {
        ConnectBuilder::default()
    }
}

} // verus!
