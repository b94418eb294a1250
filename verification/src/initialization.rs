//! The resource and state initialiser: collects, in the order they are
//! met, the requests that type-level tags make, and emits one registration
//! call for each.

use crate::registration::{Registration, RegistrationModel};
use crate::text::{copy_texts, Text};
use vstd::prelude::*;
use vstd::string::*;

verus! {

/// What a type-level tag asks of the construction procedure.
#[derive(Debug, PartialEq, Eq)]
pub enum InitRequest {
    /// `init_event` on the type.
    Event(String),
    /// `register` on the type.
    Register(String),
    /// `init_resource` on the type: start from the default value.
    DefaultResource(String),
    /// `init_resource(value)`: start from the given value.
    InstanceResource(Vec<String>),
    /// `init_state` on the type: start from the default variant.
    DefaultState(String),
    /// `init_state(value)`: start from the given value.
    InstanceState(Vec<String>),
}

/// The mathematical value of an [`InitRequest`].
pub enum RequestModel {
    Event(Text),
    Register(Text),
    DefaultResource(Text),
    InstanceResource(Seq<Text>),
    DefaultState(Text),
    InstanceState(Seq<Text>),
}

impl View for InitRequest {
    type V = RequestModel;

    open spec fn view(&self) -> RequestModel {
        match self {
            InitRequest::Event(name) => RequestModel::Event(name@),
            InitRequest::Register(name) => RequestModel::Register(name@),
            InitRequest::DefaultResource(name) => RequestModel::DefaultResource(name@),
            InitRequest::InstanceResource(value) => RequestModel::InstanceResource(
                value.deep_view(),
            ),
            InitRequest::DefaultState(name) => RequestModel::DefaultState(name@),
            InitRequest::InstanceState(value) => RequestModel::InstanceState(value.deep_view()),
        }
    }
}

impl DeepView for InitRequest {
    type V = RequestModel;

    open spec fn deep_view(&self) -> RequestModel {
        self@
    }
}

/// The registration call that answers a request.
pub open spec fn init_call(request: RequestModel) -> RegistrationModel {
    match request {
        RequestModel::Event(name) => RegistrationModel::AddEvent(name),
        RequestModel::Register(name) => RegistrationModel::RegisterType(name),
        RequestModel::DefaultResource(name) => RegistrationModel::InitResource(name),
        RequestModel::InstanceResource(value) => RegistrationModel::InsertResource(value),
        RequestModel::DefaultState(name) => RegistrationModel::InitState(name),
        RequestModel::InstanceState(value) => RegistrationModel::InsertState(value),
    }
}

/// One registration call per request, in the order of the requests.
pub open spec fn init_calls(requests: Seq<RequestModel>) -> Seq<RegistrationModel> {
    Seq::new(requests.len(), |i: int| init_call(requests[i]))
}

impl InitRequest {
    /// The registration call that answers this request.
    pub fn call(&self) -> (call: Registration)
        ensures
            call@ == init_call(self@),
    {
        match self {
            InitRequest::Event(name) => Registration::AddEvent(name.clone()),
            InitRequest::Register(name) => Registration::RegisterType(name.clone()),
            InitRequest::DefaultResource(name) => Registration::InitResource(name.clone()),
            InitRequest::InstanceResource(value) => Registration::InsertResource(
                copy_texts(value),
            ),
            InitRequest::DefaultState(name) => Registration::InitState(name.clone()),
            InitRequest::InstanceState(value) => Registration::InsertState(copy_texts(value)),
        }
    }
}

/// The requests collected so far, in the order they were met.
#[derive(Debug, PartialEq, Eq)]
pub struct InitializationSystems {
    pub requests: Vec<InitRequest>,
}

impl View for InitializationSystems {
    type V = Seq<RequestModel>;

    open spec fn view(&self) -> Seq<RequestModel> {
        self.requests.deep_view()
    }
}

impl InitializationSystems {
    /// An initialiser without requests.
    pub fn new() -> (init: InitializationSystems)
        ensures
            init@ == Seq::<RequestModel>::empty(),
    {
        let init = InitializationSystems { requests: Vec::new() };
        assert(init.requests.deep_view() =~= Seq::<RequestModel>::empty());
        init
    }

    /// Records one more request, behind those recorded before.
    pub fn push(&mut self, request: InitRequest)
        ensures
            final(self)@ == old(self)@.push(request@),
    {
        let ghost before = self.requests.deep_view();
        self.requests.push(request);
        assert(self.requests.deep_view() =~= before.push(request@));
    }

    /// Appends to `app_ext` one registration call per request, in the
    /// order in which the requests were met.
    pub fn append(&self, app_ext: &mut Vec<Registration>)
        ensures
            final(app_ext).deep_view() == old(app_ext).deep_view() + init_calls(self@),
    {
        let ghost start = app_ext.deep_view();
        let mut i: usize = 0;
        while i < self.requests.len()
            invariant
                i <= self.requests.len(),
                app_ext.len() == start.len() + i,
                forall|k: int| 0 <= k < start.len() ==> app_ext[k]@ == start[k],
                forall|k: int|
                    0 <= k < i ==> app_ext[start.len() + k]@ == init_call(self.requests[k]@),
            decreases self.requests.len() - i,
        {
            app_ext.push(self.requests[i].call());
            i += 1;
        }
        assert(app_ext.deep_view() =~= start + init_calls(self@));
    }
}

impl Default for InitializationSystems {
    fn default() -> (init: InitializationSystems)
        ensures
            init@ == Seq::<RequestModel>::empty(),
    {
        InitializationSystems::new()
    }
}

} // verus!
