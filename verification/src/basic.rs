//! The systems of the two plain phases, start-up and update, registered
//! free of any order.

use crate::kind::{PhaseExpr, PhaseModel};
use crate::registration::{free_set, Registration, RegistrationModel, SystemSet};
use crate::text::{copy_texts, Text};
use vstd::prelude::*;
use vstd::string::*;

verus! {

/// The systems of the start-up phase and of the update phase, each in
/// declaration order.
#[derive(Debug, PartialEq, Eq)]
pub struct BasicSystems {
    pub startup: Vec<String>,
    pub update: Vec<String>,
}

/// The call that registers the systems of a plain phase, or no call where
/// the phase has none.
pub open spec fn plain_phase_calls(phase: PhaseModel, systems: Seq<Text>) -> Seq<
    RegistrationModel,
> {
    if systems.len() == 0 {
        Seq::<RegistrationModel>::empty()
    } else {
        seq![RegistrationModel::AddSystems { phase, set: free_set(systems) }]
    }
}

fn append_phase(phase: PhaseExpr, systems: &Vec<String>, app_ext: &mut Vec<Registration>)
    ensures
        final(app_ext).deep_view() == old(app_ext).deep_view() + plain_phase_calls(
            phase@,
            systems.deep_view(),
        ),
{
    let ghost start = app_ext.deep_view();
    if systems.len() == 0 {
        assert(start + Seq::<RegistrationModel>::empty() =~= start);
        return ;
    }
    let ghost call = RegistrationModel::AddSystems {
        phase: phase@,
        set: free_set(systems.deep_view()),
    };
    app_ext.push(Registration::AddSystems { phase, set: SystemSet::unordered(copy_texts(systems)) });
    assert(app_ext.deep_view() =~= start + seq![call]);
}

impl BasicSystems {
    /// No system recorded.
    pub fn new() -> (basic: BasicSystems)
        ensures
            basic.startup.deep_view() == Seq::<Text>::empty(),
            basic.update.deep_view() == Seq::<Text>::empty(),
    {
        let basic = BasicSystems { startup: Vec::new(), update: Vec::new() };
        assert(basic.startup.deep_view() =~= Seq::<Text>::empty());
        assert(basic.update.deep_view() =~= Seq::<Text>::empty());
        basic
    }

    /// Records a system of the start-up phase.
    pub fn push_startup(&mut self, ident: String)
        ensures
            final(self).startup.deep_view() == old(self).startup.deep_view().push(ident@),
            final(self).update.deep_view() == old(self).update.deep_view(),
    {
        let ghost before = self.startup.deep_view();
        self.startup.push(ident);
        assert(self.startup.deep_view() =~= before.push(ident@));
    }

    /// Records a system of the update phase.
    pub fn push_update(&mut self, ident: String)
        ensures
            final(self).update.deep_view() == old(self).update.deep_view().push(ident@),
            final(self).startup.deep_view() == old(self).startup.deep_view(),
    {
        let ghost before = self.update.deep_view();
        self.update.push(ident);
        assert(self.update.deep_view() =~= before.push(ident@));
    }

    /// Appends the call of the start-up phase, then that of the update
    /// phase; a phase without systems gets no call.
    pub fn append(&self, app_ext: &mut Vec<Registration>)
        ensures
            final(app_ext).deep_view() == old(app_ext).deep_view() + plain_phase_calls(
                PhaseModel::Startup,
                self.startup.deep_view(),
            ) + plain_phase_calls(PhaseModel::Update, self.update.deep_view()),
    {
        append_phase(PhaseExpr::Startup, &self.startup, app_ext);
        append_phase(PhaseExpr::Update, &self.update, app_ext);
    }
}

} // verus!
