//! State hooks: the systems that run on entering or leaving a state
//! value, grouped by that value.

use crate::error::{CompileError, CompileErrorModel, ErrorKind};
use crate::groups::{with_member, GroupMap, GroupModel};
use crate::kind::{PhaseExpr, PhaseModel};
use crate::registration::{free_set, Registration, RegistrationModel, SystemSet};
use crate::text::{copy_texts, Text};
use crate::unit::Tag;
use vstd::prelude::*;
use vstd::string::*;

verus! {

/// On which side of a state value a hook runs.
#[derive(Clone, Copy, PartialEq, Eq, Structural, Debug)]
pub enum StateType {
    Enter,
    Exit,
}

/// The hooks of every state value, entering and leaving.
#[derive(Debug, PartialEq, Eq)]
pub struct StateSystems {
    pub enters: GroupMap,
    pub exits: GroupMap,
}

/// The phase of the hooks of one state value.
pub open spec fn hook_phase(ty: StateType, state: Seq<Text>) -> PhaseModel {
    match ty {
        StateType::Enter => PhaseModel::OnEnter(state),
        StateType::Exit => PhaseModel::OnExit(state),
    }
}

/// One call per state value, in the order in which the values were first
/// met, each registering the hooks of that value free of any order.
pub open spec fn hook_calls(ty: StateType, groups: Seq<GroupModel>) -> Seq<RegistrationModel> {
    Seq::new(
        groups.len(),
        |i: int|
            RegistrationModel::AddSystems {
                phase: hook_phase(ty, groups[i].key),
                set: free_set(groups[i].members),
            },
    )
}

fn append_hooks(ty: StateType, map: &GroupMap, app_ext: &mut Vec<Registration>)
    ensures
        final(app_ext).deep_view() == old(app_ext).deep_view() + hook_calls(ty, map@),
{
    let ghost start = app_ext.deep_view();
    let mut i: usize = 0;
    while i < map.groups.len()
        invariant
            i <= map.groups.len(),
            app_ext.len() == start.len() + i,
            forall|k: int| 0 <= k < start.len() ==> app_ext[k]@ == start[k],
            forall|k: int| 0 <= k < i ==> app_ext[start.len() + k]@ == hook_calls(ty, map@)[k],
        decreases map.groups.len() - i,
    {
        assert(map@[i as int] == map.groups[i as int]@);
        let key = copy_texts(&map.groups[i].key);
        let phase = match ty {
            StateType::Enter => PhaseExpr::OnEnter(key),
            StateType::Exit => PhaseExpr::OnExit(key),
        };
        let set = SystemSet::unordered(copy_texts(&map.groups[i].members));
        app_ext.push(Registration::AddSystems { phase, set });
        i += 1;
    }
    assert(app_ext.deep_view() =~= start + hook_calls(ty, map@));
}

impl StateSystems {
    /// No hook recorded.
    pub fn new() -> (states: StateSystems)
        ensures
            states.enters@ == Seq::<GroupModel>::empty(),
            states.exits@ == Seq::<GroupModel>::empty(),
            states.enters.wf(),
            states.exits.wf(),
    {
        StateSystems { enters: GroupMap::new(), exits: GroupMap::new() }
    }

    /// Records the unit `name` as a hook of the state value that the tag
    /// carries, on the side `ty`. A tag without tokens names no state
    /// value: it is malformed, and changes nothing.
    pub fn push(&mut self, ty: StateType, attr: &Tag, name: &str) -> (out: Result<
        (),
        CompileError,
    >)
        ensures
            old(self).enters.wf() ==> final(self).enters.wf(),
            old(self).exits.wf() ==> final(self).exits.wf(),
            match out {
                Ok(()) => {
                    &&& attr@.tokens.len() > 0
                    &&& final(self).enters@ == if ty == StateType::Enter {
                        with_member(old(self).enters@, attr@.tokens, name@)
                    } else {
                        old(self).enters@
                    }
                    &&& final(self).exits@ == if ty == StateType::Exit {
                        with_member(old(self).exits@, attr@.tokens, name@)
                    } else {
                        old(self).exits@
                    }
                },
                Err(error) => {
                    &&& attr@.tokens.len() == 0
                    &&& error@ == (CompileErrorModel {
                        kind: ErrorKind::MalformedTag,
                        declaration: name@,
                        tag: attr@.name,
                    })
                    &&& final(self).enters@ == old(self).enters@
                    &&& final(self).exits@ == old(self).exits@
                },
            },
    {
        if attr.tokens.len() == 0 {
            return Err(CompileError::new(ErrorKind::MalformedTag, name, attr.name.as_str()));
        }
        match ty {
            StateType::Enter => {
                self.enters.add(&attr.tokens, name);
            },
            StateType::Exit => {
                self.exits.add(&attr.tokens, name);
            },
        }
        Ok(())
    }

    /// Appends one registration call per state value: first those of the
    /// entering hooks, then those of the leaving hooks.
    pub fn append(&self, app_ext: &mut Vec<Registration>)
        ensures
            final(app_ext).deep_view() == old(app_ext).deep_view() + hook_calls(
                StateType::Enter,
                self.enters@,
            ) + hook_calls(StateType::Exit, self.exits@),
    {
        append_hooks(StateType::Enter, &self.enters, app_ext);
        append_hooks(StateType::Exit, &self.exits, app_ext);
    }
}

} // verus!
