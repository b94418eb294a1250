//! Members grouped under keys, in the order in which the keys were first
//! met: what the collectors use in place of a hash map, so that what they
//! emit does not depend on how a map is walked.

use crate::text::{copy_texts, texts_eq, Text};
use vstd::prelude::*;
use vstd::string::*;

verus! {

/// The members recorded under one key.
#[derive(Debug, PartialEq, Eq)]
pub struct Group {
    pub key: Vec<String>,
    pub members: Vec<String>,
}

/// The mathematical value of a [`Group`].
pub struct GroupModel {
    pub key: Seq<Text>,
    pub members: Seq<Text>,
}

impl View for Group {
    type V = GroupModel;

    open spec fn view(&self) -> GroupModel {
        GroupModel { key: self.key.deep_view(), members: self.members.deep_view() }
    }
}

impl DeepView for Group {
    type V = GroupModel;

    open spec fn deep_view(&self) -> GroupModel {
        self@
    }
}

impl Group {
    /// A copy of this group.
    pub fn duplicate(&self) -> (copy: Group)
        ensures
            copy@ == self@,
    {
        Group { key: copy_texts(&self.key), members: copy_texts(&self.members) }
    }
}

/// A fresh copy of every group of `groups`, in order.
pub fn copy_bindings(groups: &Vec<Group>) -> (out: Vec<Group>)
    ensures
        out.deep_view() == groups.deep_view(),
{
    let mut out: Vec<Group> = Vec::new();
    let mut i: usize = 0;
    while i < groups.len()
        invariant
            i <= groups.len(),
            out.len() == i,
            forall|k: int| 0 <= k < i ==> out[k]@ == groups[k]@,
        decreases groups.len() - i,
    {
        out.push(groups[i].duplicate());
        i += 1;
    }
    assert(out.deep_view() =~= groups.deep_view());
    out
}

/// The first index from `from` on of the group with key `key`.
pub open spec fn find_group(groups: Seq<GroupModel>, key: Seq<Text>, from: int) -> Option<int>
    decreases groups.len() - from,
{
    if from < 0 || from >= groups.len() {
        None
    } else if groups[from].key == key {
        Some(from)
    } else {
        find_group(groups, key, from + 1)
    }
}

/// The groups after `member` was recorded under `key`: appended to the
/// group of that key if there is one, else alone in a new last group.
pub open spec fn with_member(groups: Seq<GroupModel>, key: Seq<Text>, member: Text) -> Seq<
    GroupModel,
> {
    match find_group(groups, key, 0) {
        Some(at) => groups.update(
            at,
            GroupModel { key, members: groups[at].members.push(member) },
        ),
        None => groups.push(GroupModel { key, members: seq![member] }),
    }
}

/// Whether no key occurs twice.
pub open spec fn distinct_keys(groups: Seq<GroupModel>) -> bool {
    forall|i: int, j: int|
        0 <= i < j < groups.len() ==> (#[trigger] groups[i]).key != (#[trigger] groups[j]).key
}

/// Where `find_group` finds a group, it is the first with that key; where
/// it finds none, no group from `from` on has the key.
pub proof fn lemma_find_group(groups: Seq<GroupModel>, key: Seq<Text>, from: int)
    requires
        0 <= from,
    ensures
        match find_group(groups, key, from) {
            Some(at) => from <= at < groups.len() && groups[at].key == key,
            None => forall|k: int| from <= k < groups.len() ==> (#[trigger] groups[k]).key != key,
        },
    decreases groups.len() - from,
{
    if from < groups.len() && groups[from].key != key {
        lemma_find_group(groups, key, from + 1);
    }
}

/// Recording a member keeps the keys distinct.
pub proof fn lemma_with_member_keeps_keys_distinct(
    groups: Seq<GroupModel>,
    key: Seq<Text>,
    member: Text,
)
    requires
        distinct_keys(groups),
    ensures
        distinct_keys(with_member(groups, key, member)),
{
    lemma_find_group(groups, key, 0);
    let after = with_member(groups, key, member);
    assert forall|i: int, j: int| 0 <= i < j < after.len() implies (#[trigger] after[i]).key != (
    #[trigger] after[j]).key by {
        match find_group(groups, key, 0) {
            Some(at) => {
                assert(after[i].key == groups[i].key);
                assert(after[j].key == groups[j].key);
            },
            None => {
                if j < groups.len() {
                    assert(after[i] == groups[i]);
                    assert(after[j] == groups[j]);
                } else {
                    assert(after[i] == groups[i]);
                }
            },
        }
    }
}

/// Groups of members under distinct keys.
#[derive(Debug, PartialEq, Eq)]
pub struct GroupMap {
    pub groups: Vec<Group>,
}

impl View for GroupMap {
    type V = Seq<GroupModel>;

    open spec fn view(&self) -> Seq<GroupModel> {
        self.groups.deep_view()
    }
}

impl GroupMap {
    /// Whether the map is well formed: no key occurs twice.
    pub open spec fn wf(&self) -> bool {
        distinct_keys(self@)
    }

    /// A map without groups.
    pub fn new() -> (map: GroupMap)
        ensures
            map@ == Seq::<GroupModel>::empty(),
            map.wf(),
    {
        let map = GroupMap { groups: Vec::new() };
        assert(map.groups.deep_view() =~= Seq::<GroupModel>::empty());
        map
    }

    /// Whether the map holds no group.
    pub fn is_empty(&self) -> (empty: bool)
        ensures
            empty == (self@.len() == 0),
    {
        self.groups.len() == 0
    }

    /// Records `member` under `key`.
    pub fn add(&mut self, key: &Vec<String>, member: &str)
        ensures
            final(self)@ == with_member(old(self)@, key.deep_view(), member@),
            old(self).wf() ==> final(self).wf(),
    {
        let ghost before = self@;
        proof {
            if distinct_keys(before) {
                lemma_with_member_keeps_keys_distinct(before, key.deep_view(), member@);
            }
        }
        let n = self.groups.len();
        let mut i: usize = 0;
        while i < n
            invariant
                i <= n,
                n == self.groups.len(),
                self@ == before,
                before == old(self)@,
                distinct_keys(before) ==> distinct_keys(
                    with_member(before, key.deep_view(), member@),
                ),
                find_group(before, key.deep_view(), 0) == find_group(
                    before,
                    key.deep_view(),
                    i as int,
                ),
            decreases n - i,
        {
            assert(self.groups.deep_view()[i as int] == self.groups[i as int]@);
            if texts_eq(&self.groups[i].key, key) {
                let mut members = copy_texts(&self.groups[i].members);
                let ghost old_members = members.deep_view();
                members.push(String::from_str(member));
                assert(members.deep_view() =~= old_members.push(member@));
                self.groups.set(i, Group { key: copy_texts(key), members });
                assert(self.groups.deep_view() =~= with_member(
                    before,
                    key.deep_view(),
                    member@,
                ));
                return ;
            }
            i += 1;
        }
        let mut members: Vec<String> = Vec::new();
        members.push(String::from_str(member));
        assert(members.deep_view() =~= seq![member@]);
        self.groups.push(Group { key: copy_texts(key), members });
        assert(self.groups.deep_view() =~= with_member(before, key.deep_view(), member@));
    }
}

} // verus!
