//! The registry mapping group names to groups, with create-on-first-use.
//!
//! The table guarantees that at most one group ever exists per name: lookup
//! and insert-if-absent are single atomic operations on the table, never a
//! separate check followed by a separate insert.

use crate::group::{Group, GroupView, Subscription, GROUP_CAPACITY};
use std::sync::Arc;
use vstd::prelude::*;

verus! {

/// True when some group of `s` carries the given name.
pub open spec fn contains_name(s: Seq<GroupView>, name: Seq<char>) -> bool {
    exists|i: int| 0 <= i < s.len() && (#[trigger] s[i]).name == name
}

/// True when no two groups of `s` share a name.
pub open spec fn names_unique(s: Seq<GroupView>) -> bool {
    forall|i: int, j: int| 0 <= i < j < s.len() ==> (#[trigger] s[i]).name != (#[trigger] s[j]).name
}

/// The view of a freshly created group with the given name.
pub open spec fn fresh_group(name: Seq<char>) -> GroupView {
    GroupView { name, history: Seq::empty(), capacity: GROUP_CAPACITY as nat, closed: false }
}

/// The registry: group name to group, entries never removed.
pub struct GroupTable {
    groups: Vec<Group>,
}

impl View for GroupTable {
    type V = Seq<GroupView>;

    closed spec fn view(&self) -> Seq<GroupView> {
        self.groups@.map_values(|g: Group| g@)
    }
}

impl GroupTable {
    /// Representation invariant: every group is well formed, and no two share
    /// a name.
    pub closed spec fn wf(&self) -> bool {
        &&& forall|i: int| 0 <= i < self.groups@.len() ==> (#[trigger] self.groups@[i]).wf()
        &&& names_unique(self@)
    }

    /// An empty registry.
    pub fn new() -> (t: GroupTable)
        ensures
            t.wf(),
            t@ == Seq::<GroupView>::empty(),
    {
        let t = GroupTable { groups: Vec::new() };
        proof {
            assert(t@ =~= Seq::<GroupView>::empty());
        }
        t
    }

    /// How many groups exist.
    pub fn len(&self) -> (n: usize)
        ensures
            n == self@.len(),
    {
        self.groups.len()
    }

    /// The position of the group with the given name, if one exists.
    pub fn index_of(&self, name: &String) -> (r: Option<usize>)
        requires
            self.wf(),
        ensures
            match r {
                Some(i) => i < self@.len() && self@[i as int].name == name@,
                None => !contains_name(self@, name@),
            },
    {
        let end = self.groups.len();
        let mut i: usize = 0;
        while i < end
            invariant
                end == self.groups@.len(),
                i <= end,
                self@.len() == self.groups@.len(),
                forall|j: int| 0 <= j < i ==> (#[trigger] self@[j]).name != name@,
            decreases end - i,
        {
            let candidate: &Arc<String> = self.groups[i].name();
            if (&**candidate).eq(name) {
                return Some(i);
            }
            i = i + 1;
        }
        None
    }

    /// Read-only lookup of a group by name; does not create.
    pub fn get(&self, name: &String) -> (r: Option<&Group>)
        requires
            self.wf(),
        ensures
            match r {
                Some(g) => {
                    &&& g.wf()
                    &&& g@.name == name@
                    &&& exists|i: int| 0 <= i < self@.len() && #[trigger] self@[i] == g@
                },
                None => !contains_name(self@, name@),
            },
    {
        match self.index_of(name) {
            Some(i) => {
                let g = &self.groups[i];
                proof {
                    assert(self@[i as int] == g@);
                }
                Some(g)
            },
            None => None,
        }
    }

    /// Atomic insert-if-absent: return the position of the group with the
    /// given name, creating it first when no such group exists. The table is
    /// otherwise unchanged, so at most one group per name can ever arise.
    pub fn get_or_create(&mut self, name: Arc<String>) -> (idx: usize)
        requires
            old(self).wf(),
        ensures
            final(self).wf(),
            names_unique(final(self)@),
            idx < final(self)@.len(),
            final(self)@[idx as int].name == name@,
            contains_name(old(self)@, name@) ==> final(self)@ == old(self)@,
            !contains_name(old(self)@, name@) ==> final(self)@ == old(self)@.push(
                fresh_group(name@),
            ) && idx == old(self)@.len(),
    {
        let existing = self.index_of(&*name);
        match existing {
            Some(i) => {
                proof {
                    assert(contains_name(self@, name@));
                }
                i
            },
            None => {
                let idx = self.groups.len();
                self.groups.push(Group::new(name));
                proof {
                    assert(self@ =~= old(self)@.push(fresh_group(name@)));
                    assert forall|a: int, b: int| 0 <= a < b < self@.len() implies (
                    #[trigger] self@[a]).name != (#[trigger] self@[b]).name by {
                        if b == self@.len() - 1 {
                            assert(old(self)@[a].name != name@);
                        } else {
                            assert(self@[a] == old(self)@[a] && self@[b] == old(self)@[b]);
                        }
                    }
                    assert forall|a: int| 0 <= a < self.groups@.len() implies (
                    #[trigger] self.groups@[a]).wf() by {
                        if a < self.groups@.len() - 1 {
                            assert(self.groups@[a] == old(self).groups@[a]);
                        }
                    }
                }
                idx
            },
        }
    }

    /// Borrow the group at a position.
    pub fn group_at(&self, idx: usize) -> (g: &Group)
        requires
            self.wf(),
            idx < self@.len(),
        ensures
            g.wf(),
            g@ == self@[idx as int],
    {
        &self.groups[idx]
    }

    /// Start a subscription on the group at a position.
    pub fn subscribe_at(&self, idx: usize) -> (s: Subscription)
        requires
            self.wf(),
            idx < self@.len(),
        ensures
            s@.wf(self@[idx as int]),
            s@.cursor == self@[idx as int].next_seq(),
            s@.joined_at == self@[idx as int].next_seq(),
            s@.delivered == Seq::<int>::empty(),
    {
        self.groups[idx].subscribe()
    }

    /// Post a message to the group at a position; every other group is
    /// untouched.
    pub fn post_to(&mut self, idx: usize, message: Arc<String>)
        requires
            old(self).wf(),
            idx < old(self)@.len(),
            old(self)@[idx as int].history.len() < u64::MAX,
        ensures
            final(self).wf(),
            names_unique(final(self)@),
            final(self)@ == old(self)@.update(
                idx as int,
                (GroupView {
                    history: old(self)@[idx as int].history.push(message@),
                    ..old(self)@[idx as int]
                }),
            ),
    {
        self.groups[idx].post(message);
        proof {
            assert(self@ =~= old(self)@.update(
                idx as int,
                (GroupView {
                    history: old(self)@[idx as int].history.push(message@),
                    ..old(self)@[idx as int]
                }),
            ));
            assert forall|a: int, b: int| 0 <= a < b < self@.len() implies (
            #[trigger] self@[a]).name != (#[trigger] self@[b]).name by {
                assert(self@[a].name == old(self)@[a].name);
                assert(self@[b].name == old(self)@[b].name);
            }
            assert forall|a: int| 0 <= a < self.groups@.len() implies (
            #[trigger] self.groups@[a]).wf() by {
                if a != idx as int {
                    assert(self.groups@[a] == old(self).groups@[a]);
                }
            }
        }
    }
}

/// At most one group per name: in a registry whose names are unique, two
/// positions holding the same name are the same position, so concurrent joins
/// of one name can only ever observe a single group.
pub proof fn lemma_at_most_one_group_per_name(s: Seq<GroupView>, i: int, j: int)
    requires
        names_unique(s),
        0 <= i < s.len(),
        0 <= j < s.len(),
        s[i].name == s[j].name,
    ensures
        i == j,
{
}

} // verus!
