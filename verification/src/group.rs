//! Parties ("groups"): a player creates a group and leads it, invites players
//! who are in no group, invitees accept or decline, members leave; when the
//! leader leaves or the last member leaves, the group is disbanded.
//!
//! Members are identified by player name. `groups[gid]` lists the members with
//! the leader first, `member_of` maps each member to its group, and
//! `pending_invites` maps an invitee to the inviting leader and the group.
use std::collections::HashMap;
use vstd::hash_map::StringHashMap;
use vstd::prelude::*;

use crate::names::{clone_names, names, not_named, without_name};

verus! {

broadcast use vstd::std_specs::hash::group_hash_axioms;

/// Group manager (pure state, no I/O).
pub struct GroupManager {
    /// Player name -> group id.
    pub member_of: StringHashMap<u32>,
    /// Invitee name -> (inviting leader, group id).
    pub pending_invites: StringHashMap<(String, u32)>,
    /// Group id -> member names, leader first.
    pub groups: HashMap<u32, Vec<String>>,
    next_id: u32,
}

#[derive(Debug, Clone, Copy, PartialEq, Eq, Structural)]
pub enum GroupError {
    /// The invitee already belongs to a group.
    AlreadyInGroup,
    /// The player has no pending invitation.
    NoInvite,
    /// Not a group member, or not the leader where a leader is needed.
    NotMember,
    GroupNotFound,
}

/// Abstract state of a `GroupManager`.
pub struct GroupView {
    pub member_of: Map<Seq<char>, u32>,
    pub invites: Map<Seq<char>, (Seq<char>, u32)>,
    pub groups: Map<u32, Seq<Seq<char>>>,
    /// The last group id handed out (0 before the first).
    pub next_id: u32,
}

impl GroupView {
    /// Every group is non-empty and has an id not above the last one handed
    /// out; a player is listed in group `g` exactly when `member_of` maps the
    /// player to `g`.
    pub open spec fn wf(self) -> bool {
        &&& forall|g: u32| #[trigger]
            self.groups.contains_key(g) ==> 0 < g <= self.next_id && self.groups[g].len() > 0
        &&& forall|g: u32, i: int|
            #![trigger self.groups[g][i]]
            self.groups.contains_key(g) && 0 <= i < self.groups[g].len() ==> {
                &&& self.member_of.contains_key(self.groups[g][i])
                &&& self.member_of[self.groups[g][i]] == g
            }
        &&& forall|m: Seq<char>| #[trigger]
            self.member_of.contains_key(m) ==> {
                &&& self.groups.contains_key(self.member_of[m])
                &&& self.groups[self.member_of[m]].contains(m)
            }
    }

    /// The state after `m` leaves its group (unchanged when `m` is in none):
    /// `m` is dropped from the list; if `m` led the group or nobody is left,
    /// the group is disbanded and all its members become group-less.
    pub open spec fn without_member(self, m: Seq<char>) -> GroupView {
        if !self.member_of.contains_key(m) {
            self
        } else {
            let gid = self.member_of[m];
            let members = self.groups[gid];
            let rest = members.filter(not_named(m));
            if members[0] == m || rest.len() == 0 {
                GroupView {
                    member_of: self.member_of.remove(m).remove_keys(rest.to_set()),
                    groups: self.groups.remove(gid),
                    ..self
                }
            } else {
                GroupView {
                    member_of: self.member_of.remove(m),
                    groups: self.groups.insert(gid, rest),
                    ..self
                }
            }
        }
    }

    /// `m` leads a group.
    pub open spec fn leads(self, m: Seq<char>) -> bool {
        &&& self.member_of.contains_key(m)
        &&& self.groups.contains_key(self.member_of[m])
        &&& self.groups[self.member_of[m]][0] == m
    }

    /// `create`: `leader` leaves any group, then leads a new group whose id is
    /// one more than the last id handed out.
    pub open spec fn spec_create(self, leader: Seq<char>) -> (GroupView, u32) {
        let t = self.without_member(leader);
        let id = (self.next_id + 1) as u32;
        (
            GroupView {
                member_of: t.member_of.insert(leader, id),
                groups: t.groups.insert(id, seq![leader]),
                next_id: id,
                ..t
            },
            id,
        )
    }

    /// `invite`: only a leader may invite, not itself, and only a player in no
    /// group; the invitation replaces any earlier one of the invitee.
    pub open spec fn spec_invite(self, host: Seq<char>, target: Seq<char>) -> (
        GroupView,
        Result<u32, GroupError>,
    ) {
        if target == host || !self.leads(host) {
            (self, Err(GroupError::NotMember))
        } else if self.member_of.contains_key(target) {
            (self, Err(GroupError::AlreadyInGroup))
        } else {
            let gid = self.member_of[host];
            (GroupView { invites: self.invites.insert(target, (host, gid)), ..self }, Ok(gid))
        }
    }

    /// `accept`: the invitation is used up; the invitee joins the group at the
    /// end of its list unless it joined another group meanwhile or the group
    /// is gone. The result is the group's new member list.
    pub open spec fn spec_accept(self, invitee: Seq<char>) -> (
        GroupView,
        Result<Seq<Seq<char>>, GroupError>,
    ) {
        if !self.invites.contains_key(invitee) {
            (self, Err(GroupError::NoInvite))
        } else {
            let gid = self.invites[invitee].1;
            let t = GroupView { invites: self.invites.remove(invitee), ..self };
            if self.member_of.contains_key(invitee) {
                (t, Err(GroupError::AlreadyInGroup))
            } else if !self.groups.contains_key(gid) {
                (t, Err(GroupError::GroupNotFound))
            } else {
                let list = self.groups[gid].push(invitee);
                (
                    GroupView {
                        member_of: self.member_of.insert(invitee, gid),
                        groups: self.groups.insert(gid, list),
                        ..t
                    },
                    Ok(list),
                )
            }
        }
    }

    /// `leave`: the remaining member list, empty when the group was disbanded.
    pub open spec fn spec_leave(self, member: Seq<char>) -> (
        GroupView,
        Result<Seq<Seq<char>>, GroupError>,
    ) {
        if !self.member_of.contains_key(member) {
            (self, Err(GroupError::NotMember))
        } else {
            let gid = self.member_of[member];
            let t = self.without_member(member);
            (
                t,
                Ok(
                    if t.groups.contains_key(gid) {
                        t.groups[gid]
                    } else {
                        Seq::empty()
                    },
                ),
            )
        }
    }
}

impl View for GroupManager {
    type V = GroupView;

    closed spec fn view(&self) -> GroupView {
        GroupView {
            member_of: self.member_of@,
            invites: self.pending_invites@.map_values(|p: (String, u32)| (p.0@, p.1)),
            groups: self.groups@.map_values(|v: Vec<String>| names(v@)),
            next_id: self.next_id,
        }
    }
}

proof fn lemma_without_member_wf(s: GroupView, m: Seq<char>)
    requires
        s.wf(),
    ensures
        s.without_member(m).wf(),
{
    broadcast use vstd::seq_lib::group_filter_ensures;

    if s.member_of.contains_key(m) {
        let gid = s.member_of[m];
        let members = s.groups[gid];
        let pred = not_named(m);
        let rest = members.filter(pred);
        let t = s.without_member(m);
        assert forall|x: Seq<char>| rest.contains(x) implies members.contains(x) && x != m by {
            members.lemma_filter_contains_rev(pred, x);
        }
        assert forall|i: int| 0 <= i < members.len() && members[i] != m implies rest.contains(
            members[i],
        ) by {
            members.lemma_filter_contains(pred, i);
        }
        if members[0] == m || rest.len() == 0 {
            assert forall|x: Seq<char>| #[trigger] t.member_of.contains_key(x) implies {
                &&& t.groups.contains_key(t.member_of[x])
                &&& t.groups[t.member_of[x]].contains(x)
            } by {
                assert(s.member_of.contains_key(x));
                if s.member_of[x] == gid {
                    let i = choose|i: int| 0 <= i < members.len() && members[i] == x;
                    assert(rest.contains(members[i]));
                }
            }
        } else {
            assert forall|g: u32, i: int|
                #![trigger t.groups[g][i]]
                t.groups.contains_key(g) && 0 <= i < t.groups[g].len() implies {
                &&& t.member_of.contains_key(t.groups[g][i])
                &&& t.member_of[t.groups[g][i]] == g
            } by {
                if g == gid {
                    assert(t.groups[g] == rest);
                    assert(rest.contains(rest[i]));
                    let j = choose|j: int| 0 <= j < members.len() && members[j] == rest[i];
                    assert(s.member_of[members[j]] == gid);
                } else {
                    assert(t.groups[g] == s.groups[g]);
                    assert(s.member_of[s.groups[g][i]] == g);
                    assert(s.groups[g][i] != m);
                }
            }
            assert forall|x: Seq<char>| #[trigger] t.member_of.contains_key(x) implies {
                &&& t.groups.contains_key(t.member_of[x])
                &&& t.groups[t.member_of[x]].contains(x)
            } by {
                if s.member_of[x] == gid {
                    let i = choose|i: int| 0 <= i < members.len() && members[i] == x;
                    assert(rest.contains(members[i]));
                }
            }
        }
    }
}

impl GroupManager {
    /// An empty manager.
    pub fn new() -> (r: Self)
        ensures
            r@.wf(),
            r@.member_of == Map::<Seq<char>, u32>::empty(),
            r@.invites == Map::<Seq<char>, (Seq<char>, u32)>::empty(),
            r@.groups == Map::<u32, Seq<Seq<char>>>::empty(),
            r@.next_id == 0,
    {
        let r = GroupManager {
            member_of: StringHashMap::new(),
            pending_invites: StringHashMap::new(),
            groups: HashMap::new(),
            next_id: 0,
        };
        assert(r@.invites =~= Map::<Seq<char>, (Seq<char>, u32)>::empty());
        assert(r@.groups =~= Map::<u32, Seq<Seq<char>>>::empty());
        r
    }

    fn next_id(&mut self) -> (r: u32)
        requires
            old(self).next_id < u32::MAX,
        ensures
            r == old(self).next_id + 1,
            final(self).next_id == r,
            final(self).member_of == old(self).member_of,
            final(self).pending_invites == old(self).pending_invites,
            final(self).groups == old(self).groups,
    {
        self.next_id = self.next_id + 1;
        self.next_id
    }

    /// Takes `member` out of its group (see `GroupView::without_member`);
    /// returns whether `member` was in a group.
    fn leave_group_for(&mut self, member: &str) -> (r: bool)
        requires
            old(self)@.wf(),
        ensures
            final(self)@ == old(self)@.without_member(member@),
            r == old(self)@.member_of.contains_key(member@),
    {
        let ghost s = self@;
        let gid = match self.member_of.get(member) {
            Some(g) => *g,
            None => return false,
        };
        let members = match self.groups.get(&gid) {
            Some(v) => clone_names(v),
            None => return false,
        };
        assert(s.groups[gid] == names(members@));
        assert(s.groups.contains_key(gid));
        assert(members@.len() > 0);
        let me = member.to_owned();
        let is_leader = members[0] == me;
        let rest = without_name(&members, &me);
        self.member_of.remove(member);
        if is_leader || rest.len() == 0 {
            self.groups.remove(&gid);
            crate::names::remove_all_names(&mut self.member_of, &rest);
            assert(self@.groups =~= s.without_member(member@).groups);
            assert(self@.member_of =~= s.without_member(member@).member_of);
        } else {
            self.groups.insert(gid, rest);
            assert(self@.groups =~= s.without_member(member@).groups);
        }
        true
    }

    /// Creates a group led by `leader` (who first leaves any group) and returns
    /// its id, one more than the last id handed out.
    pub fn create(&mut self, leader: &str) -> (id: u32)
        requires
            old(self)@.wf(),
            old(self)@.next_id < u32::MAX,
        ensures
            final(self)@.wf(),
            (final(self)@, id) == old(self)@.spec_create(leader@),
    {
        let _ = self.leave_group_for(leader);
        proof {
            lemma_without_member_wf(old(self)@, leader@);
        }
        let ghost t = self@;
        let id = self.next_id();
        let mut v: Vec<String> = Vec::new();
        v.push(leader.to_owned());
        self.groups.insert(id, v);
        self.member_of.insert(leader.to_owned(), id);
        proof {
            assert(names(v@) =~= seq![leader@]);
            assert(self@.groups =~= t.groups.insert(id, seq![leader@]));
            assert(self@.invites =~= t.invites);
            assert(!t.member_of.contains_key(leader@));
            assert forall|g: u32| #[trigger] self@.groups.contains_key(g) implies 0 < g
                <= self@.next_id && self@.groups[g].len() > 0 by {}
            assert forall|g: u32, i: int|
                #![trigger self@.groups[g][i]]
                self@.groups.contains_key(g) && 0 <= i < self@.groups[g].len() implies {
                &&& self@.member_of.contains_key(self@.groups[g][i])
                &&& self@.member_of[self@.groups[g][i]] == g
            } by {
                if g != id {
                    assert(t.groups.contains_key(g));
                    assert(t.member_of.contains_key(t.groups[g][i]));
                }
            }
            assert forall|m: Seq<char>| #[trigger] self@.member_of.contains_key(m) implies {
                &&& self@.groups.contains_key(self@.member_of[m])
                &&& self@.groups[self@.member_of[m]].contains(m)
            } by {
                if m == leader@ {
                    assert(self@.groups[id][0] == leader@);
                } else {
                    assert(t.member_of.contains_key(m));
                    assert(t.member_of[m] <= t.next_id);
                }
            }
        }
        id
    }

    /// Leader `host` invites `target` into its group; returns the group id.
    pub fn invite(&mut self, host: &str, target: &str) -> (r: Result<u32, GroupError>)
        requires
            old(self)@.wf(),
        ensures
            final(self)@.wf(),
            (final(self)@, r) == old(self)@.spec_invite(host@, target@),
    {
        let host_s = host.to_owned();
        let target_s = target.to_owned();
        if target_s == host_s {
            return Err(GroupError::NotMember);
        }
        let gid = match self.member_of.get(host) {
            Some(g) => *g,
            None => return Err(GroupError::NotMember),
        };
        let is_leader = match self.groups.get(&gid) {
            Some(members) => {
                assert(self@.groups[gid] == names(members@));
                members.len() > 0 && members[0] == host_s
            },
            None => return Err(GroupError::GroupNotFound),
        };
        if !is_leader {
            return Err(GroupError::NotMember);
        }
        if self.member_of.contains_key(target) {
            return Err(GroupError::AlreadyInGroup);
        }
        let ghost s = self@;
        self.pending_invites.insert(target_s, (host_s, gid));
        assert(self@.invites =~= s.invites.insert(target@, (host@, gid)));
        Ok(gid)
    }

    /// `invitee` accepts its pending invitation; returns the new member list.
    pub fn accept(&mut self, invitee: &str) -> (r: Result<Vec<String>, GroupError>)
        requires
            old(self)@.wf(),
        ensures
            final(self)@.wf(),
            final(self)@ == old(self)@.spec_accept(invitee@).0,
            match (r, old(self)@.spec_accept(invitee@).1) {
                (Ok(v), Ok(l)) => names(v@) == l,
                (Err(e), Err(e2)) => e == e2,
                _ => false,
            },
    {
        let ghost s = self@;
        let gid = match self.pending_invites.get(invitee) {
            Some(p) => p.1,
            None => return Err(GroupError::NoInvite),
        };
        self.pending_invites.remove(invitee);
        assert(self@.invites =~= s.invites.remove(invitee@));
        if self.member_of.contains_key(invitee) {
            return Err(GroupError::AlreadyInGroup);
        }
        let mut members = match self.groups.get(&gid) {
            Some(v) => clone_names(v),
            None => return Err(GroupError::GroupNotFound),
        };
        assert(s.groups[gid] == names(members@));
        let inv = invitee.to_owned();
        proof {
            crate::names::lemma_names_push(members@, inv);
        }
        members.push(inv);
        let result = clone_names(&members);
        self.groups.insert(gid, members);
        self.member_of.insert(invitee.to_owned(), gid);
        proof {
            let t = self@;
            assert(t.groups =~= s.groups.insert(gid, s.groups[gid].push(invitee@)));
            assert(t.invites =~= s.invites.remove(invitee@));
            assert forall|g: u32| #[trigger] t.groups.contains_key(g) implies 0 < g <= t.next_id
                && t.groups[g].len() > 0 by {
                assert(s.groups.contains_key(g));
            }
            assert forall|g: u32, i: int|
                #![trigger t.groups[g][i]]
                t.groups.contains_key(g) && 0 <= i < t.groups[g].len() implies {
                &&& t.member_of.contains_key(t.groups[g][i])
                &&& t.member_of[t.groups[g][i]] == g
            } by {
                if g == gid && i == s.groups[gid].len() {
                } else {
                    assert(t.groups[g][i] == s.groups[g][i]);
                    assert(s.member_of.contains_key(s.groups[g][i]));
                }
            }
            assert forall|m: Seq<char>| #[trigger] t.member_of.contains_key(m) implies {
                &&& t.groups.contains_key(t.member_of[m])
                &&& t.groups[t.member_of[m]].contains(m)
            } by {
                if m == invitee@ {
                    assert(t.groups[gid][s.groups[gid].len() as int] == m);
                } else {
                    assert(s.member_of.contains_key(m));
                    let g = s.member_of[m];
                    let j = choose|j: int| 0 <= j < s.groups[g].len() && s.groups[g][j] == m;
                    assert(t.groups[g][j] == m);
                }
            }
        }
        Ok(result)
    }

    /// `invitee` declines: its pending invitation is dropped; returns whether
    /// there was one.
    pub fn decline(&mut self, invitee: &str) -> (r: bool)
        requires
            old(self)@.wf(),
        ensures
            final(self)@.wf(),
            r == old(self)@.invites.contains_key(invitee@),
            final(self)@ == (GroupView {
                invites: old(self)@.invites.remove(invitee@),
                ..old(self)@
            }),
    {
        let ghost s = self@;
        let had = self.pending_invites.contains_key(invitee);
        self.pending_invites.remove(invitee);
        assert(self@.invites =~= s.invites.remove(invitee@));
        had
    }

    /// `member` leaves its group; the group is disbanded when `member` led it
    /// or nobody is left. Returns the remaining members (empty when disbanded).
    pub fn leave(&mut self, member: &str) -> (r: Result<Vec<String>, GroupError>)
        requires
            old(self)@.wf(),
        ensures
            final(self)@.wf(),
            final(self)@ == old(self)@.spec_leave(member@).0,
            match (r, old(self)@.spec_leave(member@).1) {
                (Ok(v), Ok(l)) => names(v@) == l,
                (Err(e), Err(e2)) => e == e2,
                _ => false,
            },
    {
        let gid = match self.member_of.get(member) {
            Some(g) => *g,
            None => return Err(GroupError::NotMember),
        };
        proof {
            lemma_without_member_wf(old(self)@, member@);
        }
        let _ = self.leave_group_for(member);
        match self.groups.get(&gid) {
            Some(v) => {
                assert(self@.groups[gid] == names(v@));
                Ok(clone_names(v))
            },
            None => {
                let e: Vec<String> = Vec::new();
                assert(names(e@) =~= Seq::<Seq<char>>::empty());
                Ok(e)
            },
        }
    }

    /// Whether `m` leads a group.
    pub fn is_leader(&self, m: &str) -> (r: bool)
        requires
            self@.wf(),
        ensures
            r == self@.leads(m@),
    {
        let gid = match self.member_of.get(m) {
            Some(g) => *g,
            None => return false,
        };
        match self.groups.get(&gid) {
            Some(v) => {
                assert(self@.groups[gid] == names(v@));
                if v.len() == 0 {
                    return false;
                }
                proof {
                    assert(names(v@)[0] == v@[0]@);
                }
                v[0] == m.to_owned()
            },
            None => false,
        }
    }

    /// The leader who invited `m`, if `m` has a pending invitation.
    pub fn pending_inviter(&self, m: &str) -> (r: Option<String>)
        ensures
            match r {
                Some(h) => self@.invites.contains_key(m@) && h@ == self@.invites[m@].0,
                None => !self@.invites.contains_key(m@),
            },
    {
        match self.pending_invites.get(m) {
            Some(p) => Some(p.0.clone()),
            None => None,
        }
    }

    /// The group `member` belongs to.
    pub fn group_of(&self, member: &str) -> (r: Option<u32>)
        ensures
            r == (if self@.member_of.contains_key(member@) {
                Some(self@.member_of[member@])
            } else {
                None
            }),
    {
        match self.member_of.get(member) {
            Some(g) => Some(*g),
            None => None,
        }
    }

    /// The members of group `gid`, leader first (empty for an unknown group).
    pub fn members(&self, gid: u32) -> (r: Vec<String>)
        ensures
            names(r@) == (if self@.groups.contains_key(gid) {
                self@.groups[gid]
            } else {
                Seq::empty()
            }),
    {
        match self.groups.get(&gid) {
            Some(v) => {
                assert(self@.groups[gid] == names(v@));
                clone_names(v)
            },
            None => {
                let e: Vec<String> = Vec::new();
                assert(names(e@) =~= Seq::<Seq<char>>::empty());
                e
            },
        }
    }
}


/// Every member list names each player once.
pub open spec fn lists_unique(s: GroupView) -> bool {
    forall|g: u32| #[trigger] s.groups.contains_key(g) ==> s.groups[g].no_duplicates()
}

/// Filtering a list that names each player once keeps it so.
proof fn lemma_filter_unique(s: Seq<Seq<char>>, p: spec_fn(Seq<char>) -> bool)
    requires
        s.no_duplicates(),
    ensures
        s.filter(p).no_duplicates(),
    decreases s.len(),
{
    if s.len() > 0 {
        let d = s.drop_last();
        let x = s.last();
        assert(d.no_duplicates()) by {
            assert forall|i: int, j: int| 0 <= i < d.len() && 0 <= j < d.len() && i != j implies d[i]
                != d[j] by {
                assert(d[i] == s[i] && d[j] == s[j]);
            }
        }
        lemma_filter_unique(d, p);
        assert(s =~= d.push(x));
        d.lemma_filter_push(x, p);
        if p(x) {
            let f = d.filter(p);
            if f.contains(x) {
                d.lemma_filter_contains_rev(p, x);
                let k = choose|k: int| 0 <= k < d.len() && d[k] == x;
                assert(s[k] == s[s.len() - 1]);
            }
            let g = f.push(x);
            assert forall|i: int, j: int| 0 <= i < g.len() && 0 <= j < g.len() && i != j implies g[i]
                != g[j] by {
                if i == f.len() {
                    assert(f[j] == g[j]);
                    assert(f.contains(g[j]));
                } else if j == f.len() {
                    assert(f[i] == g[i]);
                    assert(f.contains(g[i]));
                } else {
                    assert(f[i] == g[i] && f[j] == g[j]);
                }
            }
        }
    }
}

/// Leaving keeps the group book consistent: when every group is non-empty,
/// lists each player once, and a player is listed in group `g` exactly when
/// mapped to `g`, the same holds after any player leaves.
pub proof fn law_leave_keeps_groups_consistent(s: GroupView, member: Seq<char>)
    requires
        s.wf(),
        lists_unique(s),
    ensures
        s.spec_leave(member).0.wf(),
        lists_unique(s.spec_leave(member).0),
{
    let t = s.spec_leave(member).0;
    if s.member_of.contains_key(member) {
        let gid = s.member_of[member];
        lemma_filter_unique(s.groups[gid], not_named(member));
        lemma_without_member_wf(s, member);
        assert forall|g: u32| #[trigger] t.groups.contains_key(g) implies t.groups[g].no_duplicates() by {
            if g != gid {
                assert(t.groups[g] == s.groups[g]);
            }
        }
    }
}

/// When the leader leaves, the group is disbanded: `leave` answers an empty
/// list, the group id is gone and none of its former members is in a group.
pub proof fn law_leader_leave_disbands(s: GroupView, leader: Seq<char>)
    requires
        s.wf(),
        s.leads(leader),
    ensures
        ({
            let gid = s.member_of[leader];
            let (t, r) = s.spec_leave(leader);
            &&& r == Ok::<Seq<Seq<char>>, GroupError>(Seq::empty())
            &&& !t.groups.contains_key(gid)
            &&& forall|i: int|
                0 <= i < s.groups[gid].len() ==> !t.member_of.contains_key(#[trigger] s.groups[gid][i])
        }),
{
    broadcast use vstd::seq_lib::group_filter_ensures;

    let gid = s.member_of[leader];
    let members = s.groups[gid];
    let rest = members.filter(not_named(leader));
    assert forall|i: int| 0 <= i < members.len() && members[i] != leader implies rest.to_set().contains(
        members[i],
    ) by {
        members.lemma_filter_contains(not_named(leader), i);
    }
}

/// When a member other than the leader leaves a group of two or more, the
/// group stays with everyone else in the same order and the same leader.
pub proof fn law_member_leave_keeps_group(s: GroupView, member: Seq<char>)
    requires
        s.wf(),
        s.member_of.contains_key(member),
        !s.leads(member),
        s.groups[s.member_of[member]].len() >= 2,
    ensures
        ({
            let gid = s.member_of[member];
            let (t, r) = s.spec_leave(member);
            &&& t.wf()
            &&& t.groups.contains_key(gid)
            &&& t.groups[gid] == s.groups[gid].filter(not_named(member))
            &&& t.groups[gid][0] == s.groups[gid][0]
            &&& r == Ok::<Seq<Seq<char>>, GroupError>(t.groups[gid])
            &&& !t.member_of.contains_key(member)
        }),
{
    broadcast use vstd::seq_lib::group_filter_ensures;

    lemma_without_member_wf(s, member);
    let gid = s.member_of[member];
    let members = s.groups[gid];
    let rest = members.filter(not_named(member));
    members.lemma_filter_contains(not_named(member), 0);
    assert(rest.len() > 0);
    lemma_filter_keeps_first(members, not_named(member));
}

/// Filtering a sequence whose first element passes keeps that element first.
proof fn lemma_filter_keeps_first(s: Seq<Seq<char>>, p: spec_fn(Seq<char>) -> bool)
    requires
        s.len() > 0,
        p(s[0]),
    ensures
        s.filter(p).len() > 0,
        s.filter(p)[0] == s[0],
    decreases s.len(),
{
    reveal(Seq::filter);
    if s.len() > 1 {
        lemma_filter_keeps_first(s.drop_last(), p);
        assert(s.drop_last()[0] == s[0]);
    }
}

/// A leader's invitation, once accepted, puts the invitee at the end of the
/// leader's group, and the invitee's group is then the leader's.
pub proof fn law_invite_then_accept(s: GroupView, host: Seq<char>, target: Seq<char>)
    requires
        s.wf(),
        s.leads(host),
        target != host,
        !s.member_of.contains_key(target),
    ensures
        ({
            let gid = s.member_of[host];
            let (s1, r1) = s.spec_invite(host, target);
            let (s2, r2) = s1.spec_accept(target);
            &&& r1 == Ok::<u32, GroupError>(gid)
            &&& r2 == Ok::<Seq<Seq<char>>, GroupError>(s.groups[gid].push(target))
            &&& s2.member_of[target] == gid
            &&& !s2.invites.contains_key(target)
        }),
{
}

/// A newly created group has an id never used before, and its leader is its
/// only member.
pub proof fn law_create_fresh(s: GroupView, leader: Seq<char>)
    requires
        s.wf(),
        s.next_id < u32::MAX,
    ensures
        ({
            let (t, id) = s.spec_create(leader);
            &&& !s.groups.contains_key(id)
            &&& t.groups[id] == seq![leader]
            &&& t.member_of[leader] == id
        }),
{
}

} // verus!
