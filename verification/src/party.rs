//! Group requests of a player in the game: switching invitations on or
//! off, inviting a player, answering an invitation, and removing a member or
//! leaving. A request updates the group book (and the players' flags) and
//! yields the messages to send, each addressed to a player online.
use vstd::prelude::*;
use vstd::string::StrSliceExecFns;

use crate::combat::{find_player, first_match, lemma_first_match, player_id};
use crate::entities::Player;
use crate::game::{actions_view, name_of, player_named, take_player, Action, ActionV, GameState, GameView};
use crate::group::GroupError;
use crate::names::names;

verus! {

/// What a group message tells a player about.
#[derive(Debug, Clone, Copy, PartialEq, Eq, Structural)]
pub enum GroupNote {
    /// The invited player is not online.
    TargetOffline,
    InviteSelf,
    /// The invited player does not take invitations.
    TargetClosed,
    TargetInGroup,
    /// Only a leader can invite.
    NotLeader,
    /// The player named was invited.
    Invited,
    NoInvite,
    /// The player named declined the invitation.
    Declined,
    /// The invitation is gone, or the group.
    InviteStale,
    /// Joined the group of the player named.
    Joined,
    OnlyLeaderRemoves,
    /// The player named is not in the group.
    NotInYourGroup,
    /// Removed from the group by the player named.
    RemovedBy,
}

/// A group message.
pub enum GroupMsg {
    /// Whether the player takes invitations now.
    Switch(bool),
    /// The player named invites the receiver into a group.
    Invite(String),
    /// The player named is in the receiver's group.
    AddMember(String),
    /// The receiver's group is gone (for the receiver).
    DeleteGroup,
    /// The player named left the receiver's group.
    DeleteMember(String),
    /// A notice, with the player it names (or empty).
    Note(GroupNote, String),
}

/// Abstract value of a `GroupMsg`.
pub enum GroupMsgV {
    Switch(bool),
    Invite(Seq<char>),
    AddMember(Seq<char>),
    DeleteGroup,
    DeleteMember(Seq<char>),
    Note(GroupNote, Seq<char>),
}

impl View for GroupMsg {
    type V = GroupMsgV;

    open spec fn view(&self) -> GroupMsgV {
        match self {
            GroupMsg::Switch(b) => GroupMsgV::Switch(*b),
            GroupMsg::Invite(n) => GroupMsgV::Invite(n@),
            GroupMsg::AddMember(n) => GroupMsgV::AddMember(n@),
            GroupMsg::DeleteGroup => GroupMsgV::DeleteGroup,
            GroupMsg::DeleteMember(n) => GroupMsgV::DeleteMember(n@),
            GroupMsg::Note(k, n) => GroupMsgV::Note(*k, n@),
        }
    }
}

/// A group request.
pub enum GroupRequest {
    /// Take invitations or not.
    Switch { allow: bool },
    /// Invite the player named.
    Add { name: String },
    /// Remove the member named (an empty name: leave the group).
    Del { name: String },
    /// Answer the pending invitation.
    Answer { accept: bool },
}

/// Abstract value of a `GroupRequest`.
pub enum GroupRequestV {
    Switch { allow: bool },
    Add { name: Seq<char> },
    Del { name: Seq<char> },
    Answer { accept: bool },
}

impl View for GroupRequest {
    type V = GroupRequestV;

    open spec fn view(&self) -> GroupRequestV {
        match self {
            GroupRequest::Switch { allow } => GroupRequestV::Switch { allow: *allow },
            GroupRequest::Add { name } => GroupRequestV::Add { name: name@ },
            GroupRequest::Del { name } => GroupRequestV::Del { name: name@ },
            GroupRequest::Answer { accept } => GroupRequestV::Answer { accept: *accept },
        }
    }
}

/// A message to player `object_id`.
pub open spec fn msg_to(object_id: u32, m: GroupMsgV) -> ActionV {
    ActionV::Group { object_id, msg: m }
}

/// A notice to player `object_id`.
pub open spec fn note_to(object_id: u32, k: GroupNote, name: Seq<char>) -> Seq<ActionV> {
    seq![msg_to(object_id, GroupMsgV::Note(k, name))]
}

/// `m` to the player called `name`, if online.
pub open spec fn to_one(ps: Seq<Player>, name: Seq<char>, m: GroupMsgV) -> Seq<ActionV> {
    match first_match(ps, player_named(name)) {
        Some(i) => seq![msg_to(ps[i].object_id, m)],
        None => Seq::empty(),
    }
}

/// `m` to each of `members` other than `skip` that is online, in order.
pub open spec fn to_others(ps: Seq<Player>, members: Seq<Seq<char>>, skip: Seq<char>, m: GroupMsgV) -> Seq<
    ActionV,
>
    decreases members.len(),
{
    if members.len() == 0 {
        Seq::empty()
    } else {
        to_others(ps, members.drop_last(), skip, m) + if members.last() == skip {
            Seq::empty()
        } else {
            to_one(ps, members.last(), m)
        }
    }
}

/// To player `object_id`, one `AddMember` for each of `members` other than
/// `skip`, in order.
pub open spec fn members_to(object_id: u32, members: Seq<Seq<char>>, skip: Seq<char>) -> Seq<ActionV>
    decreases members.len(),
{
    if members.len() == 0 {
        Seq::empty()
    } else {
        members_to(object_id, members.drop_last(), skip) + if members.last() == skip {
            Seq::empty()
        } else {
            seq![msg_to(object_id, GroupMsgV::AddMember(members.last()))]
        }
    }
}

/// How many of `members` are not `skip`.
pub open spec fn count_others(members: Seq<Seq<char>>, skip: Seq<char>) -> nat
    decreases members.len(),
{
    if members.len() == 0 {
        0
    } else {
        count_others(members.drop_last(), skip) + if members.last() == skip {
            0nat
        } else {
            1nat
        }
    }
}

/// `leaver` leaves its group, and the group is told: nothing when it is in
/// none or its group had fewer than two members; otherwise the leaver's
/// group is gone for the leaver, and the others are told it left (or, when
/// one is left, that the group is gone).
pub open spec fn spec_leave_notify(g: GameView, leaver: Seq<char>) -> (GameView, Seq<ActionV>) {
    if !g.group.member_of.contains_key(leaver) {
        (g, Seq::empty())
    } else {
        let gid = g.group.member_of[leaver];
        let members = if g.group.groups.contains_key(gid) {
            g.group.groups[gid]
        } else {
            Seq::empty()
        };
        let g2 = GameView { group: g.group.spec_leave(leaver).0, ..g };
        if members.len() < 2 {
            (g2, Seq::empty())
        } else {
            let others = if count_others(members, leaver) > 1 {
                to_others(g.players, members, leaver, GroupMsgV::DeleteMember(leaver))
            } else {
                to_others(g.players, members, leaver, GroupMsgV::DeleteGroup)
            };
            (g2, to_one(g.players, leaver, GroupMsgV::DeleteGroup) + others)
        }
    }
}

/// The players with player `who`'s flag for invitations set to `allow`.
pub open spec fn with_allow(ps: Seq<Player>, who: u32, allow: bool) -> Seq<Player> {
    match first_match(ps, player_id(who)) {
        Some(i) => ps.update(i, Player { allow_group: allow, ..ps[i] }),
        None => ps,
    }
}

/// One group request of player `who` (see `group_step`).
pub open spec fn spec_group_step(g: GameView, who: u32, req: GroupRequestV) -> (GameView, Seq<ActionV>) {
    let me = name_of(g.players, who);
    match req {
        GroupRequestV::Switch { allow } => {
            let g1 = GameView { players: with_allow(g.players, who, allow), ..g };
            let first = seq![msg_to(who, GroupMsgV::Switch(allow))];
            if allow {
                (g1, first)
            } else {
                let (g2, m) = spec_leave_notify(g1, me);
                (g2, first + m)
            }
        },
        GroupRequestV::Add { name } => match first_match(g.players, player_named(name)) {
            None => (g, note_to(who, GroupNote::TargetOffline, Seq::empty())),
            Some(t) => if g.players[t].object_id == who {
                (g, note_to(who, GroupNote::InviteSelf, Seq::empty()))
            } else if !g.players[t].allow_group {
                (g, note_to(who, GroupNote::TargetClosed, Seq::empty()))
            } else {
                let (gv, r) = g.group.spec_invite(me, name);
                match r {
                    Ok(_) => (
                        GameView { players: with_allow(g.players, who, true), group: gv, ..g },
                        seq![
                            msg_to(who, GroupMsgV::Switch(true)),
                            msg_to(g.players[t].object_id, GroupMsgV::Invite(me)),
                            msg_to(who, GroupMsgV::Note(GroupNote::Invited, name)),
                        ],
                    ),
                    Err(e) => (
                        GameView { group: gv, ..g },
                        note_to(
                            who,
                            if e == GroupError::AlreadyInGroup {
                                GroupNote::TargetInGroup
                            } else {
                                GroupNote::NotLeader
                            },
                            Seq::empty(),
                        ),
                    ),
                }
            },
        },
        GroupRequestV::Answer { accept } => if !g.group.invites.contains_key(me) {
            (g, note_to(who, GroupNote::NoInvite, Seq::empty()))
        } else if !accept {
            let host = g.group.invites[me].0;
            (
                GameView { group: crate::group::GroupView { invites: g.group.invites.remove(me), ..g.group }, ..g },
                to_one(g.players, host, GroupMsgV::Note(GroupNote::Declined, me)),
            )
        } else {
            let host = g.group.invites[me].0;
            let (gv, r) = g.group.spec_accept(me);
            match r {
                Err(_) => (GameView { group: gv, ..g }, note_to(who, GroupNote::InviteStale, Seq::empty())),
                Ok(list) => (
                    GameView { group: gv, ..g },
                    members_to(who, list, me) + to_others(g.players, list, Seq::empty(), GroupMsgV::AddMember(me))
                        + note_to(who, GroupNote::Joined, host),
                ),
            }
        },
        GroupRequestV::Del { name } => {
            let target = if name.len() == 0 {
                me
            } else {
                name
            };
            if target != me {
                if !g.group.leads(me) {
                    (g, note_to(who, GroupNote::OnlyLeaderRemoves, Seq::empty()))
                } else if !(g.group.member_of.contains_key(target) && g.group.groups.contains_key(
                    g.group.member_of[target],
                ) && g.group.groups[g.group.member_of[target]].contains(me)) {
                    (g, note_to(who, GroupNote::NotInYourGroup, target))
                } else {
                    let kicked = to_one(g.players, target, GroupMsgV::DeleteGroup) + to_one(
                        g.players,
                        target,
                        GroupMsgV::Note(GroupNote::RemovedBy, me),
                    );
                    let (g2, m) = spec_leave_notify(g, target);
                    (g2, kicked + m)
                }
            } else {
                spec_leave_notify(g, me)
            }
        },
    }
}

/// Appends `m` for the player called `name`, if online.
fn push_to_one(r: &mut Vec<Action>, ps: &Vec<Player>, name: &String, m: GroupMsg)
    ensures
        actions_view(final(r)@) == actions_view(old(r)@) + to_one(ps@, name@, m@),
{
    let ghost before = actions_view(r@);
    match crate::game::find_named(ps, name) {
        Some(i) => {
            let ghost mv = m@;
            r.push(Action::Group { object_id: ps[i].object_id, msg: m });
            assert(actions_view(r@) =~= before + seq![msg_to(ps@[i as int].object_id, mv)]);
        },
        None => {
            assert(actions_view(r@) =~= before + Seq::<ActionV>::empty());
        },
    }
}

/// The message `kind` stands for, for player `name` (0 `DeleteGroup`,
/// 1 `DeleteMember`, 2 `AddMember`).
pub open spec fn kind_msg(kind: u8, name: Seq<char>) -> GroupMsgV {
    if kind == 0 {
        GroupMsgV::DeleteGroup
    } else if kind == 1 {
        GroupMsgV::DeleteMember(name)
    } else {
        GroupMsgV::AddMember(name)
    }
}

fn make_msg(kind: u8, name: &String) -> (m: GroupMsg)
    ensures
        m@ == kind_msg(kind, name@),
{
    if kind == 0 {
        GroupMsg::DeleteGroup
    } else if kind == 1 {
        GroupMsg::DeleteMember(name.clone())
    } else {
        GroupMsg::AddMember(name.clone())
    }
}

/// Appends the message `kind` about `about` for each member other than
/// `skip` that is online (see `to_others`).
fn push_to_others(r: &mut Vec<Action>, ps: &Vec<Player>, members: &Vec<String>, skip: &String, kind: u8, about: &String)
    ensures
        actions_view(final(r)@) == actions_view(old(r)@) + to_others(ps@, names(members@), skip@, kind_msg(kind, about@)),
{
    let ghost r0 = actions_view(r@);
    let ghost ms = names(members@);
    let mut i: usize = 0;
    while i < members.len()
        invariant
            i <= members@.len(),
            ms == names(members@),
            actions_view(r@) == r0 + to_others(ps@, ms.take(i as int), skip@, kind_msg(kind, about@)),
        decreases members@.len() - i,
    {
        let ghost before = actions_view(r@);
        let m = make_msg(kind, about);
        let ghost mv = m@;
        if members[i] != *skip {
            push_to_one(r, ps, &members[i], m);
        }
        proof {
            let t = ms.take(i + 1);
            assert(t.drop_last() =~= ms.take(i as int));
            assert(t.last() == members@[i as int]@);
            if t.last() == skip@ {
                assert(actions_view(r@) =~= before + Seq::<ActionV>::empty());
            }
        }
        i = i + 1;
    }
    assert(ms.take(members@.len() as int) =~= ms);
}

/// Appends, for player `who`, an `AddMember` for each member other than
/// `skip` (see `members_to`).
fn push_members_to(r: &mut Vec<Action>, who: u32, members: &Vec<String>, skip: &String)
    ensures
        actions_view(final(r)@) == actions_view(old(r)@) + members_to(who, names(members@), skip@),
{
    let ghost r0 = actions_view(r@);
    let ghost ms = names(members@);
    let mut i: usize = 0;
    while i < members.len()
        invariant
            i <= members@.len(),
            ms == names(members@),
            actions_view(r@) == r0 + members_to(who, ms.take(i as int), skip@),
        decreases members@.len() - i,
    {
        let ghost before = actions_view(r@);
        if members[i] != *skip {
            let ghost nv = members@[i as int]@;
            r.push(Action::Group { object_id: who, msg: GroupMsg::AddMember(members[i].clone()) });
            assert(actions_view(r@) =~= before + seq![msg_to(who, GroupMsgV::AddMember(nv))]);
        } else {
            assert(actions_view(r@) =~= before + Seq::<ActionV>::empty());
        }
        proof {
            let t = ms.take(i + 1);
            assert(t.drop_last() =~= ms.take(i as int));
            assert(t.last() == members@[i as int]@);
        }
        i = i + 1;
    }
    assert(ms.take(members@.len() as int) =~= ms);
}

/// Counts the members other than `skip` (see `count_others`).
fn others_count(members: &Vec<String>, skip: &String) -> (n: usize)
    ensures
        n == count_others(names(members@), skip@),
{
    let ghost ms = names(members@);
    let mut n: usize = 0;
    let mut i: usize = 0;
    while i < members.len()
        invariant
            i <= members@.len(),
            ms == names(members@),
            n == count_others(ms.take(i as int), skip@),
            n <= i,
        decreases members@.len() - i,
    {
        proof {
            let t = ms.take(i + 1);
            assert(t.drop_last() =~= ms.take(i as int));
            assert(t.last() == members@[i as int]@);
        }
        if members[i] != *skip {
            n = n + 1;
        }
        i = i + 1;
    }
    assert(ms.take(members@.len() as int) =~= ms);
    n
}

/// `leaver` leaves its group and the group is told (see `spec_leave_notify`).
fn leave_notify(g: &mut GameState, leaver: &String, r: &mut Vec<Action>)
    requires
        old(g)@.wf(),
    ensures
        final(g)@.wf(),
        final(g)@ == spec_leave_notify(old(g)@, leaver@).0,
        actions_view(final(r)@) == actions_view(old(r)@) + spec_leave_notify(old(g)@, leaver@).1,
{
    let ghost g0 = g@;
    let ghost r0 = actions_view(r@);
    let gid = match g.group.group_of(leaver) {
        Some(gid) => gid,
        None => {
            assert(actions_view(r@) =~= r0 + Seq::<ActionV>::empty());
            return;
        },
    };
    let members = g.group.members(gid);
    let _ = g.group.leave(leaver);
    if members.len() < 2 {
        assert(actions_view(r@) =~= r0 + Seq::<ActionV>::empty());
        return;
    }
    push_to_one(r, &g.players, leaver, GroupMsg::DeleteGroup);
    let n = others_count(&members, leaver);
    if n > 1 {
        push_to_others(r, &g.players, &members, leaver, 1, leaver);
    } else {
        push_to_others(r, &g.players, &members, leaver, 0, leaver);
    }
    proof {
        let ms = names(members@);
        let m0 = to_one(g0.players, leaver@, GroupMsgV::DeleteGroup);
        let others = if count_others(ms, leaver@) > 1 {
            to_others(g0.players, ms, leaver@, GroupMsgV::DeleteMember(leaver@))
        } else {
            to_others(g0.players, ms, leaver@, GroupMsgV::DeleteGroup)
        };
        assert(actions_view(r@) =~= r0 + (m0 + others));
    }
}

/// Sets player `who`'s flag for invitations (see `with_allow`).
fn set_allow(ps: &mut Vec<Player>, who: u32, allow: bool)
    ensures
        final(ps)@ == with_allow(old(ps)@, who, allow),
{
    match find_player(ps, who) {
        Some(i) => {
            let ghost p0 = ps@;
            let p = take_player(ps, i);
            ps.insert(i, Player { allow_group: allow, ..p });
            assert(ps@ =~= p0.update(i as int, Player { allow_group: allow, ..p0[i as int] }));
        },
        None => {},
    }
}

/// Carries out group request `req` of player `who` (see `spec_group_step`):
/// switching invitations on or off (switching off leaves the group);
/// inviting an online player who takes invitations (the inviter must lead a
/// group, and its own flag is switched on); accepting (the new member gets
/// the member list, every member is told of it) or declining (the inviter is
/// told); a leader removing a member of its group, or a player leaving.
pub fn group_step(g: &mut GameState, who: u32, req: &GroupRequest) -> (r: Vec<Action>)
    requires
        old(g)@.wf(),
    ensures
        final(g)@.wf(),
        (final(g)@, actions_view(r@)) == spec_group_step(old(g)@, who, req@),
{
    let ghost g0 = g@;
    let me = crate::game::player_name(&g.players, who);
    let mut r: Vec<Action> = Vec::new();
    match req {
        GroupRequest::Switch { allow } => {
            set_allow(&mut g.players, who, *allow);
            r.push(Action::Group { object_id: who, msg: GroupMsg::Switch(*allow) });
            let ghost first = actions_view(r@);
            assert(first =~= seq![msg_to(who, GroupMsgV::Switch(*allow))]);
            if !*allow {
                leave_notify(g, &me, &mut r);
            }
        },
        GroupRequest::Add { name } => {
            let t = match crate::game::find_named(&g.players, name) {
                Some(t) => t,
                None => {
                    r.push(Action::Group { object_id: who, msg: GroupMsg::Note(GroupNote::TargetOffline, String::new()) });
                    assert(actions_view(r@) =~= note_to(who, GroupNote::TargetOffline, Seq::empty()));
                    return r;
                },
            };
            let t_oid = g.players[t].object_id;
            if t_oid == who {
                r.push(Action::Group { object_id: who, msg: GroupMsg::Note(GroupNote::InviteSelf, String::new()) });
                assert(actions_view(r@) =~= note_to(who, GroupNote::InviteSelf, Seq::empty()));
                return r;
            }
            if !g.players[t].allow_group {
                r.push(Action::Group { object_id: who, msg: GroupMsg::Note(GroupNote::TargetClosed, String::new()) });
                assert(actions_view(r@) =~= note_to(who, GroupNote::TargetClosed, Seq::empty()));
                return r;
            }
            match g.group.invite(&me, name) {
                Ok(_) => {
                    set_allow(&mut g.players, who, true);
                    r.push(Action::Group { object_id: who, msg: GroupMsg::Switch(true) });
                    r.push(Action::Group { object_id: t_oid, msg: GroupMsg::Invite(me.clone()) });
                    r.push(Action::Group { object_id: who, msg: GroupMsg::Note(GroupNote::Invited, name.clone()) });
                    assert(actions_view(r@) =~= seq![
                        msg_to(who, GroupMsgV::Switch(true)),
                        msg_to(t_oid, GroupMsgV::Invite(me@)),
                        msg_to(who, GroupMsgV::Note(GroupNote::Invited, name@)),
                    ]);
                },
                Err(e) => {
                    let k = match e {
                        GroupError::AlreadyInGroup => GroupNote::TargetInGroup,
                        _ => GroupNote::NotLeader,
                    };
                    r.push(Action::Group { object_id: who, msg: GroupMsg::Note(k, String::new()) });
                    assert(actions_view(r@) =~= note_to(who, k, Seq::empty()));
                },
            }
        },
        GroupRequest::Answer { accept } => {
            let host = match g.group.pending_inviter(&me) {
                Some(h) => h,
                None => {
                    r.push(Action::Group { object_id: who, msg: GroupMsg::Note(GroupNote::NoInvite, String::new()) });
                    assert(actions_view(r@) =~= note_to(who, GroupNote::NoInvite, Seq::empty()));
                    return r;
                },
            };
            if !*accept {
                g.group.decline(&me);
                push_to_one(&mut r, &g.players, &host, GroupMsg::Note(GroupNote::Declined, me.clone()));
                assert(actions_view(r@) =~= to_one(g0.players, host@, GroupMsgV::Note(GroupNote::Declined, me@)));
            } else {
                match g.group.accept(&me) {
                    Err(_) => {
                        r.push(Action::Group { object_id: who, msg: GroupMsg::Note(GroupNote::InviteStale, String::new()) });
                        assert(actions_view(r@) =~= note_to(who, GroupNote::InviteStale, Seq::empty()));
                    },
                    Ok(list) => {
                        push_members_to(&mut r, who, &list, &me);
                        let empty = String::new();
                        push_to_others(&mut r, &g.players, &list, &empty, 2, &me);
                        r.push(Action::Group { object_id: who, msg: GroupMsg::Note(GroupNote::Joined, host.clone()) });
                        proof {
                            let l = names(list@);
                            assert(actions_view(r@) =~= members_to(who, l, me@) + to_others(
                                g0.players,
                                l,
                                Seq::empty(),
                                GroupMsgV::AddMember(me@),
                            ) + note_to(who, GroupNote::Joined, host@));
                        }
                    },
                }
            }
        },
        GroupRequest::Del { name } => {
            let target = if name.as_str().unicode_len() == 0 {
                me.clone()
            } else {
                name.clone()
            };
            if target != me {
                if !g.group.is_leader(&me) {
                    r.push(Action::Group { object_id: who, msg: GroupMsg::Note(GroupNote::OnlyLeaderRemoves, String::new()) });
                    assert(actions_view(r@) =~= note_to(who, GroupNote::OnlyLeaderRemoves, Seq::empty()));
                    return r;
                }
                let mine = match g.group.group_of(&target) {
                    Some(gid) => has_name(&g.group.members(gid), &me),
                    None => false,
                };
                if !mine {
                    r.push(Action::Group { object_id: who, msg: GroupMsg::Note(GroupNote::NotInYourGroup, target.clone()) });
                    assert(actions_view(r@) =~= note_to(who, GroupNote::NotInYourGroup, target@));
                    return r;
                }
                push_to_one(&mut r, &g.players, &target, GroupMsg::DeleteGroup);
                push_to_one(&mut r, &g.players, &target, GroupMsg::Note(GroupNote::RemovedBy, me.clone()));
            }
            leave_notify(g, &target, &mut r);
        },
    }
    r
}

/// Whether `n` is among the names of `v`.
fn has_name(v: &Vec<String>, n: &String) -> (r: bool)
    ensures
        r == names(v@).contains(n@),
{
    let mut i: usize = 0;
    while i < v.len()
        invariant
            i <= v@.len(),
            forall|j: int| 0 <= j < i ==> names(v@)[j] != n@,
        decreases v@.len() - i,
    {
        if v[i] == *n {
            assert(names(v@)[i as int] == n@);
            return true;
        }
        i = i + 1;
    }
    false
}

} // verus!
