//! Guilds: a player creates a guild and owns it, others join by name, members
//! leave or are removed; removing the owner, or the last member, disbands the
//! guild. A player belongs to at most one guild.
use vstd::hash_map::StringHashMap;
use vstd::prelude::*;

use crate::names::{clone_names, names, not_named, remove_all_names, without_name};

verus! {

/// A guild.
#[derive(Debug)]
pub struct Guild {
    pub name: String,
    pub owner: String,
    /// Member names, owner included.
    pub members: Vec<String>,
}

#[derive(Debug, Clone, Copy, PartialEq, Eq, Structural)]
pub enum GuildError {
    /// A guild of that name exists (`create`), or none does (`join`).
    GuildExists,
    AlreadyInGuild,
    NotInGuild,
    NotOwner,
}

/// Abstract value of a `Guild`.
pub struct GuildSpec {
    pub name: Seq<char>,
    pub owner: Seq<char>,
    pub members: Seq<Seq<char>>,
}

impl View for Guild {
    type V = GuildSpec;

    open spec fn view(&self) -> GuildSpec {
        GuildSpec { name: self.name@, owner: self.owner@, members: names(self.members@) }
    }
}

/// Guild manager (pure state, no I/O).
pub struct GuildManager {
    /// Player name -> guild name.
    pub member_guild: StringHashMap<String>,
    /// Guild name -> guild.
    pub guilds: StringHashMap<Guild>,
}

/// Abstract state of a `GuildManager`.
pub struct GuildView {
    pub member_guild: Map<Seq<char>, Seq<char>>,
    pub guilds: Map<Seq<char>, GuildSpec>,
}

impl View for GuildManager {
    type V = GuildView;

    open spec fn view(&self) -> GuildView {
        GuildView {
            member_guild: self.member_guild@.map_values(|s: String| s@),
            guilds: self.guilds@.map_values(|g: Guild| g@),
        }
    }
}

impl GuildView {
    /// Every guild is stored under its own name.
    pub open spec fn wf(self) -> bool {
        forall|k: Seq<char>| #[trigger] self.guilds.contains_key(k) ==> self.guilds[k].name == k
    }

    /// The member lists and `member_guild` agree, and each owner is a member:
    /// a player maps to guild `g` exactly when listed among `g`'s members.
    pub open spec fn consistent(self) -> bool {
        &&& forall|m: Seq<char>| #[trigger]
            self.member_guild.contains_key(m) ==> {
                &&& self.guilds.contains_key(self.member_guild[m])
                &&& self.guilds[self.member_guild[m]].members.contains(m)
            }
        &&& forall|g: Seq<char>, i: int|
            #![trigger self.guilds[g].members[i]]
            self.guilds.contains_key(g) && 0 <= i < self.guilds[g].members.len() ==> {
                &&& self.member_guild.contains_key(self.guilds[g].members[i])
                &&& self.member_guild[self.guilds[g].members[i]] == g
            }
        &&& forall|g: Seq<char>| #[trigger]
            self.guilds.contains_key(g) ==> self.guilds[g].members.contains(self.guilds[g].owner)
    }

    /// `remove_member`: `member` is dropped from the list of `guild` and loses
    /// its guild; if it owned the guild or nobody is left, the guild is
    /// disbanded and all its members lose their guild. The result is the guild
    /// name with the remaining members (none when disbanded), or `None` when
    /// there is no such guild.
    pub open spec fn spec_remove_member(self, guild: Seq<char>, member: Seq<char>) -> (
        GuildView,
        Option<(Seq<char>, Seq<Seq<char>>)>,
    ) {
        if !self.guilds.contains_key(guild) {
            (self, None)
        } else {
            let g = self.guilds[guild];
            let rest = g.members.filter(not_named(member));
            let mg = self.member_guild.remove(member);
            if g.owner == member || rest.len() == 0 {
                (
                    GuildView {
                        member_guild: mg.remove_keys(rest.to_set()),
                        guilds: self.guilds.remove(guild),
                    },
                    Some((g.name, Seq::empty())),
                )
            } else {
                (
                    GuildView {
                        member_guild: mg,
                        guilds: self.guilds.insert(guild, GuildSpec { members: rest, ..g }),
                    },
                    Some((guild, rest)),
                )
            }
        }
    }

    /// `leave`: `member` is removed from the guild `member_guild` names, if
    /// that guild exists.
    pub open spec fn spec_leave(self, member: Seq<char>) -> (GuildView, bool) {
        if self.member_guild.contains_key(member) && self.guilds.contains_key(
            self.member_guild[member],
        ) {
            (
                self.spec_remove_member(self.guilds[self.member_guild[member]].name, member).0,
                true,
            )
        } else {
            (self, false)
        }
    }

    /// `create`: refused when the name is taken; otherwise `owner` leaves its
    /// guild and becomes owner and sole member of the new one.
    pub open spec fn spec_create(self, name: Seq<char>, owner: Seq<char>) -> (
        GuildView,
        Result<Seq<char>, GuildError>,
    ) {
        if self.guilds.contains_key(name) {
            (self, Err(GuildError::GuildExists))
        } else {
            let t = self.spec_leave(owner).0;
            (
                GuildView {
                    member_guild: t.member_guild.insert(owner, name),
                    guilds: t.guilds.insert(
                        name,
                        GuildSpec { name, owner, members: seq![owner] },
                    ),
                },
                Ok(name),
            )
        }
    }

    /// `join`: the guild must exist and the player must be in no guild; the
    /// player is appended to the member list.
    pub open spec fn spec_join(self, guild: Seq<char>, member: Seq<char>) -> (
        GuildView,
        Result<Seq<char>, GuildError>,
    ) {
        if !self.guilds.contains_key(guild) {
            (self, Err(GuildError::GuildExists))
        } else if self.member_guild.contains_key(member) {
            (self, Err(GuildError::AlreadyInGuild))
        } else {
            let g = self.guilds[guild];
            (
                GuildView {
                    member_guild: self.member_guild.insert(member, guild),
                    guilds: self.guilds.insert(
                        guild,
                        GuildSpec { members: g.members.push(member), ..g },
                    ),
                },
                Ok(guild),
            )
        }
    }
}

fn copy_guild(g: &Guild) -> (r: Guild)
    ensures
        r@ == g@,
{
    Guild { name: g.name.clone(), owner: g.owner.clone(), members: clone_names(&g.members) }
}

impl GuildManager {
    /// An empty manager.
    pub fn new() -> (r: Self)
        ensures
            r@.wf(),
            r@.consistent(),
            r@.member_guild == Map::<Seq<char>, Seq<char>>::empty(),
            r@.guilds == Map::<Seq<char>, GuildSpec>::empty(),
    {
        let r = GuildManager { member_guild: StringHashMap::new(), guilds: StringHashMap::new() };
        assert(r@.member_guild =~= Map::<Seq<char>, Seq<char>>::empty());
        assert(r@.guilds =~= Map::<Seq<char>, GuildSpec>::empty());
        r
    }

    /// Creates guild `name` owned by `owner`; returns the guild name.
    pub fn create(&mut self, name: &str, owner: &str) -> (r: Result<String, GuildError>)
        requires
            old(self)@.wf(),
        ensures
            final(self)@.wf(),
            final(self)@ == old(self)@.spec_create(name@, owner@).0,
            match (r, old(self)@.spec_create(name@, owner@).1) {
                (Ok(n), Ok(n2)) => n@ == n2,
                (Err(e), Err(e2)) => e == e2,
                _ => false,
            },
    {
        if self.guilds.contains_key(name) {
            return Err(GuildError::GuildExists);
        }
        self.leave(owner);
        let ghost t = self@;
        let mut members: Vec<String> = Vec::new();
        members.push(owner.to_owned());
        proof {
            assert(names(members@) =~= seq![owner@]);
        }
        self.member_guild.insert(owner.to_owned(), name.to_owned());
        self.guilds.insert(
            name.to_owned(),
            Guild { name: name.to_owned(), owner: owner.to_owned(), members },
        );
        assert(self@.member_guild =~= t.member_guild.insert(owner@, name@));
        assert(self@.guilds =~= t.guilds.insert(
            name@,
            GuildSpec { name: name@, owner: owner@, members: seq![owner@] },
        ));
        Ok(name.to_owned())
    }

    /// Adds `member` to guild `guild`; returns the guild name.
    pub fn join(&mut self, guild: &str, member: &str) -> (r: Result<String, GuildError>)
        requires
            old(self)@.wf(),
        ensures
            final(self)@.wf(),
            final(self)@ == old(self)@.spec_join(guild@, member@).0,
            match (r, old(self)@.spec_join(guild@, member@).1) {
                (Ok(n), Ok(n2)) => n@ == n2,
                (Err(e), Err(e2)) => e == e2,
                _ => false,
            },
    {
        let ghost s = self@;
        let mut g = match self.guilds.get(guild) {
            Some(g) => copy_guild(g),
            None => return Err(GuildError::GuildExists),
        };
        if self.member_guild.contains_key(member) {
            return Err(GuildError::AlreadyInGuild);
        }
        let m = member.to_owned();
        proof {
            crate::names::lemma_names_push(g.members@, m);
        }
        g.members.push(m);
        self.guilds.insert(guild.to_owned(), g);
        self.member_guild.insert(member.to_owned(), guild.to_owned());
        assert(self@.member_guild =~= s.member_guild.insert(member@, guild@));
        assert(self@.guilds =~= s.guilds.insert(
            guild@,
            GuildSpec { members: s.guilds[guild@].members.push(member@), ..s.guilds[guild@] },
        ));
        Ok(guild.to_owned())
    }

    /// The guild `member` belongs to.
    pub fn guild_of(&self, member: &str) -> (r: Option<&Guild>)
        ensures
            match r {
                Some(g) => self@.member_guild.contains_key(member@) && self@.guilds.contains_key(
                    self@.member_guild[member@],
                ) && g@ == self@.guilds[self@.member_guild[member@]],
                None => !(self@.member_guild.contains_key(member@) && self@.guilds.contains_key(
                    self@.member_guild[member@],
                )),
            },
    {
        let g = match self.member_guild.get(member) {
            Some(g) => g,
            None => return None,
        };
        self.guilds.get(g.as_str())
    }

    /// The member list of guild `guild`.
    pub fn members(&self, guild: &str) -> (r: Option<Vec<String>>)
        ensures
            match r {
                Some(v) => self@.guilds.contains_key(guild@) && names(v@)
                    == self@.guilds[guild@].members,
                None => !self@.guilds.contains_key(guild@),
            },
    {
        match self.guilds.get(guild) {
            Some(g) => Some(clone_names(&g.members)),
            None => None,
        }
    }

    /// Removes `member` from guild `guild` (see `GuildView::spec_remove_member`).
    pub fn remove_member(&mut self, guild: &str, member: &str) -> (r: Option<(String, Vec<String>)>)
        requires
            old(self)@.wf(),
        ensures
            final(self)@.wf(),
            final(self)@ == old(self)@.spec_remove_member(guild@, member@).0,
            match (r, old(self)@.spec_remove_member(guild@, member@).1) {
                (Some((n, v)), Some((n2, v2))) => n@ == n2 && names(v@) == v2,
                (None, None) => true,
                _ => false,
            },
    {
        let ghost s = self@;
        let g = match self.guilds.get(guild) {
            Some(g) => copy_guild(g),
            None => return None,
        };
        let me = member.to_owned();
        let is_owner = g.owner == me;
        let rest = without_name(&g.members, &me);
        self.member_guild.remove(member);
        if is_owner || rest.len() == 0 {
            self.guilds.remove(guild);
            remove_all_names(&mut self.member_guild, &rest);
            assert(self@.member_guild =~= s.member_guild.remove(member@).remove_keys(
                names(rest@).to_set(),
            ));
            assert(self@.guilds =~= s.guilds.remove(guild@));
            Some((g.name, Vec::new()))
        } else {
            let remaining = clone_names(&rest);
            self.guilds.insert(
                guild.to_owned(),
                Guild { name: g.name, owner: g.owner, members: rest },
            );
            assert(self@.member_guild =~= s.member_guild.remove(member@));
            assert(self@.guilds =~= s.guilds.insert(
                guild@,
                GuildSpec { members: remaining@.map_values(|x: String| x@), ..s.guilds[guild@] },
            ));
            Some((guild.to_owned(), remaining))
        }
    }

    /// `member` leaves its guild; returns whether it was in one.
    pub fn leave(&mut self, member: &str) -> (r: bool)
        requires
            old(self)@.wf(),
        ensures
            final(self)@.wf(),
            (final(self)@, r) == old(self)@.spec_leave(member@),
    {
        let name = match self.guild_of(member) {
            Some(g) => g.name.clone(),
            None => return false,
        };
        let _ = self.remove_member(name.as_str(), member);
        true
    }
}


/// Removing a player from its own guild (or a player in no guild) keeps the
/// member lists and `member_guild` in agreement.
pub proof fn law_remove_member_consistent(s: GuildView, guild: Seq<char>, member: Seq<char>)
    requires
        s.wf(),
        s.consistent(),
        !s.member_guild.contains_key(member) || s.member_guild[member] == guild,
    ensures
        s.spec_remove_member(guild, member).0.consistent(),
{
    broadcast use vstd::seq_lib::group_filter_ensures;

    if s.guilds.contains_key(guild) {
        let g = s.guilds[guild];
        let pred = not_named(member);
        let rest = g.members.filter(pred);
        let t = s.spec_remove_member(guild, member).0;
        assert forall|x: Seq<char>| rest.contains(x) implies g.members.contains(x) && x != member by {
            g.members.lemma_filter_contains_rev(pred, x);
        }
        assert forall|i: int| 0 <= i < g.members.len() && g.members[i] != member implies rest.contains(
            g.members[i],
        ) by {
            g.members.lemma_filter_contains(pred, i);
        }
        if g.owner == member || rest.len() == 0 {
            assert forall|x: Seq<char>| #[trigger] t.member_guild.contains_key(x) implies {
                &&& t.guilds.contains_key(t.member_guild[x])
                &&& t.guilds[t.member_guild[x]].members.contains(x)
            } by {
                if s.member_guild[x] == guild {
                    let i = choose|i: int| 0 <= i < g.members.len() && g.members[i] == x;
                    assert(rest.contains(g.members[i]));
                }
            }
            assert forall|h: Seq<char>, i: int|
                #![trigger t.guilds[h].members[i]]
                t.guilds.contains_key(h) && 0 <= i < t.guilds[h].members.len() implies {
                &&& t.member_guild.contains_key(t.guilds[h].members[i])
                &&& t.member_guild[t.guilds[h].members[i]] == h
            } by {
                let x = s.guilds[h].members[i];
                assert(s.member_guild[x] == h);
                assert(x != member);
                if rest.to_set().contains(x) {
                    let j = choose|j: int| 0 <= j < rest.len() && rest[j] == x;
                    assert(rest.contains(x));
                    assert(g.members.contains(x));
                }
            }
        } else {
            assert(g.members.contains(g.owner));
            let k = choose|k: int| 0 <= k < g.members.len() && g.members[k] == g.owner;
            assert(rest.contains(g.members[k]));
            assert forall|x: Seq<char>| #[trigger] t.member_guild.contains_key(x) implies {
                &&& t.guilds.contains_key(t.member_guild[x])
                &&& t.guilds[t.member_guild[x]].members.contains(x)
            } by {
                if s.member_guild[x] == guild {
                    let i = choose|i: int| 0 <= i < g.members.len() && g.members[i] == x;
                    assert(rest.contains(g.members[i]));
                }
            }
            assert forall|h: Seq<char>, i: int|
                #![trigger t.guilds[h].members[i]]
                t.guilds.contains_key(h) && 0 <= i < t.guilds[h].members.len() implies {
                &&& t.member_guild.contains_key(t.guilds[h].members[i])
                &&& t.member_guild[t.guilds[h].members[i]] == h
            } by {
                if h == guild {
                    assert(t.guilds[h].members == rest);
                    assert(rest.contains(rest[i]));
                    let j = choose|j: int| 0 <= j < g.members.len() && g.members[j] == rest[i];
                    assert(s.member_guild[g.members[j]] == guild);
                } else {
                    let x = s.guilds[h].members[i];
                    assert(s.member_guild[x] == h);
                }
            }
        }
    }
}

/// `leave` keeps the member lists and `member_guild` in agreement.
pub proof fn law_leave_consistent(s: GuildView, member: Seq<char>)
    requires
        s.wf(),
        s.consistent(),
    ensures
        s.spec_leave(member).0.consistent(),
{
    if s.member_guild.contains_key(member) && s.guilds.contains_key(s.member_guild[member]) {
        law_remove_member_consistent(s, s.guilds[s.member_guild[member]].name, member);
    }
}

/// `create` keeps the member lists and `member_guild` in agreement.
pub proof fn law_create_consistent(s: GuildView, name: Seq<char>, owner: Seq<char>)
    requires
        s.wf(),
        s.consistent(),
    ensures
        s.spec_create(name, owner).0.consistent(),
{
    if !s.guilds.contains_key(name) {
        law_leave_consistent(s, owner);
        let t = s.spec_leave(owner).0;
        assert(!t.member_guild.contains_key(owner)) by {
            if s.member_guild.contains_key(owner) {
                assert(s.guilds.contains_key(s.member_guild[owner]));
            }
        }
        assert(!t.guilds.contains_key(name)) by {
            if s.member_guild.contains_key(owner) {
                let gn = s.member_guild[owner];
                assert(s.guilds[gn].name == gn);
            }
        }
        let u = s.spec_create(name, owner).0;
        assert forall|x: Seq<char>| #[trigger] u.member_guild.contains_key(x) implies {
            &&& u.guilds.contains_key(u.member_guild[x])
            &&& u.guilds[u.member_guild[x]].members.contains(x)
        } by {
            if x == owner {
                assert(u.guilds[name].members[0] == owner);
            } else {
                assert(t.member_guild.contains_key(x));
                assert(t.member_guild[x] != name);
            }
        }
        assert forall|h: Seq<char>, i: int|
            #![trigger u.guilds[h].members[i]]
            u.guilds.contains_key(h) && 0 <= i < u.guilds[h].members.len() implies {
            &&& u.member_guild.contains_key(u.guilds[h].members[i])
            &&& u.member_guild[u.guilds[h].members[i]] == h
        } by {
            if h != name {
                assert(t.guilds.contains_key(h));
                assert(t.member_guild.contains_key(t.guilds[h].members[i]));
                assert(t.member_guild[t.guilds[h].members[i]] == h);
            }
        }
        assert forall|h: Seq<char>| #[trigger] u.guilds.contains_key(h) implies u.guilds[
            h
        ].members.contains(u.guilds[h].owner) by {
            if h == name {
                assert(u.guilds[h].members[0] == owner);
            }
        }
    }
}

/// `join` keeps the member lists and `member_guild` in agreement.
pub proof fn law_join_consistent(s: GuildView, guild: Seq<char>, member: Seq<char>)
    requires
        s.wf(),
        s.consistent(),
    ensures
        s.spec_join(guild, member).0.consistent(),
{
    if s.guilds.contains_key(guild) && !s.member_guild.contains_key(member) {
        let g = s.guilds[guild];
        let u = s.spec_join(guild, member).0;
        assert forall|x: Seq<char>| #[trigger] u.member_guild.contains_key(x) implies {
            &&& u.guilds.contains_key(u.member_guild[x])
            &&& u.guilds[u.member_guild[x]].members.contains(x)
        } by {
            if x == member {
                assert(u.guilds[guild].members[g.members.len() as int] == member);
            } else if s.member_guild[x] == guild {
                let i = choose|i: int| 0 <= i < g.members.len() && g.members[i] == x;
                assert(u.guilds[guild].members[i] == x);
            }
        }
        assert forall|h: Seq<char>, i: int|
            #![trigger u.guilds[h].members[i]]
            u.guilds.contains_key(h) && 0 <= i < u.guilds[h].members.len() implies {
            &&& u.member_guild.contains_key(u.guilds[h].members[i])
            &&& u.member_guild[u.guilds[h].members[i]] == h
        } by {
            if h == guild && i < g.members.len() {
                assert(u.guilds[h].members[i] == g.members[i]);
                assert(s.member_guild.contains_key(g.members[i]));
            } else if h != guild {
                assert(s.member_guild.contains_key(s.guilds[h].members[i]));
            }
        }
        assert forall|h: Seq<char>| #[trigger] u.guilds.contains_key(h) implies u.guilds[
            h
        ].members.contains(u.guilds[h].owner) by {
            if h == guild {
                let k = choose|k: int| 0 <= k < g.members.len() && g.members[k] == g.owner;
                assert(u.guilds[h].members[k] == g.owner);
            }
        }
    }
}

/// A player is listed in at most one guild.
pub proof fn law_one_guild_per_player(s: GuildView, m: Seq<char>, g1: Seq<char>, g2: Seq<char>)
    requires
        s.consistent(),
        s.guilds.contains_key(g1),
        s.guilds.contains_key(g2),
        s.guilds[g1].members.contains(m),
        s.guilds[g2].members.contains(m),
    ensures
        g1 == g2,
{
    let i = choose|i: int| 0 <= i < s.guilds[g1].members.len() && s.guilds[g1].members[i] == m;
    let j = choose|j: int| 0 <= j < s.guilds[g2].members.len() && s.guilds[g2].members[j] == m;
    assert(s.member_guild[s.guilds[g1].members[i]] == g1);
    assert(s.member_guild[s.guilds[g2].members[j]] == g2);
}

/// When the owner leaves, the guild is disbanded and none of its former
/// members is in a guild any more.
pub proof fn law_owner_leave_disbands(s: GuildView, owner: Seq<char>)
    requires
        s.wf(),
        s.consistent(),
        s.member_guild.contains_key(owner),
        s.guilds[s.member_guild[owner]].owner == owner,
    ensures
        ({
            let g = s.member_guild[owner];
            let (t, r) = s.spec_leave(owner);
            &&& r
            &&& !t.guilds.contains_key(g)
            &&& forall|i: int|
                0 <= i < s.guilds[g].members.len() ==> !t.member_guild.contains_key(
                    #[trigger] s.guilds[g].members[i],
                )
        }),
{
    broadcast use vstd::seq_lib::group_filter_ensures;

    let g = s.member_guild[owner];
    let members = s.guilds[g].members;
    assert forall|i: int| 0 <= i < members.len() && members[i] != owner implies members.filter(
        not_named(owner),
    ).to_set().contains(members[i]) by {
        members.lemma_filter_contains(not_named(owner), i);
    }
}

} // verus!
