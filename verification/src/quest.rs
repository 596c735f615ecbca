//! Quests: a player talks to a quest NPC, accepts its quest, kills the
//! monsters it asks for, and claims the reward once the count is reached.
//!
//! The quest table is fixed. A player's progress is a list of
//! `QuestProgress` rows (kept by the caller, e.g. in the database); the
//! functions here compute the next rows and the answer.
use vstd::hash_map::StringHashMap;
use vstd::prelude::*;
use vstd::string::StrSliceExecFns;

verus! {

/// What a quest asks for.
#[derive(Debug, Clone, Copy, PartialEq, Eq, Structural)]
pub enum QuestObjective {
    /// Kill `count` monsters of image `monster_image`.
    Kill { monster_image: u16, count: u32 },
}

/// A quest definition.
#[derive(Debug, Clone, Copy)]
pub struct QuestDef {
    pub id: u32,
    pub name: &'static str,
    /// The NPC that gives the quest.
    pub npc_name: &'static str,
    pub description: &'static str,
    pub objective: QuestObjective,
    pub reward_gold: u32,
    pub reward_exp: u32,
    /// Item template given as reward (0 = none).
    pub reward_item: i32,
    pub reward_item_count: u16,
}

/// One player's progress on one quest.
#[derive(Debug, Clone, Copy, PartialEq, Eq, Structural)]
pub struct QuestProgress {
    pub quest_id: u32,
    pub killed: u32,
    /// The goal is reached; the reward is waiting.
    pub completed: bool,
    /// The reward was claimed; the quest is over.
    pub finished: bool,
}

impl Default for QuestProgress {
    fn default() -> (r: Self)
        ensures
            r == (QuestProgress { quest_id: 0, killed: 0, completed: false, finished: false }),
    {
        QuestProgress { quest_id: 0, killed: 0, completed: false, finished: false }
    }
}

/// Why a reward cannot be claimed.
#[derive(Debug, Clone, Copy, PartialEq, Eq, Structural)]
pub enum QuestError {
    /// No quest has that id.
    NoSuchQuest,
    /// The player has not accepted the quest.
    NotAccepted,
    /// The reward was already claimed.
    AlreadyRewarded,
    /// The goal is not reached yet: `killed` of `target`.
    NotCompleted { killed: u32, target: u32 },
}

/// The quest table, in order.
pub open spec fn quest_table() -> Seq<QuestDef> {
    seq![
        QuestDef {
            id: 1,
            name: "猎杀骷髅",
            npc_name: "任务管理员",
            description: "新手村附近有骷髅出没，消灭 5 只骷髅以示勇武。",
            objective: QuestObjective::Kill { monster_image: 3, count: 5 },
            reward_gold: 100,
            reward_exp: 60,
            reward_item: 3,
            reward_item_count: 3,
        },
        QuestDef {
            id: 2,
            name: "除蜘蛛",
            npc_name: "任务管理员",
            description: "更深处盘踞着蜘蛛，剿灭 3 只蛛患。",
            objective: QuestObjective::Kill { monster_image: 4, count: 3 },
            reward_gold: 200,
            reward_exp: 150,
            reward_item: 0,
            reward_item_count: 0,
        },
    ]
}

/// The built-in quest table.
pub fn quests() -> (r: Vec<QuestDef>)
    ensures
        r@ == quest_table(),
{
    let r = vec![
        QuestDef {
            id: 1,
            name: "猎杀骷髅",
            npc_name: "任务管理员",
            description: "新手村附近有骷髅出没，消灭 5 只骷髅以示勇武。",
            objective: QuestObjective::Kill { monster_image: 3, count: 5 },
            reward_gold: 100,
            reward_exp: 60,
            reward_item: 3,
            reward_item_count: 3,
        },
        QuestDef {
            id: 2,
            name: "除蜘蛛",
            npc_name: "任务管理员",
            description: "更深处盘踞着蜘蛛，剿灭 3 只蛛患。",
            objective: QuestObjective::Kill { monster_image: 4, count: 3 },
            reward_gold: 200,
            reward_exp: 150,
            reward_item: 0,
            reward_item_count: 0,
        },
    ];
    assert(r@ =~= quest_table());
    r
}

/// The monster image a quest asks to kill.
pub open spec fn target_image(q: QuestDef) -> u16 {
    match q.objective {
        QuestObjective::Kill { monster_image, .. } => monster_image,
    }
}

/// How many kills a quest asks for.
pub open spec fn target_count(q: QuestDef) -> u32 {
    match q.objective {
        QuestObjective::Kill { count, .. } => count,
    }
}

/// `k` is the first index of a table entry whose quest kills `image`.
pub open spec fn is_first_kill_quest(image: u16, k: int) -> bool {
    &&& 0 <= k < quest_table().len()
    &&& target_image(quest_table()[k]) == image
    &&& forall|j: int| 0 <= j < k ==> target_image(#[trigger] quest_table()[j]) != image
}

/// The first quest of the table that asks to kill monsters of `image`.
pub open spec fn quest_for_kill(image: u16) -> Option<QuestDef> {
    if exists|k: int| is_first_kill_quest(image, k) {
        Some(quest_table()[choose|k: int| is_first_kill_quest(image, k)])
    } else {
        None
    }
}

/// `k` is the first index of a table entry with id `id`.
pub open spec fn is_first_quest_id(id: u32, k: int) -> bool {
    &&& 0 <= k < quest_table().len()
    &&& quest_table()[k].id == id
    &&& forall|j: int| 0 <= j < k ==> (#[trigger] quest_table()[j]).id != id
}

/// The quest with id `id`.
pub open spec fn quest_by_id(id: u32) -> Option<QuestDef> {
    if exists|k: int| is_first_quest_id(id, k) {
        Some(quest_table()[choose|k: int| is_first_quest_id(id, k)])
    } else {
        None
    }
}

/// `k` is the first index of a progress row of quest `id`.
pub open spec fn is_first_row(s: Seq<QuestProgress>, id: u32, k: int) -> bool {
    &&& 0 <= k < s.len()
    &&& s[k].quest_id == id
    &&& forall|j: int| 0 <= j < k ==> (#[trigger] s[j]).quest_id != id
}

/// The index of the first progress row of quest `id`.
pub open spec fn first_row(s: Seq<QuestProgress>, id: u32) -> Option<int> {
    if exists|k: int| is_first_row(s, id, k) {
        Some(choose|k: int| is_first_row(s, id, k))
    } else {
        None
    }
}

/// A first row is unique.
pub proof fn lemma_first_row_unique(s: Seq<QuestProgress>, id: u32, k: int)
    requires
        is_first_row(s, id, k),
    ensures
        first_row(s, id) == Some(k),
{
    let c = choose|c: int| is_first_row(s, id, c);
    if c < k {
        assert(s[c].quest_id != id);
    } else if k < c {
        assert(s[k].quest_id != id);
    }
}

/// `u32` addition that stops at the maximum.
pub open spec fn sat_add(a: u32, b: u32) -> u32 {
    if a + b > u32::MAX {
        u32::MAX
    } else {
        (a + b) as u32
    }
}

/// Rows and answer after a kill of a monster of `image`: when a quest asks
/// for that monster and the player's row of it is not yet completed, the kill
/// is counted and the row completed once the goal is reached; the answer is
/// then (true, 1 if completed else 0). Otherwise nothing changes and the
/// answer is (false, 0).
pub open spec fn spec_register_kill(s: Seq<QuestProgress>, image: u16) -> (
    Seq<QuestProgress>,
    (bool, u32),
) {
    match quest_for_kill(image) {
        None => (s, (false, 0)),
        Some(def) => match first_row(s, def.id) {
            None => (s, (false, 0)),
            Some(k) => if s[k].completed {
                (s, (false, 0))
            } else {
                let killed = sat_add(s[k].killed, 1);
                let done = killed >= target_count(def);
                (
                    s.update(k, QuestProgress { killed, completed: done, ..s[k] }),
                    (true, if done { 1u32 } else { 0u32 }),
                )
            },
        },
    }
}

/// Rows and answer of a reward claim for quest `id`.
pub open spec fn spec_reward(s: Seq<QuestProgress>, id: u32) -> (
    Seq<QuestProgress>,
    Result<(QuestDef, u32, u32), QuestError>,
) {
    match quest_by_id(id) {
        None => (s, Err(QuestError::NoSuchQuest)),
        Some(def) => match first_row(s, id) {
            None => (s, Err(QuestError::NotAccepted)),
            Some(k) => if s[k].finished {
                (s, Err(QuestError::AlreadyRewarded))
            } else if !s[k].completed {
                (
                    s,
                    Err(
                        QuestError::NotCompleted { killed: s[k].killed, target: target_count(def) },
                    ),
                )
            } else {
                (
                    s.update(k, QuestProgress { finished: true, ..s[k] }),
                    Ok((def, def.reward_gold, def.reward_exp)),
                )
            },
        },
    }
}

/// The index of the first row of quest `id`.
fn find_row(v: &Vec<QuestProgress>, id: u32) -> (r: Option<usize>)
    ensures
        match r {
            Some(k) => first_row(v@, id) == Some(k as int),
            None => first_row(v@, id) is None,
        },
{
    let mut i: usize = 0;
    while i < v.len()
        invariant
            i <= v.len(),
            forall|j: int| 0 <= j < i ==> (#[trigger] v@[j]).quest_id != id,
        decreases v.len() - i,
    {
        if v[i].quest_id == id {
            proof {
                lemma_first_row_unique(v@, id, i as int);
            }
            return Some(i);
        }
        i = i + 1;
    }
    assert(!exists|k: int| is_first_row(v@, id, k));
    None
}

/// The first quest of the table that asks to kill monsters of `image`.
fn find_kill_quest(image: u16) -> (r: Option<QuestDef>)
    ensures
        r == quest_for_kill(image),
{
    let qs = quests();
    let mut i: usize = 0;
    while i < qs.len()
        invariant
            qs@ == quest_table(),
            i <= qs.len(),
            forall|j: int| 0 <= j < i ==> target_image(#[trigger] quest_table()[j]) != image,
        decreases qs.len() - i,
    {
        let q = qs[i];
        let img = match q.objective {
            QuestObjective::Kill { monster_image, .. } => monster_image,
        };
        if img == image {
            proof {
                let c = choose|c: int| is_first_kill_quest(image, c);
                assert(is_first_kill_quest(image, i as int));
                if c < i {
                    assert(target_image(quest_table()[c]) != image);
                } else if i < c {
                    assert(target_image(quest_table()[i as int]) != image);
                }
            }
            return Some(q);
        }
        i = i + 1;
    }
    assert(!exists|k: int| is_first_kill_quest(image, k));
    None
}

/// The quest with id `id`.
pub fn find_quest(id: u32) -> (r: Option<QuestDef>)
    ensures
        r == quest_by_id(id),
{
    let qs = quests();
    let mut i: usize = 0;
    while i < qs.len()
        invariant
            qs@ == quest_table(),
            i <= qs.len(),
            forall|j: int| 0 <= j < i ==> (#[trigger] quest_table()[j]).id != id,
        decreases qs.len() - i,
    {
        let q = qs[i];
        if q.id == id {
            proof {
                let c = choose|c: int| is_first_quest_id(id, c);
                assert(is_first_quest_id(id, i as int));
                if c < i {
                    assert(quest_table()[c].id != id);
                } else if i < c {
                    assert(quest_table()[i as int].id != id);
                }
            }
            return Some(q);
        }
        i = i + 1;
    }
    assert(!exists|k: int| is_first_quest_id(id, k));
    None
}

/// Counts the kill of a monster of image `monster_image` in the player's
/// quest rows. Returns whether a quest of the player counted it, and 1 if
/// that quest is now completed (0 otherwise).
pub fn register_kill(progress: &mut Vec<QuestProgress>, monster_image: u16) -> (r: (bool, u32))
    ensures
        (final(progress)@, r) == spec_register_kill(old(progress)@, monster_image),
{
    let def = match find_kill_quest(monster_image) {
        Some(d) => d,
        None => return (false, 0),
    };
    let k = match find_row(progress, def.id) {
        Some(k) => k,
        None => return (false, 0),
    };
    let p = progress[k];
    if p.completed {
        return (false, 0);
    }
    let killed = p.killed.saturating_add(1);
    let target = match def.objective {
        QuestObjective::Kill { count, .. } => count,
    };
    let done = killed >= target;
    progress.set(
        k,
        QuestProgress {
            quest_id: p.quest_id,
            killed,
            completed: done,
            finished: p.finished,
        },
    );
    (true, if done { 1 } else { 0 })
}

/// Claims the reward of quest `quest_id`: the quest must exist, be accepted,
/// not yet rewarded, and completed. On success the row is marked finished
/// and the quest, its gold and its experience are returned.
pub fn reward(progress: &mut Vec<QuestProgress>, quest_id: u32) -> (r: Result<
    (QuestDef, u32, u32),
    QuestError,
>)
    ensures
        (final(progress)@, r) == spec_reward(old(progress)@, quest_id),
{
    let def = match find_quest(quest_id) {
        Some(d) => d,
        None => return Err(QuestError::NoSuchQuest),
    };
    let target = match def.objective {
        QuestObjective::Kill { count, .. } => count,
    };
    let k = match find_row(progress, quest_id) {
        Some(k) => k,
        None => return Err(QuestError::NotAccepted),
    };
    let p = progress[k];
    if p.finished {
        return Err(QuestError::AlreadyRewarded);
    }
    if !p.completed {
        return Err(QuestError::NotCompleted { killed: p.killed, target });
    }
    progress.set(
        k,
        QuestProgress { quest_id: p.quest_id, killed: p.killed, completed: true, finished: true },
    );
    Ok((def, def.reward_gold, def.reward_exp))
}

/// Whether two strings are equal.
fn str_eq(a: &str, b: &str) -> (r: bool)
    ensures
        r == (a@ == b@),
{
    let sa = a.to_string();
    let sb = b.to_string();
    sa == sb
}

/// Quest `q` is given by NPC `npc` and the rows `s` do not show it completed.
pub open spec fn quest_open(q: QuestDef, npc: Seq<char>, s: Seq<QuestProgress>) -> bool {
    q.npc_name@ == npc && !(exists|j: int|
        0 <= j < s.len() && (#[trigger] s[j]).quest_id == q.id && s[j].completed)
}

/// `k` is the first index of an open quest of NPC `npc` in the table.
pub open spec fn is_first_open(npc: Seq<char>, s: Seq<QuestProgress>, k: int) -> bool {
    &&& 0 <= k < quest_table().len()
    &&& quest_open(quest_table()[k], npc, s)
    &&& forall|j: int| 0 <= j < k ==> !quest_open(#[trigger] quest_table()[j], npc, s)
}

/// The first quest of NPC `npc` that the rows `s` do not show as completed.
pub open spec fn spec_quest_for_npc(npc: Seq<char>, s: Seq<QuestProgress>) -> Option<QuestDef> {
    if exists|k: int| is_first_open(npc, s, k) {
        Some(quest_table()[choose|k: int| is_first_open(npc, s, k)])
    } else {
        None
    }
}

/// Per-world quest state: the quest NPC each player last talked to.
pub struct QuestManager {
    touched_npc: StringHashMap<String>,
}

impl QuestManager {
    /// Player name -> name of the quest NPC the player last talked to.
    pub closed spec fn touched(&self) -> Map<Seq<char>, Seq<char>> {
        self.touched_npc@.map_values(|s: String| s@)
    }

    pub fn new() -> (r: Self)
        ensures
            r.touched() == Map::<Seq<char>, Seq<char>>::empty(),
    {
        let r = QuestManager { touched_npc: StringHashMap::new() };
        assert(r.touched() =~= Map::<Seq<char>, Seq<char>>::empty());
        r
    }

    /// Records that `player` is talking to quest NPC `npc_name`.
    pub fn touch(&mut self, player: &str, npc_name: &str)
        ensures
            final(self).touched() == old(self).touched().insert(player@, npc_name@),
    {
        let ghost t = self.touched();
        self.touched_npc.insert(player.to_string(), npc_name.to_string());
        assert(self.touched() =~= t.insert(player@, npc_name@));
    }

    /// The quest NPC `player` last talked to.
    pub fn touched_npc(&self, player: &str) -> (r: Option<&str>)
        ensures
            match r {
                Some(n) => self.touched().contains_key(player@) && n@ == self.touched()[player@],
                None => !self.touched().contains_key(player@),
            },
    {
        match self.touched_npc.get(player) {
            Some(s) => Some(s.as_str()),
            None => None,
        }
    }

    /// The first quest of the NPC `player` talks to that the player's rows
    /// `progress` do not show as completed.
    pub fn quest_for_touch(&self, player: &str, progress: &Vec<QuestProgress>) -> (r: Option<
        QuestDef,
    >)
        ensures
            r == (if self.touched().contains_key(player@) {
                spec_quest_for_npc(self.touched()[player@], progress@)
            } else {
                None
            }),
    {
        let npc = match self.touched_npc(player) {
            Some(n) => n,
            None => return None,
        };
        let ghost s = progress@;
        let qs = quests();
        let mut i: usize = 0;
        while i < qs.len()
            invariant
                qs@ == quest_table(),
                i <= qs.len(),
                s == progress@,
                self.touched().contains_key(player@),
                npc@ == self.touched()[player@],
                forall|j: int| 0 <= j < i ==> !quest_open(#[trigger] quest_table()[j], npc@, s),
            decreases qs.len() - i,
        {
            let q = qs[i];
            if str_eq(q.npc_name, npc) {
                let mut done = false;
                let mut j: usize = 0;
                while j < progress.len()
                    invariant
                        j <= progress.len(),
                        s == progress@,
                        done == exists|t: int|
                            0 <= t < j && (#[trigger] s[t]).quest_id == q.id && s[t].completed,
                    decreases progress.len() - j,
                {
                    if progress[j].quest_id == q.id && progress[j].completed {
                        done = true;
                    }
                    j = j + 1;
                }
                if !done {
                    proof {
                        assert(is_first_open(npc@, s, i as int));
                        let c = choose|c: int| is_first_open(npc@, s, c);
                        if c < i {
                            assert(!quest_open(quest_table()[c], npc@, s));
                        } else if i < c {
                            assert(!quest_open(quest_table()[i as int], npc@, s));
                        }
                        assert(spec_quest_for_npc(npc@, s) == Some(q));
                    }
                    return Some(q);
                }
            }
            i = i + 1;
        }
        assert(!exists|k: int| is_first_open(npc@, s, k));
        None
    }
}

/// What a quest NPC tells a player about quest `q`, from the player's first
/// row for it.
#[derive(Debug, Clone, Copy, PartialEq, Eq, Structural)]
pub enum QuestTalk {
    /// The player has not accepted the quest: it is offered.
    Offer,
    /// Accepted and under way: `killed` of `target`.
    InProgress { killed: u32, target: u32 },
    /// The goal is reached: the reward can be claimed.
    Completed,
}

/// What the NPC says about `q` to a player whose rows are `progress`.
pub fn quest_talk(q: &QuestDef, progress: &Vec<QuestProgress>) -> (r: QuestTalk)
    ensures
        r == match first_row(progress@, q.id) {
            None => QuestTalk::Offer,
            Some(k) => if progress@[k].completed {
                QuestTalk::Completed
            } else {
                QuestTalk::InProgress { killed: progress@[k].killed, target: target_count(*q) }
            },
        },
{
    match find_row(progress, q.id) {
        None => QuestTalk::Offer,
        Some(k) => {
            let row = progress[k];
            if row.completed {
                QuestTalk::Completed
            } else {
                let target = match q.objective {
                    QuestObjective::Kill { count, .. } => count,
                };
                QuestTalk::InProgress { killed: row.killed, target }
            }
        },
    }
}

/// `k` is the first table index of a quest given by NPC `npc`.
pub open spec fn is_first_of_npc(npc: Seq<char>, k: int) -> bool {
    &&& 0 <= k < quest_table().len()
    &&& quest_table()[k].npc_name@ == npc
    &&& forall|j: int| 0 <= j < k ==> (#[trigger] quest_table()[j]).npc_name@ != npc
}

/// The first quest of the table given by NPC `npc`.
pub open spec fn spec_quest_of_npc(npc: Seq<char>) -> Option<QuestDef> {
    if exists|k: int| is_first_of_npc(npc, k) {
        Some(quest_table()[choose|k: int| is_first_of_npc(npc, k)])
    } else {
        None
    }
}

/// The quest NPC `npc` gives (the one a player accepts after talking to it).
pub fn quest_of_npc(npc: &str) -> (r: Option<QuestDef>)
    ensures
        r == spec_quest_of_npc(npc@),
{
    let qs = quests();
    let mut i: usize = 0;
    while i < qs.len()
        invariant
            qs@ == quest_table(),
            i <= qs.len(),
            forall|j: int| 0 <= j < i ==> (#[trigger] quest_table()[j]).npc_name@ != npc@,
        decreases qs.len() - i,
    {
        let q = qs[i];
        if str_eq(q.npc_name, npc) {
            proof {
                assert(is_first_of_npc(npc@, i as int));
                let c = choose|c: int| is_first_of_npc(npc@, c);
                if c < i {
                    assert(quest_table()[c].npc_name@ != npc@);
                } else if i < c {
                    assert(quest_table()[i as int].npc_name@ != npc@);
                }
            }
            return Some(q);
        }
        i = i + 1;
    }
    assert(!exists|k: int| is_first_of_npc(npc@, k));
    None
}

/// `k` is the first row whose goal is reached and whose reward is waiting.
pub open spec fn is_first_claimable(s: Seq<QuestProgress>, k: int) -> bool {
    &&& 0 <= k < s.len()
    &&& s[k].completed && !s[k].finished
    &&& forall|j: int| 0 <= j < k ==> !((#[trigger] s[j]).completed && !s[j].finished)
}

/// The quest of the first row whose reward is waiting.
pub open spec fn first_claimable(s: Seq<QuestProgress>) -> Option<u32> {
    if exists|k: int| is_first_claimable(s, k) {
        Some(s[choose|k: int| is_first_claimable(s, k)].quest_id)
    } else {
        None
    }
}

/// The quest whose reward a player asks for: the quest of the NPC the player
/// last talked to, if that NPC gives one; otherwise the first quest of the
/// player's rows whose reward is waiting.
pub fn reward_target(touched: Option<&str>, progress: &Vec<QuestProgress>) -> (r: Option<u32>)
    ensures
        r == (match touched {
            Some(n) => match spec_quest_of_npc(n@) {
                Some(q) => Some(q.id),
                None => first_claimable(progress@),
            },
            None => first_claimable(progress@),
        }),
{
    match touched {
        Some(n) => match quest_of_npc(n) {
            Some(q) => return Some(q.id),
            None => {},
        },
        None => {},
    }
    let mut i: usize = 0;
    while i < progress.len()
        invariant
            i <= progress.len(),
            match touched {
                Some(n) => spec_quest_of_npc(n@) is None,
                None => true,
            },
            forall|j: int| 0 <= j < i ==> !((#[trigger] progress@[j]).completed && !progress@[j].finished),
        decreases progress.len() - i,
    {
        if progress[i].completed && !progress[i].finished {
            proof {
                assert(is_first_claimable(progress@, i as int));
                let c = choose|c: int| is_first_claimable(progress@, c);
                if c < i {
                    assert(!(progress@[c].completed && !progress@[c].finished));
                } else if i < c {
                    assert(!(progress@[i as int].completed && !progress@[i as int].finished));
                }
            }
            return Some(progress[i].quest_id);
        }
        i = i + 1;
    }
    assert(!exists|k: int| is_first_claimable(progress@, k));
    None
}

/// How a quest row reads in a player's quest list.
#[derive(Debug, Clone, Copy, PartialEq, Eq, Structural)]
pub enum QuestStatus {
    /// The row names no quest of the table.
    Unknown,
    /// The reward was claimed.
    Rewarded,
    /// The goal is reached; the reward is waiting.
    Claimable,
    /// Under way: `killed` of `target`.
    Progress { killed: u32, target: u32 },
}

/// How row `row` reads in the player's quest list.
pub fn quest_status(row: &QuestProgress) -> (r: QuestStatus)
    ensures
        r == match quest_by_id(row.quest_id) {
            None => QuestStatus::Unknown,
            Some(d) => if row.finished {
                QuestStatus::Rewarded
            } else if row.completed {
                QuestStatus::Claimable
            } else {
                QuestStatus::Progress { killed: row.killed, target: target_count(d) }
            },
        },
{
    match find_quest(row.quest_id) {
        None => QuestStatus::Unknown,
        Some(d) => {
            if row.finished {
                QuestStatus::Rewarded
            } else if row.completed {
                QuestStatus::Claimable
            } else {
                let target = match d.objective {
                    QuestObjective::Kill { count, .. } => count,
                };
                QuestStatus::Progress { killed: row.killed, target }
            }
        },
    }
}

/// A reward is paid once: after a successful claim, claiming again is refused
/// as already rewarded and changes nothing.
pub proof fn law_reward_once(s: Seq<QuestProgress>, id: u32)
    requires
        spec_reward(s, id).1 is Ok,
    ensures
        spec_reward(spec_reward(s, id).0, id).1 == Err::<(QuestDef, u32, u32), QuestError>(
            QuestError::AlreadyRewarded,
        ),
        spec_reward(spec_reward(s, id).0, id).0 == spec_reward(s, id).0,
{
    let k = first_row(s, id)->0;
    let s1 = spec_reward(s, id).0;
    assert(is_first_row(s1, id, k));
    lemma_first_row_unique(s1, id, k);
}

/// Kills never change the rows of a completed quest, and never lower a kill
/// count.
pub proof fn law_kills_monotone(s: Seq<QuestProgress>, image: u16)
    ensures
        spec_register_kill(s, image).0.len() == s.len(),
        forall|i: int|
            0 <= i < s.len() ==> {
                &&& (#[trigger] spec_register_kill(s, image).0[i]).killed >= s[i].killed
                &&& s[i].completed ==> spec_register_kill(s, image).0[i] == s[i]
            },
{
}

} // verus!
