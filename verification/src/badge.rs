//! Achievement badges: which badges a finished quest or a streak earns,
//! how rare they are, who holds them, and how they change hands.

use vstd::prelude::*;

verus! {

/// The tier of a completion badge, by the length of the quest.
#[derive(Clone, Copy, Debug, PartialEq, Eq, Structural)]
pub enum BadgeTier {
    Bronze,
    Silver,
    Gold,
    Platinum,
}

/// What a badge is awarded for.
#[derive(Clone, Copy, Debug, PartialEq, Eq, Structural)]
pub enum AchievementType {
    QuestCompletion(BadgeTier),
    PerfectAttendance,
    Overachiever,
    SpeedDemon,
    Streak10,
    Streak30,
    Applications100,
    MultiQuest5,
}

/// The rarity score of a completion badge: the quest's days, twenty more
/// for perfect attendance and fifteen more for an overachiever.
pub open spec fn rarity_of(duration: u32, perfect: bool, overachiever: bool) -> int {
    duration + (if perfect {
        20int
    } else {
        0int
    }) + (if overachiever {
        15int
    } else {
        0int
    })
}

/// The achievement that a streak of the given length earns.
pub open spec fn streak_of(streak_days: u32) -> AchievementType {
    if streak_days >= 30 {
        AchievementType::Streak30
    } else {
        AchievementType::Streak10
    }
}

/// The tier that a quest of the given length earns, if the length is one
/// that quests run for.
pub open spec fn tier_of(duration_days: u32) -> Option<BadgeTier> {
    if duration_days == 7 {
        Some(BadgeTier::Bronze)
    } else if duration_days == 14 {
        Some(BadgeTier::Silver)
    } else if duration_days == 30 {
        Some(BadgeTier::Gold)
    } else if duration_days == 90 {
        Some(BadgeTier::Platinum)
    } else {
        None
    }
}

/// Why a badge was not minted or handed over.
#[derive(Clone, Copy, Debug, PartialEq, Eq, Structural)]
pub enum BadgeError {
    /// Quests do not run for the given number of days.
    InvalidDuration,
    /// The user already has the achievement.
    AlreadyAwarded,
    /// No badge has the given id.
    BadgeNotFound,
    /// The badge belongs to somebody else.
    NotOwner,
}

/// One minted badge.
#[derive(Debug)]
pub struct Badge {
    pub id: u64,
    pub owner: String,
    pub achievement_type: AchievementType,
    pub quest_id: Option<u64>,
    pub minted_at: u64,
    pub metadata_uri: String,
    pub rarity_score: u32,
}

/// The badges of one user, with the sum of their rarity scores.
#[derive(Debug)]
pub struct BadgeCollection {
    pub owner: String,
    pub badges: Vec<u64>,
    pub total_score: u32,
}

/// The list of one user's badges, as the registry keeps it.
struct Shelf {
    owner: String,
    badges: Vec<u64>,
}

/// One achievement of one user.
struct Award {
    owner: String,
    achievement: AchievementType,
}

/// Where the metadata of every badge is found.
pub open spec fn metadata_uri() -> Seq<char> {
    "ipfs://badges/"@
}

/// `ids` without every occurrence of `id`, in the same order.
pub open spec fn ids_without(ids: Seq<u64>, id: u64) -> Seq<u64>
    decreases ids.len(),
{
    if ids.len() == 0 {
        Seq::empty()
    } else if ids.last() == id {
        ids_without(ids.drop_last(), id)
    } else {
        ids_without(ids.drop_last(), id).push(ids.last())
    }
}

/// The ids from `from + 1` up to `to`, in order.
pub open spec fn ids_between(from: int, to: int) -> Seq<u64> {
    Seq::new((to - from) as nat, |k: int| (from + 1 + k) as u64)
}

/// The rarity scores of the badges among `ids` that exist, added up.
pub open spec fn score_of(badges: Seq<Badge>, ids: Seq<u64>) -> int
    decreases ids.len(),
{
    if ids.len() == 0 {
        0
    } else {
        score_of(badges, ids.drop_last()) + (if 1 <= ids.last() <= badges.len() {
            badges[ids.last() - 1].rarity_score as int
        } else {
            0
        })
    }
}

/// The registry's records as mathematical values: every badge, each
/// user's list of badge ids, and who has which achievement.
pub struct BadgeState {
    pub badges: Seq<Badge>,
    pub held: Map<Seq<char>, Seq<u64>>,
    pub awards: Set<(Seq<char>, AchievementType)>,
}

impl BadgeState {
    /// Whether a badge has this id.
    pub open spec fn has_badge(self, id: u64) -> bool {
        1 <= id <= self.badges.len()
    }

    /// The badge with this id.
    pub open spec fn badge(self, id: u64) -> Badge
        recommends
            self.has_badge(id),
    {
        self.badges[id - 1]
    }

    /// The id that the next badge gets.
    pub open spec fn next_id(self) -> u64 {
        (self.badges.len() + 1) as u64
    }

    /// The invariant of the registry: ids count up from one, and every
    /// user has a list, be it empty.
    pub open spec fn wf(self) -> bool {
        &&& self.badges.len() <= u64::MAX
        &&& forall|i: int| 0 <= i < self.badges.len() ==> (#[trigger] self.badges[i]).id == i + 1
        &&& self.held.dom() == Set::<Seq<char>>::full()
    }

    /// The records after a badge was minted: one more badge, at the end of
    /// its owner's list, and the achievement noted for the owner.
    pub open spec fn minted(
        self,
        owner: String,
        achievement_type: AchievementType,
        quest_id: Option<u64>,
        metadata_uri: String,
        rarity_score: u32,
        now: u64,
    ) -> BadgeState {
        BadgeState {
            badges: self.badges.push(
                Badge {
                    id: self.next_id(),
                    owner,
                    achievement_type,
                    quest_id,
                    minted_at: now,
                    metadata_uri,
                    rarity_score,
                },
            ),
            held: self.held.insert(owner@, self.held[owner@].push(self.next_id())),
            awards: self.awards.insert((owner@, achievement_type)),
        }
    }

    /// The records after the badge for a milestone was minted, if one was
    /// due: the user holds five badges or more and has not had it yet.
    pub open spec fn with_milestones(self, owner: String, uri: String, now: u64) -> BadgeState {
        if self.held[owner@].len() >= 5 && !self.awards.contains((owner@, AchievementType::MultiQuest5)) {
            self.minted(owner, AchievementType::MultiQuest5, None, uri, 75, now)
        } else {
            self
        }
    }

    /// The records after the badges of a completed quest were minted: the
    /// completion badge of the quest's tier, one for perfect attendance and
    /// one for overachieving where they apply, and a milestone if one is due.
    pub open spec fn quest_badges_minted(
        self,
        owner: String,
        quest_id: u64,
        duration_days: u32,
        is_perfect: bool,
        is_overachiever: bool,
        uri: String,
        now: u64,
    ) -> BadgeState {
        let first = self.minted(
            owner,
            AchievementType::QuestCompletion(tier_of(duration_days).unwrap()),
            Some(quest_id),
            uri,
            rarity_of(duration_days, false, false) as u32,
            now,
        );
        let second = if is_perfect {
            first.minted(owner, AchievementType::PerfectAttendance, Some(quest_id), uri, 50, now)
        } else {
            first
        };
        let third = if is_overachiever {
            second.minted(owner, AchievementType::Overachiever, Some(quest_id), uri, 40, now)
        } else {
            second
        };
        third.with_milestones(owner, uri, now)
    }

    /// The records after a badge changed hands: it has its new owner, has
    /// left the old owner's list and stands at the end of the new owner's.
    pub open spec fn transferred(self, id: u64, to: String) -> BadgeState {
        let from = self.badge(id).owner@;
        let left = self.held.insert(from, ids_without(self.held[from], id));
        BadgeState {
            badges: self.badges.update(id - 1, Badge { owner: to, ..self.badge(id) }),
            held: left.insert(to@, left[to@].push(id)),
            awards: self.awards,
        }
    }
}

/// The registry of badges.
pub struct BadgeContract {
    badges: Vec<Badge>,
    shelves: Vec<Shelf>,
    awards: Vec<Award>,
}

/// Whether the shelf at position `i` is that of `user`.
spec fn shelf_at(shelves: Seq<Shelf>, i: int, user: Seq<char>) -> bool {
    0 <= i < shelves.len() && shelves[i].owner@ == user
}

/// The list that the shelves hold for `user`: empty if there is none.
spec fn held_in(shelves: Seq<Shelf>, user: Seq<char>) -> Seq<u64> {
    if exists|i: int| shelf_at(shelves, i, user) {
        shelves[choose|i: int| shelf_at(shelves, i, user)].badges@
    } else {
        Seq::empty()
    }
}

/// Whether no user has two shelves.
spec fn shelves_unique(shelves: Seq<Shelf>) -> bool {
    forall|i: int, j: int|
        0 <= i < j < shelves.len() ==> (#[trigger] shelves[i]).owner@ != (#[trigger] shelves[j]).owner@
}

/// Whether the award at position `i` is this achievement of this user.
spec fn award_at(awards: Seq<Award>, i: int, entry: (Seq<char>, AchievementType)) -> bool {
    0 <= i < awards.len() && awards[i].owner@ == entry.0 && awards[i].achievement == entry.1
}

impl View for BadgeContract {
    type V = BadgeState;

    closed spec fn view(&self) -> BadgeState {
        BadgeState {
            badges: self.badges@,
            held: Map::total(|user: Seq<char>| held_in(self.shelves@, user)),
            awards: Set::new(|entry: (Seq<char>, AchievementType)| exists|i: int| award_at(self.awards@, i, entry)),
        }
    }
}

/// With no user on two shelves, the shelf found for a user holds the
/// user's list.
proof fn lemma_shelf_is_unique(shelves: Seq<Shelf>, i: int, user: Seq<char>)
    requires
        shelves_unique(shelves),
        shelf_at(shelves, i, user),
    ensures
        held_in(shelves, user) == shelves[i].badges@,
{
    let k = choose|k: int| shelf_at(shelves, k, user);
    if k < i {
        assert(shelves[k].owner@ != shelves[i].owner@);
    }
    if i < k {
        assert(shelves[i].owner@ != shelves[k].owner@);
    }
}

impl BadgeContract {
    /// The invariant of the registry: its records are well-formed, and no
    /// user's list is kept twice.
    pub closed spec fn wf(&self) -> bool {
        self@.wf() && shelves_unique(self.shelves@)
    }

    /// A registry without badges.
    pub fn initialize() -> (registry: BadgeContract)
        ensures
            registry.wf(),
            registry@.badges.len() == 0,
            forall|user: Seq<char>| (#[trigger] registry@.held[user]).len() == 0,
            registry@.awards == Set::<(Seq<char>, AchievementType)>::empty(),
    {
        let registry = BadgeContract { badges: Vec::new(), shelves: Vec::new(), awards: Vec::new() };
        proof {
            assert(registry@.held.dom() =~= Set::<Seq<char>>::full());
            assert(registry@.awards =~= Set::<(Seq<char>, AchievementType)>::empty());
        }
        registry
    }

    /// The rarity score of a completion badge.
    pub fn calculate_rarity(duration: u32, perfect: bool, overachiever: bool) -> (score: u32)
        requires
            rarity_of(duration, perfect, overachiever) <= u32::MAX,
        ensures
            score == rarity_of(duration, perfect, overachiever),
    {
        let mut score: u32 = duration;
        if perfect {
            score = score + 20;
        }
        if overachiever {
            score = score + 15;
        }
        score
    }

    /// The tier of the completion badge for a quest of the given length.
    pub fn completion_tier(duration_days: u32) -> (tier: Option<BadgeTier>)
        ensures
            tier == tier_of(duration_days),
    {
        if duration_days == 7 {
            Some(BadgeTier::Bronze)
        } else if duration_days == 14 {
            Some(BadgeTier::Silver)
        } else if duration_days == 30 {
            Some(BadgeTier::Gold)
        } else if duration_days == 90 {
            Some(BadgeTier::Platinum)
        } else {
            None
        }
    }

    /// The achievement that a streak of the given length earns.
    pub fn streak_achievement(streak_days: u32) -> (achievement: AchievementType)
        ensures
            achievement == streak_of(streak_days),
    {
        if streak_days >= 30 {
            AchievementType::Streak30
        } else {
            AchievementType::Streak10
        }
    }

    /// Where the metadata of a badge for the achievement is found.
    pub fn get_metadata_uri(_achievement: &AchievementType) -> (uri: String)
        ensures
            uri@ == metadata_uri(),
    {
        "ipfs://badges/".to_owned()
    }

    /// Where the shelf of `user` stands, if there is one.
    fn find_shelf(&self, user: &String) -> (found: Option<usize>)
        requires
            self.wf(),
        ensures
            match found {
                Some(i) => i < self.shelves@.len() && self.shelves@[i as int].owner@ == user@
                    && self@.held[user@] == self.shelves@[i as int].badges@,
                None => forall|i: int| !shelf_at(self.shelves@, i, user@),
            },
    {
        let mut i: usize = 0;
        while i < self.shelves.len()
            invariant
                self.wf(),
                i <= self.shelves@.len(),
                forall|j: int| 0 <= j < i ==> !shelf_at(self.shelves@, j, user@),
            decreases self.shelves@.len() - i,
        {
            if self.shelves[i].owner == *user {
                proof {
                    lemma_shelf_is_unique(self.shelves@, i as int, user@);
                }
                return Some(i);
            }
            i = i + 1;
        }
        None
    }

    /// The ids of the badges of `user`, in the order in which they came.
    pub fn get_user_badges(&self, user: &String) -> (ids: Vec<u64>)
        requires
            self.wf(),
        ensures
            ids@ == self@.held[user@],
    {
        let mut ids: Vec<u64> = Vec::new();
        match self.find_shelf(user) {
            Some(at) => {
                let mut i: usize = 0;
                while i < self.shelves[at].badges.len()
                    invariant
                        at < self.shelves@.len(),
                        i <= self.shelves@[at as int].badges@.len(),
                        ids@ == self.shelves@[at as int].badges@.take(i as int),
                    decreases self.shelves@[at as int].badges@.len() - i,
                {
                    ids.push(self.shelves[at].badges[i]);
                    proof {
                        let list = self.shelves@[at as int].badges@;
                        assert(list.take(i + 1) =~= list.take(i as int).push(list[i as int]));
                    }
                    i = i + 1;
                }
                proof {
                    let list = self.shelves@[at as int].badges@;
                    assert(list.take(i as int) =~= list);
                }
            },
            None => {
                proof {
                    assert(!(exists|i: int| shelf_at(self.shelves@, i, user@)));
                }
            },
        }
        ids
    }

    /// Puts `ids` in the place of the list of `user`.
    fn set_user_badges(&mut self, user: String, ids: Vec<u64>)
        requires
            old(self).wf(),
        ensures
            final(self).wf(),
            final(self)@.badges == old(self)@.badges,
            final(self)@.awards == old(self)@.awards,
            final(self)@.held == old(self)@.held.insert(user@, ids@),
    {
        let found = self.find_shelf(&user);
        let ghost name = user@;
        let ghost list = ids@;
        let ghost at: int = match found {
            Some(i) => i as int,
            None => self.shelves@.len() as int,
        };
        let shelf = Shelf { owner: user, badges: ids };
        match found {
            Some(i) => {
                self.shelves.set(i, shelf);
            },
            None => {
                self.shelves.push(shelf);
            },
        }
        proof {
            let s = old(self).shelves@;
            let t = self.shelves@;
            assert forall|i: int, j: int| 0 <= i < j < t.len() implies (#[trigger] t[i]).owner@ != (
            #[trigger] t[j]).owner@ by {
                if at < s.len() {
                    assert(s[i].owner@ != s[j].owner@);
                } else if j == at {
                    assert(!shelf_at(s, i, name));
                } else {
                    assert(s[i].owner@ != s[j].owner@);
                }
            }
            assert(shelf_at(t, at, name));
            lemma_shelf_is_unique(t, at, name);
            assert forall|other: Seq<char>| other != name implies held_in(t, other) == held_in(s, other) by {
                if exists|k: int| shelf_at(s, k, other) {
                    let k = choose|k: int| shelf_at(s, k, other);
                    assert(t[k] == s[k]);
                    assert(shelf_at(t, k, other));
                    lemma_shelf_is_unique(t, k, other);
                } else if exists|k: int| shelf_at(t, k, other) {
                    let k = choose|k: int| shelf_at(t, k, other);
                    assert(k != at);
                    assert(t[k] == s[k]);
                    assert(shelf_at(s, k, other));
                }
            }
            assert(self@.held =~= old(self)@.held.insert(name, list));
            assert(self@.awards =~= old(self)@.awards);
        }
    }

    /// Whether `user` has the achievement.
    pub fn has_achievement(&self, user: &String, achievement: AchievementType) -> (has: bool)
        ensures
            has == self@.awards.contains((user@, achievement)),
    {
        let mut i: usize = 0;
        while i < self.awards.len()
            invariant
                i <= self.awards@.len(),
                forall|j: int| 0 <= j < i ==> !award_at(self.awards@, j, (user@, achievement)),
            decreases self.awards@.len() - i,
        {
            if self.awards[i].owner == *user && self.awards[i].achievement == achievement {
                proof {
                    assert(award_at(self.awards@, i as int, (user@, achievement)));
                }
                return true;
            }
            i = i + 1;
        }
        false
    }

    /// Mints a badge under the next id, puts it at the end of its owner's
    /// list and notes the achievement for the owner.
    pub fn mint_badge(
        &mut self,
        owner: String,
        achievement_type: AchievementType,
        quest_id: Option<u64>,
        metadata_uri: String,
        rarity_score: u32,
        now: u64,
    ) -> (id: u64)
        requires
            old(self).wf(),
            old(self)@.badges.len() < u64::MAX,
        ensures
            final(self).wf(),
            id == old(self)@.next_id(),
            final(self)@ == old(self)@.minted(owner, achievement_type, quest_id, metadata_uri, rarity_score, now),
    {
        let new_badge_id: u64 = self.badges.len() as u64 + 1;
        let badge = Badge {
            id: new_badge_id,
            owner: owner.clone(),
            achievement_type,
            quest_id,
            minted_at: now,
            metadata_uri,
            rarity_score,
        };
        self.badges.push(badge);
        self.awards.push(Award { owner: owner.clone(), achievement: achievement_type });
        proof {
            let s = old(self);
            let entry = (owner@, achievement_type);
            assert(award_at(self.awards@, s.awards@.len() as int, entry));
            assert forall|e: (Seq<char>, AchievementType)| self@.awards.contains(e) == s@.awards.insert(
                entry,
            ).contains(e) by {
                if exists|i: int| award_at(self.awards@, i, e) {
                    let i = choose|i: int| award_at(self.awards@, i, e);
                    if i < s.awards@.len() {
                        assert(self.awards@[i] == s.awards@[i]);
                        assert(award_at(s.awards@, i, e));
                    }
                }
                if exists|i: int| award_at(s.awards@, i, e) {
                    let i = choose|i: int| award_at(s.awards@, i, e);
                    assert(self.awards@[i] == s.awards@[i]);
                    assert(award_at(self.awards@, i, e));
                }
            }
            assert(self@.awards =~= s@.awards.insert(entry));
            assert(self@.held =~= s@.held);
            assert forall|i: int| 0 <= i < self@.badges.len() implies (#[trigger] self@.badges[i]).id == i + 1 by {
                if i < s@.badges.len() {
                    assert(self@.badges[i] == s@.badges[i]);
                }
            }
        }
        let mut ids = self.get_user_badges(&owner);
        ids.push(new_badge_id);
        self.set_user_badges(owner, ids);
        new_badge_id
    }

    /// Mints the badge for five badges held, if it is due, and adds its id
    /// to `minted_badges`.
    fn check_and_mint_milestones(&mut self, owner: String, uri: String, minted_badges: &mut Vec<u64>, now: u64)
        requires
            old(self).wf(),
            old(self)@.badges.len() < u64::MAX,
        ensures
            final(self).wf(),
            final(self)@ == old(self)@.with_milestones(owner, uri, now),
            final(minted_badges)@ == old(minted_badges)@ + ids_between(
                old(self)@.badges.len() as int,
                final(self)@.badges.len() as int,
            ),
    {
        let user_badges = self.get_user_badges(&owner);
        let badge_count = user_badges.len();
        if badge_count >= 5 && !self.has_achievement(&owner, AchievementType::MultiQuest5) {
            let id = self.mint_badge(owner, AchievementType::MultiQuest5, None, uri, 75, now);
            minted_badges.push(id);
            proof {
                let n = old(self)@.badges.len() as int;
                assert(ids_between(n, n + 1) =~= seq![id]);
                assert(minted_badges@ =~= old(minted_badges)@ + ids_between(n, n + 1));
            }
        } else {
            proof {
                let n = old(self)@.badges.len() as int;
                assert(minted_badges@ =~= old(minted_badges)@ + ids_between(n, n));
            }
        }
    }

    /// Mints the badges that a completed quest earns, and answers their
    /// ids in the order in which they were minted.
    pub fn mint_quest_badge(
        &mut self,
        owner: String,
        quest_id: u64,
        duration_days: u32,
        is_perfect: bool,
        is_overachiever: bool,
        now: u64,
    ) -> (result: Result<Vec<u64>, BadgeError>)
        requires
            old(self).wf(),
            old(self)@.badges.len() + 4 <= u64::MAX,
        ensures
            final(self).wf(),
            tier_of(duration_days) is None ==> result is Err && result->Err_0 == BadgeError::InvalidDuration
                && final(self)@ == old(self)@,
            tier_of(duration_days) is Some ==> {
                &&& result is Ok
                &&& result->Ok_0@ == ids_between(
                    old(self)@.badges.len() as int,
                    final(self)@.badges.len() as int,
                )
                &&& exists|uri: String|
                    uri@ == metadata_uri() && final(self)@ == old(self)@.quest_badges_minted(
                        owner,
                        quest_id,
                        duration_days,
                        is_perfect,
                        is_overachiever,
                        uri,
                        now,
                    )
            },
    {
        let tier = match Self::completion_tier(duration_days) {
            Some(tier) => tier,
            None => {
                return Err(BadgeError::InvalidDuration);
            },
        };
        let ghost n = self@.badges.len() as int;
        let mut minted_badges: Vec<u64> = Vec::new();
        let uri = Self::get_metadata_uri(&AchievementType::QuestCompletion(BadgeTier::Bronze));
        let badge_id = self.mint_badge(
            owner.clone(),
            AchievementType::QuestCompletion(tier),
            Some(quest_id),
            uri.clone(),
            Self::calculate_rarity(duration_days, false, false),
            now,
        );
        minted_badges.push(badge_id);
        if is_perfect {
            let perfect_badge = self.mint_badge(
                owner.clone(),
                AchievementType::PerfectAttendance,
                Some(quest_id),
                uri.clone(),
                50,
                now,
            );
            minted_badges.push(perfect_badge);
        }
        if is_overachiever {
            let over_badge = self.mint_badge(
                owner.clone(),
                AchievementType::Overachiever,
                Some(quest_id),
                uri.clone(),
                40,
                now,
            );
            minted_badges.push(over_badge);
        }
        proof {
            assert(minted_badges@ =~= ids_between(n, self@.badges.len() as int));
        }
        let ghost m = self@.badges.len() as int;
        self.check_and_mint_milestones(owner.clone(), uri.clone(), &mut minted_badges, now);
        proof {
            assert(minted_badges@ =~= ids_between(n, self@.badges.len() as int));
            assert(self@ == old(self)@.quest_badges_minted(
                owner,
                quest_id,
                duration_days,
                is_perfect,
                is_overachiever,
                uri,
                now,
            ));
        }
        Ok(minted_badges)
    }

    /// Mints the badge that a streak earns, once for every user.
    pub fn mint_streak_badge(&mut self, owner: String, streak_days: u32, now: u64) -> (result: Result<
        u64,
        BadgeError,
    >)
        requires
            old(self).wf(),
            old(self)@.badges.len() < u64::MAX,
        ensures
            final(self).wf(),
            old(self)@.awards.contains((owner@, streak_of(streak_days))) ==> result == Err::<u64, BadgeError>(
                BadgeError::AlreadyAwarded,
            ) && final(self)@ == old(self)@,
            !old(self)@.awards.contains((owner@, streak_of(streak_days))) ==> {
                &&& result == Ok::<u64, BadgeError>(old(self)@.next_id())
                &&& exists|uri: String|
                    uri@ == metadata_uri() && final(self)@ == old(self)@.minted(
                        owner,
                        streak_of(streak_days),
                        None,
                        uri,
                        streak_days,
                        now,
                    )
            },
    {
        let achievement = Self::streak_achievement(streak_days);
        if self.has_achievement(&owner, achievement) {
            return Err(BadgeError::AlreadyAwarded);
        }
        let uri = Self::get_metadata_uri(&achievement);
        let ghost same = uri;
        let id = self.mint_badge(owner, achievement, None, uri, streak_days, now);
        proof {
            assert(same@ == metadata_uri() && self@ == old(self)@.minted(
                owner,
                streak_of(streak_days),
                None,
                same,
                streak_days,
                now,
            ));
        }
        Ok(id)
    }

    /// How many badges were minted so far, which is also the latest id.
    pub fn badge_count(&self) -> (count: u64)
        ensures
            count == self@.badges.len(),
    {
        self.badges.len() as u64
    }

    /// The badge with the given id, if there is one.
    pub fn get_badge(&self, badge_id: u64) -> (result: Option<&Badge>)
        ensures
            self@.has_badge(badge_id) ==> result == Some(&self@.badge(badge_id)),
            !self@.has_badge(badge_id) ==> result.is_none(),
    {
        if badge_id == 0 || badge_id > self.badges.len() as u64 {
            return None;
        }
        Some(&self.badges[(badge_id - 1) as usize])
    }

    /// The badges of `user` with the sum of their rarity scores.
    pub fn get_badge_collection(&self, user: String) -> (collection: BadgeCollection)
        requires
            self.wf(),
            score_of(self@.badges, self@.held[user@]) <= u32::MAX,
        ensures
            collection.owner == user,
            collection.badges@ == self@.held[user@],
            collection.total_score == score_of(self@.badges, self@.held[user@]),
    {
        let badge_ids = self.get_user_badges(&user);
        let mut total: u128 = 0;
        let mut i: usize = 0;
        while i < badge_ids.len()
            invariant
                i <= badge_ids@.len(),
                total == score_of(self.badges@, badge_ids@.take(i as int)),
                total <= i * 0xffff_ffff,
            decreases badge_ids@.len() - i,
        {
            proof {
                assert(badge_ids@.take(i + 1).drop_last() =~= badge_ids@.take(i as int));
                assert(badge_ids@.take(i + 1).last() == badge_ids@[i as int]);
            }
            let badge_id: u64 = badge_ids[i];
            if badge_id >= 1 && badge_id <= self.badges.len() as u64 {
                total = total + self.badges[(badge_id - 1) as usize].rarity_score as u128;
            }
            i = i + 1;
        }
        proof {
            assert(badge_ids@.take(i as int) =~= badge_ids@);
        }
        BadgeCollection { owner: user, badges: badge_ids, total_score: total as u32 }
    }

    /// Hands a badge from its owner `from` to `to`. The achievement stays
    /// noted for the one who earned it.
    pub fn transfer(&mut self, badge_id: u64, from: &String, to: String) -> (result: Result<(), BadgeError>)
        requires
            old(self).wf(),
        ensures
            final(self).wf(),
            !old(self)@.has_badge(badge_id) ==> result == Err::<(), BadgeError>(BadgeError::BadgeNotFound)
                && final(self)@ == old(self)@,
            old(self)@.has_badge(badge_id) && old(self)@.badge(badge_id).owner@ != from@ ==> result == Err::<
                (),
                BadgeError,
            >(BadgeError::NotOwner) && final(self)@ == old(self)@,
            old(self)@.has_badge(badge_id) && old(self)@.badge(badge_id).owner@ == from@ ==> result is Ok
                && final(self)@ == old(self)@.transferred(badge_id, to),
    {
        if badge_id == 0 || badge_id > self.badges.len() as u64 {
            return Err(BadgeError::BadgeNotFound);
        }
        let idx: usize = (badge_id - 1) as usize;
        if !(self.badges[idx].owner == *from) {
            return Err(BadgeError::NotOwner);
        }
        self.badges[idx].owner = to.clone();
        proof {
            let s = old(self)@;
            assert(self@.held =~= s.held);
            assert(self@.awards =~= s.awards);
            assert(self@.badges =~= s.badges.update(badge_id - 1, Badge { owner: to, ..s.badge(badge_id) }));
            assert forall|i: int| 0 <= i < self@.badges.len() implies (#[trigger] self@.badges[i]).id == i + 1 by {
                assert(s.badges[i].id == i + 1);
            }
        }
        let from_badges = self.get_user_badges(from);
        let mut new_from_badges: Vec<u64> = Vec::new();
        let mut i: usize = 0;
        while i < from_badges.len()
            invariant
                i <= from_badges@.len(),
                new_from_badges@ == ids_without(from_badges@.take(i as int), badge_id),
            decreases from_badges@.len() - i,
        {
            proof {
                assert(from_badges@.take(i + 1).drop_last() =~= from_badges@.take(i as int));
                assert(from_badges@.take(i + 1).last() == from_badges@[i as int]);
            }
            let id: u64 = from_badges[i];
            if id != badge_id {
                new_from_badges.push(id);
            }
            i = i + 1;
        }
        proof {
            assert(from_badges@.take(i as int) =~= from_badges@);
        }
        self.set_user_badges(from.clone(), new_from_badges);
        let mut to_badges = self.get_user_badges(&to);
        to_badges.push(badge_id);
        self.set_user_badges(to, to_badges);
        Ok(())
    }
}

} // verus!
