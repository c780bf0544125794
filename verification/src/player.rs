//! The score cards of the players and the points that each deed earns.

use vstd::prelude::*;

verus! {

/// What a player has done so far, and the points earned with it.
#[derive(Clone, Copy, Debug, PartialEq, Eq, Structural)]
pub struct Player {
    pub points: u32,
    pub rejections: u32,
    pub connections: u32,
    pub events: u32,
}

/// Why a score card was not opened or not found.
#[derive(Clone, Copy, Debug, PartialEq, Eq, Structural)]
pub enum GameError {
    /// The player has a score card already.
    AlreadyRegistered,
    /// The player has no score card.
    NotRegistered,
}

/// A deed that earns points.
#[derive(Clone, Copy, Debug, PartialEq, Eq, Structural)]
pub enum Deed {
    /// A rejection: ten points.
    Rejection,
    /// New connections: five points each.
    Connections(u32),
    /// An event attended: fifty points.
    Event,
}

impl Player {
    /// The level: one, and one more for every full hundred points.
    pub open spec fn level_of(self) -> int {
        self.points / 100 + 1
    }

    /// The score card after a deed, with unbounded numbers.
    pub open spec fn after(self, deed: Deed) -> (int, int, int, int) {
        match deed {
            Deed::Rejection => (self.points + 10, self.rejections + 1, self.connections as int, self.events as int),
            Deed::Connections(count) => (
                self.points + count * 5,
                self.rejections as int,
                self.connections + count,
                self.events as int,
            ),
            Deed::Event => (self.points + 50, self.rejections as int, self.connections as int, self.events + 1),
        }
    }

    /// Whether the score card after the deed fits the card's counters.
    pub open spec fn can_score(self, deed: Deed) -> bool {
        let (points, rejections, connections, events) = self.after(deed);
        points <= u32::MAX && rejections <= u32::MAX && connections <= u32::MAX && events <= u32::MAX
    }

    /// The score card after a deed.
    pub open spec fn scored(self, deed: Deed) -> Player {
        let (points, rejections, connections, events) = self.after(deed);
        Player {
            points: points as u32,
            rejections: rejections as u32,
            connections: connections as u32,
            events: events as u32,
        }
    }

    /// The level of the player.
    pub fn level(&self) -> (level: u32)
        ensures
            level == self.level_of(),
            level >= 1,
    {
        (self.points / 100) + 1
    }

    /// Whether the deed can be scored on this card.
    pub fn fits(&self, deed: Deed) -> (fits: bool)
        ensures
            fits == self.can_score(deed),
    {
        match deed {
            Deed::Rejection => self.points <= u32::MAX - 10 && self.rejections < u32::MAX,
            Deed::Connections(count) => count <= (u32::MAX - self.points) / 5 && count <= u32::MAX
                - self.connections,
            Deed::Event => self.points <= u32::MAX - 50 && self.events < u32::MAX,
        }
    }

    /// Scores a deed on the card.
    pub fn score(self, deed: Deed) -> (updated: Player)
        requires
            self.can_score(deed),
        ensures
            updated == self.scored(deed),
    {
        match deed {
            Deed::Rejection => Player { points: self.points + 10, rejections: self.rejections + 1, ..self },
            Deed::Connections(count) => Player {
                points: self.points + count * 5,
                connections: self.connections + count,
                ..self
            },
            Deed::Event => Player { points: self.points + 50, events: self.events + 1, ..self },
        }
    }
}

/// The score card of one player, as the game keeps it.
struct Seat {
    address: String,
    stats: Player,
}

/// Whether the seat at position `i` is that of `player`.
spec fn seat_at(seats: Seq<Seat>, i: int, player: Seq<char>) -> bool {
    0 <= i < seats.len() && seats[i].address@ == player
}

/// Whether no player has two seats.
spec fn seats_unique(seats: Seq<Seat>) -> bool {
    forall|i: int, j: int| 0 <= i < j < seats.len() ==> (#[trigger] seats[i]).address@ != (#[trigger] seats[j]).address@
}

/// The score cards that the seats hold, by player.
spec fn cards_in(seats: Seq<Seat>) -> Map<Seq<char>, Player> {
    Map::new(
        |player: Seq<char>| exists|i: int| seat_at(seats, i, player),
        |player: Seq<char>| seats[choose|i: int| seat_at(seats, i, player)].stats,
    )
}

/// With no player on two seats, the seat found for a player holds the
/// player's card.
proof fn lemma_seat_is_unique(seats: Seq<Seat>, i: int, player: Seq<char>)
    requires
        seats_unique(seats),
        seat_at(seats, i, player),
    ensures
        cards_in(seats).dom().contains(player),
        cards_in(seats)[player] == seats[i].stats,
{
    let k = choose|k: int| seat_at(seats, k, player);
    if k < i {
        assert(seats[k].address@ != seats[i].address@);
    }
    if i < k {
        assert(seats[i].address@ != seats[k].address@);
    }
}

/// Putting a card on the seat of its player, or on a new seat if the
/// player had none, changes that player's card and no other.
proof fn lemma_seat_taken(s: Seq<Seat>, t: Seq<Seat>, at: int, player: Seq<char>)
    requires
        seats_unique(s),
        0 <= at <= s.len(),
        at < s.len() ==> s[at].address@ == player && t.len() == s.len(),
        at == s.len() ==> !cards_in(s).dom().contains(player) && t.len() == s.len() + 1,
        t[at].address@ == player,
        forall|i: int| 0 <= i < s.len() && i != at ==> t[i] == s[i],
    ensures
        seats_unique(t),
        cards_in(t) == cards_in(s).insert(player, t[at].stats),
{
    assert forall|i: int, j: int| 0 <= i < j < t.len() implies (#[trigger] t[i]).address@ != (#[trigger] t[j]).address@ by {
        if at < s.len() {
            assert(s[i].address@ != s[j].address@);
        } else if j == at {
            assert(!seat_at(s, i, player));
        } else {
            assert(s[i].address@ != s[j].address@);
        }
    }
    assert(seat_at(t, at, player));
    lemma_seat_is_unique(t, at, player);
    let goal = cards_in(s).insert(player, t[at].stats);
    assert forall|other: Seq<char>| #[trigger] cards_in(t).dom().contains(other) == goal.dom().contains(other) by {
        if other != player {
            if exists|k: int| seat_at(s, k, other) {
                let k = choose|k: int| seat_at(s, k, other);
                assert(t[k] == s[k]);
                assert(seat_at(t, k, other));
            }
            if exists|k: int| seat_at(t, k, other) {
                let k = choose|k: int| seat_at(t, k, other);
                assert(k != at);
                assert(t[k] == s[k]);
                assert(seat_at(s, k, other));
            }
        }
    }
    assert forall|other: Seq<char>| cards_in(t).dom().contains(other) implies #[trigger] cards_in(t)[other]
        == goal[other] by {
        if other != player {
            let k = choose|k: int| seat_at(t, k, other);
            assert(k != at);
            assert(t[k] == s[k]);
            assert(seat_at(s, k, other));
            lemma_seat_is_unique(s, k, other);
        }
    }
    assert(cards_in(t) =~= cards_in(s).insert(player, t[at].stats));
}

/// The game: every registered player's score card.
pub struct JobQuestGame {
    seats: Vec<Seat>,
}

impl JobQuestGame {
    /// The score cards, by player.
    pub closed spec fn cards(&self) -> Map<Seq<char>, Player> {
        cards_in(self.seats@)
    }

    /// The invariant of the game: no player has two score cards.
    pub closed spec fn wf(&self) -> bool {
        seats_unique(self.seats@)
    }

    /// A game without players.
    pub fn initialize() -> (game: JobQuestGame)
        ensures
            game.wf(),
            game.cards() == Map::<Seq<char>, Player>::empty(),
    {
        let game = JobQuestGame { seats: Vec::new() };
        proof {
            assert(game.cards() =~= Map::<Seq<char>, Player>::empty());
        }
        game
    }

    /// Where the seat of `player` stands, if there is one.
    fn find_seat(&self, player: &String) -> (found: Option<usize>)
        requires
            self.wf(),
        ensures
            match found {
                Some(i) => i < self.seats@.len() && self.seats@[i as int].address@ == player@
                    && self.cards().dom().contains(player@) && self.cards()[player@]
                    == self.seats@[i as int].stats,
                None => !self.cards().dom().contains(player@),
            },
    {
        let mut i: usize = 0;
        while i < self.seats.len()
            invariant
                self.wf(),
                i <= self.seats@.len(),
                forall|j: int| 0 <= j < i ==> !seat_at(self.seats@, j, player@),
            decreases self.seats@.len() - i,
        {
            if self.seats[i].address == *player {
                proof {
                    lemma_seat_is_unique(self.seats@, i as int, player@);
                }
                return Some(i);
            }
            i = i + 1;
        }
        None
    }

    /// Opens an empty score card for a new player.
    pub fn register(&mut self, player: String) -> (result: Result<Player, GameError>)
        requires
            old(self).wf(),
        ensures
            final(self).wf(),
            old(self).cards().dom().contains(player@) ==> result == Err::<Player, GameError>(
                GameError::AlreadyRegistered,
            ) && final(self).cards() == old(self).cards(),
            !old(self).cards().dom().contains(player@) ==> {
                let card = Player { points: 0, rejections: 0, connections: 0, events: 0 };
                result == Ok::<Player, GameError>(card) && final(self).cards() == old(self).cards().insert(
                    player@,
                    card,
                )
            },
    {
        if self.find_seat(&player).is_some() {
            return Err(GameError::AlreadyRegistered);
        }
        let new_player = Player { points: 0, rejections: 0, connections: 0, events: 0 };
        let ghost name = player@;
        self.seats.push(Seat { address: player, stats: new_player });
        proof {
            lemma_seat_taken(old(self).seats@, self.seats@, old(self).seats@.len() as int, name);
        }
        Ok(new_player)
    }

    /// Scores a deed on the card of a registered player and answers the
    /// card as it then stands.
    pub fn record(&mut self, player: &String, deed: Deed) -> (result: Result<Player, GameError>)
        requires
            old(self).wf(),
            old(self).cards().dom().contains(player@) ==> old(self).cards()[player@].can_score(deed),
        ensures
            final(self).wf(),
            !old(self).cards().dom().contains(player@) ==> result == Err::<Player, GameError>(
                GameError::NotRegistered,
            ) && final(self).cards() == old(self).cards(),
            old(self).cards().dom().contains(player@) ==> {
                let card = old(self).cards()[player@].scored(deed);
                result == Ok::<Player, GameError>(card) && final(self).cards() == old(self).cards().insert(
                    player@,
                    card,
                )
            },
    {
        let at = match self.find_seat(player) {
            Some(i) => i,
            None => {
                return Err(GameError::NotRegistered);
            },
        };
        let stats = self.seats[at].stats.score(deed);
        self.seats[at].stats = stats;
        proof {
            lemma_seat_taken(old(self).seats@, self.seats@, at as int, player@);
        }
        Ok(stats)
    }

    /// Scores a rejection: ten points.
    pub fn rejection(&mut self, player: &String) -> (result: Result<Player, GameError>)
        requires
            old(self).wf(),
            old(self).cards().dom().contains(player@) ==> old(self).cards()[player@].can_score(Deed::Rejection),
        ensures
            final(self).wf(),
            !old(self).cards().dom().contains(player@) ==> result == Err::<Player, GameError>(
                GameError::NotRegistered,
            ) && final(self).cards() == old(self).cards(),
            old(self).cards().dom().contains(player@) ==> {
                let card = old(self).cards()[player@].scored(Deed::Rejection);
                result == Ok::<Player, GameError>(card) && final(self).cards() == old(self).cards().insert(
                    player@,
                    card,
                )
            },
    {
        self.record(player, Deed::Rejection)
    }

    /// Scores new connections: five points each.
    pub fn connections(&mut self, player: &String, count: u32) -> (result: Result<Player, GameError>)
        requires
            old(self).wf(),
            old(self).cards().dom().contains(player@) ==> old(self).cards()[player@].can_score(
                Deed::Connections(count),
            ),
        ensures
            final(self).wf(),
            !old(self).cards().dom().contains(player@) ==> result == Err::<Player, GameError>(
                GameError::NotRegistered,
            ) && final(self).cards() == old(self).cards(),
            old(self).cards().dom().contains(player@) ==> {
                let card = old(self).cards()[player@].scored(Deed::Connections(count));
                result == Ok::<Player, GameError>(card) && final(self).cards() == old(self).cards().insert(
                    player@,
                    card,
                )
            },
    {
        self.record(player, Deed::Connections(count))
    }

    /// Scores an event attended: fifty points.
    pub fn event(&mut self, player: &String) -> (result: Result<Player, GameError>)
        requires
            old(self).wf(),
            old(self).cards().dom().contains(player@) ==> old(self).cards()[player@].can_score(Deed::Event),
        ensures
            final(self).wf(),
            !old(self).cards().dom().contains(player@) ==> result == Err::<Player, GameError>(
                GameError::NotRegistered,
            ) && final(self).cards() == old(self).cards(),
            old(self).cards().dom().contains(player@) ==> {
                let card = old(self).cards()[player@].scored(Deed::Event);
                result == Ok::<Player, GameError>(card) && final(self).cards() == old(self).cards().insert(
                    player@,
                    card,
                )
            },
    {
        self.record(player, Deed::Event)
    }

    /// The score card of a player.
    pub fn stats(&self, player: &String) -> (result: Result<Player, GameError>)
        requires
            self.wf(),
        ensures
            self.cards().dom().contains(player@) ==> result == Ok::<Player, GameError>(self.cards()[player@]),
            !self.cards().dom().contains(player@) ==> result == Err::<Player, GameError>(
                GameError::NotRegistered,
            ),
    {
        match self.find_seat(player) {
            Some(i) => Ok(self.seats[i].stats),
            None => Err(GameError::NotRegistered),
        }
    }
}

} // verus!
