//! The games of one user: a table from game name to running total in which
//! no name stands twice, kept in the order in which the games were added.
//!
//! The table is a vector of entries and not a hash map. vstd says what a
//! hash map does only for keys that obey its key model, and strings are
//! not known to: with names as keys nothing could be proved of a lookup.
//! A vector also gives the listing an order of its own.

use vstd::prelude::*;
use crate::text::same_text;

verus! {

/// The names of a list of games, in order.
pub open spec fn game_names(games: Seq<(Seq<char>, i32)>) -> Seq<Seq<char>> {
    games.map_values(|g: (Seq<char>, i32)| g.0)
}

/// Where the game called `name` stands in `games`: its first place, if it
/// has one.
pub open spec fn game_position(games: Seq<(Seq<char>, i32)>, name: Seq<char>) -> Option<int> {
    game_names(games).index_of_first(name)
}

/// The total of the game called `name`, if it is among `games`.
pub open spec fn game_total(games: Seq<(Seq<char>, i32)>, name: Seq<char>) -> Option<i32> {
    match game_position(games, name) {
        Some(i) => Some(games[i].1),
        None => None,
    }
}

/// `games` with the total of `name` set to `total`: in its place where the
/// game is present, at the end where it is new.
pub open spec fn with_game(games: Seq<(Seq<char>, i32)>, name: Seq<char>, total: i32) -> Seq<
    (Seq<char>, i32),
> {
    match game_position(games, name) {
        Some(i) => games.update(i, (name, total)),
        None => games.push((name, total)),
    }
}

/// `games` without the game called `name`.
pub open spec fn without_game(games: Seq<(Seq<char>, i32)>, name: Seq<char>) -> Seq<
    (Seq<char>, i32),
> {
    match game_position(games, name) {
        Some(i) => games.remove(i),
        None => games,
    }
}

/// The sum of the totals of `games`.
pub open spec fn total_sum(games: Seq<(Seq<char>, i32)>) -> int
    decreases games.len(),
{
    if games.len() == 0 {
        0
    } else {
        total_sum(games.drop_last()) + games.last().1
    }
}

/// What `game_position` finds: the first place that holds the name, and
/// nothing exactly when no place holds it.
pub proof fn lemma_game_position(games: Seq<(Seq<char>, i32)>, name: Seq<char>)
    ensures
        match game_position(games, name) {
            Some(i) => {
                &&& 0 <= i < games.len()
                &&& games[i].0 == name
                &&& forall|j: int| 0 <= j < i ==> (#[trigger] games[j]).0 != name
            },
            None => forall|j: int| 0 <= j < games.len() ==> (#[trigger] games[j]).0 != name,
        },
{
    let names = game_names(games);
    names.index_of_first_ensures(name);
    match names.index_of_first(name) {
        Some(i) => {
            assert forall|j: int| 0 <= j < i implies (#[trigger] games[j]).0 != name by {
                assert(names[j] == games[j].0);
            }
        },
        None => {
            assert forall|j: int| 0 <= j < games.len() implies (#[trigger] games[j]).0 != name by {
                assert(names[j] == games[j].0);
            }
        },
    }
}

/// The place that holds the name with no earlier place holding it is the
/// one `game_position` finds.
pub proof fn lemma_game_position_is(games: Seq<(Seq<char>, i32)>, name: Seq<char>, i: int)
    requires
        0 <= i < games.len(),
        games[i].0 == name,
        forall|j: int| 0 <= j < i ==> (#[trigger] games[j]).0 != name,
    ensures
        game_position(games, name) == Some(i),
{
    lemma_game_position(games, name);
}

/// Where no place holds the name, `game_position` finds nothing.
pub proof fn lemma_game_position_none(games: Seq<(Seq<char>, i32)>, name: Seq<char>)
    requires
        forall|j: int| 0 <= j < games.len() ==> (#[trigger] games[j]).0 != name,
    ensures
        game_position(games, name) is None,
{
    lemma_game_position(games, name);
}

/// One game as the table holds it.
#[derive(Debug)]
struct GameEntry {
    name: String,
    total: i32,
}

/// The games of one user.
#[derive(Debug)]
pub struct Games {
    entries: Vec<GameEntry>,
}

impl View for Games {
    type V = Seq<(Seq<char>, i32)>;

    /// The games with their totals, in the order in which they are listed.
    closed spec fn view(&self) -> Seq<(Seq<char>, i32)> {
        entries_view(self.entries@)
    }
}

/// The names and totals that a run of entries stands for.
spec fn entries_view(entries: Seq<GameEntry>) -> Seq<(Seq<char>, i32)> {
    entries.map_values(|e: GameEntry| (e.name@, e.total))
}

impl Games {
    /// The table's invariant: no two games share a name.
    #[verifier::type_invariant]
    pub open spec fn names_distinct(&self) -> bool {
        game_names(self@).no_duplicates()
    }

    /// A table without games.
    pub fn new() -> (games: Games)
        ensures
            games@ == Seq::<(Seq<char>, i32)>::empty(),
    {
        let games = Games { entries: Vec::new() };
        games
    }

    /// The number of games.
    pub fn len(&self) -> (n: usize)
        ensures
            n == self@.len(),
    {
        self.entries.len()
    }

    /// Whether the table holds no game.
    pub fn is_empty(&self) -> (r: bool)
        ensures
            r == (self@.len() == 0),
    {
        self.entries.len() == 0
    }

    /// The name of the game at place `i`.
    pub fn name_at(&self, i: usize) -> (name: &str)
        requires
            i < self@.len(),
        ensures
            name@ == self@[i as int].0,
    {
        self.entries[i].name.as_str()
    }

    /// The total of the game at place `i`.
    pub fn total_at(&self, i: usize) -> (total: i32)
        requires
            i < self@.len(),
        ensures
            total == self@[i as int].1,
    {
        self.entries[i].total
    }

    /// The place of the game called `name`.
    fn find(&self, name: &str) -> (r: Option<usize>)
        ensures
            match r {
                Some(i) => i < self@.len() && game_position(self@, name@) == Some(i as int),
                None => game_position(self@, name@) is None,
            },
    {
        let mut i: usize = 0;
        while i < self.entries.len()
            invariant
                i <= self.entries.len(),
                forall|j: int| 0 <= j < i ==> (#[trigger] self@[j]).0 != name@,
            decreases self.entries.len() - i,
        {
            if same_text(self.entries[i].name.as_str(), name) {
                proof {
                    lemma_game_position_is(self@, name@, i as int);
                }
                return Some(i);
            }
            i += 1;
        }
        proof {
            lemma_game_position_none(self@, name@);
        }
        None
    }

    /// Whether a game called `name` is in the table.
    pub fn contains_key(&self, name: &str) -> (r: bool)
        ensures
            r == game_total(self@, name@).is_some(),
    {
        self.find(name).is_some()
    }

    /// The total of the game called `name`.
    pub fn get(&self, name: &str) -> (r: Option<i32>)
        ensures
            r == game_total(self@, name@),
    {
        match self.find(name) {
            Some(i) => Some(self.entries[i].total),
            None => None,
        }
    }

    /// Sets the total of the game called `name`, adding the game where the
    /// table does not hold it yet, and returns the total it had before.
    pub fn insert(&mut self, name: String, total: i32) -> (before: Option<i32>)
        ensures
            final(self)@ == with_game(old(self)@, name@, total),
            before == game_total(old(self)@, name@),
    {
        proof {
            use_type_invariant(&*self);
            lemma_game_position(self@, name@);
        }
        let ghost games = self@;
        let found = self.find(name.as_str());
        let mut entries: Vec<GameEntry> = Vec::new();
        core::mem::swap(&mut self.entries, &mut entries);
        let before = match found {
            Some(i) => {
                let before = entries[i].total;
                entries.set(i, GameEntry { name, total });
                proof {
                    assert(game_names(entries_view(entries@)) =~= game_names(games));
                }
                Some(before)
            },
            None => {
                entries.push(GameEntry { name, total });
                proof {
                    assert(entries_view(entries@) =~= games.push((name@, total)));
                    lemma_names_distinct_push(games, name@, total);
                }
                None
            },
        };
        core::mem::swap(&mut self.entries, &mut entries);
        before
    }

    /// The sum of the totals of all games, where it is a 32-bit signed
    /// integer.
    pub fn sum(&self) -> (r: Option<i32>)
        ensures
            r == (if i32::MIN <= total_sum(self@) <= i32::MAX {
                Some(total_sum(self@) as i32)
            } else {
                None
            }),
    {
        let mut acc: i128 = 0;
        let mut i: usize = 0;
        while i < self.entries.len()
            invariant
                i <= self.entries.len(),
                acc == total_sum(self@.take(i as int)),
                -2147483648 * i <= acc <= 2147483648 * i,
            decreases self.entries.len() - i,
        {
            proof {
                assert(self@.take(i + 1).drop_last() =~= self@.take(i as int));
            }
            acc = acc + self.entries[i].total as i128;
            i += 1;
        }
        assert(self@.take(i as int) =~= self@);
        if -2147483648 <= acc && acc <= 2147483647 {
            Some(acc as i32)
        } else {
            None
        }
    }

    /// Takes the game called `name` out of the table and returns the total
    /// it had.
    pub fn remove(&mut self, name: &str) -> (before: Option<i32>)
        ensures
            final(self)@ == without_game(old(self)@, name@),
            before == game_total(old(self)@, name@),
            game_total(final(self)@, name@) is None,
    {
        proof {
            use_type_invariant(&*self);
            lemma_game_position(self@, name@);
        }
        let ghost games = self@;
        match self.find(name) {
            Some(i) => {
                let mut entries: Vec<GameEntry> = Vec::new();
                core::mem::swap(&mut self.entries, &mut entries);
                let entry = entries.remove(i);
                proof {
                    assert(entries_view(entries@) =~= games.remove(i as int));
                    lemma_names_distinct_remove(games, i as int);
                }
                core::mem::swap(&mut self.entries, &mut entries);
                Some(entry.total)
            },
            None => None,
        }
    }
}

impl Clone for Games {
    fn clone(&self) -> (copy: Self)
        ensures
            copy@ == self@,
    {
        proof {
            use_type_invariant(self);
        }
        let mut entries: Vec<GameEntry> = Vec::new();
        let mut i: usize = 0;
        while i < self.entries.len()
            invariant
                i <= self.entries.len(),
                entries_view(entries@) == self@.take(i as int),
            decreases self.entries.len() - i,
        {
            let entry = GameEntry {
                name: self.entries[i].name.clone(),
                total: self.entries[i].total,
            };
            entries.push(entry);
            assert(self@.take(i + 1) =~= self@.take(i as int).push(self@[i as int]));
            i += 1;
        }
        assert(self@.take(i as int) =~= self@);
        Games { entries }
    }
}

/// A list of games with distinct names keeps them distinct when a game
/// with a new name joins it.
pub proof fn lemma_names_distinct_push(games: Seq<(Seq<char>, i32)>, name: Seq<char>, total: i32)
    requires
        game_names(games).no_duplicates(),
        game_position(games, name) is None,
    ensures
        game_names(games.push((name, total))).no_duplicates(),
{
    lemma_game_position(games, name);
    let after = game_names(games.push((name, total)));
    assert forall|i: int, j: int|
        0 <= i < after.len() && 0 <= j < after.len() && i != j implies after[i] != after[j] by {
        if i < games.len() {
            assert(after[i] == game_names(games)[i]);
        }
        if j < games.len() {
            assert(after[j] == game_names(games)[j]);
        }
    }
}

/// A list of games with distinct names keeps them distinct when a game
/// leaves it, and no longer holds the name that left.
pub proof fn lemma_names_distinct_remove(games: Seq<(Seq<char>, i32)>, i: int)
    requires
        game_names(games).no_duplicates(),
        0 <= i < games.len(),
    ensures
        game_names(games.remove(i)).no_duplicates(),
        game_position(games.remove(i), games[i].0) is None,
{
    let before = game_names(games);
    let after = game_names(games.remove(i));
    assert forall|a: int, b: int|
        0 <= a < after.len() && 0 <= b < after.len() && a != b implies after[a] != after[b] by {
        let a0 = if a < i { a } else { a + 1 };
        let b0 = if b < i { b } else { b + 1 };
        assert(after[a] == before[a0]);
        assert(after[b] == before[b0]);
    }
    assert forall|a: int| 0 <= a < after.len() implies (#[trigger] games.remove(i)[a]).0
        != games[i].0 by {
        let a0 = if a < i { a } else { a + 1 };
        assert(before[a0] == games[a0].0);
        assert(before[i] == games[i].0);
    }
    lemma_game_position_none(games.remove(i), games[i].0);
}

/// Setting a total keeps the names of a list of games distinct.
pub proof fn lemma_with_game_distinct(games: Seq<(Seq<char>, i32)>, name: Seq<char>, total: i32)
    requires
        game_names(games).no_duplicates(),
    ensures
        game_names(with_game(games, name, total)).no_duplicates(),
{
    lemma_game_position(games, name);
    match game_position(games, name) {
        Some(i) => {
            assert(game_names(games.update(i, (name, total))) =~= game_names(games));
        },
        None => {
            lemma_names_distinct_push(games, name, total);
        },
    }
}

/// Taking a game out keeps the names of a list of games distinct.
pub proof fn lemma_without_game_distinct(games: Seq<(Seq<char>, i32)>, name: Seq<char>)
    requires
        game_names(games).no_duplicates(),
    ensures
        game_names(without_game(games, name)).no_duplicates(),
{
    lemma_game_position(games, name);
    match game_position(games, name) {
        Some(i) => {
            lemma_names_distinct_remove(games, i);
        },
        None => {},
    }
}

/// A list of games answers like a table: after a total has been set, the
/// game has that total, and every other game has the total it had.
pub proof fn lemma_total_after_set(
    games: Seq<(Seq<char>, i32)>,
    name: Seq<char>,
    total: i32,
    other: Seq<char>,
)
    ensures
        game_total(with_game(games, name, total), other) == if other == name {
            Some(total)
        } else {
            game_total(games, other)
        },
{
    let after = with_game(games, name, total);
    lemma_game_position(games, name);
    lemma_game_position(games, other);
    match game_position(games, name) {
        Some(i) => {
            assert(game_names(after) =~= game_names(games));
        },
        None => {
            match game_position(games, other) {
                Some(j) => {
                    lemma_game_position_is(after, other, j);
                },
                None => {
                    if other == name {
                        lemma_game_position_is(after, other, games.len() as int);
                    } else {
                        lemma_game_position_none(after, other);
                    }
                },
            }
        },
    }
}

/// A list of games with distinct names answers like a table: after a game
/// has been taken out, it is gone, and every other game has the total it
/// had.
pub proof fn lemma_total_after_removal(
    games: Seq<(Seq<char>, i32)>,
    name: Seq<char>,
    other: Seq<char>,
)
    requires
        game_names(games).no_duplicates(),
    ensures
        game_total(without_game(games, name), other) == if other == name {
            None
        } else {
            game_total(games, other)
        },
{
    let after = without_game(games, name);
    lemma_game_position(games, name);
    lemma_game_position(games, other);
    match game_position(games, name) {
        Some(i) => {
            if other == name {
                lemma_names_distinct_remove(games, i);
            } else {
                match game_position(games, other) {
                    Some(j) => {
                        lemma_game_position_is(after, other, if j < i { j } else { j - 1 });
                    },
                    None => {
                        lemma_game_position_none(after, other);
                    },
                }
            }
        },
        None => {},
    }
}

} // verus!
