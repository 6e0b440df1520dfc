//! The ledger: users in the order in which they joined, each with the games
//! it keeps a total for, and the operations that read and change it.

use vstd::prelude::*;
use crate::games::{
    game_names, game_position, game_total, lemma_game_position, total_sum, with_game,
    without_game, Games,
};
use crate::number::{parse_total, parsed_total};
use crate::text::same_text;
use crate::user_lemmas::{lemma_filter_update, lemma_operations_keep_well_formed};

verus! {

/// A candidate level for a first reminder; no operation reads it.
pub const TROLL_THRESHOLD: i32 = 200;

/// The total at which an update raises the alert.
pub const ALERT_THRESHOLD: i32 = 300;

/// A candidate level for a sharper reminder; no operation reads it.
pub const SUPER_TROLL_THRESHOLD: i32 = 500;

/// A user with the games it keeps a total for.
#[derive(Debug)]
pub struct User {
    pub user: String,
    pub games: Games,
}

/// What a user stands for: its name, and its games in listing order.
pub struct UserModel {
    pub name: Seq<char>,
    pub games: Seq<(Seq<char>, i32)>,
}

impl View for User {
    type V = UserModel;

    open spec fn view(&self) -> UserModel {
        UserModel { name: self.user@, games: self.games@ }
    }
}

impl Clone for User {
    fn clone(&self) -> (copy: Self)
        ensures
            copy@ == self@,
    {
        User { user: self.user.clone(), games: self.games.clone() }
    }
}

/// Why an operation on the ledger did not go through. A failed write of
/// the ledger is not among these: the operations write nothing, and what a
/// failed write leads to is said by `Outcome::conclude`.
#[derive(Clone, Copy, Debug, PartialEq, Eq, Structural)]
pub enum StoreError {
    /// The text given for a total or an amount is no 32-bit decimal integer.
    InvalidNumber,
    /// No user has the name.
    UserNotFound,
    /// The user keeps no total for the game.
    GameNotFound,
    /// A user with the name is there already.
    AlreadyExists,
    /// The user keeps a total for the game already.
    GameAlreadyExists,
    /// The total that was asked for is no 32-bit signed integer.
    TotalOutOfRange,
}

/// The users that a run of records stands for.
pub open spec fn ledger(users: Seq<User>) -> Seq<UserModel> {
    users.map_values(|u: User| u@)
}

/// The names of the users, in order.
pub open spec fn user_names(users: Seq<UserModel>) -> Seq<Seq<char>> {
    users.map_values(|u: UserModel| u.name)
}

/// Where the user called `name` stands: its first place, if it has one.
pub open spec fn user_position(users: Seq<UserModel>, name: Seq<char>) -> Option<int> {
    user_names(users).index_of_first(name)
}

/// The ledger's invariant: no two users share a name, and every user
/// keeps at least one game, no two of them under one name.
pub open spec fn well_formed(users: Seq<UserModel>) -> bool {
    &&& user_names(users).no_duplicates()
    &&& forall|i: int|
        0 <= i < users.len() ==> {
            &&& (#[trigger] users[i]).games.len() > 0
            &&& game_names(users[i].games).no_duplicates()
        }
}

/// What `user_position` finds: the first place that holds the name, and
/// nothing exactly when no place holds it.
pub proof fn lemma_user_position(users: Seq<UserModel>, name: Seq<char>)
    ensures
        match user_position(users, name) {
            Some(i) => {
                &&& 0 <= i < users.len()
                &&& users[i].name == name
                &&& forall|j: int| 0 <= j < i ==> (#[trigger] users[j]).name != name
            },
            None => forall|j: int| 0 <= j < users.len() ==> (#[trigger] users[j]).name != name,
        },
{
    let names = user_names(users);
    names.index_of_first_ensures(name);
    match names.index_of_first(name) {
        Some(i) => {
            assert forall|j: int| 0 <= j < i implies (#[trigger] users[j]).name != name by {
                assert(names[j] == users[j].name);
            }
        },
        None => {
            assert forall|j: int| 0 <= j < users.len() implies (#[trigger] users[j]).name
                != name by {
                assert(names[j] == users[j].name);
            }
        },
    }
}

/// The place that holds the name with no earlier place holding it is the
/// one `user_position` finds.
pub proof fn lemma_user_position_is(users: Seq<UserModel>, name: Seq<char>, i: int)
    requires
        0 <= i < users.len(),
        users[i].name == name,
        forall|j: int| 0 <= j < i ==> (#[trigger] users[j]).name != name,
    ensures
        user_position(users, name) == Some(i),
{
    lemma_user_position(users, name);
}

/// Where no place holds the name, `user_position` finds nothing.
pub proof fn lemma_user_position_none(users: Seq<UserModel>, name: Seq<char>)
    requires
        forall|j: int| 0 <= j < users.len() ==> (#[trigger] users[j]).name != name,
    ensures
        user_position(users, name) is None,
{
    lemma_user_position(users, name);
}

/// Records of which one has other games than before stand for the ledger
/// in which that user has the other games.
proof fn lemma_one_user_changed(before: Seq<User>, after: Seq<User>, i: int)
    requires
        0 <= i < before.len(),
        after.len() == before.len(),
        after[i].user == before[i].user,
        forall|j: int| 0 <= j < before.len() && j != i ==> after[j] == before[j],
    ensures
        ledger(after) == ledger(before).update(
            i,
            UserModel { name: before[i].user@, games: after[i].games@ },
        ),
{
    assert(ledger(after) =~= ledger(before).update(
        i,
        UserModel { name: before[i].user@, games: after[i].games@ },
    ));
}

/// The place of the user called `name`.
fn find_user(users: &Vec<User>, name: &str) -> (r: Option<usize>)
    ensures
        match r {
            Some(i) => i < users@.len() && user_position(ledger(users@), name@) == Some(i as int),
            None => user_position(ledger(users@), name@) is None,
        },
{
    let mut i: usize = 0;
    while i < users.len()
        invariant
            i <= users.len(),
            forall|j: int| 0 <= j < i ==> (#[trigger] ledger(users@)[j]).name != name@,
        decreases users.len() - i,
    {
        if same_text(users[i].user.as_str(), name) {
            proof {
                lemma_user_position_is(ledger(users@), name@, i as int);
            }
            return Some(i);
        }
        i += 1;
    }
    proof {
        lemma_user_position_none(ledger(users@), name@);
    }
    None
}

/// The games of the user called `name`.
pub open spec fn games_of(users: Seq<UserModel>, name: Seq<char>) -> Result<
    Seq<(Seq<char>, i32)>,
    StoreError,
> {
    match user_position(users, name) {
        Some(i) => Ok(users[i].games),
        None => Err(StoreError::UserNotFound),
    }
}

/// Whether the user called `name` has one game and no more.
pub open spec fn has_one_game(users: Seq<UserModel>, name: Seq<char>) -> bool {
    games_of(users, name) matches Ok(games) && games.len() == 1
}

/// The total that the user called `name` has for `game`.
pub open spec fn total_of(users: Seq<UserModel>, name: Seq<char>, game: Seq<char>) -> Result<
    i32,
    StoreError,
> {
    match games_of(users, name) {
        Ok(games) => match game_total(games, game) {
            Some(total) => Ok(total),
            None => Err(StoreError::GameNotFound),
        },
        Err(e) => Err(e),
    }
}

/// The sum of the totals of all games of the user called `name`, where
/// it is a 32-bit signed integer.
pub open spec fn grand_total(users: Seq<UserModel>, name: Seq<char>) -> Result<i32, StoreError> {
    match games_of(users, name) {
        Ok(games) => if i32::MIN <= total_sum(games) <= i32::MAX {
            Ok(total_sum(games) as i32)
        } else {
            Err(StoreError::TotalOutOfRange)
        },
        Err(e) => Err(e),
    }
}

/// All users with their games: a copy of the ledger as it stands. It never
/// fails.
pub fn get_users(users: &Vec<User>) -> (r: Result<Vec<User>, StoreError>)
    ensures
        r matches Ok(copy) && ledger(copy@) == ledger(users@),
{
    let mut copy: Vec<User> = Vec::new();
    let mut i: usize = 0;
    while i < users.len()
        invariant
            i <= users.len(),
            ledger(copy@) == ledger(users@).take(i as int),
        decreases users.len() - i,
    {
        copy.push(users[i].clone());
        assert(ledger(users@).take(i + 1) =~= ledger(users@).take(i as int).push(
            users[i as int]@,
        ));
        i += 1;
    }
    Ok(copy)
}

/// The total that the user called `username` has for `game`.
pub fn get_game_total(users: &Vec<User>, username: &str, game: &str) -> (r: Result<i32, StoreError>)
    ensures
        r == total_of(ledger(users@), username@, game@),
{
    match find_user(users, username) {
        Some(i) => match users[i].games.get(game) {
            Some(total) => Ok(total),
            None => Err(StoreError::GameNotFound),
        },
        None => Err(StoreError::UserNotFound),
    }
}

/// The games of the user called `username`, each with its total.
pub fn get_user_games(users: &Vec<User>, username: &str) -> (r: Result<Games, StoreError>)
    ensures
        match games_of(ledger(users@), username@) {
            Ok(games) => r matches Ok(copy) && copy@ == games,
            Err(e) => r matches Err(f) && f == e,
        },
{
    match find_user(users, username) {
        Some(i) => Ok(users[i].games.clone()),
        None => Err(StoreError::UserNotFound),
    }
}

/// The sum of the totals of all games of the user called `username`.
pub fn get_user_total_all_games(users: &Vec<User>, username: &str) -> (r: Result<i32, StoreError>)
    ensures
        r == grand_total(ledger(users@), username@),
{
    match find_user(users, username) {
        Some(i) => match users[i].games.sum() {
            Some(total) => Ok(total),
            None => Err(StoreError::TotalOutOfRange),
        },
        None => Err(StoreError::UserNotFound),
    }
}

/// The ledger after a user called `name` has joined with a first game, or
/// why it cannot join.
pub open spec fn added_user(
    users: Seq<UserModel>,
    name: Seq<char>,
    game: Seq<char>,
    total_text: Seq<char>,
) -> Result<Seq<UserModel>, StoreError> {
    match parsed_total(total_text) {
        None => Err(StoreError::InvalidNumber),
        Some(total) => if user_position(users, name) is Some {
            Err(StoreError::AlreadyExists)
        } else {
            Ok(users.push(UserModel { name, games: seq![(game, total)] }))
        },
    }
}

/// The ledger after the user called `name` has taken up a further game, or
/// why it cannot.
pub open spec fn added_game(
    users: Seq<UserModel>,
    name: Seq<char>,
    game: Seq<char>,
    total_text: Seq<char>,
) -> Result<Seq<UserModel>, StoreError> {
    match parsed_total(total_text) {
        None => Err(StoreError::InvalidNumber),
        Some(total) => match user_position(users, name) {
            None => Err(StoreError::UserNotFound),
            Some(i) => if game_position(users[i].games, game) is Some {
                Err(StoreError::GameAlreadyExists)
            } else {
                Ok(users.update(i, UserModel { name, games: users[i].games.push((game, total)) }))
            },
        },
    }
}

/// Adds a user called `username` whose first game is `game`, with the
/// total that `starting_total` denotes.
pub fn add_user(users: &mut Vec<User>, username: &str, game: &str, starting_total: &str) -> (r:
    Result<(), StoreError>)
    ensures
        match added_user(ledger(old(users)@), username@, game@, starting_total@) {
            Ok(after) => r is Ok && ledger(final(users)@) == after,
            Err(e) => r == Err::<(), StoreError>(e) && final(users)@ == old(users)@,
        },
        well_formed(ledger(old(users)@)) ==> well_formed(ledger(final(users)@)),
{
    proof {
        if well_formed(ledger(users@)) {
            lemma_operations_keep_well_formed(ledger(users@), username@, game@, starting_total@);
        }
    }
    let total = match parse_total(starting_total) {
        Some(total) => total,
        None => {
            return Err(StoreError::InvalidNumber);
        },
    };
    if find_user(users, username).is_some() {
        return Err(StoreError::AlreadyExists);
    }
    let mut games = Games::new();
    games.insert(game.to_owned(), total);
    let ghost before = ledger(users@);
    users.push(User { user: username.to_owned(), games });
    proof {
        assert(game_position(Seq::<(Seq<char>, i32)>::empty(), game@) is None) by {
            lemma_game_position(Seq::<(Seq<char>, i32)>::empty(), game@);
        }
        assert(ledger(users@) =~= before.push(
            UserModel { name: username@, games: seq![(game@, total)] },
        ));
    }
    Ok(())
}

/// Gives the user called `username` a further game, `game`, with the total
/// that `starting_total` denotes.
pub fn add_game(users: &mut Vec<User>, username: &str, game: &str, starting_total: &str) -> (r:
    Result<(), StoreError>)
    ensures
        match added_game(ledger(old(users)@), username@, game@, starting_total@) {
            Ok(after) => r is Ok && ledger(final(users)@) == after,
            Err(e) => r == Err::<(), StoreError>(e) && final(users)@ == old(users)@,
        },
        well_formed(ledger(old(users)@)) ==> well_formed(ledger(final(users)@)),
{
    proof {
        if well_formed(ledger(users@)) {
            lemma_operations_keep_well_formed(ledger(users@), username@, game@, starting_total@);
        }
    }
    let total = match parse_total(starting_total) {
        Some(total) => total,
        None => {
            return Err(StoreError::InvalidNumber);
        },
    };
    match find_user(users, username) {
        Some(i) => {
            if users[i].games.contains_key(game) {
                return Err(StoreError::GameAlreadyExists);
            }
            let ghost before = users@;
            users[i].games.insert(game.to_owned(), total);
            proof {
                lemma_user_position(ledger(before), username@);
                lemma_one_user_changed(before, users@, i as int);
            }
            Ok(())
        },
        None => Err(StoreError::UserNotFound),
    }
}

/// Whether a change of a total from `before` to `after` carries it across
/// the alert threshold: from below it to it or beyond.
pub open spec fn crosses_threshold(before: int, after: int) -> bool {
    before < ALERT_THRESHOLD && after >= ALERT_THRESHOLD
}

/// The ledger after the amount that `amount_text` denotes has been added
/// to the total that the user called `name` has for `game`, with the new
/// total and whether the update crossed the alert threshold; or why there
/// is no update. A sum that is no 32-bit signed integer is no total.
pub open spec fn updated_total(
    users: Seq<UserModel>,
    name: Seq<char>,
    game: Seq<char>,
    amount_text: Seq<char>,
) -> Result<(Seq<UserModel>, i32, bool), StoreError> {
    match parsed_total(amount_text) {
        None => Err(StoreError::InvalidNumber),
        Some(amount) => match user_position(users, name) {
            None => Err(StoreError::UserNotFound),
            Some(i) => match game_total(users[i].games, game) {
                None => Err(StoreError::GameNotFound),
                Some(before) => if i32::MIN <= before + amount <= i32::MAX {
                    let after = (before + amount) as i32;
                    Ok(
                        (
                            users.update(
                                i,
                                UserModel { name, games: with_game(users[i].games, game, after) },
                            ),
                            after,
                            crosses_threshold(before as int, after as int),
                        ),
                    )
                } else {
                    Err(StoreError::TotalOutOfRange)
                },
            },
        },
    }
}

/// Adds the amount that `additional_total` denotes to the total that the
/// user called `username` has for `game`. Returns the new total, and
/// whether this update carried the total across the alert threshold.
pub fn update_total(
    users: &mut Vec<User>,
    username: &str,
    game: &str,
    additional_total: &str,
) -> (r: Result<(i32, bool), StoreError>)
    ensures
        match updated_total(ledger(old(users)@), username@, game@, additional_total@) {
            Ok((after, total, crossed)) => {
                &&& r == Ok::<(i32, bool), StoreError>((total, crossed))
                &&& ledger(final(users)@) == after
            },
            Err(e) => r == Err::<(i32, bool), StoreError>(e) && final(users)@ == old(users)@,
        },
        well_formed(ledger(old(users)@)) ==> well_formed(ledger(final(users)@)),
{
    proof {
        if well_formed(ledger(users@)) {
            lemma_operations_keep_well_formed(ledger(users@), username@, game@, additional_total@);
        }
    }
    let additional = match parse_total(additional_total) {
        Some(additional) => additional,
        None => {
            return Err(StoreError::InvalidNumber);
        },
    };
    match find_user(users, username) {
        Some(i) => match users[i].games.get(game) {
            Some(old_total) => {
                let sum = old_total as i64 + additional as i64;
                if sum < -2147483648 || sum > 2147483647 {
                    return Err(StoreError::TotalOutOfRange);
                }
                let new_total = sum as i32;
                let ghost before = users@;
                users[i].games.insert(game.to_owned(), new_total);
                proof {
                    lemma_user_position(ledger(before), username@);
                    lemma_one_user_changed(before, users@, i as int);
                }
                Ok((new_total, old_total < ALERT_THRESHOLD && new_total >= ALERT_THRESHOLD))
            },
            None => Err(StoreError::GameNotFound),
        },
        None => Err(StoreError::UserNotFound),
    }
}

/// The test that keeps the users not called `name`.
pub open spec fn not_called(name: Seq<char>) -> spec_fn(UserModel) -> bool {
    |u: UserModel| u.name != name
}

/// The ledger after the user called `name` has given up `game`, or why it
/// cannot. A user that gives up its last game leaves the ledger.
pub open spec fn removed_game(users: Seq<UserModel>, name: Seq<char>, game: Seq<char>) -> Result<
    Seq<UserModel>,
    StoreError,
> {
    match user_position(users, name) {
        None => Err(StoreError::UserNotFound),
        Some(i) => if game_position(users[i].games, game) is None {
            Err(StoreError::GameNotFound)
        } else {
            let rest = without_game(users[i].games, game);
            if rest.len() == 0 {
                Ok(users.filter(not_called(name)))
            } else {
                Ok(users.update(i, UserModel { name, games: rest }))
            }
        },
    }
}

/// The ledger after the user called `name` has left it with all its
/// games, or why it cannot.
pub open spec fn deleted_user(users: Seq<UserModel>, name: Seq<char>) -> Result<
    Seq<UserModel>,
    StoreError,
> {
    match user_position(users, name) {
        None => Err(StoreError::UserNotFound),
        Some(_) => Ok(users.filter(not_called(name))),
    }
}

/// Drops every user called `name`.
fn drop_user(users: &mut Vec<User>, name: &str)
    ensures
        ledger(final(users)@) == ledger(old(users)@).filter(not_called(name@)),
{
    let mut all: Vec<User> = Vec::new();
    core::mem::swap(users, &mut all);
    assert(Seq::<UserModel>::empty().filter(not_called(name@)) =~= Seq::empty()) by {
        reveal(Seq::filter);
    }
    let ghost whole = ledger(all@);
    for user in it: all
        invariant
            it.seq() == old(users)@,
            whole == ledger(old(users)@),
            ledger(users@) == whole.take(it.index()).filter(not_called(name@)),
    {
        proof {
            assert(whole.take(it.index() + 1) =~= whole.take(it.index()).push(user@));
            whole.take(it.index()).lemma_filter_push(user@, not_called(name@));
        }
        if !same_text(user.user.as_str(), name) {
            users.push(user);
        }
    }
    assert(whole.take(whole.len() as int) =~= whole);
}

/// Takes `game` away from the user called `username`. A user left without
/// a game leaves the ledger too.
pub fn remove_game(users: &mut Vec<User>, username: &str, game: &str) -> (r: Result<(), StoreError>)
    ensures
        match removed_game(ledger(old(users)@), username@, game@) {
            Ok(after) => r is Ok && ledger(final(users)@) == after,
            Err(e) => r == Err::<(), StoreError>(e) && final(users)@ == old(users)@,
        },
        well_formed(ledger(old(users)@)) ==> well_formed(ledger(final(users)@)),
{
    proof {
        if well_formed(ledger(users@)) {
            lemma_operations_keep_well_formed(ledger(users@), username@, game@, Seq::empty());
        }
    }
    match find_user(users, username) {
        Some(i) => {
            if !users[i].games.contains_key(game) {
                return Err(StoreError::GameNotFound);
            }
            let ghost before = users@;
            users[i].games.remove(game);
            proof {
                lemma_user_position(ledger(before), username@);
                lemma_one_user_changed(before, users@, i as int);
            }
            if users[i].games.is_empty() {
                let ghost changed = users@[i as int]@;
                drop_user(users, username);
                proof {
                    lemma_filter_update(ledger(before), i as int, changed, username@);
                }
            }
            Ok(())
        },
        None => Err(StoreError::UserNotFound),
    }
}

/// Takes the user called `username` out of the ledger with all its games.
pub fn delete_user(users: &mut Vec<User>, username: &str) -> (r: Result<(), StoreError>)
    ensures
        match deleted_user(ledger(old(users)@), username@) {
            Ok(after) => r is Ok && ledger(final(users)@) == after,
            Err(e) => r == Err::<(), StoreError>(e) && final(users)@ == old(users)@,
        },
        well_formed(ledger(old(users)@)) ==> well_formed(ledger(final(users)@)),
{
    proof {
        if well_formed(ledger(users@)) {
            lemma_operations_keep_well_formed(
                ledger(users@),
                username@,
                Seq::empty(),
                Seq::empty(),
            );
        }
    }
    match find_user(users, username) {
        Some(_) => {
            drop_user(users, username);
            Ok(())
        },
        None => Err(StoreError::UserNotFound),
    }
}

} // verus!
