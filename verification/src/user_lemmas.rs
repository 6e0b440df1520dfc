//! What holds of the ledger's operations: they keep the ledger well
//! formed, they read back what they wrote, and they leave alone what they
//! were not asked to touch.

use vstd::prelude::*;
use crate::games::{
    game_names, lemma_game_position, lemma_game_position_is, lemma_names_distinct_push,
    lemma_total_after_removal, lemma_total_after_set, lemma_with_game_distinct,
    lemma_without_game_distinct, with_game, without_game,
};
use crate::number::parsed_total;
use crate::user::{
    added_game, added_user, deleted_user, games_of, has_one_game, lemma_user_position,
    lemma_user_position_is,
    lemma_user_position_none, not_called, removed_game, total_of, updated_total,
    user_names, user_position, well_formed, StoreError, UserModel, ALERT_THRESHOLD,
};

verus! {

/// Dropping the users called `name` gives the same ledger whether or not
/// one of them was changed in anything but its name before.
pub proof fn lemma_filter_update(users: Seq<UserModel>, i: int, changed: UserModel, name: Seq<char>)
    requires
        0 <= i < users.len(),
        users[i].name == name,
        changed.name == name,
    ensures
        users.update(i, changed).filter(not_called(name)) == users.filter(not_called(name)),
    decreases users.len(),
{
    reveal(Seq::filter);
    let keep = not_called(name);
    let after = users.update(i, changed);
    if i == users.len() - 1 {
        assert(after.drop_last() =~= users.drop_last());
    } else {
        assert(after.drop_last() =~= users.drop_last().update(i, changed));
        lemma_filter_update(users.drop_last(), i, changed, name);
    }
}

/// The users that stay when those called `name` are dropped are users of
/// the ledger, and none of them is called `name`.
pub proof fn lemma_kept_users(users: Seq<UserModel>, name: Seq<char>)
    ensures
        forall|k: int|
            0 <= k < users.filter(not_called(name)).len() ==> {
                &&& users.contains(#[trigger] users.filter(not_called(name))[k])
                &&& users.filter(not_called(name))[k].name != name
            },
        user_position(users.filter(not_called(name)), name) is None,
{
    let kept = users.filter(not_called(name));
    assert forall|k: int| 0 <= k < kept.len() implies users.contains(#[trigger] kept[k])
        && kept[k].name != name by {
        users.lemma_filter_pred(not_called(name), k);
        assert(kept.contains(kept[k]));
        users.lemma_filter_contains_rev(not_called(name), kept[k]);
    }
    lemma_user_position_none(kept, name);
}

/// Users with distinct names have distinct names still when some of them
/// are dropped.
pub proof fn lemma_drop_keeps_names_distinct(users: Seq<UserModel>, name: Seq<char>)
    requires
        user_names(users).no_duplicates(),
    ensures
        user_names(users.filter(not_called(name))).no_duplicates(),
    decreases users.len(),
{
    reveal(Seq::filter);
    if users.len() > 0 {
        let init = users.drop_last();
        let init_kept = init.filter(not_called(name));
        let kept = users.filter(not_called(name));
        assert forall|a: int, b: int|
            0 <= a < init.len() && 0 <= b < init.len() && a != b implies user_names(init)[a]
            != user_names(init)[b] by {
            assert(user_names(init)[a] == user_names(users)[a]);
            assert(user_names(init)[b] == user_names(users)[b]);
        }
        lemma_drop_keeps_names_distinct(init, name);
        lemma_kept_users(init, name);
        assert forall|a: int, b: int|
            0 <= a < kept.len() && 0 <= b < kept.len() && a != b implies user_names(kept)[a]
            != user_names(kept)[b] by {
            if a < init_kept.len() && b < init_kept.len() {
                assert(user_names(kept)[a] == user_names(init_kept)[a]);
                assert(user_names(kept)[b] == user_names(init_kept)[b]);
            } else {
                // One of the two is the last user, the other one of those before it.
                let c = if a < init_kept.len() { a } else { b };
                assert(init.contains(init_kept[c]));
                let j = choose|j: int| 0 <= j < init.len() && init[j] == init_kept[c];
                assert(user_names(users)[j] == init_kept[c].name);
                assert(user_names(users)[users.len() - 1] == users.last().name);
            }
        }
    }
}

/// A ledger that is well formed stays so when users are dropped from it.
pub proof fn lemma_drop_keeps_well_formed(users: Seq<UserModel>, name: Seq<char>)
    requires
        well_formed(users),
    ensures
        well_formed(users.filter(not_called(name))),
{
    let kept = users.filter(not_called(name));
    lemma_drop_keeps_names_distinct(users, name);
    lemma_kept_users(users, name);
    assert forall|a: int| 0 <= a < kept.len() implies (#[trigger] kept[a]).games.len() > 0
        && game_names(kept[a].games).no_duplicates() by {
        assert(users.contains(kept[a]));
        let j = choose|j: int| 0 <= j < users.len() && users[j] == kept[a];
        assert(users[j].games.len() > 0);
    }
}

/// The ledger without users is well formed.
pub proof fn lemma_empty_is_well_formed()
    ensures
        well_formed(Seq::<UserModel>::empty()),
{
}

/// A ledger that is well formed stays so when one of its users gets
/// other games, as long as these are some and their names distinct.
pub proof fn lemma_new_games_keep_well_formed(
    users: Seq<UserModel>,
    i: int,
    games: Seq<(Seq<char>, i32)>,
)
    requires
        well_formed(users),
        0 <= i < users.len(),
        games.len() > 0,
        game_names(games).no_duplicates(),
    ensures
        well_formed(users.update(i, UserModel { name: users[i].name, games })),
{
    let after = users.update(i, UserModel { name: users[i].name, games });
    assert(user_names(after) =~= user_names(users));
    assert forall|a: int| 0 <= a < after.len() implies (#[trigger] after[a]).games.len() > 0
        && game_names(after[a].games).no_duplicates() by {
        if a != i {
            assert(after[a] == users[a]);
        }
    }
}

/// Every operation that changes the ledger keeps it well formed: user
/// names stay unique, game names stay unique within each user, and no
/// user is left without a game.
pub proof fn lemma_operations_keep_well_formed(
    users: Seq<UserModel>,
    name: Seq<char>,
    game: Seq<char>,
    text: Seq<char>,
)
    requires
        well_formed(users),
    ensures
        added_user(users, name, game, text) matches Ok(after) ==> well_formed(after),
        added_game(users, name, game, text) matches Ok(after) ==> well_formed(after),
        updated_total(users, name, game, text) matches Ok((after, _, _)) ==> well_formed(after),
        removed_game(users, name, game) matches Ok(after) ==> well_formed(after),
        deleted_user(users, name) matches Ok(after) ==> well_formed(after),
{
    lemma_user_position(users, name);
    lemma_drop_keeps_well_formed(users, name);
    if let Ok(after) = added_user(users, name, game, text) {
        assert forall|a: int, b: int|
            0 <= a < after.len() && 0 <= b < after.len() && a != b implies user_names(after)[a]
            != user_names(after)[b] by {
            if a < users.len() {
                assert(user_names(users)[a] == users[a].name);
            }
            if b < users.len() {
                assert(user_names(users)[b] == users[b].name);
            }
        }
        assert forall|a: int| 0 <= a < after.len() implies (#[trigger] after[a]).games.len() > 0
            && game_names(after[a].games).no_duplicates() by {
            if a < users.len() {
                assert(after[a] == users[a]);
            }
        }
    }
    if let Some(i) = user_position(users, name) {
        let games = users[i].games;
        lemma_game_position(games, game);
        if let Ok(after) = added_game(users, name, game, text) {
            let total = parsed_total(text).unwrap();
            lemma_names_distinct_push(games, game, total);
            lemma_new_games_keep_well_formed(users, i, games.push((game, total)));
        }
        if let Ok((after, total, _)) = updated_total(users, name, game, text) {
            lemma_with_game_distinct(games, game, total);
            lemma_new_games_keep_well_formed(users, i, with_game(games, game, total));
        }
        if let Ok(after) = removed_game(users, name, game) {
            let rest = without_game(games, game);
            if rest.len() > 0 {
                lemma_without_game_distinct(games, game);
                lemma_new_games_keep_well_formed(users, i, rest);
            }
        }
    }
}

/// A user that has joined with a first game has, for that game, the
/// total that the text denotes.
pub proof fn lemma_added_user_has_total(
    users: Seq<UserModel>,
    name: Seq<char>,
    game: Seq<char>,
    text: Seq<char>,
)
    ensures
        added_user(users, name, game, text) matches Ok(after) ==> parsed_total(text) matches Some(
            total,
        ) && total_of(after, name, game) == Ok::<i32, StoreError>(total),
{
    if let Ok(after) = added_user(users, name, game, text) {
        let total = parsed_total(text).unwrap();
        lemma_user_position(users, name);
        assert forall|j: int| 0 <= j < users.len() implies (#[trigger] after[j]).name != name by {
            assert(after[j] == users[j]);
        }
        lemma_user_position_is(after, name, users.len() as int);
        lemma_game_position_is(seq![(game, total)], game, 0);
    }
}

/// A game that a user has taken up has the total that the text denotes.
pub proof fn lemma_added_game_has_total(
    users: Seq<UserModel>,
    name: Seq<char>,
    game: Seq<char>,
    text: Seq<char>,
)
    ensures
        added_game(users, name, game, text) matches Ok(after) ==> parsed_total(text) matches Some(
            total,
        ) && total_of(after, name, game) == Ok::<i32, StoreError>(total),
{
    if let Ok(after) = added_game(users, name, game, text) {
        let total = parsed_total(text).unwrap();
        lemma_user_position(users, name);
        let i = user_position(users, name).unwrap();
        assert(user_names(after) =~= user_names(users));
        lemma_total_after_set(users[i].games, game, total, game);
    }
}

/// A name that is taken is refused, and so is a game that the user has
/// already, whatever total the text denotes.
pub proof fn lemma_present_is_refused(
    users: Seq<UserModel>,
    name: Seq<char>,
    game: Seq<char>,
    text: Seq<char>,
)
    requires
        parsed_total(text) is Some,
    ensures
        user_names(users).contains(name) ==> added_user(users, name, game, text) == Err::<
            Seq<UserModel>,
            StoreError,
        >(StoreError::AlreadyExists),
        total_of(users, name, game) is Ok ==> added_game(users, name, game, text) == Err::<
            Seq<UserModel>,
            StoreError,
        >(StoreError::GameAlreadyExists),
{
    user_names(users).index_of_first_ensures(name);
}

/// A name is taken once: after a user has joined, no user can join under
/// the same name, whatever the game and whatever total the text denotes.
pub proof fn lemma_user_joins_once(
    users: Seq<UserModel>,
    name: Seq<char>,
    game: Seq<char>,
    text: Seq<char>,
    next_game: Seq<char>,
    next_text: Seq<char>,
)
    requires
        parsed_total(next_text) is Some,
    ensures
        added_user(users, name, game, text) matches Ok(after) ==> added_user(
            after,
            name,
            next_game,
            next_text,
        ) == Err::<Seq<UserModel>, StoreError>(StoreError::AlreadyExists),
{
    lemma_added_user_has_total(users, name, game, text);
}

/// A game is taken up once: after a user has taken up a game, it cannot
/// take up the same game again, whatever total the text denotes.
pub proof fn lemma_game_joins_once(
    users: Seq<UserModel>,
    name: Seq<char>,
    game: Seq<char>,
    text: Seq<char>,
    next_text: Seq<char>,
)
    requires
        parsed_total(next_text) is Some,
    ensures
        added_game(users, name, game, text) matches Ok(after) ==> added_game(
            after,
            name,
            game,
            next_text,
        ) == Err::<Seq<UserModel>, StoreError>(StoreError::GameAlreadyExists),
{
    lemma_added_game_has_total(users, name, game, text);
}

/// The total that an update arrives at is the sum of the total before
/// and the amount, as integers add up: no update gives a total that
/// wrapped around.
pub proof fn lemma_updated_total_is_the_sum(
    users: Seq<UserModel>,
    name: Seq<char>,
    game: Seq<char>,
    text: Seq<char>,
)
    ensures
        updated_total(users, name, game, text) matches Ok((_, total, _)) ==> {
            &&& total_of(users, name, game) matches Ok(before)
            &&& parsed_total(text) matches Some(amount)
            &&& total == before + amount
        },
        updated_total(users, name, game, text) == Err::<
            (Seq<UserModel>, i32, bool),
            StoreError,
        >(StoreError::TotalOutOfRange) <==> {
            &&& total_of(users, name, game) matches Ok(before)
            &&& parsed_total(text) matches Some(amount)
            &&& !(i32::MIN <= before + amount <= i32::MAX)
        },
{
}

/// An update reads back: afterwards the user has, for the game, the total
/// that the update arrived at.
pub proof fn lemma_updated_total_reads_back(
    users: Seq<UserModel>,
    name: Seq<char>,
    game: Seq<char>,
    text: Seq<char>,
)
    ensures
        updated_total(users, name, game, text) matches Ok((after, total, _)) ==> total_of(
            after,
            name,
            game,
        ) == Ok::<i32, StoreError>(total),
{
    if let Ok((after, total, _)) = updated_total(users, name, game, text) {
        lemma_user_position(users, name);
        let i = user_position(users, name).unwrap();
        assert(user_names(after) =~= user_names(users));
        lemma_total_after_set(users[i].games, game, total, game);
    }
}

/// The alert is raised once: an update that follows one which arrived at
/// the threshold or beyond does not cross it.
pub proof fn lemma_alert_not_repeated(
    users: Seq<UserModel>,
    name: Seq<char>,
    game: Seq<char>,
    text: Seq<char>,
    next_text: Seq<char>,
)
    ensures
        updated_total(users, name, game, text) matches Ok((after, total, _)) ==> (total
            >= ALERT_THRESHOLD ==> (updated_total(after, name, game, next_text) matches Ok(
            (_, _, crossed),
        ) ==> !crossed)),
{
    lemma_updated_total_reads_back(users, name, game, text);
}

/// A user that gives up its only game leaves the ledger.
pub proof fn lemma_last_game_takes_user_along(
    users: Seq<UserModel>,
    name: Seq<char>,
    game: Seq<char>,
)
    requires
        has_one_game(users, name),
    ensures
        removed_game(users, name, game) matches Ok(after) ==> user_position(after, name) is None,
{
    lemma_kept_users(users, name);
    lemma_user_position(users, name);
    let i = user_position(users, name).unwrap();
    lemma_game_position(users[i].games, game);
}

/// A user that gives up a game and has others stays in the ledger, with
/// one game less.
pub proof fn lemma_user_stays_with_other_games(
    users: Seq<UserModel>,
    name: Seq<char>,
    game: Seq<char>,
)
    requires
        !has_one_game(users, name),
    ensures
        removed_game(users, name, game) matches Ok(after) ==> {
            &&& games_of(users, name) matches Ok(before)
            &&& games_of(after, name) matches Ok(rest)
            &&& rest.len() == before.len() - 1
        },
{
    if let Ok(after) = removed_game(users, name, game) {
        lemma_user_position(users, name);
        let i = user_position(users, name).unwrap();
        lemma_game_position(users[i].games, game);
        assert(user_names(after) =~= user_names(users));
    }
}

/// In a well-formed ledger a game that was given up is gone: the user no
/// longer has a total for it, if the user is still there at all.
pub proof fn lemma_removed_game_is_gone(users: Seq<UserModel>, name: Seq<char>, game: Seq<char>)
    requires
        well_formed(users),
    ensures
        removed_game(users, name, game) matches Ok(after) ==> total_of(after, name, game) is Err,
{
    if let Ok(after) = removed_game(users, name, game) {
        lemma_user_position(users, name);
        let i = user_position(users, name).unwrap();
        let rest = without_game(users[i].games, game);
        if rest.len() == 0 {
            lemma_kept_users(users, name);
        } else {
            assert(user_names(after) =~= user_names(users));
            lemma_total_after_removal(users[i].games, game, game);
        }
    }
}

/// Asking for a total says what is missing: the user, exactly when no
/// user has the name; the game, exactly when a user has the name and the
/// first such user keeps no game of that name.
pub proof fn lemma_total_of_says_what_is_missing(
    users: Seq<UserModel>,
    name: Seq<char>,
    game: Seq<char>,
)
    ensures
        total_of(users, name, game) == Err::<i32, StoreError>(StoreError::UserNotFound)
            <==> !user_names(users).contains(name),
        total_of(users, name, game) == Err::<i32, StoreError>(StoreError::GameNotFound) <==> (
        games_of(users, name) matches Ok(games) && !game_names(games).contains(game)),
        total_of(users, name, game) is Ok <==> (games_of(users, name) matches Ok(games)
            && game_names(games).contains(game)),
{
    user_names(users).index_of_first_ensures(name);
    if let Ok(games) = games_of(users, name) {
        game_names(games).index_of_first_ensures(game);
    }
}

/// Dropping the users called `name` leaves every user of another name
/// with the games it had.
pub proof fn lemma_drop_leaves_others(users: Seq<UserModel>, name: Seq<char>, other: Seq<char>)
    requires
        other != name,
    ensures
        games_of(users.filter(not_called(name)), other) == games_of(users, other),
    decreases users.len(),
{
    reveal(Seq::filter);
    let keep = not_called(name);
    let kept = users.filter(keep);
    if users.len() > 0 {
        let init = users.drop_last();
        let init_kept = init.filter(keep);
        lemma_drop_leaves_others(init, name, other);
        lemma_user_position(init, other);
        lemma_user_position(init_kept, other);
        match user_position(init, other) {
            Some(j) => {
                let k = user_position(init_kept, other).unwrap();
                assert(users[j] == init[j]);
                assert forall|a: int| 0 <= a < j implies (#[trigger] users[a]).name != other by {
                    assert(users[a] == init[a]);
                }
                lemma_user_position_is(users, other, j);
                assert(kept[k] == init_kept[k]);
                assert forall|a: int| 0 <= a < k implies (#[trigger] kept[a]).name != other by {
                    assert(kept[a] == init_kept[a]);
                }
                lemma_user_position_is(kept, other, k);
            },
            None => {
                assert forall|a: int| 0 <= a < init.len() implies (#[trigger] users[a]).name
                    != other by {
                    assert(users[a] == init[a]);
                }
                assert forall|a: int| 0 <= a < init_kept.len() implies (#[trigger] kept[a]).name
                    != other by {
                    assert(kept[a] == init_kept[a]);
                }
                if users.last().name == other {
                    lemma_user_position_is(users, other, users.len() - 1);
                    lemma_user_position_is(kept, other, init_kept.len() as int);
                } else {
                    assert(users[users.len() - 1] == users.last());
                    lemma_user_position_none(users, other);
                    assert forall|a: int| 0 <= a < kept.len() implies (#[trigger] kept[a]).name
                        != other by {
                        if a >= init_kept.len() {
                            assert(kept[a] == users.last());
                        }
                    }
                    lemma_user_position_none(kept, other);
                }
            },
        }
    }
}

/// An operation on one user leaves every user of another name with the
/// games it had.
pub proof fn lemma_operations_leave_others(
    users: Seq<UserModel>,
    name: Seq<char>,
    game: Seq<char>,
    text: Seq<char>,
    other: Seq<char>,
)
    requires
        other != name,
    ensures
        added_user(users, name, game, text) matches Ok(after) ==> games_of(after, other)
            == games_of(users, other),
        added_game(users, name, game, text) matches Ok(after) ==> games_of(after, other)
            == games_of(users, other),
        updated_total(users, name, game, text) matches Ok((after, _, _)) ==> games_of(after, other)
            == games_of(users, other),
        removed_game(users, name, game) matches Ok(after) ==> games_of(after, other) == games_of(
            users,
            other,
        ),
        deleted_user(users, name) matches Ok(after) ==> games_of(after, other) == games_of(
            users,
            other,
        ),
{
    lemma_user_position(users, name);
    lemma_user_position(users, other);
    lemma_drop_leaves_others(users, name, other);
    if let Ok(after) = added_user(users, name, game, text) {
        match user_position(users, other) {
            Some(j) => {
                assert(after[j] == users[j]);
                assert forall|a: int| 0 <= a < j implies (#[trigger] after[a]).name != other by {
                    assert(after[a] == users[a]);
                }
                lemma_user_position_is(after, other, j);
            },
            None => {
                assert forall|a: int| 0 <= a < after.len() implies (#[trigger] after[a]).name
                    != other by {
                    if a < users.len() {
                        assert(after[a] == users[a]);
                    }
                }
                lemma_user_position_none(after, other);
            },
        }
    }
    if let Some(i) = user_position(users, name) {
        if let Ok(after) = added_game(users, name, game, text) {
            assert(user_names(after) =~= user_names(users));
        }
        if let Ok((after, _, _)) = updated_total(users, name, game, text) {
            assert(user_names(after) =~= user_names(users));
        }
        if let Ok(after) = removed_game(users, name, game) {
            if without_game(users[i].games, game).len() > 0 {
                assert(user_names(after) =~= user_names(users));
            }
        }
    }
}

/// An update of one game leaves the user's other games with the totals
/// they had.
pub proof fn lemma_update_leaves_other_games(
    users: Seq<UserModel>,
    name: Seq<char>,
    game: Seq<char>,
    text: Seq<char>,
    other: Seq<char>,
)
    requires
        other != game,
    ensures
        updated_total(users, name, game, text) matches Ok((after, _, _)) ==> total_of(
            after,
            name,
            other,
        ) == total_of(users, name, other),
{
    if let Ok((after, total, _)) = updated_total(users, name, game, text) {
        lemma_user_position(users, name);
        let i = user_position(users, name).unwrap();
        assert(user_names(after) =~= user_names(users));
        lemma_total_after_set(users[i].games, game, total, other);
    }
}

/// A user that was taken out is gone.
pub proof fn lemma_deleted_user_is_gone(users: Seq<UserModel>, name: Seq<char>)
    ensures
        deleted_user(users, name) matches Ok(after) ==> user_position(after, name) is None,
{
    lemma_kept_users(users, name);
}

} // verus!
