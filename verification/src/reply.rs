//! The texts that the commands answer with, and the notes that they leave
//! in the log.

use vstd::prelude::*;
use crate::command::Command;
use crate::games::Games;
use crate::number::{decimal_text, render_total};
use crate::user::{ledger, StoreError, User, UserModel};

verus! {

/// The full command reference.
pub const HELP: &'static str = "\
    \n\
    \x20       **🎮 Game Tracker Bot Commands:**\n\
    \n\
    \x20       **User Management:**\n\
    \x20       • !adduser <user> \"<game>\" <total> - Create new user\n\
    \x20       • !deleteuser <user> - Delete user and all games\n\
    \n\
    \x20       **Game Management:**\n\
    \x20       • !addgame <user> \"<game>\" <total> - Add game to user\n\
    \x20       • !removegame <user> \"<game>\" - Remove game from user\n\
    \x20       • !updatetotal <user> \"<game>\" <amount> - Add to game total\n\
    \n\
    \x20       **Information:**\n\
    \x20       • !getusers - Show all users and games\n\
    \x20       • !usergames <user> - Show user's games\n\
    \x20       • !help - Show commands\n\
    \n\
    \x20       **Examples:**\n\
    \x20       !adduser Q \"Tekken 8\" 200\n\
    \x20       !updatetotal Q \"Tekken 8\" 50\n\
    \n\
    \x20       **Note:** Use quotes around game names with spaces!\n\
    \x20       ";

/// The one-line summary of the commands.
pub const QUICK_HELP: &'static str = "\
    **Quick Commands:** `!adduser`, `!addgame`, `!updatetotal`, `!getusers`, `!usergames`, \
    `!deleteuser`, `!removegame` | Use `!help` for details";

/// What a listing of all users says when there is none.
pub const NO_USERS: &'static str =
    "No users are currently added to the bot! Try the !adduser command.";

/// How a line with the command is to be written.
pub open spec fn usage(command: Command) -> Seq<char> {
    match command {
        Command::AddUser => "Usage: !adduser <username> \"<game name>\" <total>"@,
        Command::AddGame => "Usage: !addgame <username> \"<game name>\" <starting_total>"@,
        Command::UpdateTotal =>
            "Usage: !updatetotal <username> \"<game name>\" <additional_amount>"@,
        Command::RemoveGame => "Usage: !removegame <username> \"<game name>\""@,
        Command::DeleteUser => "Usage: !deleteuser <username>"@,
        Command::UserGames => "Usage: !usergames <username>"@,
        Command::GameTotal => "Usage: !gametotal <username> \"<game>\""@,
        Command::UserTotal => "Usage: !usertotal <username>"@,
        Command::Help => "Usage: !help"@,
        Command::QuickHelp => "Usage: !quickhelp"@,
        Command::GetUsers => "Usage: !getusers"@,
    }
}

/// Writes out how a line with the command is to be written.
pub fn usage_text(command: Command) -> (s: String)
    ensures
        s@ == usage(command),
{
    match command {
        Command::AddUser => String::from_str("Usage: !adduser <username> \"<game name>\" <total>"),
        Command::AddGame => String::from_str(
            "Usage: !addgame <username> \"<game name>\" <starting_total>",
        ),
        Command::UpdateTotal => String::from_str(
            "Usage: !updatetotal <username> \"<game name>\" <additional_amount>",
        ),
        Command::RemoveGame => String::from_str("Usage: !removegame <username> \"<game name>\""),
        Command::DeleteUser => String::from_str("Usage: !deleteuser <username>"),
        Command::UserGames => String::from_str("Usage: !usergames <username>"),
        Command::GameTotal => String::from_str("Usage: !gametotal <username> \"<game>\""),
        Command::UserTotal => String::from_str("Usage: !usertotal <username>"),
        Command::Help => String::from_str("Usage: !help"),
        Command::QuickHelp => String::from_str("Usage: !quickhelp"),
        Command::GetUsers => String::from_str("Usage: !getusers"),
    }
}

/// What is said of a failure: each command words it in its own way, with
/// the user and the game that it was asked about.
pub open spec fn failure_message(
    command: Command,
    error: StoreError,
    user: Seq<char>,
    game: Seq<char>,
) -> Seq<char> {
    match error {
        StoreError::InvalidNumber => if command == Command::UpdateTotal {
            "Invalid number for additional total"@
        } else {
            "Invalid number for starting total"@
        },
        StoreError::UserNotFound => if command == Command::AddGame {
            "User '"@ + user + "' not found! Use !adduser first"@
        } else {
            "User '"@ + user + "' not found"@
        },
        StoreError::GameNotFound => if command == Command::GameTotal {
            "User '"@ + user + "' doesn't have a game"@
        } else {
            "User '"@ + user + "' doesn't have game '"@ + game + "'"@
        },
        StoreError::AlreadyExists => "User '"@ + user
            + "' already exists! Use !addgame to add more games"@,
        StoreError::GameAlreadyExists => "User "@ + user + " already has game '"@ + game + "'"@,
        StoreError::TotalOutOfRange => if command == Command::UserTotal {
            "Total of user '"@ + user + "' across all games is out of range"@
        } else {
            "Total of user '"@ + user + "' for game '"@ + game + "' would be out of range"@
        },
    }
}

/// The answer to a command that failed with `message`.
pub open spec fn failure_reply(message: Seq<char>) -> Seq<char> {
    "Error: "@ + message
}

/// Writes the answer to a command that failed with `message`.
pub fn failure_text(message: &str) -> (s: String)
    ensures
        s@ == failure_reply(message@),
{
    let mut s = String::from_str("Error: ");
    s.append(message);
    s
}

/// Words a failure of `command`.
pub fn failure_message_text(command: Command, error: StoreError, user: &str, game: &str) -> (s:
    String)
    ensures
        s@ == failure_message(command, error, user@, game@),
{
    match error {
        StoreError::InvalidNumber => if command == Command::UpdateTotal {
            String::from_str("Invalid number for additional total")
        } else {
            String::from_str("Invalid number for starting total")
        },
        StoreError::UserNotFound => {
            let mut s = String::from_str("User '");
            s.append(user);
            if command == Command::AddGame {
                s.append("' not found! Use !adduser first");
            } else {
                s.append("' not found");
            }
            s
        },
        StoreError::GameNotFound => {
            let mut s = String::from_str("User '");
            s.append(user);
            if command == Command::GameTotal {
                s.append("' doesn't have a game");
            } else {
                s.append("' doesn't have game '");
                s.append(game);
                s.append("'");
            }
            s
        },
        StoreError::AlreadyExists => {
            let mut s = String::from_str("User '");
            s.append(user);
            s.append("' already exists! Use !addgame to add more games");
            s
        },
        StoreError::GameAlreadyExists => {
            let mut s = String::from_str("User ");
            s.append(user);
            s.append(" already has game '");
            s.append(game);
            s.append("'");
            s
        },
        StoreError::TotalOutOfRange => {
            let mut s = String::from_str("Total of user '");
            s.append(user);
            if command == Command::UserTotal {
                s.append("' across all games is out of range");
            } else {
                s.append("' for game '");
                s.append(game);
                s.append("' would be out of range");
            }
            s
        },
    }
}

/// The confirmation of a new user. It repeats the total as it was typed.
pub open spec fn added_user_reply(user: Seq<char>, game: Seq<char>, total: Seq<char>) -> Seq<char> {
    "Added user "@ + user + " with game '"@ + game + "' and total $"@ + total
}

/// Writes the confirmation of a new user.
pub fn added_user_text(user: &str, game: &str, total: &str) -> (s: String)
    ensures
        s@ == added_user_reply(user@, game@, total@),
{
    let mut s = String::from_str("Added user ");
    s.append(user);
    s.append(" with game '");
    s.append(game);
    s.append("' and total $");
    s.append(total);
    s
}

/// The confirmation of a further game. It repeats the total as it was typed.
pub open spec fn added_game_reply(user: Seq<char>, game: Seq<char>, total: Seq<char>) -> Seq<char> {
    "Added game '"@ + game + "' with total $"@ + total + " to user "@ + user
}

/// Writes the confirmation of a further game.
pub fn added_game_text(user: &str, game: &str, total: &str) -> (s: String)
    ensures
        s@ == added_game_reply(user@, game@, total@),
{
    let mut s = String::from_str("Added game '");
    s.append(game);
    s.append("' with total $");
    s.append(total);
    s.append(" to user ");
    s.append(user);
    s
}

/// The confirmation of an update. The number it names is the new total.
pub open spec fn updated_reply(user: Seq<char>, game: Seq<char>, total: int) -> Seq<char> {
    user + "'s total for '"@ + game + "' was updated by $"@ + decimal_text(total)
}

/// Writes the confirmation of an update.
pub fn updated_text(user: &str, game: &str, total: i32) -> (s: String)
    ensures
        s@ == updated_reply(user@, game@, total as int),
{
    let mut s = user.to_owned();
    s.append("'s total for '");
    s.append(game);
    s.append("' was updated by $");
    s.append(render_total(total).as_str());
    s
}

/// The alert that follows an update which crossed the threshold.
pub open spec fn alert_reply(user: Seq<char>, game: Seq<char>) -> Seq<char> {
    "@here 🚨 "@ + user + " just crossed $300 in "@ + game + "! 💸"@
}

/// Writes the alert.
pub fn alert_text(user: &str, game: &str) -> (s: String)
    ensures
        s@ == alert_reply(user@, game@),
{
    let mut s = String::from_str("@here 🚨 ");
    s.append(user);
    s.append(" just crossed $300 in ");
    s.append(game);
    s.append("! 💸");
    s
}

/// The confirmation that a game was taken away.
pub open spec fn removed_game_reply(user: Seq<char>, game: Seq<char>) -> Seq<char> {
    "Removed game '"@ + game + "' from user "@ + user
}

/// Writes the confirmation that a game was taken away.
pub fn removed_game_text(user: &str, game: &str) -> (s: String)
    ensures
        s@ == removed_game_reply(user@, game@),
{
    let mut s = String::from_str("Removed game '");
    s.append(game);
    s.append("' from user ");
    s.append(user);
    s
}

/// The confirmation that a user was taken out.
pub open spec fn deleted_user_reply(user: Seq<char>) -> Seq<char> {
    "Deleted user "@ + user + " and all their games"@
}

/// Writes the confirmation that a user was taken out.
pub fn deleted_user_text(user: &str) -> (s: String)
    ensures
        s@ == deleted_user_reply(user@),
{
    let mut s = String::from_str("Deleted user ");
    s.append(user);
    s.append(" and all their games");
    s
}

/// The answer that gives the total of one game.
pub open spec fn game_total_reply(user: Seq<char>, game: Seq<char>, total: int) -> Seq<char> {
    user + "'s total for '"@ + game + "': $"@ + decimal_text(total)
}

/// Writes the answer that gives the total of one game.
pub fn game_total_text(user: &str, game: &str, total: i32) -> (s: String)
    ensures
        s@ == game_total_reply(user@, game@, total as int),
{
    let mut s = user.to_owned();
    s.append("'s total for '");
    s.append(game);
    s.append("': $");
    s.append(render_total(total).as_str());
    s
}

/// The answer that gives the sum of a user's totals.
pub open spec fn user_total_reply(user: Seq<char>, total: int) -> Seq<char> {
    user + "'s total across all available games: $"@ + decimal_text(total)
}

/// Writes the answer that gives the sum of a user's totals.
pub fn user_total_text(user: &str, total: i32) -> (s: String)
    ensures
        s@ == user_total_reply(user@, total as int),
{
    let mut s = user.to_owned();
    s.append("'s total across all available games: $");
    s.append(render_total(total).as_str());
    s
}

/// The note in the log of a new user. It names the total as a number.
pub open spec fn added_user_note(user: Seq<char>, game: Seq<char>, total: int) -> Seq<char> {
    "Added new user '"@ + user + "' with game '"@ + game + "' and total "@ + decimal_text(total)
}

/// Writes the note in the log of a new user.
pub fn added_user_note_text(user: &str, game: &str, total: i32) -> (s: String)
    ensures
        s@ == added_user_note(user@, game@, total as int),
{
    let mut s = String::from_str("Added new user '");
    s.append(user);
    s.append("' with game '");
    s.append(game);
    s.append("' and total ");
    s.append(render_total(total).as_str());
    s
}

/// The note in the log of a further game. It names the total as a number.
pub open spec fn added_game_note(user: Seq<char>, game: Seq<char>, total: int) -> Seq<char> {
    "Added game '"@ + game + "' with total "@ + decimal_text(total) + " to user '"@ + user + "'"@
}

/// Writes the note in the log of a further game.
pub fn added_game_note_text(user: &str, game: &str, total: i32) -> (s: String)
    ensures
        s@ == added_game_note(user@, game@, total as int),
{
    let mut s = String::from_str("Added game '");
    s.append(game);
    s.append("' with total ");
    s.append(render_total(total).as_str());
    s.append(" to user '");
    s.append(user);
    s.append("'");
    s
}

/// The note in the log of an update, with the new total.
pub open spec fn updated_note(user: Seq<char>, game: Seq<char>, total: int) -> Seq<char> {
    "Updated "@ + user + "'s "@ + game + " total to "@ + decimal_text(total)
}

/// Writes the note in the log of an update.
pub fn updated_note_text(user: &str, game: &str, total: i32) -> (s: String)
    ensures
        s@ == updated_note(user@, game@, total as int),
{
    let mut s = String::from_str("Updated ");
    s.append(user);
    s.append("'s ");
    s.append(game);
    s.append(" total to ");
    s.append(render_total(total).as_str());
    s
}

/// The note in the log of a game that was taken away.
pub open spec fn removed_game_note(user: Seq<char>, game: Seq<char>) -> Seq<char> {
    "Removed game '"@ + game + "' from user '"@ + user + "'"@
}

/// Writes the note in the log of a game that was taken away.
pub fn removed_game_note_text(user: &str, game: &str) -> (s: String)
    ensures
        s@ == removed_game_note(user@, game@),
{
    let mut s = String::from_str("Removed game '");
    s.append(game);
    s.append("' from user '");
    s.append(user);
    s.append("'");
    s
}

/// The note in the log of a user that left with its last game.
pub open spec fn user_left_note(user: Seq<char>) -> Seq<char> {
    "User '"@ + user + "' had no games left and was removed"@
}

/// Writes the note in the log of a user that left with its last game.
pub fn user_left_note_text(user: &str) -> (s: String)
    ensures
        s@ == user_left_note(user@),
{
    let mut s = String::from_str("User '");
    s.append(user);
    s.append("' had no games left and was removed");
    s
}

/// The note in the log of a user that was taken out.
pub open spec fn deleted_user_note(user: Seq<char>) -> Seq<char> {
    "Deleted user '"@ + user + "' and all their games"@
}

/// Writes the note in the log of a user that was taken out.
pub fn deleted_user_note_text(user: &str) -> (s: String)
    ensures
        s@ == deleted_user_note(user@),
{
    let mut s = String::from_str("Deleted user '");
    s.append(user);
    s.append("' and all their games");
    s
}

/// One line of a listing: the bullet, the game's name and its total.
pub open spec fn game_line(bullet: Seq<char>, game: (Seq<char>, i32)) -> Seq<char> {
    bullet + game.0 + ": $"@ + decimal_text(game.1 as int)
}

/// The lines of a listing of games, one game to a line, in the order of
/// `games`, with a line break between two lines.
pub open spec fn game_lines(bullet: Seq<char>, games: Seq<(Seq<char>, i32)>) -> Seq<char>
    decreases games.len(),
{
    if games.len() == 0 {
        Seq::empty()
    } else if games.len() == 1 {
        game_line(bullet, games[0])
    } else {
        game_lines(bullet, games.drop_last()) + "\n"@ + game_line(bullet, games.last())
    }
}

/// Writes the lines of a listing of games.
pub fn game_lines_text(bullet: &str, games: &Games) -> (s: String)
    ensures
        s@ == game_lines(bullet@, games@),
{
    let mut s = String::new();
    let mut i: usize = 0;
    while i < games.len()
        invariant
            i <= games@.len(),
            s@ == game_lines(bullet@, games@.take(i as int)),
        decreases games@.len() - i,
    {
        let mut line = String::from_str(bullet);
        line.append(games.name_at(i));
        line.append(": $");
        line.append(render_total(games.total_at(i)).as_str());
        assert(games@.take(i + 1).drop_last() =~= games@.take(i as int));
        if i > 0 {
            s.append("\n");
        }
        s.append(line.as_str());
        i += 1;
    }
    assert(games@.take(i as int) =~= games@);
    s
}

/// The answer that lists the games of one user.
pub open spec fn user_games_reply(user: Seq<char>, games: Seq<(Seq<char>, i32)>) -> Seq<char> {
    if games.len() == 0 {
        "User "@ + user + " has no games"@
    } else {
        "**"@ + user + "'s Games:**\n"@ + game_lines("• "@, games)
    }
}

/// Writes the answer that lists the games of one user.
pub fn user_games_text(user: &str, games: &Games) -> (s: String)
    ensures
        s@ == user_games_reply(user@, games@),
{
    if games.is_empty() {
        let mut s = String::from_str("User ");
        s.append(user);
        s.append(" has no games");
        s
    } else {
        let mut s = String::from_str("**");
        s.append(user);
        s.append("'s Games:**\n");
        s.append(game_lines_text("• ", games).as_str());
        s
    }
}

/// The part of the listing of all users that shows one user: the name,
/// and below it the games.
pub open spec fn user_block(user: UserModel) -> Seq<char> {
    "**"@ + user.name + "**\n"@ + game_lines("  • "@, user.games)
}

/// The parts of the listing of all users, one user to a part, in the
/// order of `users`, with an empty line between two parts.
pub open spec fn user_blocks(users: Seq<UserModel>) -> Seq<char>
    decreases users.len(),
{
    if users.len() == 0 {
        Seq::empty()
    } else if users.len() == 1 {
        user_block(users[0])
    } else {
        user_blocks(users.drop_last()) + "\n\n"@ + user_block(users.last())
    }
}

/// The answer that lists all users.
pub open spec fn all_users_reply(users: Seq<UserModel>) -> Seq<char> {
    if users.len() == 0 {
        NO_USERS@
    } else {
        "**All Users:**\n"@ + user_blocks(users)
    }
}

/// Writes the answer that lists all users.
pub fn all_users_text(users: &Vec<User>) -> (s: String)
    ensures
        s@ == all_users_reply(ledger(users@)),
{
    if users.len() == 0 {
        return String::from_str(NO_USERS);
    }
    let mut blocks = String::new();
    let mut i: usize = 0;
    while i < users.len()
        invariant
            i <= users@.len(),
            blocks@ == user_blocks(ledger(users@).take(i as int)),
        decreases users@.len() - i,
    {
        let mut block = String::from_str("**");
        block.append(users[i].user.as_str());
        block.append("**\n");
        block.append(game_lines_text("  • ", &users[i].games).as_str());
        assert(ledger(users@).take(i + 1).drop_last() =~= ledger(users@).take(i as int));
        if i > 0 {
            blocks.append("\n\n");
        }
        blocks.append(block.as_str());
        i += 1;
    }
    assert(ledger(users@).take(i as int) =~= ledger(users@));
    let mut s = String::from_str("**All Users:**\n");
    s.append(blocks.as_str());
    s
}

} // verus!
