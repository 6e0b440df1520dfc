//! The vocabulary of the chat commands: which command a line asks for and
//! how many tokens it takes.

use vstd::prelude::*;
use crate::text::starts_with;

verus! {

/// The commands that a line can ask for.
#[derive(Clone, Copy, Debug, PartialEq, Eq, Structural)]
pub enum Command {
    /// `!help` or `!commands`: the full command reference.
    Help,
    /// `!quickhelp`: the one-line summary of the commands.
    QuickHelp,
    /// `!adduser <user> "<game>" <total>`: a new user with a first game.
    AddUser,
    /// `!addgame <user> "<game>" <total>`: a further game for a user.
    AddGame,
    /// `!updatetotal <user> "<game>" <amount>`: add an amount to a total.
    UpdateTotal,
    /// `!removegame <user> "<game>"`: take a game away from a user.
    RemoveGame,
    /// `!deleteuser <user>`: take a user out with all its games.
    DeleteUser,
    /// `!usergames <user>`: the games of one user.
    UserGames,
    /// `!getusers`: all users with all their games.
    GetUsers,
    /// `!gametotal <user> "<game>"`: the total of one game.
    GameTotal,
    /// `!usertotal <user>`: the sum of the totals of a user's games.
    UserTotal,
}

/// The command that `line` asks for: the one whose keyword the line
/// begins with. `!commands` is a second keyword for the command reference.
pub open spec fn command_of(line: Seq<char>) -> Option<Command> {
    if "!help"@.is_prefix_of(line) || "!commands"@.is_prefix_of(line) {
        Some(Command::Help)
    } else if "!quickhelp"@.is_prefix_of(line) {
        Some(Command::QuickHelp)
    } else if "!adduser"@.is_prefix_of(line) {
        Some(Command::AddUser)
    } else if "!addgame"@.is_prefix_of(line) {
        Some(Command::AddGame)
    } else if "!updatetotal"@.is_prefix_of(line) {
        Some(Command::UpdateTotal)
    } else if "!removegame"@.is_prefix_of(line) {
        Some(Command::RemoveGame)
    } else if "!deleteuser"@.is_prefix_of(line) {
        Some(Command::DeleteUser)
    } else if "!usergames"@.is_prefix_of(line) {
        Some(Command::UserGames)
    } else if "!getusers"@.is_prefix_of(line) {
        Some(Command::GetUsers)
    } else if "!gametotal"@.is_prefix_of(line) {
        Some(Command::GameTotal)
    } else if "!usertotal"@.is_prefix_of(line) {
        Some(Command::UserTotal)
    } else {
        None
    }
}

/// Finds the command that `line` asks for.
pub fn recognize(line: &str) -> (command: Option<Command>)
    ensures
        command == command_of(line@),
{
    if starts_with(line, "!help") || starts_with(line, "!commands") {
        Some(Command::Help)
    } else if starts_with(line, "!quickhelp") {
        Some(Command::QuickHelp)
    } else if starts_with(line, "!adduser") {
        Some(Command::AddUser)
    } else if starts_with(line, "!addgame") {
        Some(Command::AddGame)
    } else if starts_with(line, "!updatetotal") {
        Some(Command::UpdateTotal)
    } else if starts_with(line, "!removegame") {
        Some(Command::RemoveGame)
    } else if starts_with(line, "!deleteuser") {
        Some(Command::DeleteUser)
    } else if starts_with(line, "!usergames") {
        Some(Command::UserGames)
    } else if starts_with(line, "!getusers") {
        Some(Command::GetUsers)
    } else if starts_with(line, "!gametotal") {
        Some(Command::GameTotal)
    } else if starts_with(line, "!usertotal") {
        Some(Command::UserTotal)
    } else {
        None
    }
}

/// The number of tokens that a line with the command holds, the keyword
/// counted.
pub open spec fn arity(command: Command) -> nat {
    match command {
        Command::Help | Command::QuickHelp | Command::GetUsers => 1,
        Command::DeleteUser | Command::UserGames | Command::UserTotal => 2,
        Command::RemoveGame | Command::GameTotal => 3,
        Command::AddUser | Command::AddGame | Command::UpdateTotal => 4,
    }
}

impl Command {
    /// The number of tokens that a line with this command holds.
    pub fn arity(&self) -> (n: usize)
        ensures
            n == arity(*self),
    {
        match self {
            Command::Help | Command::QuickHelp | Command::GetUsers => 1,
            Command::DeleteUser | Command::UserGames | Command::UserTotal => 2,
            Command::RemoveGame | Command::GameTotal => 3,
            Command::AddUser | Command::AddGame | Command::UpdateTotal => 4,
        }
    }
}

} // verus!
