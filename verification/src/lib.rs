//! A chat-command ledger: per user, a set of named games with a running
//! total each, and an alert when an update carries a total across the
//! threshold.
//!
//! A line of chat is split into tokens ([`tokenizer`]), the command it
//! asks for is recognized ([`command`]) and carried out on the ledger
//! ([`user`], [`games`]), and the answer is worded ([`reply`]);
//! [`dispatch`] ties these together. [`user_lemmas`] states what holds of
//! the ledger's operations. Reading the ledger from where it is kept,
//! writing it back and sending the answers are left to the caller.

pub mod command;
pub mod dispatch;
pub mod games;
pub mod number;
pub mod reply;
pub mod text;
pub mod tokenizer;
pub mod user;
pub mod user_lemmas;

pub use crate::command::Command;
pub use crate::dispatch::{dispatch, Outcome};
pub use crate::games::Games;
pub use crate::tokenizer::parse_command_with_quotes;
pub use crate::user::{
    add_game, add_user, delete_user, get_game_total, get_user_games, get_user_total_all_games,
    get_users, remove_game, update_total, StoreError, User,
    ALERT_THRESHOLD, SUPER_TROLL_THRESHOLD, TROLL_THRESHOLD,
};
