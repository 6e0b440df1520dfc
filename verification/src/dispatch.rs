//! From a line of chat to its answer: the command is recognized, its
//! tokens are counted, the ledger is read or changed, and the answer is
//! worded.

use vstd::prelude::*;
use crate::command::{arity, command_of, recognize, Command};
use crate::number::{parse_total, parsed_total};
use crate::reply::{
    added_game_note, added_game_note_text, added_game_reply, added_game_text, added_user_note,
    added_user_note_text, added_user_reply, added_user_text, alert_reply, alert_text,
    all_users_reply, all_users_text, deleted_user_note, deleted_user_note_text,
    deleted_user_reply, deleted_user_text, failure_message, failure_message_text, failure_reply,
    failure_text, game_total_reply, game_total_text, removed_game_note, removed_game_note_text,
    removed_game_reply, removed_game_text, updated_note, updated_note_text, updated_reply,
    updated_text, usage, usage_text, user_games_reply, user_games_text, user_left_note,
    user_left_note_text, user_total_reply, user_total_text, HELP, QUICK_HELP,
};
use crate::text::texts;
use crate::tokenizer::{parse_command_with_quotes, tokenize};
use crate::user::{
    add_game, add_user, added_game, added_user, delete_user, deleted_user, games_of,
    get_game_total, get_user_games, get_user_total_all_games, grand_total, has_one_game, ledger,
    remove_game, removed_game, total_of, update_total, updated_total,
    well_formed, StoreError, User, UserModel,
};
use crate::user_lemmas::lemma_operations_keep_well_formed;

verus! {

/// What a line leads to: the ledger after it, the answers to send, in
/// order, whether the ledger has to be written back, and the notes for the
/// log: those to print at once, and those to print once the ledger has
/// been written back.
pub struct Step {
    pub users: Seq<UserModel>,
    pub replies: Seq<Seq<char>>,
    pub persist: bool,
    pub log: Seq<Seq<char>>,
    pub log_once_written: Seq<Seq<char>>,
}

/// A step that leads to nothing.
pub open spec fn silence(users: Seq<UserModel>) -> Step {
    Step {
        users,
        replies: Seq::empty(),
        persist: false,
        log: Seq::empty(),
        log_once_written: Seq::empty(),
    }
}

/// A step that answers and leaves the ledger alone.
pub open spec fn answer(users: Seq<UserModel>, reply: Seq<char>) -> Step {
    Step { replies: seq![reply], ..silence(users) }
}

/// A step that answers with a failure and leaves the ledger alone.
pub open spec fn refusal(
    users: Seq<UserModel>,
    command: Command,
    error: StoreError,
    user: Seq<char>,
    game: Seq<char>,
) -> Step {
    answer(users, failure_reply(failure_message(command, error, user, game)))
}

/// A step that changes the ledger, with its answers and its notes.
pub open spec fn change(
    users: Seq<UserModel>,
    replies: Seq<Seq<char>>,
    log: Seq<Seq<char>>,
    log_once_written: Seq<Seq<char>>,
) -> Step {
    Step { users, replies, persist: true, log, log_once_written }
}

/// What a command with the right number of tokens leads to. `args` are
/// the tokens of the line, the keyword first.
pub open spec fn carry_out(command: Command, users: Seq<UserModel>, args: Seq<Seq<char>>) -> Step
    recommends
        args.len() == arity(command),
{
    match command {
        Command::Help => answer(users, HELP@),
        Command::QuickHelp => answer(users, QUICK_HELP@),
        Command::GetUsers => answer(users, all_users_reply(users)),
        Command::AddUser => match added_user(users, args[1], args[2], args[3]) {
            Ok(after) => change(
                after,
                seq![added_user_reply(args[1], args[2], args[3])],
                Seq::empty(),
                seq![added_user_note(args[1], args[2], parsed_total(args[3]).unwrap() as int)],
            ),
            Err(e) => refusal(users, command, e, args[1], args[2]),
        },
        Command::AddGame => match added_game(users, args[1], args[2], args[3]) {
            Ok(after) => change(
                after,
                seq![added_game_reply(args[1], args[2], args[3])],
                seq![added_game_note(args[1], args[2], parsed_total(args[3]).unwrap() as int)],
                Seq::empty(),
            ),
            Err(e) => refusal(users, command, e, args[1], args[2]),
        },
        Command::UpdateTotal => match updated_total(users, args[1], args[2], args[3]) {
            Ok((after, total, crossed)) => change(
                after,
                if crossed {
                    seq![
                        updated_reply(args[1], args[2], total as int),
                        alert_reply(args[1], args[2]),
                    ]
                } else {
                    seq![updated_reply(args[1], args[2], total as int)]
                },
                seq![updated_note(args[1], args[2], total as int)],
                Seq::empty(),
            ),
            Err(e) => refusal(users, command, e, args[1], args[2]),
        },
        Command::RemoveGame => match removed_game(users, args[1], args[2]) {
            Ok(after) => change(
                after,
                seq![removed_game_reply(args[1], args[2])],
                if has_one_game(users, args[1]) {
                    seq![removed_game_note(args[1], args[2]), user_left_note(args[1])]
                } else {
                    seq![removed_game_note(args[1], args[2])]
                },
                Seq::empty(),
            ),
            Err(e) => refusal(users, command, e, args[1], args[2]),
        },
        Command::DeleteUser => match deleted_user(users, args[1]) {
            Ok(after) => change(
                after,
                seq![deleted_user_reply(args[1])],
                Seq::empty(),
                seq![deleted_user_note(args[1])],
            ),
            Err(e) => refusal(users, command, e, args[1], Seq::empty()),
        },
        Command::UserGames => match games_of(users, args[1]) {
            Ok(games) => answer(users, user_games_reply(args[1], games)),
            Err(e) => refusal(users, command, e, args[1], Seq::empty()),
        },
        Command::GameTotal => match total_of(users, args[1], args[2]) {
            Ok(total) => answer(users, game_total_reply(args[1], args[2], total as int)),
            Err(e) => refusal(users, command, e, args[1], args[2]),
        },
        Command::UserTotal => match grand_total(users, args[1]) {
            Ok(total) => answer(users, user_total_reply(args[1], total as int)),
            Err(e) => refusal(users, command, e, args[1], Seq::empty()),
        },
    }
}

/// What `line` leads to on the ledger `users`. A line that asks for no
/// command leads to nothing; one with the wrong number of tokens to the
/// text that says how the command is written.
pub open spec fn step(users: Seq<UserModel>, line: Seq<char>) -> Step {
    match command_of(line) {
        None => silence(users),
        Some(command) => if tokenize(line).len() != arity(command) {
            answer(users, usage(command))
        } else {
            carry_out(command, users, tokenize(line))
        },
    }
}

/// Every line leaves a well-formed ledger well formed.
pub proof fn lemma_step_keeps_well_formed(users: Seq<UserModel>, line: Seq<char>)
    requires
        well_formed(users),
    ensures
        well_formed(step(users, line).users),
{
    let args = tokenize(line);
    match command_of(line) {
        Some(command) => {
            if args.len() == arity(command) && args.len() > 1 {
                let game = if args.len() > 2 { args[2] } else { Seq::empty() };
                let text = if args.len() > 3 { args[3] } else { Seq::empty() };
                lemma_operations_keep_well_formed(users, args[1], game, text);
            }
        },
        None => {},
    }
}

/// A line changes the ledger only where it says that the ledger has to be
/// written back, and leaves notes only where it changes the ledger.
pub proof fn lemma_unchanged_unless_persisted(users: Seq<UserModel>, line: Seq<char>)
    ensures
        !step(users, line).persist ==> {
            &&& step(users, line).users == users
            &&& step(users, line).log.len() == 0
            &&& step(users, line).log_once_written.len() == 0
        },
{
}

/// A line with a command and with the wrong number of tokens changes
/// nothing: the one answer is the text that says how the command is
/// written, and the ledger is as it was.
pub proof fn lemma_wrong_count_changes_nothing(users: Seq<UserModel>, line: Seq<char>)
    requires
        command_of(line) matches Some(command) && tokenize(line).len() != arity(command),
    ensures
        step(users, line).users == users,
        step(users, line).replies == seq![usage(command_of(line).unwrap())],
        !step(users, line).persist,
{
}

/// The outcome of a line: the command it asked for, the answers to send,
/// in order, whether the ledger was changed and has to be written back,
/// and the notes for the log: those to print at once, and those to print
/// once the ledger has been written back.
#[derive(Debug)]
pub struct Outcome {
    pub command: Option<Command>,
    pub replies: Vec<String>,
    pub persist: bool,
    pub log: Vec<String>,
    pub log_once_written: Vec<String>,
}

impl Outcome {
    /// Whether this outcome holds the answers and the notes of `step` and
    /// says of the ledger what `step` says.
    pub open spec fn renders(&self, step: Step) -> bool {
        &&& texts(self.replies@) == step.replies
        &&& self.persist == step.persist
        &&& texts(self.log@) == step.log
        &&& texts(self.log_once_written@) == step.log_once_written
    }

    /// The answers to send once the ledger has been written back where
    /// this outcome asked for it. `write_failure` is what went wrong with
    /// the writing, if anything did: the failure is then the one answer.
    pub fn conclude(self, write_failure: Option<&str>) -> (replies: Vec<String>)
        ensures
            texts(replies@) == concluded(self.persist, texts(self.replies@), write_failure),
    {
        match write_failure {
            Some(message) => {
                if self.persist {
                    one(failure_text(message))
                } else {
                    self.replies
                }
            },
            None => self.replies,
        }
    }
}

/// The answers to send for a step, given what went wrong when the ledger
/// was written back: where the step asked for the writing and it failed,
/// the failure alone; the answers of the step otherwise.
pub open spec fn concluded(
    persist: bool,
    replies: Seq<Seq<char>>,
    write_failure: Option<&str>,
) -> Seq<Seq<char>> {
    match write_failure {
        Some(message) => if persist {
            seq![failure_reply(message@)]
        } else {
            replies
        },
        None => replies,
    }
}

/// No text.
fn none() -> (list: Vec<String>)
    ensures
        texts(list@) == Seq::<Seq<char>>::empty(),
{
    let list: Vec<String> = Vec::new();
    assert(texts(list@) =~= Seq::empty());
    list
}

/// One text.
fn one(text: String) -> (list: Vec<String>)
    ensures
        texts(list@) == seq![text@],
{
    let mut list: Vec<String> = Vec::new();
    list.push(text);
    assert(texts(list@) =~= seq![text@]);
    list
}

/// Two texts.
fn two(first: String, second: String) -> (list: Vec<String>)
    ensures
        texts(list@) == seq![first@, second@],
{
    let mut list: Vec<String> = Vec::new();
    list.push(first);
    list.push(second);
    assert(texts(list@) =~= seq![first@, second@]);
    list
}

/// An outcome with one answer and nothing to write back.
fn answered(command: Command, reply: String) -> (out: Outcome)
    ensures
        out.command == Some(command),
        texts(out.replies@) == seq![reply@],
        !out.persist,
        texts(out.log@) == Seq::<Seq<char>>::empty(),
        texts(out.log_once_written@) == Seq::<Seq<char>>::empty(),
{
    Outcome {
        command: Some(command),
        replies: one(reply),
        persist: false,
        log: none(),
        log_once_written: none(),
    }
}

/// An outcome that reports a failure.
fn refused(command: Command, error: StoreError, user: &str, game: &str) -> (out: Outcome)
    ensures
        out.command == Some(command),
        texts(out.replies@) == seq![failure_reply(failure_message(command, error, user@, game@))],
        !out.persist,
        texts(out.log@) == Seq::<Seq<char>>::empty(),
        texts(out.log_once_written@) == Seq::<Seq<char>>::empty(),
{
    let message = failure_message_text(command, error, user, game);
    answered(command, failure_text(message.as_str()))
}

/// Handles one line: carries out the command it asks for on `users`, and
/// words the answers and the notes for the log.
pub fn dispatch(users: &mut Vec<User>, line: &str) -> (out: Outcome)
    ensures
        out.command == command_of(line@),
        out.renders(step(ledger(old(users)@), line@)),
        ledger(final(users)@) == step(ledger(old(users)@), line@).users,
        !out.persist ==> final(users)@ == old(users)@,
        well_formed(ledger(old(users)@)) ==> well_formed(ledger(final(users)@)),
{
    proof {
        if well_formed(ledger(users@)) {
            lemma_step_keeps_well_formed(ledger(users@), line@);
        }
    }
    let command = match recognize(line) {
        Some(command) => command,
        None => {
            return Outcome {
                command: None,
                replies: none(),
                persist: false,
                log: none(),
                log_once_written: none(),
            };
        },
    };
    let parts = parse_command_with_quotes(line);
    if parts.len() != command.arity() {
        return answered(command, usage_text(command));
    }
    match command {
        Command::Help => answered(command, String::from_str(HELP)),
        Command::QuickHelp => answered(command, String::from_str(QUICK_HELP)),
        Command::GetUsers => answered(command, all_users_text(users)),
        Command::AddUser => {
            let user = parts[1].as_str();
            let game = parts[2].as_str();
            let total = parts[3].as_str();
            match (add_user(users, user, game, total), parse_total(total)) {
                (Ok(()), Some(number)) => Outcome {
                    command: Some(command),
                    replies: one(added_user_text(user, game, total)),
                    persist: true,
                    log: none(),
                    log_once_written: one(added_user_note_text(user, game, number)),
                },
                (Err(e), _) => refused(command, e, user, game),
                (Ok(()), None) => unreached(),
            }
        },
        Command::AddGame => {
            let user = parts[1].as_str();
            let game = parts[2].as_str();
            let total = parts[3].as_str();
            match (add_game(users, user, game, total), parse_total(total)) {
                (Ok(()), Some(number)) => Outcome {
                    command: Some(command),
                    replies: one(added_game_text(user, game, total)),
                    persist: true,
                    log: one(added_game_note_text(user, game, number)),
                    log_once_written: none(),
                },
                (Err(e), _) => refused(command, e, user, game),
                (Ok(()), None) => unreached(),
            }
        },
        Command::UpdateTotal => {
            let user = parts[1].as_str();
            let game = parts[2].as_str();
            let amount = parts[3].as_str();
            match update_total(users, user, game, amount) {
                Ok((new_total, crossed_threshold)) => {
                    let confirmation = updated_text(user, game, new_total);
                    Outcome {
                        command: Some(command),
                        replies: if crossed_threshold {
                            two(confirmation, alert_text(user, game))
                        } else {
                            one(confirmation)
                        },
                        persist: true,
                        log: one(updated_note_text(user, game, new_total)),
                        log_once_written: none(),
                    }
                },
                Err(e) => refused(command, e, user, game),
            }
        },
        Command::RemoveGame => {
            let user = parts[1].as_str();
            let game = parts[2].as_str();
            let last_game = match get_user_games(users, user) {
                Ok(games) => games.len() == 1,
                Err(_) => false,
            };
            match remove_game(users, user, game) {
                Ok(()) => {
                    let note = removed_game_note_text(user, game);
                    Outcome {
                        command: Some(command),
                        replies: one(removed_game_text(user, game)),
                        persist: true,
                        log: if last_game {
                            two(note, user_left_note_text(user))
                        } else {
                            one(note)
                        },
                        log_once_written: none(),
                    }
                },
                Err(e) => refused(command, e, user, game),
            }
        },
        Command::DeleteUser => {
            let user = parts[1].as_str();
            match delete_user(users, user) {
                Ok(()) => Outcome {
                    command: Some(command),
                    replies: one(deleted_user_text(user)),
                    persist: true,
                    log: none(),
                    log_once_written: one(deleted_user_note_text(user)),
                },
                Err(e) => refused(command, e, user, ""),
            }
        },
        Command::UserGames => {
            let user = parts[1].as_str();
            match get_user_games(users, user) {
                Ok(games) => answered(command, user_games_text(user, &games)),
                Err(e) => refused(command, e, user, ""),
            }
        },
        Command::GameTotal => {
            let user = parts[1].as_str();
            let game = parts[2].as_str();
            match get_game_total(users, user, game) {
                Ok(total) => answered(command, game_total_text(user, game, total)),
                Err(e) => refused(command, e, user, game),
            }
        },
        Command::UserTotal => {
            let user = parts[1].as_str();
            match get_user_total_all_games(users, user) {
                Ok(total) => answered(command, user_total_text(user, total)),
                Err(e) => refused(command, e, user, ""),
            }
        },
    }
}

} // verus!
