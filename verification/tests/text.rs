use shamebot::command::recognize;
use shamebot::text::{same_text, starts_with};
use shamebot::Command;

#[test]
fn equal_strings_are_the_same_text() {
    assert!(same_text("", ""));
    assert!(same_text("Tekken 8", "Tekken 8"));
    assert!(same_text("Pokémon 🎮", "Pokémon 🎮"));
}

#[test]
fn different_strings_are_not_the_same_text() {
    assert!(!same_text("Tekken 8", "Tekken 7"));
    assert!(!same_text("Tekken 8", "tekken 8"));
    assert!(!same_text("Tekken", "Tekken 8"));
    assert!(!same_text("Tekken 8", "Tekken"));
    assert!(!same_text("", " "));
    assert!(!same_text("e\u{301}", "\u{e9}"));
}

#[test]
fn a_line_begins_with_its_prefixes() {
    assert!(starts_with("!adduser Q", "!adduser"));
    assert!(starts_with("!adduser", "!adduser"));
    assert!(starts_with("anything", ""));
    assert!(starts_with("", ""));
    assert!(starts_with("🎮 game", "🎮"));
}

#[test]
fn a_line_does_not_begin_with_other_text() {
    assert!(!starts_with("!adduse", "!adduser"));
    assert!(!starts_with("", "!"));
    assert!(!starts_with(" !adduser", "!adduser"));
    assert!(!starts_with("!Adduser", "!adduser"));
    assert!(!starts_with("é", "e"));
}

#[test]
fn commands_are_recognized_by_their_keywords() {
    assert_eq!(recognize("!help"), Some(Command::Help));
    assert_eq!(recognize("!commands"), Some(Command::Help));
    assert_eq!(recognize("!quickhelp"), Some(Command::QuickHelp));
    assert_eq!(recognize("!adduser Q \"Tekken 8\" 200"), Some(Command::AddUser));
    assert_eq!(recognize("!addgame"), Some(Command::AddGame));
    assert_eq!(recognize("!updatetotal x"), Some(Command::UpdateTotal));
    assert_eq!(recognize("!removegame x y"), Some(Command::RemoveGame));
    assert_eq!(recognize("!deleteuser x"), Some(Command::DeleteUser));
    assert_eq!(recognize("!usergames x"), Some(Command::UserGames));
    assert_eq!(recognize("!getusers"), Some(Command::GetUsers));
    assert_eq!(recognize("!gametotal x y"), Some(Command::GameTotal));
    assert_eq!(recognize("!usertotal x"), Some(Command::UserTotal));
}

#[test]
fn every_command_is_what_the_line_begins_with() {
    assert_eq!(recognize("!help "), Some(Command::Help));
    assert_eq!(recognize("!help me"), Some(Command::Help));
    assert_eq!(recognize("!commands now"), Some(Command::Help));
    assert_eq!(recognize("!quickhelp!"), Some(Command::QuickHelp));
    assert_eq!(recognize("!getusers all"), Some(Command::GetUsers));
    assert_eq!(recognize("!adduserplease"), Some(Command::AddUser));
    assert_eq!(recognize(" !getusers"), None);
    assert_eq!(recognize("!hel"), None);
    assert_eq!(recognize("!getuser"), None);
}

#[test]
fn keywords_are_case_sensitive() {
    assert_eq!(recognize("!AddUser Q x 1"), None);
    assert_eq!(recognize("!HELP"), None);
    assert_eq!(recognize("adduser Q x 1"), None);
    assert_eq!(recognize(""), None);
}
