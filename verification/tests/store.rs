use shamebot::{
    add_game, add_user, delete_user, get_game_total, get_user_games, get_user_total_all_games,
    get_users, remove_game, update_total, StoreError, User,
    ALERT_THRESHOLD, SUPER_TROLL_THRESHOLD, TROLL_THRESHOLD,
};

fn names(users: &Vec<User>) -> Vec<String> {
    users.iter().map(|u| u.user.clone()).collect()
}

fn games_of(users: &Vec<User>, name: &str) -> Vec<(String, i32)> {
    let games = get_user_games(users, name).unwrap();
    (0..games.len()).map(|i| (games.name_at(i).to_string(), games.total_at(i))).collect()
}

fn snapshot(users: &Vec<User>) -> Vec<(String, Vec<(String, i32)>)> {
    users
        .iter()
        .map(|u| {
            (
                u.user.clone(),
                (0..u.games.len())
                    .map(|i| (u.games.name_at(i).to_string(), u.games.total_at(i)))
                    .collect(),
            )
        })
        .collect()
}

fn two_users() -> Vec<User> {
    let mut users = Vec::new();
    add_user(&mut users, "Q", "Tekken 8", "250").unwrap();
    add_user(&mut users, "Alice", "Street Fighter 6", "150").unwrap();
    add_game(&mut users, "Alice", "Chess", "-20").unwrap();
    users
}

#[test]
fn thresholds_have_their_values() {
    assert_eq!(ALERT_THRESHOLD, 300);
    assert_eq!(TROLL_THRESHOLD, 200);
    assert_eq!(SUPER_TROLL_THRESHOLD, 500);
}

#[test]
fn an_added_user_has_the_total_it_joined_with() {
    let mut users = Vec::new();
    assert_eq!(add_user(&mut users, "Q", "Tekken 8", "200"), Ok(()));
    assert_eq!(get_game_total(&users, "Q", "Tekken 8"), Ok(200));
    assert_eq!(names(&users), vec!["Q"]);
}

#[test]
fn users_keep_the_order_in_which_they_joined() {
    let users = two_users();
    assert_eq!(
        snapshot(&users),
        vec![
            ("Q".to_string(), vec![("Tekken 8".to_string(), 250)]),
            (
                "Alice".to_string(),
                vec![("Street Fighter 6".to_string(), 150), ("Chess".to_string(), -20)]
            ),
        ]
    );
}

#[test]
fn add_user_refuses_text_that_is_no_number() {
    let mut users = two_users();
    let before = snapshot(&users);
    assert_eq!(add_user(&mut users, "Bob", "Go", "lots"), Err(StoreError::InvalidNumber));
    assert_eq!(add_user(&mut users, "Bob", "Go", ""), Err(StoreError::InvalidNumber));
    assert_eq!(add_user(&mut users, "Bob", "Go", "2147483648"), Err(StoreError::InvalidNumber));
    assert_eq!(snapshot(&users), before);
}

#[test]
fn add_user_checks_the_number_before_the_name() {
    let mut users = two_users();
    assert_eq!(add_user(&mut users, "Q", "Go", "x"), Err(StoreError::InvalidNumber));
}

#[test]
fn a_second_user_of_the_same_name_is_refused() {
    let mut users = Vec::new();
    assert_eq!(add_user(&mut users, "Q", "Tekken 8", "200"), Ok(()));
    assert_eq!(add_user(&mut users, "Q", "Chess", "1"), Err(StoreError::AlreadyExists));
    assert_eq!(snapshot(&users), vec![("Q".to_string(), vec![("Tekken 8".to_string(), 200)])]);
}

#[test]
fn a_second_game_of_the_same_name_is_refused() {
    let mut users = two_users();
    let before = snapshot(&users);
    assert_eq!(add_game(&mut users, "Q", "Tekken 8", "5"), Err(StoreError::GameAlreadyExists));
    assert_eq!(snapshot(&users), before);
}

#[test]
fn add_game_needs_the_user() {
    let mut users = two_users();
    assert_eq!(add_game(&mut users, "Ghost", "Go", "5"), Err(StoreError::UserNotFound));
}

#[test]
fn add_game_refuses_text_that_is_no_number() {
    let mut users = two_users();
    assert_eq!(add_game(&mut users, "Ghost", "Go", "five"), Err(StoreError::InvalidNumber));
    assert_eq!(add_game(&mut users, "Q", "Tekken 8", "five"), Err(StoreError::InvalidNumber));
}

#[test]
fn an_added_game_has_its_total_and_stands_last() {
    let mut users = two_users();
    assert_eq!(add_game(&mut users, "Q", "Go", "-7"), Ok(()));
    assert_eq!(get_game_total(&users, "Q", "Go"), Ok(-7));
    assert_eq!(games_of(&users, "Q"), vec![("Tekken 8".to_string(), 250), ("Go".to_string(), -7)]);
}

#[test]
fn the_same_game_name_may_stand_with_two_users() {
    let mut users = two_users();
    assert_eq!(add_game(&mut users, "Alice", "Tekken 8", "1"), Ok(()));
    assert_eq!(get_game_total(&users, "Alice", "Tekken 8"), Ok(1));
    assert_eq!(get_game_total(&users, "Q", "Tekken 8"), Ok(250));
}

#[test]
fn the_alert_is_raised_when_the_threshold_is_crossed_and_only_then() {
    let mut users = two_users();
    assert_eq!(update_total(&mut users, "Q", "Tekken 8", "40"), Ok((290, false)));
    assert_eq!(update_total(&mut users, "Q", "Tekken 8", "20"), Ok((310, true)));
    assert_eq!(update_total(&mut users, "Q", "Tekken 8", "10"), Ok((320, false)));
    assert_eq!(get_game_total(&users, "Q", "Tekken 8"), Ok(320));
}

#[test]
fn arriving_at_the_threshold_exactly_crosses_it() {
    let mut users = two_users();
    assert_eq!(update_total(&mut users, "Q", "Tekken 8", "49"), Ok((299, false)));
    assert_eq!(update_total(&mut users, "Q", "Tekken 8", "1"), Ok((300, true)));
    assert_eq!(update_total(&mut users, "Q", "Tekken 8", "0"), Ok((300, false)));
}

#[test]
fn falling_back_and_rising_again_crosses_again() {
    let mut users = two_users();
    assert_eq!(update_total(&mut users, "Q", "Tekken 8", "100"), Ok((350, true)));
    assert_eq!(update_total(&mut users, "Q", "Tekken 8", "-100"), Ok((250, false)));
    assert_eq!(update_total(&mut users, "Q", "Tekken 8", "+50"), Ok((300, true)));
}

#[test]
fn an_update_leaves_the_other_totals_alone() {
    let mut users = two_users();
    assert_eq!(update_total(&mut users, "Alice", "Chess", "-5"), Ok((-25, false)));
    assert_eq!(
        snapshot(&users),
        vec![
            ("Q".to_string(), vec![("Tekken 8".to_string(), 250)]),
            (
                "Alice".to_string(),
                vec![("Street Fighter 6".to_string(), 150), ("Chess".to_string(), -25)]
            ),
        ]
    );
}

#[test]
fn update_total_says_what_is_missing() {
    let mut users = two_users();
    let before = snapshot(&users);
    assert_eq!(update_total(&mut users, "Q", "Tekken 8", "ten"), Err(StoreError::InvalidNumber));
    assert_eq!(update_total(&mut users, "Ghost", "Tekken 8", "ten"), Err(StoreError::InvalidNumber));
    assert_eq!(update_total(&mut users, "Ghost", "Tekken 8", "10"), Err(StoreError::UserNotFound));
    assert_eq!(update_total(&mut users, "Q", "Chess", "10"), Err(StoreError::GameNotFound));
    assert_eq!(snapshot(&users), before);
}

#[test]
fn an_update_that_leaves_the_range_is_refused_and_changes_nothing() {
    let mut users = Vec::new();
    add_user(&mut users, "Q", "Tekken 8", "2147483647").unwrap();
    assert_eq!(update_total(&mut users, "Q", "Tekken 8", "1"), Err(StoreError::TotalOutOfRange));
    assert_eq!(get_game_total(&users, "Q", "Tekken 8"), Ok(i32::MAX));
    assert_eq!(
        update_total(&mut users, "Q", "Tekken 8", "2147483647"),
        Err(StoreError::TotalOutOfRange)
    );
    assert_eq!(snapshot(&users), vec![("Q".to_string(), vec![("Tekken 8".to_string(), i32::MAX)])]);
    let mut low = Vec::new();
    add_user(&mut low, "Q", "Tekken 8", "-2147483648").unwrap();
    assert_eq!(update_total(&mut low, "Q", "Tekken 8", "-1"), Err(StoreError::TotalOutOfRange));
    assert_eq!(get_game_total(&low, "Q", "Tekken 8"), Ok(i32::MIN));
}

#[test]
fn an_update_may_arrive_at_the_ends_of_the_range() {
    let mut users = Vec::new();
    add_user(&mut users, "Q", "Tekken 8", "2147483000").unwrap();
    assert_eq!(update_total(&mut users, "Q", "Tekken 8", "647"), Ok((i32::MAX, false)));
    assert_eq!(update_total(&mut users, "Q", "Tekken 8", "-2147483648"), Ok((-1, false)));
    assert_eq!(update_total(&mut users, "Q", "Tekken 8", "-2147483647"), Ok((i32::MIN, false)));
    assert_eq!(update_total(&mut users, "Q", "Tekken 8", "2147483647"), Ok((-1, false)));
}

#[test]
fn the_range_is_looked_at_last() {
    let mut users = Vec::new();
    add_user(&mut users, "Q", "Tekken 8", "2147483647").unwrap();
    assert_eq!(update_total(&mut users, "Ghost", "Tekken 8", "1"), Err(StoreError::UserNotFound));
    assert_eq!(update_total(&mut users, "Q", "Chess", "1"), Err(StoreError::GameNotFound));
    assert_eq!(update_total(&mut users, "Q", "Tekken 8", "x"), Err(StoreError::InvalidNumber));
}

#[test]
fn removing_the_only_game_removes_the_user() {
    let mut users = two_users();
    assert_eq!(remove_game(&mut users, "Q", "Tekken 8"), Ok(()));
    let left = get_users(&users).unwrap();
    assert_eq!(names(&left), vec!["Alice"]);
    assert_eq!(get_game_total(&users, "Q", "Tekken 8"), Err(StoreError::UserNotFound));
}

#[test]
fn removing_one_of_two_games_keeps_the_user() {
    let mut users = two_users();
    assert_eq!(remove_game(&mut users, "Alice", "Street Fighter 6"), Ok(()));
    assert_eq!(names(&users), vec!["Q", "Alice"]);
    assert_eq!(games_of(&users, "Alice"), vec![("Chess".to_string(), -20)]);
    assert_eq!(get_game_total(&users, "Alice", "Street Fighter 6"), Err(StoreError::GameNotFound));
}

#[test]
fn remove_game_says_what_is_missing() {
    let mut users = two_users();
    let before = snapshot(&users);
    assert_eq!(remove_game(&mut users, "Ghost", "Tekken 8"), Err(StoreError::UserNotFound));
    assert_eq!(remove_game(&mut users, "Q", "Chess"), Err(StoreError::GameNotFound));
    assert_eq!(snapshot(&users), before);
}

#[test]
fn a_deleted_user_is_gone_with_all_its_games() {
    let mut users = two_users();
    assert_eq!(delete_user(&mut users, "Alice"), Ok(()));
    assert_eq!(snapshot(&users), vec![("Q".to_string(), vec![("Tekken 8".to_string(), 250)])]);
    assert_eq!(delete_user(&mut users, "Alice"), Err(StoreError::UserNotFound));
    assert_eq!(delete_user(&mut users, "Q"), Ok(()));
    assert!(users.is_empty());
}

#[test]
fn a_deleted_user_can_join_again() {
    let mut users = two_users();
    delete_user(&mut users, "Q").unwrap();
    assert_eq!(add_user(&mut users, "Q", "Go", "1"), Ok(()));
    assert_eq!(names(&users), vec!["Alice", "Q"]);
}

#[test]
fn get_users_copies_the_ledger() {
    let users = two_users();
    let mut copy = get_users(&users).unwrap();
    assert_eq!(snapshot(&copy), snapshot(&users));
    delete_user(&mut copy, "Q").unwrap();
    assert_eq!(names(&users), vec!["Q", "Alice"]);
    let none: Vec<User> = Vec::new();
    assert!(get_users(&none).unwrap().is_empty());
}

#[test]
fn get_user_games_gives_the_games_of_that_user() {
    let users = two_users();
    assert_eq!(
        games_of(&users, "Alice"),
        vec![("Street Fighter 6".to_string(), 150), ("Chess".to_string(), -20)]
    );
    assert!(matches!(get_user_games(&users, "Ghost"), Err(StoreError::UserNotFound)));
}

#[test]
fn unknown_user_and_unknown_game_are_told_apart() {
    let users = two_users();
    assert_eq!(get_game_total(&users, "Ghost", "Anything"), Err(StoreError::UserNotFound));
    assert_eq!(get_game_total(&users, "Q", "NoSuchGame"), Err(StoreError::GameNotFound));
}

#[test]
fn names_are_compared_exactly() {
    let users = two_users();
    assert_eq!(get_game_total(&users, "q", "Tekken 8"), Err(StoreError::UserNotFound));
    assert_eq!(get_game_total(&users, "Q", "tekken 8"), Err(StoreError::GameNotFound));
    assert_eq!(get_game_total(&users, "Q ", "Tekken 8"), Err(StoreError::UserNotFound));
    assert_eq!(get_game_total(&users, "", "Tekken 8"), Err(StoreError::UserNotFound));
}

#[test]
fn the_user_total_adds_all_games() {
    let users = two_users();
    assert_eq!(get_user_total_all_games(&users, "Alice"), Ok(130));
    assert_eq!(get_user_total_all_games(&users, "Q"), Ok(250));
    assert_eq!(get_user_total_all_games(&users, "Ghost"), Err(StoreError::UserNotFound));
}

#[test]
fn a_user_without_games_has_the_total_zero() {
    let users = vec![User { user: "Empty".to_string(), games: shamebot::Games::new() }];
    assert_eq!(get_user_total_all_games(&users, "Empty"), Ok(0));
}

#[test]
fn a_user_total_that_leaves_the_range_is_refused() {
    let mut users = Vec::new();
    add_user(&mut users, "Q", "a", "2147483647").unwrap();
    assert_eq!(get_user_total_all_games(&users, "Q"), Ok(i32::MAX));
    add_game(&mut users, "Q", "b", "1").unwrap();
    assert_eq!(get_user_total_all_games(&users, "Q"), Err(StoreError::TotalOutOfRange));
    add_game(&mut users, "Q", "c", "-1").unwrap();
    assert_eq!(get_user_total_all_games(&users, "Q"), Ok(i32::MAX));
    let mut low = Vec::new();
    add_user(&mut low, "Q", "a", "-2147483648").unwrap();
    add_game(&mut low, "Q", "b", "-1").unwrap();
    assert_eq!(get_user_total_all_games(&low, "Q"), Err(StoreError::TotalOutOfRange));
}

#[test]
fn with_two_users_of_one_name_the_first_answers() {
    let mut first = shamebot::Games::new();
    first.insert("Go".to_string(), 1);
    let mut second = shamebot::Games::new();
    second.insert("Go".to_string(), 2);
    let mut users = vec![
        User { user: "Q".to_string(), games: first },
        User { user: "Q".to_string(), games: second },
    ];
    assert_eq!(get_game_total(&users, "Q", "Go"), Ok(1));
    assert_eq!(update_total(&mut users, "Q", "Go", "10"), Ok((11, false)));
    assert_eq!(
        snapshot(&users),
        vec![
            ("Q".to_string(), vec![("Go".to_string(), 11)]),
            ("Q".to_string(), vec![("Go".to_string(), 2)]),
        ]
    );
    assert_eq!(delete_user(&mut users, "Q"), Ok(()));
    assert!(users.is_empty());
}
