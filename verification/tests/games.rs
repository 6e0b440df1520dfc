use shamebot::Games;

fn sample() -> Games {
    let mut games = Games::new();
    games.insert("Tekken 8".to_string(), 200);
    games.insert("Street Fighter 6".to_string(), 150);
    games.insert("Chess".to_string(), -20);
    games
}

fn listing(games: &Games) -> Vec<(String, i32)> {
    (0..games.len()).map(|i| (games.name_at(i).to_string(), games.total_at(i))).collect()
}

#[test]
fn a_new_table_is_empty() {
    let games = Games::new();
    assert!(games.is_empty());
    assert_eq!(games.len(), 0);
    assert_eq!(games.get("Tekken 8"), None);
    assert_eq!(games.sum(), Some(0));
}

#[test]
fn inserted_games_are_found() {
    let games = sample();
    assert_eq!(games.len(), 3);
    assert!(!games.is_empty());
    assert_eq!(games.get("Tekken 8"), Some(200));
    assert_eq!(games.get("Street Fighter 6"), Some(150));
    assert_eq!(games.get("Chess"), Some(-20));
    assert!(games.contains_key("Chess"));
    assert!(!games.contains_key("chess"));
    assert_eq!(games.get("Go"), None);
}

#[test]
fn games_are_listed_in_the_order_they_were_added() {
    assert_eq!(
        listing(&sample()),
        vec![
            ("Tekken 8".to_string(), 200),
            ("Street Fighter 6".to_string(), 150),
            ("Chess".to_string(), -20)
        ]
    );
}

#[test]
fn inserting_a_known_game_replaces_its_total_in_place() {
    let mut games = sample();
    assert_eq!(games.insert("Street Fighter 6".to_string(), 175), Some(150));
    assert_eq!(games.len(), 3);
    assert_eq!(
        listing(&games),
        vec![
            ("Tekken 8".to_string(), 200),
            ("Street Fighter 6".to_string(), 175),
            ("Chess".to_string(), -20)
        ]
    );
}

#[test]
fn inserting_a_new_game_returns_nothing() {
    let mut games = sample();
    assert_eq!(games.insert("Go".to_string(), 1), None);
    assert_eq!(games.get("Go"), Some(1));
    assert_eq!(games.len(), 4);
}

#[test]
fn a_removed_game_is_gone_and_the_others_stay() {
    let mut games = sample();
    assert_eq!(games.remove("Street Fighter 6"), Some(150));
    assert_eq!(games.get("Street Fighter 6"), None);
    assert_eq!(
        listing(&games),
        vec![("Tekken 8".to_string(), 200), ("Chess".to_string(), -20)]
    );
    assert_eq!(games.remove("Street Fighter 6"), None);
    assert_eq!(games.len(), 2);
}

#[test]
fn the_sum_adds_all_totals() {
    assert_eq!(sample().sum(), Some(330));
}

#[test]
fn a_sum_beyond_the_range_is_none() {
    let mut games = Games::new();
    games.insert("a".to_string(), i32::MAX);
    games.insert("b".to_string(), 1);
    assert_eq!(games.sum(), None);
    games.insert("c".to_string(), -1);
    assert_eq!(games.sum(), Some(i32::MAX));
    let mut low = Games::new();
    low.insert("a".to_string(), i32::MIN);
    low.insert("b".to_string(), -1);
    assert_eq!(low.sum(), None);
}

#[test]
fn a_copy_holds_the_same_games() {
    let games = sample();
    let mut copy = games.clone();
    assert_eq!(listing(&copy), listing(&games));
    copy.remove("Chess");
    assert_eq!(games.get("Chess"), Some(-20));
}
