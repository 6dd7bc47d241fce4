use gamelog::model::{Game, User, UserGame, UserPrivate};
use gamelog::store::Store;
use gamelog::validate::{is_increasing, users_valid};

/// Checks the constraints of the tables once more, on a copy.
fn holds_valid_tables(store: &Store) -> bool {
    Store::from_tables(
        store.users().clone(),
        store.credentials().clone(),
        store.games().clone(),
        store.user_games().clone(),
    )
    .is_some()
}

fn user(id: i64, username: &str, email: &str) -> User {
    User { id, username: username.to_string(), email: email.to_string(), steam_id: None }
}

fn credential(id: i64, user_id: i64) -> UserPrivate {
    UserPrivate { id, user_id, password_hash: "h".to_string(), salt: "s".to_string() }
}

fn game(id: i64, name: &str, steam_id: Option<i64>) -> Game {
    Game { id, name: name.to_string(), steam_id }
}

fn record(id: i64, user_id: i64, game_id: i64) -> UserGame {
    UserGame {
        id,
        game_id,
        user_id,
        play_state: "null".to_string(),
        platform: "pc".to_string(),
        acquisition_date: 0,
        start_date: None,
        beat_date: None,
    }
}

#[test]
fn an_empty_store_is_valid_and_empty() {
    let store = Store::new();
    assert!(holds_valid_tables(&store));
    assert_eq!(store.users().len(), 0);
    assert_eq!(store.credentials().len(), 0);
    assert_eq!(store.games().len(), 0);
    assert_eq!(store.user_games().len(), 0);
}

#[test]
fn valid_tables_make_a_store_that_holds_them() {
    let store = Store::from_tables(
        vec![user(1, "alice", "a@x.com"), user(4, "bob", "b@x.com")],
        vec![credential(2, 1), credential(3, 4)],
        vec![game(1, "Hades", Some(10)), game(2, "Tunic", None), game(5, "Celeste", None)],
        vec![record(1, 1, 1), record(2, 4, 1), record(3, 1, 2)],
    )
    .unwrap();
    assert!(holds_valid_tables(&store));
    assert_eq!(store.users()[1].username, "bob");
    assert_eq!(store.credentials()[1].user_id, 4);
    assert_eq!(store.games()[2].name, "Celeste");
    assert_eq!(store.user_games()[2].game_id, 2);
}

#[test]
fn tables_that_break_a_constraint_make_no_store() {
    let users = || vec![user(1, "alice", "a@x.com"), user(2, "bob", "b@x.com")];
    let credentials = || vec![credential(1, 1), credential(2, 2)];
    assert!(Store::from_tables(users(), credentials(), vec![], vec![]).is_some());
    // usernames, emails
    assert!(Store::from_tables(
        vec![user(1, "alice", "a@x.com"), user(2, "alice", "b@x.com")],
        credentials(),
        vec![],
        vec![]
    )
    .is_none());
    assert!(Store::from_tables(
        vec![user(1, "alice", "a@x.com"), user(2, "bob", "a@x.com")],
        credentials(),
        vec![],
        vec![]
    )
    .is_none());
    // ids that do not grow
    assert!(Store::from_tables(
        vec![user(2, "alice", "a@x.com"), user(1, "bob", "b@x.com")],
        vec![credential(1, 2), credential(2, 1)],
        vec![],
        vec![]
    )
    .is_none());
    assert!(Store::from_tables(users(), vec![credential(1, 1), credential(1, 2)], vec![], vec![]).is_none());
    // a user without a credential, a credential of another user
    assert!(Store::from_tables(users(), vec![credential(1, 1)], vec![], vec![]).is_none());
    assert!(Store::from_tables(users(), vec![credential(1, 1), credential(2, 1)], vec![], vec![]).is_none());
    assert!(Store::from_tables(vec![], vec![credential(1, 1)], vec![], vec![]).is_none());
    // game names, external ids, ids
    assert!(Store::from_tables(vec![], vec![], vec![game(1, "A", None), game(2, "A", None)], vec![]).is_none());
    assert!(Store::from_tables(vec![], vec![], vec![game(1, "A", Some(3)), game(2, "B", Some(3))], vec![]).is_none());
    assert!(Store::from_tables(vec![], vec![], vec![game(1, "A", None), game(2, "B", None)], vec![]).is_some());
    assert!(Store::from_tables(vec![], vec![], vec![game(1, "A", None), game(1, "B", None)], vec![]).is_none());
    // one record per user and game
    assert!(Store::from_tables(vec![], vec![], vec![], vec![record(1, 1, 1), record(2, 1, 1)]).is_none());
    assert!(Store::from_tables(vec![], vec![], vec![], vec![record(1, 1, 1), record(2, 1, 2)]).is_some());
    assert!(Store::from_tables(vec![], vec![], vec![], vec![record(2, 1, 1), record(2, 2, 1)]).is_none());
}

#[test]
fn increasing_means_strictly_increasing() {
    assert!(is_increasing(&vec![]));
    assert!(is_increasing(&vec![5]));
    assert!(is_increasing(&vec![-3, 0, 7, i64::MAX]));
    assert!(!is_increasing(&vec![1, 1]));
    assert!(!is_increasing(&vec![1, 3, 2]));
    assert!(users_valid(&vec![user(1, "a", "a@x"), user(2, "b", "b@x")]));
    assert!(!users_valid(&vec![user(1, "a", "a@x"), user(2, "a", "b@x")]));
}
