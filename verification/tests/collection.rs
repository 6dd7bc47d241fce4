use gamelog::catalog::upsert_game;
use gamelog::collection::{
    add_game, add_game_at, add_user_game, assert_owner, edit_game, get_user_game_by_id,
    get_user_game_by_user_id_and_game_id, get_user_games, get_user_games_with_names,
    update_user_game, update_user_game_state, upsert_user_game,
};
use gamelog::error::ErrorKind;
use gamelog::model::{Game, NewUserGame, UserGame};
use gamelog::play_state::{
    are_valid_enum_values, get_play_states, is_valid_platform, is_valid_play_state, Platform,
};
use gamelog::session::Session;
use gamelog::store::Store;

/// Checks the constraints of the tables once more, on a copy.
fn holds_valid_tables(store: &Store) -> bool {
    Store::from_tables(
        store.users().clone(),
        store.credentials().clone(),
        store.games().clone(),
        store.user_games().clone(),
    )
    .is_some()
}

fn platforms() -> Vec<Platform> {
    vec![
        Platform { name: "Personal Computer".to_string(), short_name: "PC".to_string(), slug: "pc".to_string() },
        Platform { name: "Nintendo Switch".to_string(), short_name: "Switch".to_string(), slug: "switch".to_string() },
    ]
}

fn record(user_id: i64, game_id: i64, play_state: &str, platform: &str, acquired: i64) -> NewUserGame {
    NewUserGame {
        game_id,
        user_id,
        play_state: play_state.to_string(),
        platform: platform.to_string(),
        acquisition_date: acquired,
        start_date: None,
        beat_date: None,
    }
}

#[test]
fn the_play_states_are_the_eight_values_in_order() {
    let states = get_play_states();
    let values: Vec<&str> = states.iter().map(|s| s.value).collect();
    let labels: Vec<&str> = states.iter().map(|s| s.display).collect();
    assert_eq!(
        values,
        vec![
            "unplayed", "unfinished", "beaten", "completed", "100_percent", "wont_beat",
            "multiplayer", "null"
        ]
    );
    assert_eq!(
        labels,
        vec![
            "Unplayed", "Unfinished", "Beaten", "Completed", "100%", "Won't Beat", "Multiplayer",
            "Null"
        ]
    );
}

#[test]
fn play_states_and_platforms_are_checked_against_their_lists() {
    for state in get_play_states() {
        assert!(is_valid_play_state(&state.value.to_string()));
    }
    assert!(!is_valid_play_state(&"completedish".to_string()));
    assert!(!is_valid_play_state(&"Beaten".to_string()));
    assert!(!is_valid_play_state(&"".to_string()));
    assert!(is_valid_platform(&"pc".to_string(), &platforms()));
    assert!(is_valid_platform(&"switch".to_string(), &platforms()));
    assert!(!is_valid_platform(&"PC".to_string(), &platforms()));
    assert!(!is_valid_platform(&"pc".to_string(), &vec![]));
    assert!(are_valid_enum_values(&"null".to_string(), &"pc".to_string(), &platforms()));
    assert!(!are_valid_enum_values(&"null".to_string(), &"amiga".to_string(), &platforms()));
    assert!(!are_valid_enum_values(&"nil".to_string(), &"pc".to_string(), &platforms()));
}

#[test]
fn upsert_user_game_twice_leaves_one_row_with_the_second_fields() {
    let mut store = Store::new();
    assert_eq!(upsert_user_game(&mut store, record(1, 7, "unplayed", "pc", 100)), Ok(()));
    let second = NewUserGame {
        game_id: 7,
        user_id: 1,
        play_state: "beaten".to_string(),
        platform: "switch".to_string(),
        acquisition_date: 200,
        start_date: Some(150),
        beat_date: Some(180),
    };
    assert_eq!(upsert_user_game(&mut store, second), Ok(()));
    assert_eq!(store.user_games().len(), 1);
    let row = get_user_game_by_user_id_and_game_id(&store, 1, 7).unwrap();
    assert_eq!(row.id, 1);
    assert_eq!(row.play_state, "beaten");
    assert_eq!(row.platform, "switch");
    assert_eq!(row.acquisition_date, 200);
    assert_eq!(row.start_date, Some(150));
    assert_eq!(row.beat_date, Some(180));
    assert!(holds_valid_tables(&store));
}

#[test]
fn upsert_user_game_keeps_other_pairs_apart() {
    let mut store = Store::new();
    upsert_user_game(&mut store, record(1, 7, "unplayed", "pc", 100)).unwrap();
    upsert_user_game(&mut store, record(2, 7, "beaten", "pc", 100)).unwrap();
    upsert_user_game(&mut store, record(1, 8, "null", "pc", 100)).unwrap();
    upsert_user_game(&mut store, record(2, 7, "completed", "pc", 300)).unwrap();
    assert_eq!(store.user_games().len(), 3);
    assert_eq!(get_user_game_by_id(&store, 2).unwrap().play_state, "completed");
    assert_eq!(get_user_game_by_id(&store, 1).unwrap().play_state, "unplayed");
    assert_eq!(get_user_games(&store, 1).unwrap().len(), 2);
    assert_eq!(get_user_games(&store, 2).unwrap().len(), 1);
    assert_eq!(get_user_games(&store, 3).unwrap().len(), 0);
}

#[test]
fn add_game_rejects_values_outside_the_lists_without_writing() {
    let mut store = Store::new();
    assert_eq!(
        add_game(&mut store, 1, "Celeste".to_string(), "completedish".to_string(), "pc".to_string(), &platforms()),
        Err(ErrorKind::InvalidEnumValue)
    );
    assert_eq!(
        add_game(&mut store, 1, "Celeste".to_string(), "beaten".to_string(), "amiga".to_string(), &platforms()),
        Err(ErrorKind::InvalidEnumValue)
    );
    assert_eq!(store.games().len(), 0);
    assert_eq!(store.user_games().len(), 0);
}

#[test]
fn add_game_at_records_the_time_and_no_progress() {
    let mut store = Store::new();
    assert_eq!(
        add_game_at(&mut store, 4, "Celeste".to_string(), "beaten".to_string(), "pc".to_string(), &platforms(), 1_500_000_000),
        Ok(())
    );
    let row = get_user_game_by_id(&store, 1).unwrap();
    assert_eq!((row.user_id, row.game_id), (4, 1));
    assert_eq!(row.acquisition_date, 1_500_000_000);
    assert_eq!((row.start_date, row.beat_date), (None, None));
    assert_eq!(store.games()[0].name, "Celeste");
}

#[test]
fn add_game_stamps_the_current_time() {
    let mut store = Store::new();
    add_game(&mut store, 1, "Celeste".to_string(), "beaten".to_string(), "pc".to_string(), &platforms())
        .unwrap();
    // After 2017, and not in a far future.
    let acquired = store.user_games()[0].acquisition_date;
    assert!(acquired > 1_483_228_800 && acquired < 32_503_680_000);
}

#[test]
fn adding_a_game_twice_is_refused_by_the_store() {
    let mut store = Store::new();
    add_game_at(&mut store, 1, "Celeste".to_string(), "beaten".to_string(), "pc".to_string(), &platforms(), 5).unwrap();
    assert_eq!(
        add_game_at(&mut store, 1, "Celeste".to_string(), "unplayed".to_string(), "pc".to_string(), &platforms(), 6),
        Err(ErrorKind::StorageFailure)
    );
    assert_eq!(store.user_games().len(), 1);
    assert_eq!(store.user_games()[0].play_state, "beaten");
    // Another user may have the same game.
    assert_eq!(
        add_game_at(&mut store, 2, "Celeste".to_string(), "unplayed".to_string(), "pc".to_string(), &platforms(), 6),
        Ok(())
    );
    assert_eq!(store.games().len(), 1);
}

#[test]
fn add_user_game_validates_before_it_inserts() {
    let mut store = Store::new();
    assert_eq!(
        add_user_game(&mut store, record(1, 1, "played", "pc", 0), &platforms()),
        Err(ErrorKind::InvalidEnumValue)
    );
    assert_eq!(
        add_user_game(&mut store, record(1, 1, "unplayed", "dreamcast", 0), &platforms()),
        Err(ErrorKind::InvalidEnumValue)
    );
    assert_eq!(store.user_games().len(), 0);
    assert_eq!(add_user_game(&mut store, record(1, 1, "unplayed", "pc", 0), &platforms()), Ok(()));
    assert_eq!(
        add_user_game(&mut store, record(1, 1, "beaten", "pc", 0), &platforms()),
        Err(ErrorKind::StorageFailure)
    );
    assert_eq!(store.user_games().len(), 1);
}

#[test]
fn edit_game_by_another_user_is_forbidden_and_changes_nothing() {
    let mut store = Store::new();
    add_game_at(&mut store, 1, "Celeste".to_string(), "beaten".to_string(), "pc".to_string(), &platforms(), 5).unwrap();
    assert_eq!(
        edit_game(&mut store, 1, 2, "completed".to_string(), "switch".to_string(), &platforms()),
        Err(ErrorKind::Forbidden)
    );
    assert_eq!(
        edit_game(&mut store, 1, 2, "completedish".to_string(), "switch".to_string(), &platforms()),
        Err(ErrorKind::Forbidden)
    );
    let row = get_user_game_by_id(&store, 1).unwrap();
    assert_eq!((row.play_state.as_str(), row.platform.as_str()), ("beaten", "pc"));
}

#[test]
fn edit_game_by_the_owner_changes_state_and_platform_only() {
    let mut store = Store::new();
    add_game_at(&mut store, 1, "Celeste".to_string(), "beaten".to_string(), "pc".to_string(), &platforms(), 5).unwrap();
    assert_eq!(
        edit_game(&mut store, 1, 1, "completed".to_string(), "switch".to_string(), &platforms()),
        Ok(())
    );
    let row = get_user_game_by_id(&store, 1).unwrap();
    assert_eq!((row.play_state.as_str(), row.platform.as_str()), ("completed", "switch"));
    assert_eq!((row.id, row.user_id, row.game_id, row.acquisition_date), (1, 1, 1, 5));
    assert_eq!(
        edit_game(&mut store, 1, 1, "completedish".to_string(), "switch".to_string(), &platforms()),
        Err(ErrorKind::InvalidEnumValue)
    );
    assert_eq!(
        edit_game(&mut store, 1, 1, "completed".to_string(), "amiga".to_string(), &platforms()),
        Err(ErrorKind::InvalidEnumValue)
    );
    assert_eq!(
        edit_game(&mut store, 9, 1, "completed".to_string(), "pc".to_string(), &platforms()),
        Err(ErrorKind::NotFound)
    );
    assert_eq!(get_user_game_by_id(&store, 1).unwrap().play_state, "completed");
}

#[test]
fn assert_owner_is_the_gate() {
    let row = UserGame {
        id: 3,
        game_id: 1,
        user_id: 2,
        play_state: "null".to_string(),
        platform: "pc".to_string(),
        acquisition_date: 0,
        start_date: None,
        beat_date: None,
    };
    assert_eq!(assert_owner(&Session { user_id: 2 }, &row), Ok(()));
    assert_eq!(assert_owner(&Session { user_id: 1 }, &row), Err(ErrorKind::Forbidden));
}

#[test]
fn update_user_game_overwrites_by_id_and_keeps_the_keys() {
    let mut store = Store::new();
    upsert_user_game(&mut store, record(1, 7, "unplayed", "pc", 100)).unwrap();
    let change = UserGame {
        id: 1,
        game_id: 99,
        user_id: 99,
        play_state: "wont_beat".to_string(),
        platform: "switch".to_string(),
        acquisition_date: 7,
        start_date: Some(8),
        beat_date: Some(9),
    };
    assert_eq!(update_user_game(&mut store, change), Ok(()));
    let row = get_user_game_by_id(&store, 1).unwrap();
    assert_eq!((row.user_id, row.game_id), (1, 7));
    assert_eq!((row.play_state.as_str(), row.platform.as_str()), ("wont_beat", "switch"));
    assert_eq!((row.acquisition_date, row.start_date, row.beat_date), (7, Some(8), Some(9)));
    let missing = UserGame {
        id: 5,
        game_id: 7,
        user_id: 1,
        play_state: "null".to_string(),
        platform: "pc".to_string(),
        acquisition_date: 0,
        start_date: None,
        beat_date: None,
    };
    assert_eq!(update_user_game(&mut store, missing), Ok(()));
    assert_eq!(store.user_games().len(), 1);
    assert_eq!(get_user_game_by_id(&store, 1).unwrap().play_state, "wont_beat");
}

#[test]
fn update_user_game_state_needs_an_existing_record() {
    let mut store = Store::new();
    upsert_user_game(&mut store, record(1, 7, "unplayed", "pc", 100)).unwrap();
    assert_eq!(
        update_user_game_state(&mut store, 2, "beaten".to_string(), "pc".to_string()),
        Err(ErrorKind::NotFound)
    );
    assert_eq!(
        update_user_game_state(&mut store, 1, "beaten".to_string(), "switch".to_string()),
        Ok(())
    );
    let row = get_user_game_by_id(&store, 1).unwrap();
    assert_eq!((row.play_state.as_str(), row.platform.as_str(), row.acquisition_date), ("beaten", "switch", 100));
}

#[test]
fn the_collection_pairs_each_record_with_its_own_game() {
    let mut store = Store::new();
    upsert_game(&mut store, "Alpha".to_string()).unwrap();
    upsert_game(&mut store, "Beta".to_string()).unwrap();
    upsert_game(&mut store, "Gamma".to_string()).unwrap();
    // Added in the order Gamma, Alpha; another user's Beta in between.
    upsert_user_game(&mut store, record(1, 3, "beaten", "pc", 1)).unwrap();
    upsert_user_game(&mut store, record(2, 2, "null", "pc", 2)).unwrap();
    upsert_user_game(&mut store, record(1, 1, "unplayed", "pc", 3)).unwrap();
    let collection = get_user_games_with_names(&store, 1).unwrap();
    let listed: Vec<(&str, i64, &str)> =
        collection.iter().map(|(name, row)| (name.as_str(), row.game_id, row.play_state.as_str())).collect();
    assert_eq!(listed, vec![("Gamma", 3, "beaten"), ("Alpha", 1, "unplayed")]);
    assert_eq!(get_user_games_with_names(&store, 3).unwrap().len(), 0);
}

#[test]
fn the_collection_leaves_out_records_without_a_game() {
    let mut store = Store::new();
    upsert_game(&mut store, "Alpha".to_string()).unwrap();
    upsert_user_game(&mut store, record(1, 5, "beaten", "pc", 1)).unwrap();
    upsert_user_game(&mut store, record(1, 1, "unplayed", "pc", 3)).unwrap();
    let collection = get_user_games_with_names(&store, 1).unwrap();
    assert_eq!(collection.len(), 1);
    assert_eq!(collection[0].0, "Alpha");
    assert_eq!(get_user_games(&store, 1).unwrap().len(), 2);
}

#[test]
fn a_full_collection_table_refuses_a_new_record() {
    let last = UserGame {
        id: i64::MAX,
        game_id: 1,
        user_id: 1,
        play_state: "null".to_string(),
        platform: "pc".to_string(),
        acquisition_date: 0,
        start_date: None,
        beat_date: None,
    };
    let mut store = Store::from_tables(
        vec![],
        vec![],
        vec![Game { id: 1, name: "Alpha".to_string(), steam_id: None }],
        vec![last],
    )
    .unwrap();
    assert_eq!(
        upsert_user_game(&mut store, record(2, 1, "null", "pc", 0)),
        Err(ErrorKind::StorageFailure)
    );
    assert_eq!(upsert_user_game(&mut store, record(1, 1, "beaten", "pc", 0)), Ok(()));
    assert_eq!(store.user_games().len(), 1);
    assert_eq!(store.user_games()[0].play_state, "beaten");
}

#[test]
fn edit_game_tests_the_values_before_it_looks_for_the_record() {
    let mut store = Store::new();
    add_game_at(&mut store, 1, "Celeste".to_string(), "beaten".to_string(), "pc".to_string(), &platforms(), 5).unwrap();
    // No record has the id 9: values outside the lists are refused as such.
    assert_eq!(
        edit_game(&mut store, 9, 1, "completedish".to_string(), "pc".to_string(), &platforms()),
        Err(ErrorKind::InvalidEnumValue)
    );
    assert_eq!(
        edit_game(&mut store, 9, 1, "completed".to_string(), "amiga".to_string(), &platforms()),
        Err(ErrorKind::InvalidEnumValue)
    );
    assert_eq!(
        edit_game(&mut store, 9, 2, "nil".to_string(), "amiga".to_string(), &platforms()),
        Err(ErrorKind::InvalidEnumValue)
    );
    // With values inside the lists the missing record is reported.
    assert_eq!(
        edit_game(&mut store, 9, 1, "completed".to_string(), "switch".to_string(), &platforms()),
        Err(ErrorKind::NotFound)
    );
    // Another user's record is forbidden before the values are looked at.
    assert_eq!(
        edit_game(&mut store, 1, 2, "completedish".to_string(), "amiga".to_string(), &platforms()),
        Err(ErrorKind::Forbidden)
    );
    assert_eq!(store.user_games().len(), 1);
    let row = get_user_game_by_id(&store, 1).unwrap();
    assert_eq!((row.play_state.as_str(), row.platform.as_str()), ("beaten", "pc"));
}
