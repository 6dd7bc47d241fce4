use gamelog::catalog::{get_game_by_steam_id, upsert_game};
use gamelog::collection::{get_user_game_by_user_id_and_game_id, get_user_games_with_names};
use gamelog::error::ErrorKind;
use gamelog::steam::{owned_games_url, sync, sync_at, sync_entry_at, OwnedGame};
use gamelog::store::Store;

/// Checks the constraints of the tables once more, on a copy.
fn holds_valid_tables(store: &Store) -> bool {
    Store::from_tables(
        store.users().clone(),
        store.credentials().clone(),
        store.games().clone(),
        store.user_games().clone(),
    )
    .is_some()
}

fn owned(appid: u64, name: &str, playtime: u64) -> OwnedGame {
    OwnedGame { appid, name: name.to_string(), playtime_forever: playtime }
}

fn hades_and_tunic() -> Vec<OwnedGame> {
    vec![owned(10, "Hades", 120), owned(11, "Tunic", 0)]
}

#[test]
fn sync_derives_play_state_and_start_from_playtime() {
    let mut store = Store::new();
    assert_eq!(sync_at(&mut store, 1, &hades_and_tunic(), &"pc".to_string(), 1000), Ok(()));
    let hades = get_game_by_steam_id(&store, 10).unwrap();
    let tunic = get_game_by_steam_id(&store, 11).unwrap();
    assert_eq!((hades.name.as_str(), tunic.name.as_str()), ("Hades", "Tunic"));
    let row = get_user_game_by_user_id_and_game_id(&store, 1, hades.id).unwrap();
    assert_eq!(row.play_state, "unfinished");
    assert_eq!(row.start_date, Some(1000));
    assert_eq!(row.acquisition_date, 1000);
    assert_eq!(row.beat_date, None);
    assert_eq!(row.platform, "pc");
    let row = get_user_game_by_user_id_and_game_id(&store, 1, tunic.id).unwrap();
    assert_eq!(row.play_state, "unplayed");
    assert_eq!(row.start_date, None);
    assert_eq!(row.beat_date, None);
}

#[test]
fn sync_again_produces_no_duplicate_rows() {
    let mut store = Store::new();
    sync_at(&mut store, 1, &hades_and_tunic(), &"pc".to_string(), 1000).unwrap();
    assert_eq!(sync_at(&mut store, 1, &hades_and_tunic(), &"pc".to_string(), 2000), Ok(()));
    assert_eq!(store.games().len(), 2);
    assert_eq!(store.user_games().len(), 2);
    let collection = get_user_games_with_names(&store, 1).unwrap();
    let listed: Vec<(&str, &str, Option<i64>)> = collection
        .iter()
        .map(|(name, row)| (name.as_str(), row.play_state.as_str(), row.start_date))
        .collect();
    assert_eq!(listed, vec![("Hades", "unfinished", Some(2000)), ("Tunic", "unplayed", None)]);
    assert!(holds_valid_tables(&store));
}

#[test]
fn sync_with_the_clock_sets_a_start_only_for_played_games() {
    let mut store = Store::new();
    assert_eq!(sync(&mut store, 1, &hades_and_tunic(), &"pc".to_string()), Ok(()));
    assert_eq!(sync(&mut store, 1, &hades_and_tunic(), &"pc".to_string()), Ok(()));
    assert_eq!(store.user_games().len(), 2);
    let rows = store.user_games();
    assert_eq!(rows[0].play_state, "unfinished");
    assert!(rows[0].start_date.is_some());
    assert_eq!(rows[0].start_date, Some(rows[0].acquisition_date));
    assert_eq!(rows[1].play_state, "unplayed");
    assert_eq!(rows[1].start_date, None);
}

#[test]
fn a_failing_entry_does_not_stop_the_entries_behind_it() {
    let mut store = Store::new();
    // "Tunic" exists without an external id, so the entry for it is refused.
    upsert_game(&mut store, "Tunic".to_string()).unwrap();
    let list = vec![owned(11, "Tunic", 5), owned(10, "Hades", 120)];
    assert_eq!(sync_at(&mut store, 1, &list, &"pc".to_string(), 1000), Err(ErrorKind::SyncError));
    assert_eq!(store.games().len(), 2);
    assert_eq!(store.user_games().len(), 1);
    let hades = get_game_by_steam_id(&store, 10).unwrap();
    assert_eq!(
        get_user_game_by_user_id_and_game_id(&store, 1, hades.id).unwrap().play_state,
        "unfinished"
    );
    assert_eq!(get_game_by_steam_id(&store, 11).err(), Some(ErrorKind::NotFound));
}

#[test]
fn one_entry_reports_its_own_failure() {
    let mut store = Store::new();
    upsert_game(&mut store, "Tunic".to_string()).unwrap();
    assert_eq!(
        sync_entry_at(&mut store, 1, &owned(11, "Tunic", 5), &"pc".to_string(), 1000),
        Err(ErrorKind::StorageFailure)
    );
    assert_eq!(
        sync_entry_at(&mut store, 1, &owned(12, "Celeste", 0), &"pc".to_string(), 1000),
        Ok(())
    );
    assert_eq!(store.user_games().len(), 1);
}

#[test]
fn an_empty_list_changes_nothing() {
    let mut store = Store::new();
    assert_eq!(sync_at(&mut store, 1, &vec![], &"pc".to_string(), 1000), Ok(()));
    assert_eq!(store.games().len(), 0);
    assert_eq!(store.user_games().len(), 0);
}

#[test]
fn the_same_game_twice_in_one_list_is_one_row() {
    let mut store = Store::new();
    let list = vec![owned(10, "Hades", 0), owned(10, "Hades", 30)];
    assert_eq!(sync_at(&mut store, 1, &list, &"pc".to_string(), 1000), Ok(()));
    assert_eq!(store.games().len(), 1);
    assert_eq!(store.user_games().len(), 1);
    assert_eq!(store.user_games()[0].play_state, "unfinished");
}

#[test]
fn the_owned_games_address_carries_key_and_account() {
    assert_eq!(
        owned_games_url("KEY", "76561197976392138"),
        "http://api.steampowered.com/IPlayerService/GetOwnedGames/v0001/?key=KEY&steamid=76561197976392138&include_appinfo=1&format=json"
    );
}
