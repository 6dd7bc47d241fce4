use gamelog::auth::{conclude_login, login, register, signup};
use gamelog::collection::{add_game, get_user_games_with_names};
use gamelog::error::ErrorKind;
use gamelog::model::{LoginInfo, UserSignupInfo};
use gamelog::play_state::Platform;
use gamelog::store::Store;
use gamelog::users::{
    get_all_users, get_user_by_id, get_user_by_name, get_user_from_email, get_user_from_session,
    get_user_from_username_or_email, update_settings, update_steam_id, update_username,
};
use gamelog::session::Session;

/// Checks the constraints of the tables once more, on a copy.
fn holds_valid_tables(store: &Store) -> bool {
    Store::from_tables(
        store.users().clone(),
        store.credentials().clone(),
        store.games().clone(),
        store.user_games().clone(),
    )
    .is_some()
}

fn signup_info(username: &str, email: &str, password: &str) -> UserSignupInfo {
    UserSignupInfo {
        username: username.to_string(),
        email: email.to_string(),
        password: password.to_string(),
    }
}

fn login_info(identifier: &str, password: &str) -> LoginInfo {
    LoginInfo { username_or_email: identifier.to_string(), password: password.to_string() }
}

fn platforms() -> Vec<Platform> {
    vec![
        Platform { name: "Personal Computer".to_string(), short_name: "PC".to_string(), slug: "pc".to_string() },
        Platform { name: "Nintendo Switch".to_string(), short_name: "Switch".to_string(), slug: "switch".to_string() },
    ]
}

/// Registers an account with a hash and a salt written down here, so that no
/// hashing is needed.
fn enroll(store: &mut Store, username: &str, email: &str) -> Result<i64, ErrorKind> {
    register(
        store,
        signup_info(username, email, "unused"),
        "not a hash".to_string(),
        "AB12".to_string(),
    )
}

#[test]
fn signup_then_login_returns_the_same_id() {
    let mut store = Store::new();
    let id = signup(&mut store, signup_info("alice", "a@x.com", "pw1")).unwrap();
    assert_eq!(id, 1);
    assert_eq!(login(&store, login_info("alice", "pw1")), Ok(1));
    assert_eq!(login(&store, login_info("a@x.com", "pw1")), Ok(1));
}

#[test]
fn login_with_a_changed_password_is_invalid_credentials() {
    let mut store = Store::new();
    signup(&mut store, signup_info("alice", "a@x.com", "pw1")).unwrap();
    assert_eq!(login(&store, login_info("alice", "pw2")), Err(ErrorKind::InvalidCredentials));
    assert_eq!(login(&store, login_info("alice", "Pw1")), Err(ErrorKind::InvalidCredentials));
}

#[test]
fn end_to_end_signup_login_add_and_list() {
    let mut store = Store::new();
    assert_eq!(signup(&mut store, signup_info("alice", "a@x.com", "pw1")), Ok(1));
    assert_eq!(login(&store, login_info("alice", "pw1")), Ok(1));
    assert_eq!(login(&store, login_info("a@x.com", "pw1")), Ok(1));
    assert_eq!(
        add_game(
            &mut store,
            1,
            "Celeste".to_string(),
            "beaten".to_string(),
            "pc".to_string(),
            &platforms()
        ),
        Ok(())
    );
    assert_eq!(store.user_games().len(), 1);
    let collection = get_user_games_with_names(&store, 1).unwrap();
    assert_eq!(collection.len(), 1);
    assert_eq!(collection[0].0, "Celeste");
    assert_eq!(collection[0].1.play_state, "beaten");
    assert_eq!(collection[0].1.platform, "pc");
    assert_eq!(collection[0].1.user_id, 1);
    assert_eq!(collection[0].1.game_id, 1);
    assert_eq!(collection[0].1.start_date, None);
    assert_eq!(collection[0].1.beat_date, None);
}

#[test]
fn signup_stores_one_credential_with_a_fresh_salt() {
    let mut store = Store::new();
    signup(&mut store, signup_info("alice", "a@x.com", "pw1")).unwrap();
    assert_eq!(store.users().len(), 1);
    assert_eq!(store.credentials().len(), 1);
    let credential = &store.credentials()[0];
    assert_eq!(credential.user_id, 1);
    assert_eq!(credential.id, 1);
    assert!(credential.salt.len() >= 16 && credential.salt.len() <= 32);
    assert!(credential.salt.chars().all(|c| "0123456789ABCDEF".contains(c)));
    assert_ne!(credential.salt, "0000000000000000");
    assert!(credential.password_hash.starts_with("$2"));
    assert_eq!(credential.password_hash.len(), 60);
    assert_ne!(credential.password_hash, format!("pw1{}", credential.salt));
    assert!(holds_valid_tables(&store));
}

#[test]
fn signup_with_a_taken_username_or_email_is_duplicate_identity() {
    let mut store = Store::new();
    assert_eq!(enroll(&mut store, "alice", "a@x.com"), Ok(1));
    assert_eq!(
        signup(&mut store, signup_info("alice", "other@x.com", "pw")),
        Err(ErrorKind::DuplicateIdentity)
    );
    assert_eq!(
        signup(&mut store, signup_info("bob", "a@x.com", "pw")),
        Err(ErrorKind::DuplicateIdentity)
    );
    assert_eq!(store.users().len(), 1);
    assert_eq!(store.credentials().len(), 1);
}

#[test]
fn register_gives_ids_in_order_and_keeps_hash_and_salt() {
    let mut store = Store::new();
    assert_eq!(enroll(&mut store, "alice", "a@x.com"), Ok(1));
    assert_eq!(enroll(&mut store, "bob", "b@x.com"), Ok(2));
    assert_eq!(enroll(&mut store, "bob", "c@x.com"), Err(ErrorKind::DuplicateIdentity));
    assert_eq!(enroll(&mut store, "carol", "c@x.com"), Ok(3));
    let users = get_all_users(&store).unwrap();
    assert_eq!(users.len(), 3);
    assert_eq!(users[1].username, "bob");
    assert_eq!(users[1].email, "b@x.com");
    assert_eq!(users[1].steam_id, None);
    let credential = &store.credentials()[2];
    assert_eq!((credential.id, credential.user_id), (3, 3));
    assert_eq!(credential.password_hash, "not a hash");
    assert_eq!(credential.salt, "AB12");
}

#[test]
fn login_of_an_unknown_identity_is_not_found() {
    let mut store = Store::new();
    enroll(&mut store, "alice", "a@x.com").unwrap();
    assert_eq!(login(&store, login_info("nobody", "pw1")), Err(ErrorKind::NotFound));
    assert_eq!(login(&Store::new(), login_info("alice", "pw1")), Err(ErrorKind::NotFound));
}

#[test]
fn login_against_a_malformed_hash_is_invalid_credentials() {
    let mut store = Store::new();
    enroll(&mut store, "alice", "a@x.com").unwrap();
    assert_eq!(login(&store, login_info("alice", "unused")), Err(ErrorKind::InvalidCredentials));
}

#[test]
fn login_prefers_the_username_over_the_email() {
    let mut store = Store::new();
    // bob's username is alice's email address: the identifier resolves to bob.
    assert_eq!(signup(&mut store, signup_info("alice", "shared", "pw-alice")), Ok(1));
    assert_eq!(enroll(&mut store, "shared", "b@x.com"), Ok(2));
    assert_eq!(get_user_from_username_or_email(&store, "shared".to_string()).unwrap().id, 2);
    assert_eq!(
        login(&store, login_info("shared", "pw-alice")),
        Err(ErrorKind::InvalidCredentials)
    );
    assert_eq!(login(&store, login_info("alice", "pw-alice")), Ok(1));
}

#[test]
fn conclude_login_accepts_only_a_positive_verdict() {
    assert_eq!(conclude_login(7, Some(true)), Ok(7));
    assert_eq!(conclude_login(7, Some(false)), Err(ErrorKind::InvalidCredentials));
    assert_eq!(conclude_login(7, None), Err(ErrorKind::InvalidCredentials));
}

#[test]
fn failed_logins_are_shown_alike() {
    assert_eq!(ErrorKind::NotFound.shown_to_client(), ErrorKind::InvalidCredentials);
    assert_eq!(ErrorKind::InvalidCredentials.shown_to_client(), ErrorKind::InvalidCredentials);
    assert_eq!(ErrorKind::CryptoFailure.shown_to_client(), ErrorKind::CryptoFailure);
    assert_eq!(ErrorKind::Forbidden.shown_to_client(), ErrorKind::Forbidden);
}

#[test]
fn users_are_found_by_id_name_and_email() {
    let mut store = Store::new();
    enroll(&mut store, "alice", "a@x.com").unwrap();
    enroll(&mut store, "bob", "b@x.com").unwrap();
    assert_eq!(get_user_by_id(&store, 2).unwrap().username, "bob");
    assert_eq!(get_user_by_name(&store, "alice".to_string()).unwrap().id, 1);
    assert_eq!(get_user_from_email(&store, "b@x.com".to_string()).unwrap().id, 2);
    assert_eq!(get_user_from_username_or_email(&store, "a@x.com".to_string()).unwrap().id, 1);
    assert_eq!(get_user_from_session(&store, &Session { user_id: 1 }).unwrap().username, "alice");
    assert_eq!(get_user_by_id(&store, 3).err(), Some(ErrorKind::NotFound));
    assert_eq!(get_user_by_name(&store, "Alice".to_string()).err(), Some(ErrorKind::NotFound));
    assert_eq!(get_user_from_email(&store, "alice".to_string()).err(), Some(ErrorKind::NotFound));
    assert_eq!(
        get_user_from_username_or_email(&store, "carol".to_string()).err(),
        Some(ErrorKind::NotFound)
    );
    assert_eq!(
        get_user_from_session(&store, &Session { user_id: 9 }).err(),
        Some(ErrorKind::NotFound)
    );
}

#[test]
fn update_username_renames_and_refuses_a_taken_name() {
    let mut store = Store::new();
    enroll(&mut store, "alice", "a@x.com").unwrap();
    enroll(&mut store, "bob", "b@x.com").unwrap();
    assert_eq!(update_username(&mut store, 1, "bob".to_string()), Err(ErrorKind::DuplicateIdentity));
    assert_eq!(get_user_by_id(&store, 1).unwrap().username, "alice");
    assert_eq!(update_username(&mut store, 1, "alice".to_string()), Ok(()));
    assert_eq!(update_username(&mut store, 1, "alicia".to_string()), Ok(()));
    let renamed = get_user_by_id(&store, 1).unwrap();
    assert_eq!(renamed.username, "alicia");
    assert_eq!(renamed.email, "a@x.com");
    assert_eq!(update_username(&mut store, 9, "ghost".to_string()), Ok(()));
    assert_eq!(get_user_by_name(&store, "ghost".to_string()).err(), Some(ErrorKind::NotFound));
    assert!(holds_valid_tables(&store));
}

#[test]
fn update_steam_id_sets_and_clears_the_external_account() {
    let mut store = Store::new();
    enroll(&mut store, "alice", "a@x.com").unwrap();
    assert_eq!(update_steam_id(&mut store, 1, Some("76561197976392138".to_string())), Ok(()));
    assert_eq!(
        get_user_by_id(&store, 1).unwrap().steam_id,
        Some("76561197976392138".to_string())
    );
    assert_eq!(update_steam_id(&mut store, 1, None), Ok(()));
    assert_eq!(get_user_by_id(&store, 1).unwrap().steam_id, None);
    assert_eq!(update_steam_id(&mut store, 5, Some("1".to_string())), Ok(()));
    assert_eq!(store.users().len(), 1);
}

#[test]
fn update_settings_treats_an_empty_account_as_none() {
    let mut store = Store::new();
    enroll(&mut store, "alice", "a@x.com").unwrap();
    enroll(&mut store, "bob", "b@x.com").unwrap();
    let session = Session { user_id: 1 };
    assert_eq!(update_settings(&mut store, &session, "alicia".to_string(), "42".to_string()), Ok(()));
    let user = get_user_by_id(&store, 1).unwrap();
    assert_eq!((user.username.as_str(), user.steam_id), ("alicia", Some("42".to_string())));
    assert_eq!(update_settings(&mut store, &session, "alicia".to_string(), "".to_string()), Ok(()));
    assert_eq!(get_user_by_id(&store, 1).unwrap().steam_id, None);
    assert_eq!(
        update_settings(&mut store, &session, "bob".to_string(), "43".to_string()),
        Err(ErrorKind::DuplicateIdentity)
    );
    let user = get_user_by_id(&store, 1).unwrap();
    assert_eq!((user.username.as_str(), user.steam_id), ("alicia", None));
}

#[test]
fn the_verifier_reads_no_more_than_72_bytes() {
    let mut store = Store::new();
    signup(&mut store, signup_info("alice", "a@x.com", &"a".repeat(80))).unwrap();
    // A change in the first byte is seen, one behind the 72nd is not.
    let changed_early = format!("b{}", "a".repeat(79));
    assert_eq!(
        login(&store, login_info("alice", &changed_early)),
        Err(ErrorKind::InvalidCredentials)
    );
    let changed_late = format!("{}b", "a".repeat(79));
    assert_eq!(login(&store, login_info("alice", &changed_late)), Ok(1));
}
