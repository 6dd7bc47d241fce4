use vstd::prelude::*;
use crate::keys::{each_is_first, increasing, lemma_increasing_by_steps, lemma_present_unique_by_position, lemma_unique_by_position, position};
use crate::lookup::{game_index_by_name, game_index_by_steam_id, user_game_index_by_pair, user_index_by_email, user_index_by_name};
use crate::model::{Game, User, UserGame, UserPrivate, views};
use crate::store::{credential_ids, credential_user_ids, credentials_wf, emails, game_ids, game_names, game_steam_ids, games_wf, user_game_ids, user_game_pairs, user_games_wf, user_ids, usernames, users_wf};

verus! {

/// Whether each id is smaller than the next.
pub fn is_increasing(ids: &Vec<i64>) -> (r: bool)
    ensures
        r == increasing(ids@),
{
    let mut i: usize = 1;
    while i < ids.len()
        invariant
            1 <= i,
            forall|k: int| 0 <= k < i - 1 && k < ids@.len() - 1 ==> #[trigger] ids@[k] < ids@[k + 1],
        decreases ids.len() - i,
    {
        if ids[i - 1] >= ids[i] {
            return false;
        }
        i += 1;
    }
    proof {
        lemma_increasing_by_steps(ids@);
    }
    true
}

/// The ids of the users, row by row.
pub fn user_id_column(users: &Vec<User>) -> (r: Vec<i64>)
    ensures
        r@ == user_ids(views(users@)),
{
    let mut ids: Vec<i64> = Vec::new();
    let mut i: usize = 0;
    while i < users.len()
        invariant
            i <= users.len(),
            ids@ =~= user_ids(views(users@)).take(i as int),
        decreases users.len() - i,
    {
        ids.push(users[i].id);
        i += 1;
    }
    ids
}

/// The ids of the credentials, row by row.
pub fn credential_id_column(credentials: &Vec<UserPrivate>) -> (r: Vec<i64>)
    ensures
        r@ == credential_ids(views(credentials@)),
{
    let mut ids: Vec<i64> = Vec::new();
    let mut i: usize = 0;
    while i < credentials.len()
        invariant
            i <= credentials.len(),
            ids@ =~= credential_ids(views(credentials@)).take(i as int),
        decreases credentials.len() - i,
    {
        ids.push(credentials[i].id);
        i += 1;
    }
    ids
}

/// The ids of the games, row by row.
pub fn game_id_column(games: &Vec<Game>) -> (r: Vec<i64>)
    ensures
        r@ == game_ids(views(games@)),
{
    let mut ids: Vec<i64> = Vec::new();
    let mut i: usize = 0;
    while i < games.len()
        invariant
            i <= games.len(),
            ids@ =~= game_ids(views(games@)).take(i as int),
        decreases games.len() - i,
    {
        ids.push(games[i].id);
        i += 1;
    }
    ids
}

/// The ids of the collection records, row by row.
pub fn user_game_id_column(user_games: &Vec<UserGame>) -> (r: Vec<i64>)
    ensures
        r@ == user_game_ids(views(user_games@)),
{
    let mut ids: Vec<i64> = Vec::new();
    let mut i: usize = 0;
    while i < user_games.len()
        invariant
            i <= user_games.len(),
            ids@ =~= user_game_ids(views(user_games@)).take(i as int),
        decreases user_games.len() - i,
    {
        ids.push(user_games[i].id);
        i += 1;
    }
    ids
}

/// Whether no username occurs twice.
pub fn usernames_unique(users: &Vec<User>) -> (r: bool)
    ensures
        r == usernames(views(users@)).no_duplicates(),
{
    let ghost names = usernames(views(users@));
    let mut i: usize = 0;
    while i < users.len()
        invariant
            i <= users.len(),
            names == usernames(views(users@)),
            forall|k: int| 0 <= k < i ==> position(names, #[trigger] names[k]) == Some(k),
        decreases users.len() - i,
    {
        match user_index_by_name(users, &users[i].username) {
            Some(k) => if k != i {
                proof {
                    lemma_unique_by_position(names);
                    assert(position(names, names[i as int]) != Some(i as int));
                }
                return false;
            },
            None => {
                proof {
                    lemma_unique_by_position(names);
                    assert(position(names, names[i as int]) != Some(i as int));
                }
                return false;
            },
        }
        i += 1;
    }
    proof {
        lemma_unique_by_position(names);
        assert(each_is_first(names));
    }
    true
}

/// Whether no email address occurs twice.
pub fn emails_unique(users: &Vec<User>) -> (r: bool)
    ensures
        r == emails(views(users@)).no_duplicates(),
{
    let ghost addresses = emails(views(users@));
    let mut i: usize = 0;
    while i < users.len()
        invariant
            i <= users.len(),
            addresses == emails(views(users@)),
            forall|k: int| 0 <= k < i ==> position(addresses, #[trigger] addresses[k]) == Some(k),
        decreases users.len() - i,
    {
        match user_index_by_email(users, &users[i].email) {
            Some(k) => if k != i {
                proof {
                    lemma_unique_by_position(addresses);
                    assert(position(addresses, addresses[i as int]) != Some(i as int));
                }
                return false;
            },
            None => {
                proof {
                    lemma_unique_by_position(addresses);
                    assert(position(addresses, addresses[i as int]) != Some(i as int));
                }
                return false;
            },
        }
        i += 1;
    }
    proof {
        lemma_unique_by_position(addresses);
        assert(each_is_first(addresses));
    }
    true
}

/// Whether no game name occurs twice.
pub fn game_names_unique(games: &Vec<Game>) -> (r: bool)
    ensures
        r == game_names(views(games@)).no_duplicates(),
{
    let ghost names = game_names(views(games@));
    let mut i: usize = 0;
    while i < games.len()
        invariant
            i <= games.len(),
            names == game_names(views(games@)),
            forall|k: int| 0 <= k < i ==> position(names, #[trigger] names[k]) == Some(k),
        decreases games.len() - i,
    {
        match game_index_by_name(games, &games[i].name) {
            Some(k) => if k != i {
                proof {
                    lemma_unique_by_position(names);
                    assert(position(names, names[i as int]) != Some(i as int));
                }
                return false;
            },
            None => {
                proof {
                    lemma_unique_by_position(names);
                    assert(position(names, names[i as int]) != Some(i as int));
                }
                return false;
            },
        }
        i += 1;
    }
    proof {
        lemma_unique_by_position(names);
        assert(each_is_first(names));
    }
    true
}

/// Whether no external id occurs twice.
pub fn steam_ids_unique(games: &Vec<Game>) -> (r: bool)
    ensures
        r == crate::keys::distinct_where_present(game_steam_ids(views(games@))),
{
    let ghost keys = game_steam_ids(views(games@));
    let mut i: usize = 0;
    while i < games.len()
        invariant
            i <= games.len(),
            keys == game_steam_ids(views(games@)),
            forall|k: int|
                0 <= k < i && (#[trigger] keys[k]).is_some() ==> position(keys, keys[k]) == Some(k),
        decreases games.len() - i,
    {
        match games[i].steam_id {
            Some(key) => {
                match game_index_by_steam_id(games, key) {
                    Some(k) => if k != i {
                        proof {
                            lemma_present_unique_by_position(keys);
                            assert(position(keys, keys[i as int]) != Some(i as int));
                        }
                        return false;
                    },
                    None => {
                        proof {
                            lemma_present_unique_by_position(keys);
                            assert(position(keys, keys[i as int]) != Some(i as int));
                        }
                        return false;
                    },
                }
            },
            None => {},
        }
        i += 1;
    }
    proof {
        lemma_present_unique_by_position(keys);
    }
    true
}

/// Whether no user has a game twice.
pub fn pairs_unique(user_games: &Vec<UserGame>) -> (r: bool)
    ensures
        r == user_game_pairs(views(user_games@)).no_duplicates(),
{
    let ghost pairs = user_game_pairs(views(user_games@));
    let mut i: usize = 0;
    while i < user_games.len()
        invariant
            i <= user_games.len(),
            pairs == user_game_pairs(views(user_games@)),
            forall|k: int| 0 <= k < i ==> position(pairs, #[trigger] pairs[k]) == Some(k),
        decreases user_games.len() - i,
    {
        match user_game_index_by_pair(user_games, user_games[i].user_id, user_games[i].game_id) {
            Some(k) => if k != i {
                proof {
                    lemma_unique_by_position(pairs);
                    assert(position(pairs, pairs[i as int]) != Some(i as int));
                }
                return false;
            },
            None => {
                proof {
                    lemma_unique_by_position(pairs);
                    assert(position(pairs, pairs[i as int]) != Some(i as int));
                }
                return false;
            },
        }
        i += 1;
    }
    proof {
        lemma_unique_by_position(pairs);
        assert(each_is_first(pairs));
    }
    true
}

/// Whether the credential in each row is that of the user in the same row.
pub fn credentials_match(users: &Vec<User>, credentials: &Vec<UserPrivate>) -> (r: bool)
    ensures
        r == (credential_user_ids(views(credentials@)) =~= user_ids(views(users@))),
{
    if users.len() != credentials.len() {
        return false;
    }
    let ghost owners = credential_user_ids(views(credentials@));
    let ghost ids = user_ids(views(users@));
    let mut i: usize = 0;
    while i < users.len()
        invariant
            i <= users.len(),
            users.len() == credentials.len(),
            owners == credential_user_ids(views(credentials@)),
            ids == user_ids(views(users@)),
            forall|k: int| 0 <= k < i ==> owners[k] == ids[k],
        decreases users.len() - i,
    {
        if credentials[i].user_id != users[i].id {
            assert(owners[i as int] != ids[i as int]);
            return false;
        }
        i += 1;
    }
    true
}

/// Whether a user table is valid.
pub fn users_valid(users: &Vec<User>) -> (r: bool)
    ensures
        r == users_wf(views(users@)),
{
    is_increasing(&user_id_column(users)) && usernames_unique(users) && emails_unique(users)
}

/// Whether a credential table is valid beside a user table.
pub fn credentials_valid(users: &Vec<User>, credentials: &Vec<UserPrivate>) -> (r: bool)
    ensures
        r == credentials_wf(views(users@), views(credentials@)),
{
    is_increasing(&credential_id_column(credentials)) && credentials_match(users, credentials)
}

/// Whether a catalog is valid.
pub fn games_valid(games: &Vec<Game>) -> (r: bool)
    ensures
        r == games_wf(views(games@)),
{
    is_increasing(&game_id_column(games)) && game_names_unique(games) && steam_ids_unique(games)
}

/// Whether a collection table is valid.
pub fn user_games_valid(user_games: &Vec<UserGame>) -> (r: bool)
    ensures
        r == user_games_wf(views(user_games@)),
{
    is_increasing(&user_game_id_column(user_games)) && pairs_unique(user_games)
}

} // verus!
