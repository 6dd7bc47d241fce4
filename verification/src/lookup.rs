use vstd::prelude::*;
use crate::keys::{lemma_position_absent, lemma_position_found, next_id, position};
use crate::model::{Game, User, UserGame, UserPrivate, views};
use crate::store::{credential_ids, credential_user_ids, emails, game_ids, game_names, game_steam_ids, user_game_ids, user_game_pairs, user_ids, usernames};

verus! {

/// A row number as a mathematical position.
pub open spec fn as_position(r: Option<usize>) -> Option<int> {
    match r {
        Some(i) => Some(i as int),
        None => None,
    }
}

/// The row of the first user whose id is `id`.
pub fn user_index_by_id(users: &Vec<User>, id: i64) -> (r: Option<usize>)
    ensures
        as_position(r) == position(user_ids(views(users@)), id),
{
    let ghost ids = user_ids(views(users@));
    let mut i: usize = 0;
    while i < users.len()
        invariant
            i <= users.len(),
            ids == user_ids(views(users@)),
            forall|j: int| 0 <= j < i ==> ids[j] != id,
        decreases users.len() - i,
    {
        if users[i].id == id {
            proof {
                lemma_position_found(ids, id, i as int);
            }
            return Some(i);
        }
        i += 1;
    }
    proof {
        lemma_position_absent(ids, id);
    }
    None
}

/// The row of the first user whose username is `username`.
pub fn user_index_by_name(users: &Vec<User>, username: &String) -> (r: Option<usize>)
    ensures
        as_position(r) == position(usernames(views(users@)), username@),
{
    let ghost names = usernames(views(users@));
    let mut i: usize = 0;
    while i < users.len()
        invariant
            i <= users.len(),
            names == usernames(views(users@)),
            forall|j: int| 0 <= j < i ==> names[j] != username@,
        decreases users.len() - i,
    {
        if users[i].username == *username {
            proof {
                lemma_position_found(names, username@, i as int);
            }
            return Some(i);
        }
        i += 1;
    }
    proof {
        lemma_position_absent(names, username@);
    }
    None
}

/// The row of the first user whose email is `email`.
pub fn user_index_by_email(users: &Vec<User>, email: &String) -> (r: Option<usize>)
    ensures
        as_position(r) == position(emails(views(users@)), email@),
{
    let ghost addresses = emails(views(users@));
    let mut i: usize = 0;
    while i < users.len()
        invariant
            i <= users.len(),
            addresses == emails(views(users@)),
            forall|j: int| 0 <= j < i ==> addresses[j] != email@,
        decreases users.len() - i,
    {
        if users[i].email == *email {
            proof {
                lemma_position_found(addresses, email@, i as int);
            }
            return Some(i);
        }
        i += 1;
    }
    proof {
        lemma_position_absent(addresses, email@);
    }
    None
}

/// The row of the first game whose id is `id`.
pub fn game_index_by_id(games: &Vec<Game>, id: i64) -> (r: Option<usize>)
    ensures
        as_position(r) == position(game_ids(views(games@)), id),
{
    let ghost ids = game_ids(views(games@));
    let mut i: usize = 0;
    while i < games.len()
        invariant
            i <= games.len(),
            ids == game_ids(views(games@)),
            forall|j: int| 0 <= j < i ==> ids[j] != id,
        decreases games.len() - i,
    {
        if games[i].id == id {
            proof {
                lemma_position_found(ids, id, i as int);
            }
            return Some(i);
        }
        i += 1;
    }
    proof {
        lemma_position_absent(ids, id);
    }
    None
}

/// The row of the first game whose name is `name`.
pub fn game_index_by_name(games: &Vec<Game>, name: &String) -> (r: Option<usize>)
    ensures
        as_position(r) == position(game_names(views(games@)), name@),
{
    let ghost names = game_names(views(games@));
    let mut i: usize = 0;
    while i < games.len()
        invariant
            i <= games.len(),
            names == game_names(views(games@)),
            forall|j: int| 0 <= j < i ==> names[j] != name@,
        decreases games.len() - i,
    {
        if games[i].name == *name {
            proof {
                lemma_position_found(names, name@, i as int);
            }
            return Some(i);
        }
        i += 1;
    }
    proof {
        lemma_position_absent(names, name@);
    }
    None
}

/// The row of the first game whose external id is `steam_id`.
pub fn game_index_by_steam_id(games: &Vec<Game>, steam_id: i64) -> (r: Option<usize>)
    ensures
        as_position(r) == position(game_steam_ids(views(games@)), Some(steam_id)),
{
    let ghost keys = game_steam_ids(views(games@));
    let mut i: usize = 0;
    while i < games.len()
        invariant
            i <= games.len(),
            keys == game_steam_ids(views(games@)),
            forall|j: int| 0 <= j < i ==> keys[j] != Some(steam_id),
        decreases games.len() - i,
    {
        let hit = match games[i].steam_id {
            Some(k) => k == steam_id,
            None => false,
        };
        if hit {
            proof {
                lemma_position_found(keys, Some(steam_id), i as int);
            }
            return Some(i);
        }
        i += 1;
    }
    proof {
        lemma_position_absent(keys, Some(steam_id));
    }
    None
}

/// The row of the first collection record whose id is `id`.
pub fn user_game_index_by_id(user_games: &Vec<UserGame>, id: i64) -> (r: Option<usize>)
    ensures
        as_position(r) == position(user_game_ids(views(user_games@)), id),
{
    let ghost ids = user_game_ids(views(user_games@));
    let mut i: usize = 0;
    while i < user_games.len()
        invariant
            i <= user_games.len(),
            ids == user_game_ids(views(user_games@)),
            forall|j: int| 0 <= j < i ==> ids[j] != id,
        decreases user_games.len() - i,
    {
        if user_games[i].id == id {
            proof {
                lemma_position_found(ids, id, i as int);
            }
            return Some(i);
        }
        i += 1;
    }
    proof {
        lemma_position_absent(ids, id);
    }
    None
}

/// The row of the first collection record of user `user_id` for game `game_id`.
pub fn user_game_index_by_pair(user_games: &Vec<UserGame>, user_id: i64, game_id: i64) -> (r:
    Option<usize>)
    ensures
        as_position(r) == position(user_game_pairs(views(user_games@)), (user_id, game_id)),
{
    let ghost pairs = user_game_pairs(views(user_games@));
    let mut i: usize = 0;
    while i < user_games.len()
        invariant
            i <= user_games.len(),
            pairs == user_game_pairs(views(user_games@)),
            forall|j: int| 0 <= j < i ==> pairs[j] != (user_id, game_id),
        decreases user_games.len() - i,
    {
        if user_games[i].user_id == user_id && user_games[i].game_id == game_id {
            proof {
                lemma_position_found(pairs, (user_id, game_id), i as int);
            }
            return Some(i);
        }
        i += 1;
    }
    proof {
        lemma_position_absent(pairs, (user_id, game_id));
    }
    None
}

/// The row of the first credential that belongs to user `user_id`.
pub fn credential_index_by_user(credentials: &Vec<UserPrivate>, user_id: i64) -> (r: Option<usize>)
    ensures
        as_position(r) == position(credential_user_ids(views(credentials@)), user_id),
{
    let ghost owners = credential_user_ids(views(credentials@));
    let mut i: usize = 0;
    while i < credentials.len()
        invariant
            i <= credentials.len(),
            owners == credential_user_ids(views(credentials@)),
            forall|j: int| 0 <= j < i ==> owners[j] != user_id,
        decreases credentials.len() - i,
    {
        if credentials[i].user_id == user_id {
            proof {
                lemma_position_found(owners, user_id, i as int);
            }
            return Some(i);
        }
        i += 1;
    }
    proof {
        lemma_position_absent(owners, user_id);
    }
    None
}

/// `r` is the id after `last`, or `None` where that id does not fit in an `i64`.
pub open spec fn is_next_id(r: Option<i64>, ids: Seq<i64>) -> bool {
    match r {
        Some(id) => id == next_id(ids),
        None => next_id(ids) > i64::MAX,
    }
}

/// The id after an optional last id.
fn id_after(last: Option<i64>) -> (r: Option<i64>)
    ensures
        match last {
            None => r == Some(1i64),
            Some(id) => if id < i64::MAX {
                r == Some((id + 1) as i64)
            } else {
                r.is_none()
            },
        },
{
    match last {
        None => Some(1),
        Some(id) => if id < i64::MAX {
            Some(id + 1)
        } else {
            None
        },
    }
}

/// The id that the next user gets.
pub fn next_user_id(users: &Vec<User>) -> (r: Option<i64>)
    ensures
        is_next_id(r, user_ids(views(users@))),
{
    let n = users.len();
    id_after(if n == 0 { None } else { Some(users[n - 1].id) })
}

/// The id that the next credential gets.
pub fn next_credential_id(credentials: &Vec<UserPrivate>) -> (r: Option<i64>)
    ensures
        is_next_id(r, credential_ids(views(credentials@))),
{
    let n = credentials.len();
    id_after(if n == 0 { None } else { Some(credentials[n - 1].id) })
}

/// The id that the next game gets.
pub fn next_game_id(games: &Vec<Game>) -> (r: Option<i64>)
    ensures
        is_next_id(r, game_ids(views(games@))),
{
    let n = games.len();
    id_after(if n == 0 { None } else { Some(games[n - 1].id) })
}

/// The id that the next collection record gets.
pub fn next_user_game_id(user_games: &Vec<UserGame>) -> (r: Option<i64>)
    ensures
        is_next_id(r, user_game_ids(views(user_games@))),
{
    let n = user_games.len();
    id_after(if n == 0 { None } else { Some(user_games[n - 1].id) })
}

} // verus!
