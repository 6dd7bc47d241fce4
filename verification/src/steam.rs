use vstd::prelude::*;
use vstd::string::StringExecFns;
use crate::catalog::{steam_key, upsert_by_external_id};
use crate::clock::now_seconds;
use crate::collection::{overwritten, upsert_user_game, with_id};
use crate::error::ErrorKind;
use crate::keys::{lemma_position, lemma_position_push, next_id, position};
use crate::model::{GameView, NewGameView, NewUserGame, NewUserGameView, views};
use crate::store::{Store, Tables, game_ids, game_names, game_steam_ids, lemma_push_game_wf, lemma_push_user_game_wf, lemma_set_user_game_wf, user_game_ids, user_game_pairs};

verus! {

/// One entry of an external owned-games list: the catalog's id of the game,
/// its title there, and the minutes the account has played it.
#[derive(Debug)]
pub struct OwnedGame {
    pub appid: u64,
    pub name: String,
    pub playtime_forever: u64,
}

/// The mathematical value of an [`OwnedGame`].
pub struct OwnedGameView {
    pub appid: u64,
    pub name: Seq<char>,
    pub playtime_forever: u64,
}

impl View for OwnedGame {
    type V = OwnedGameView;

    open spec fn view(&self) -> OwnedGameView {
        OwnedGameView {
            appid: self.appid,
            name: self.name@,
            playtime_forever: self.playtime_forever,
        }
    }
}

/// The record that an import at time `now` derives from an entry: a game
/// that was played is unfinished and was started at `now`, one that was not
/// is unplayed and has no start.
pub open spec fn imported(
    user_id: i64,
    game_id: i64,
    entry: OwnedGameView,
    platform: Seq<char>,
    now: i64,
) -> NewUserGameView {
    NewUserGameView {
        game_id: game_id,
        user_id: user_id,
        play_state: if entry.playtime_forever > 0 {
            "unfinished"@
        } else {
            "unplayed"@
        },
        platform: platform,
        acquisition_date: now,
        start_date: if entry.playtime_forever > 0 {
            Some(now)
        } else {
            None
        },
        beat_date: None,
    }
}

/// Whether a batch has failed so far, as a result.
pub open spec fn batch_result(failed: bool) -> Result<(), ErrorKind> {
    if failed {
        Err(ErrorKind::SyncError)
    } else {
        Ok(())
    }
}

/// The address that serves the owned-games list of an account.
pub open spec fn owned_games_address(api_key: Seq<char>, account: Seq<char>) -> Seq<char> {
    "http://api.steampowered.com/IPlayerService/GetOwnedGames/v0001/?key="@ + api_key
        + "&steamid="@ + account + "&include_appinfo=1&format=json"@
}

impl Tables {
    /// The store after one entry was reconciled, and whether that worked: the
    /// entry's game is resolved by its external id, and the derived record is
    /// merged into the user's collection.
    pub open spec fn sync_entry(
        self,
        user_id: i64,
        entry: OwnedGameView,
        platform: Seq<char>,
        now: i64,
    ) -> (Tables, Result<(), ErrorKind>) {
        let (with_game, game) = self.upsert_by_external_id(entry.appid, entry.name);
        match game {
            Err(e) => (with_game, Err(e)),
            Ok(game_id) => with_game.upsert_user_game(
                imported(user_id, game_id, entry, platform, now),
            ),
        }
    }

    /// The store after a whole list was reconciled, entry by entry in the
    /// order of the list, and what the import returns. An entry that fails
    /// does not stop the entries behind it; the import reports `SyncError`
    /// where at least one entry failed.
    pub open spec fn sync(
        self,
        user_id: i64,
        entries: Seq<OwnedGameView>,
        platform: Seq<char>,
        now: i64,
    ) -> (Tables, Result<(), ErrorKind>)
        decreases entries.len(),
    {
        if entries.len() == 0 {
            (self, Ok(()))
        } else {
            let (before, so_far) = self.sync(user_id, entries.drop_last(), platform, now);
            let (after, this) = before.sync_entry(user_id, entries.last(), platform, now);
            (after, batch_result(so_far is Err || this is Err))
        }
    }
}

/// Builds the address that serves the owned-games list of an account.
pub fn owned_games_url(api_key: &str, account: &str) -> (r: String)
    ensures
        r@ == owned_games_address(api_key@, account@),
{
    let mut url = String::from_str(
        "http://api.steampowered.com/IPlayerService/GetOwnedGames/v0001/?key=",
    );
    url.append(api_key);
    url.append("&steamid=");
    url.append(account);
    url.append("&include_appinfo=1&format=json");
    url
}

/// Reconciles one entry of an owned-games list at time `now`.
pub fn sync_entry_at(
    store: &mut Store,
    user_id: i64,
    entry: &OwnedGame,
    platform: &String,
    now: i64,
) -> (r: Result<(), ErrorKind>)
    ensures
        final(store)@.wf(),
        (final(store)@, r) == old(store)@.sync_entry(user_id, entry@, platform@, now),
{
    let game_id = match upsert_by_external_id(store, entry.appid, entry.name.clone()) {
        Ok(game_id) => game_id,
        Err(e) => {
            return Err(e);
        },
    };
    let has_played = entry.playtime_forever > 0;
    let play_state = if has_played {
        String::from_str("unfinished")
    } else {
        String::from_str("unplayed")
    };
    let start_date = if has_played {
        Some(now)
    } else {
        None
    };
    upsert_user_game(
        store,
        NewUserGame {
            game_id: game_id,
            user_id: user_id,
            play_state: play_state,
            platform: platform.clone(),
            acquisition_date: now,
            start_date: start_date,
            beat_date: None,
        },
    )
}

/// Imports an owned-games list into a user's collection at time `now`. Every
/// entry is tried; the result is `SyncError` where at least one failed.
pub fn sync_at(
    store: &mut Store,
    user_id: i64,
    owned: &Vec<OwnedGame>,
    platform: &String,
    now: i64,
) -> (r: Result<(), ErrorKind>)
    ensures
        final(store)@.wf(),
        (final(store)@, r) == old(store)@.sync(user_id, views(owned@), platform@, now),
{
    proof {
        use_type_invariant(&*store);
    }
    let mut failed = false;
    let mut i: usize = 0;
    proof {
        assert(views(owned@).take(0) =~= Seq::empty());
    }
    while i < owned.len()
        invariant
            i <= owned.len(),
            store@.wf(),
            (store@, batch_result(failed)) == old(store)@.sync(
                user_id,
                views(owned@).take(i as int),
                platform@,
                now,
            ),
        decreases owned.len() - i,
    {
        proof {
            let next = views(owned@).take(i as int + 1);
            assert(next.drop_last() =~= views(owned@).take(i as int));
            assert(next.last() == owned@[i as int]@);
        }
        match sync_entry_at(store, user_id, &owned[i], platform, now) {
            Ok(()) => {},
            Err(_) => {
                failed = true;
            },
        }
        i += 1;
    }
    proof {
        assert(views(owned@).take(i as int) =~= views(owned@));
    }
    if failed {
        Err(ErrorKind::SyncError)
    } else {
        Ok(())
    }
}

/// Imports an owned-games list into a user's collection at the time of the call.
pub fn sync(store: &mut Store, user_id: i64, owned: &Vec<OwnedGame>, platform: &String) -> (r:
    Result<(), ErrorKind>)
    ensures
        final(store)@.wf(),
        exists|now: i64|
            (final(store)@, r) == #[trigger] old(store)@.sync(
                user_id,
                views(owned@),
                platform@,
                now,
            ),
{
    let now = now_seconds();
    sync_at(store, user_id, owned, platform, now)
}

/// The catalog entry that an owned game asks for.
pub open spec fn wanted_game(entry: OwnedGameView) -> NewGameView {
    NewGameView { name: entry.name, steam_id: Some(steam_key(entry.appid)) }
}

/// The entry has been dealt with for this user: either its game is in the
/// catalog and the user has a record for it or no record can be added any
/// more, or its game is not in the catalog and cannot be inserted.
pub open spec fn reconciled(x: Tables, user_id: i64, entry: OwnedGameView) -> bool {
    match x.game_by_steam_key(steam_key(entry.appid)) {
        Some(game) => position(user_game_pairs(x.user_games), (user_id, game.id)).is_some()
            || next_id(user_game_ids(x.user_games)) > i64::MAX,
        None => !x.admits_game(wanted_game(entry)),
    }
}

/// Two stores hold the same users, credentials and games, and records with
/// the same ids for the same users and games, row by row.
pub open spec fn same_rows(x: Tables, y: Tables) -> bool {
    &&& x.users == y.users
    &&& x.credentials == y.credentials
    &&& x.games == y.games
    &&& user_game_ids(x.user_games) == user_game_ids(y.user_games)
    &&& user_game_pairs(x.user_games) == user_game_pairs(y.user_games)
}

/// What merging a record does to the tables: users, credentials and games
/// stay; the records keep their ids and pairs, or get one row more; and
/// afterwards the user has a record for the game, or no id is left.
pub proof fn lemma_upsert_user_game_effect(z: Tables, new: NewUserGameView)
    requires
        z.wf(),
    ensures
        ({
            let y = z.upsert_user_game(new).0;
            let pair = (new.user_id, new.game_id);
            let ids = user_game_ids(z.user_games);
            let pairs = user_game_pairs(z.user_games);
            &&& y.wf()
            &&& y.users == z.users && y.credentials == z.credentials && y.games == z.games
            &&& same_rows(y, z) || (next_id(ids) <= i64::MAX && user_game_ids(y.user_games)
                == ids.push(next_id(ids) as i64) && user_game_pairs(y.user_games) == pairs.push(pair))
            &&& position(user_game_pairs(y.user_games), pair).is_some() || next_id(
                user_game_ids(y.user_games),
            ) > i64::MAX
        }),
{
    let y = z.upsert_user_game(new).0;
    let pair = (new.user_id, new.game_id);
    let ids = user_game_ids(z.user_games);
    let pairs = user_game_pairs(z.user_games);
    lemma_position(pairs, pair);
    match position(pairs, pair) {
        Some(i) => {
            lemma_set_user_game_wf(z, i, overwritten(z.user_games[i], new));
            assert(user_game_ids(y.user_games) =~= ids);
            assert(user_game_pairs(y.user_games) =~= pairs);
        },
        None => {
            if next_id(ids) <= i64::MAX {
                let row = with_id(new, next_id(ids) as i64);
                lemma_push_user_game_wf(z, row);
                lemma_position_push(pairs, pair, pair);
                assert(user_game_ids(y.user_games) =~= ids.push(row.id));
                assert(user_game_pairs(y.user_games) =~= pairs.push(pair));
            }
        },
    }
}

/// What reconciling an external id does to the tables: users, credentials
/// and records stay; the catalog stays, or gets the wanted game as one row
/// more; on success the game is found under its key afterwards, and a
/// failure means that the game is neither there nor can be inserted.
pub proof fn lemma_upsert_by_external_id_effect(z: Tables, entry: OwnedGameView)
    requires
        z.wf(),
    ensures
        ({
            let (y, r) = z.upsert_by_external_id(entry.appid, entry.name);
            let key = Some(steam_key(entry.appid));
            &&& y.wf()
            &&& y.users == z.users && y.credentials == z.credentials && y.user_games
                == z.user_games
            &&& y.games == z.games || (z.admits_game(wanted_game(entry)) && position(
                game_steam_ids(z.games),
                key,
            ).is_none() && y.games == z.games.push(
                GameView {
                    id: next_id(game_ids(z.games)) as i64,
                    name: entry.name,
                    steam_id: key,
                },
            ))
            &&& match r {
                Ok(id) => y.game_by_steam_key(steam_key(entry.appid)) matches Some(game) && game.id
                    == id,
                Err(_) => y == z && z.game_by_steam_key(steam_key(entry.appid)).is_none()
                    && !z.admits_game(wanted_game(entry)),
            }
        }),
{
    let (y, r) = z.upsert_by_external_id(entry.appid, entry.name);
    let key = Some(steam_key(entry.appid));
    lemma_position(game_steam_ids(z.games), key);
    if z.game_by_steam_key(steam_key(entry.appid)).is_none() && z.admits_game(wanted_game(entry)) {
        let game = GameView { id: next_id(game_ids(z.games)) as i64, name: entry.name, steam_id: key };
        lemma_push_game_wf(z, game);
        lemma_position_push(game_steam_ids(z.games), key, key);
        assert(game_steam_ids(y.games) =~= game_steam_ids(z.games).push(key));
    }
}

/// Reconciling an entry that has been dealt with adds no row: it changes
/// nothing but play state, platform and dates of the one record.
pub proof fn lemma_reconciled_adds_no_row(
    x: Tables,
    user_id: i64,
    entry: OwnedGameView,
    platform: Seq<char>,
    now: i64,
)
    requires
        x.wf(),
        reconciled(x, user_id, entry),
    ensures
        x.sync_entry(user_id, entry, platform, now).0.wf(),
        same_rows(x.sync_entry(user_id, entry, platform, now).0, x),
{
    lemma_upsert_by_external_id_effect(x, entry);
    let (with_game, game) = x.upsert_by_external_id(entry.appid, entry.name);
    if let Ok(game_id) = game {
        let new = imported(user_id, game_id, entry, platform, now);
        lemma_upsert_user_game_effect(with_game, new);
        lemma_position(user_game_pairs(x.user_games), (user_id, game_id));
    }
}

/// Once an entry was reconciled, it has been dealt with.
pub proof fn lemma_sync_entry_reconciles(
    x: Tables,
    user_id: i64,
    entry: OwnedGameView,
    platform: Seq<char>,
    now: i64,
)
    requires
        x.wf(),
    ensures
        x.sync_entry(user_id, entry, platform, now).0.wf(),
        reconciled(x.sync_entry(user_id, entry, platform, now).0, user_id, entry),
{
    lemma_upsert_by_external_id_effect(x, entry);
    let (with_game, game) = x.upsert_by_external_id(entry.appid, entry.name);
    if let Ok(game_id) = game {
        lemma_upsert_user_game_effect(with_game, imported(user_id, game_id, entry, platform, now));
    }
}

/// An entry that has been dealt with stays so while another entry is
/// reconciled for the same user.
pub proof fn lemma_reconciled_stays(
    x: Tables,
    user_id: i64,
    entry: OwnedGameView,
    other: OwnedGameView,
    platform: Seq<char>,
    now: i64,
)
    requires
        x.wf(),
        reconciled(x, user_id, entry),
    ensures
        reconciled(x.sync_entry(user_id, other, platform, now).0, user_id, entry),
{
    let key = Some(steam_key(entry.appid));
    let other_key = Some(steam_key(other.appid));
    let y = x.sync_entry(user_id, other, platform, now).0;
    lemma_upsert_by_external_id_effect(x, other);
    let (with_game, game) = x.upsert_by_external_id(other.appid, other.name);
    if let Ok(game_id) = game {
        lemma_upsert_user_game_effect(with_game, imported(user_id, game_id, other, platform, now));
    }
    lemma_position(game_steam_ids(x.games), key);
    lemma_position(game_steam_ids(y.games), key);
    lemma_position_push(game_steam_ids(x.games), other_key, key);
    lemma_position_push(game_names(x.games), other.name, entry.name);
    if y.games != x.games {
        assert(game_steam_ids(y.games) =~= game_steam_ids(x.games).push(other_key));
        assert(game_names(y.games) =~= game_names(x.games).push(other.name));
        assert(game_ids(y.games) =~= game_ids(x.games).push(next_id(game_ids(x.games)) as i64));
    }
    match x.game_by_steam_key(steam_key(entry.appid)) {
        Some(found) => {
            let pair = (user_id, found.id);
            let pairs = user_game_pairs(x.user_games);
            if position(pairs, pair).is_some() {
                if game is Ok {
                    lemma_position_push(pairs, (user_id, game->Ok_0), pair);
                }
            }
        },
        None => {},
    }
}

/// After an import, every entry of the list has been dealt with.
pub proof fn lemma_sync_reconciles_all(
    s: Tables,
    user_id: i64,
    entries: Seq<OwnedGameView>,
    platform: Seq<char>,
    now: i64,
)
    requires
        s.wf(),
    ensures
        s.sync(user_id, entries, platform, now).0.wf(),
        forall|j: int|
            0 <= j < entries.len() ==> reconciled(
                s.sync(user_id, entries, platform, now).0,
                user_id,
                #[trigger] entries[j],
            ),
    decreases entries.len(),
{
    if entries.len() > 0 {
        let front = entries.drop_last();
        let before = s.sync(user_id, front, platform, now).0;
        let after = s.sync(user_id, entries, platform, now).0;
        lemma_sync_reconciles_all(s, user_id, front, platform, now);
        lemma_sync_entry_reconciles(before, user_id, entries.last(), platform, now);
        assert forall|j: int| 0 <= j < entries.len() implies reconciled(
            after,
            user_id,
            #[trigger] entries[j],
        ) by {
            if j < entries.len() - 1 {
                assert(entries[j] == front[j]);
                lemma_reconciled_stays(before, user_id, front[j], entries.last(), platform, now);
            }
        }
    }
}

/// Importing entries that have all been dealt with adds no row.
pub proof fn lemma_sync_of_reconciled_adds_no_row(
    t: Tables,
    user_id: i64,
    all: Seq<OwnedGameView>,
    entries: Seq<OwnedGameView>,
    platform: Seq<char>,
    now: i64,
)
    requires
        t.wf(),
        forall|j: int| 0 <= j < all.len() ==> reconciled(t, user_id, #[trigger] all[j]),
        forall|j: int| 0 <= j < entries.len() ==> all.contains(#[trigger] entries[j]),
    ensures
        t.sync(user_id, entries, platform, now).0.wf(),
        same_rows(t.sync(user_id, entries, platform, now).0, t),
    decreases entries.len(),
{
    if entries.len() > 0 {
        let front = entries.drop_last();
        let before = t.sync(user_id, front, platform, now).0;
        assert forall|j: int| 0 <= j < front.len() implies all.contains(#[trigger] front[j]) by {
            assert(front[j] == entries[j]);
        }
        lemma_sync_of_reconciled_adds_no_row(t, user_id, all, front, platform, now);
        let last = entries.last();
        assert(all.contains(entries[entries.len() - 1]));
        let k = choose|k: int| 0 <= k < all.len() && all[k] == last;
        assert(reconciled(t, user_id, all[k]));
        assert(reconciled(before, user_id, last));
        lemma_reconciled_adds_no_row(before, user_id, last, platform, now);
    }
}

/// Running an import again for the same user and the same list, at whatever
/// time and for whatever platform, produces no duplicate: no user, no game
/// and no record is added, and each record keeps its id, user and game.
pub proof fn lemma_sync_again_adds_no_row(
    s: Tables,
    user_id: i64,
    entries: Seq<OwnedGameView>,
    platform: Seq<char>,
    now: i64,
    later_platform: Seq<char>,
    later: i64,
)
    requires
        s.wf(),
    ensures
        ({
            let t = s.sync(user_id, entries, platform, now).0;
            let u = t.sync(user_id, entries, later_platform, later).0;
            u.wf() && same_rows(u, t)
        }),
{
    let t = s.sync(user_id, entries, platform, now).0;
    lemma_sync_reconciles_all(s, user_id, entries, platform, now);
    assert forall|j: int| 0 <= j < entries.len() implies entries.contains(#[trigger] entries[j]) by {
    }
    lemma_sync_of_reconciled_adds_no_row(t, user_id, entries, entries, later_platform, later);
}

} // verus!
