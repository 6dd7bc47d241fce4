use vstd::prelude::*;
use crate::catalog::upsert_game;
use crate::clock::now_seconds;
use crate::error::ErrorKind;
use crate::keys::{lemma_position, lemma_position_push, next_id, position, row_at};
use crate::lookup::{game_index_by_id, next_user_game_id, user_game_index_by_id, user_game_index_by_pair};
use crate::model::{GameView, NewUserGame, NewUserGameView, UserGame, UserGameView, views};
use crate::play_state::{Platform, are_valid_enum_values, enum_values_valid, platform_slugs};
use crate::session::Session;
use crate::store::{Store, Tables, game_ids, lemma_push_user_game_wf, lemma_set_user_game_wf, user_game_ids, user_game_pairs, found};

verus! {

/// The records of one user among `rows`, in their order.
pub open spec fn owned_by(rows: Seq<UserGameView>, user_id: i64) -> Seq<UserGameView> {
    rows.filter(|row: UserGameView| row.user_id == user_id)
}

/// Each record of `rows` whose game is in the catalog, beside that game's
/// name, in the order of `rows`.
pub open spec fn titled(games: Seq<GameView>, rows: Seq<UserGameView>) -> Seq<
    (Seq<char>, UserGameView),
> {
    rows.filter(|row: UserGameView| position(game_ids(games), row.game_id).is_some()).map_values(
        |row: UserGameView| (games[position(game_ids(games), row.game_id).unwrap()].name, row),
    )
}

/// The values of named records, row by row.
pub open spec fn titled_views(rows: Seq<(String, UserGame)>) -> Seq<(Seq<char>, UserGameView)> {
    Seq::new(rows.len(), |i: int| (rows[i].0@, rows[i].1@))
}

/// The record that a new row becomes under the id `id`.
pub open spec fn with_id(new: NewUserGameView, id: i64) -> UserGameView {
    UserGameView {
        id: id,
        game_id: new.game_id,
        user_id: new.user_id,
        play_state: new.play_state,
        platform: new.platform,
        acquisition_date: new.acquisition_date,
        start_date: new.start_date,
        beat_date: new.beat_date,
    }
}

/// The fields of a record without its id.
pub open spec fn without_id(row: UserGameView) -> NewUserGameView {
    NewUserGameView {
        game_id: row.game_id,
        user_id: row.user_id,
        play_state: row.play_state,
        platform: row.platform,
        acquisition_date: row.acquisition_date,
        start_date: row.start_date,
        beat_date: row.beat_date,
    }
}

/// `row` with every field that can change taken from `from`: play state,
/// platform and the three dates. Id, user and game stay.
pub open spec fn overwritten(row: UserGameView, from: NewUserGameView) -> UserGameView {
    UserGameView {
        play_state: from.play_state,
        platform: from.platform,
        acquisition_date: from.acquisition_date,
        start_date: from.start_date,
        beat_date: from.beat_date,
        ..row
    }
}

/// The record that a form submission adds at time `now`: no start, no completion.
pub open spec fn added_at(
    user_id: i64,
    game_id: i64,
    play_state: Seq<char>,
    platform: Seq<char>,
    now: i64,
) -> NewUserGameView {
    NewUserGameView {
        game_id: game_id,
        user_id: user_id,
        play_state: play_state,
        platform: platform,
        acquisition_date: now,
        start_date: None,
        beat_date: None,
    }
}

impl Tables {
    /// The collection record with this id.
    pub open spec fn user_game_by_id(self, id: i64) -> Option<UserGameView> {
        row_at(self.user_games, position(user_game_ids(self.user_games), id))
    }

    /// The record of user `user_id` for game `game_id`.
    pub open spec fn user_game_of(self, user_id: i64, game_id: i64) -> Option<UserGameView> {
        row_at(self.user_games, position(user_game_pairs(self.user_games), (user_id, game_id)))
    }

    /// The collection of a user, each record beside the name of its game.
    pub open spec fn collection_of(self, user_id: i64) -> Seq<(Seq<char>, UserGameView)> {
        titled(self.games, owned_by(self.user_games, user_id))
    }

    /// The store after a request to insert a record as it is, and what the
    /// request returns. A user who has that game already, or a table without
    /// an id left, gives `StorageFailure` with nothing changed.
    pub open spec fn insert_user_game(self, new: NewUserGameView) -> (
        Tables,
        Result<(), ErrorKind>,
    ) {
        if position(user_game_pairs(self.user_games), (new.user_id, new.game_id)).is_some()
            || next_id(user_game_ids(self.user_games)) > i64::MAX {
            (self, Err(ErrorKind::StorageFailure))
        } else {
            (
                self.push_user_game(with_id(new, next_id(user_game_ids(self.user_games)) as i64)),
                Ok(()),
            )
        }
    }

    /// The store after a request to add a record, and what the request
    /// returns: values outside the allow-lists give `InvalidEnumValue` before
    /// anything is written.
    pub open spec fn add_user_game(self, new: NewUserGameView, slugs: Seq<Seq<char>>) -> (
        Tables,
        Result<(), ErrorKind>,
    ) {
        if enum_values_valid(new.play_state, new.platform, slugs) {
            self.insert_user_game(new)
        } else {
            (self, Err(ErrorKind::InvalidEnumValue))
        }
    }

    /// The store after the record with the id of `row` was overwritten with
    /// the fields of `row`. Where no record has that id nothing changes.
    pub open spec fn update_user_game(self, row: UserGameView) -> Tables {
        match position(user_game_ids(self.user_games), row.id) {
            Some(i) => self.set_user_game(i, overwritten(self.user_games[i], without_id(row))),
            None => self,
        }
    }

    /// The store after a record was merged in, and what the request returns.
    /// Where the user has the game already, that record is overwritten in
    /// place; otherwise the record is inserted.
    pub open spec fn upsert_user_game(self, new: NewUserGameView) -> (
        Tables,
        Result<(), ErrorKind>,
    ) {
        match position(user_game_pairs(self.user_games), (new.user_id, new.game_id)) {
            Some(i) => (self.set_user_game(i, overwritten(self.user_games[i], new)), Ok(())),
            None => self.insert_user_game(new),
        }
    }

    /// The store after play state and platform of the record `user_game_id`
    /// were set, and what the request returns.
    pub open spec fn update_user_game_state(
        self,
        user_game_id: i64,
        play_state: Seq<char>,
        platform: Seq<char>,
    ) -> (Tables, Result<(), ErrorKind>) {
        match position(user_game_ids(self.user_games), user_game_id) {
            Some(i) => (
                self.set_user_game(
                    i,
                    UserGameView { play_state: play_state, platform: platform, ..self.user_games[i] },
                ),
                Ok(()),
            ),
            None => (self, Err(ErrorKind::NotFound)),
        }
    }

    /// The store after a user submitted a game by its title at time `now`,
    /// and what the submission returns. Values outside the allow-lists are
    /// refused before anything is written. Otherwise the title is reconciled
    /// with the catalog, and a record without start or completion is added.
    pub open spec fn add_game(
        self,
        user_id: i64,
        name: Seq<char>,
        play_state: Seq<char>,
        platform: Seq<char>,
        slugs: Seq<Seq<char>>,
        now: i64,
    ) -> (Tables, Result<(), ErrorKind>) {
        if !enum_values_valid(play_state, platform, slugs) {
            (self, Err(ErrorKind::InvalidEnumValue))
        } else {
            let (with_game, game) = self.upsert_game(name);
            match game {
                Err(e) => (with_game, Err(e)),
                Ok(game_id) => with_game.add_user_game(
                    added_at(user_id, game_id, play_state, platform, now),
                    slugs,
                ),
            }
        }
    }

    /// The store after a user asked to change play state and platform of a
    /// record, and what the request returns. A record of another user gives
    /// `Forbidden`, whatever the values. Otherwise a value outside its
    /// allow-list gives `InvalidEnumValue`, whether or not there is such a
    /// record. Otherwise `NotFound` where there is no such record. In each of
    /// these cases nothing changes.
    pub open spec fn edit_game(
        self,
        user_game_id: i64,
        caller_user_id: i64,
        play_state: Seq<char>,
        platform: Seq<char>,
        slugs: Seq<Seq<char>>,
    ) -> (Tables, Result<(), ErrorKind>) {
        if self.owned_by_another(user_game_id, caller_user_id) {
            (self, Err(ErrorKind::Forbidden))
        } else if !enum_values_valid(play_state, platform, slugs) {
            (self, Err(ErrorKind::InvalidEnumValue))
        } else {
            self.update_user_game_state(user_game_id, play_state, platform)
        }
    }

    /// There is a record with this id, and it belongs to a user other than
    /// `caller_user_id`.
    pub open spec fn owned_by_another(self, user_game_id: i64, caller_user_id: i64) -> bool {
        self.user_game_by_id(user_game_id) matches Some(row) && row.user_id != caller_user_id
    }
}

/// No row, no record of any user.
pub proof fn lemma_owned_by_empty(user_id: i64)
    ensures
        owned_by(Seq::empty(), user_id) == Seq::<UserGameView>::empty(),
{
    reveal(Seq::filter);
}

/// A row more is a record more for its user, and none for any other.
pub proof fn lemma_owned_by_push(rows: Seq<UserGameView>, row: UserGameView, user_id: i64)
    ensures
        owned_by(rows.push(row), user_id) == if row.user_id == user_id {
            owned_by(rows, user_id).push(row)
        } else {
            owned_by(rows, user_id)
        },
{
    reveal(Seq::filter);
    assert(rows.push(row).drop_last() =~= rows);
}

/// No record, no named record.
pub proof fn lemma_titled_empty(games: Seq<GameView>)
    ensures
        titled(games, Seq::empty()) =~= Seq::empty(),
{
    reveal(Seq::filter);
}

/// A record more is a named record more where its game is in the catalog.
pub proof fn lemma_titled_push(games: Seq<GameView>, rows: Seq<UserGameView>, row: UserGameView)
    ensures
        titled(games, rows.push(row)) =~= match position(game_ids(games), row.game_id) {
            Some(k) => titled(games, rows).push((games[k].name, row)),
            None => titled(games, rows),
        },
{
    reveal(Seq::filter);
    assert(rows.push(row).drop_last() =~= rows);
}

/// Loads the collection record with this id.
pub fn get_user_game_by_id(store: &Store, id: i64) -> (r: Result<UserGame, ErrorKind>)
    ensures
        found(r, store@.user_game_by_id(id)),
{
    let rows = store.user_games();
    match user_game_index_by_id(rows, id) {
        Some(i) => {
            proof {
                lemma_position(user_game_ids(store@.user_games), id);
            }
            Ok(rows[i].clone())
        },
        None => Err(ErrorKind::NotFound),
    }
}

/// Loads the record of user `user_id` for game `game_id`.
pub fn get_user_game_by_user_id_and_game_id(store: &Store, user_id: i64, game_id: i64) -> (r: Result<
    UserGame,
    ErrorKind,
>)
    ensures
        found(r, store@.user_game_of(user_id, game_id)),
{
    let rows = store.user_games();
    match user_game_index_by_pair(rows, user_id, game_id) {
        Some(i) => {
            proof {
                lemma_position(user_game_pairs(store@.user_games), (user_id, game_id));
            }
            Ok(rows[i].clone())
        },
        None => Err(ErrorKind::NotFound),
    }
}

/// The records of one user, in the order of their ids.
pub fn get_user_games(store: &Store, user_id: i64) -> (r: Result<Vec<UserGame>, ErrorKind>)
    ensures
        r matches Ok(own) && views(own@) == owned_by(store@.user_games, user_id),
{
    let rows = store.user_games();
    let mut own: Vec<UserGame> = Vec::new();
    let mut i: usize = 0;
    proof {
        assert(views(rows@).take(0) =~= Seq::empty());
        assert(views(own@) =~= Seq::empty());
        lemma_owned_by_empty(user_id);
    }
    while i < rows.len()
        invariant
            i <= rows.len(),
            views(own@) == owned_by(views(rows@).take(i as int), user_id),
        decreases rows.len() - i,
    {
        let ghost before = own@;
        proof {
            let front = views(rows@).take(i as int);
            assert(views(rows@).take(i as int + 1) =~= front.push(rows@[i as int]@));
            lemma_owned_by_push(front, rows@[i as int]@, user_id);
        }
        if rows[i].user_id == user_id {
            let row = rows[i].clone();
            own.push(row);
            proof {
                assert(views(own@) =~= views(before).push(row@));
            }
        }
        i += 1;
    }
    proof {
        assert(views(rows@).take(i as int) =~= views(rows@));
    }
    Ok(own)
}

/// The collection of one user: each record whose game is in the catalog,
/// beside that game's name, in the order of the records' ids.
pub fn get_user_games_with_names(store: &Store, user_id: i64) -> (r: Result<
    Vec<(String, UserGame)>,
    ErrorKind,
>)
    ensures
        r matches Ok(named) && titled_views(named@) == store@.collection_of(user_id),
{
    let own = match get_user_games(store, user_id) {
        Ok(own) => own,
        Err(e) => {
            return Err(e);
        },
    };
    let games = store.games();
    let ghost catalog = store@.games;
    let mut named: Vec<(String, UserGame)> = Vec::new();
    let mut i: usize = 0;
    proof {
        assert(views(own@).take(0) =~= Seq::empty());
        assert(titled_views(named@) =~= Seq::empty());
        lemma_titled_empty(catalog);
    }
    while i < own.len()
        invariant
            i <= own.len(),
            views(games@) == catalog,
            titled_views(named@) == titled(catalog, views(own@).take(i as int)),
        decreases own.len() - i,
    {
        let ghost before = named@;
        let ghost row = own@[i as int]@;
        proof {
            let front = views(own@).take(i as int);
            assert(views(own@).take(i as int + 1) =~= front.push(row));
            lemma_titled_push(catalog, front, row);
            lemma_position(game_ids(catalog), row.game_id);
        }
        match game_index_by_id(games, own[i].game_id) {
            Some(k) => {
                let entry = (games[k].name.clone(), own[i].clone());
                named.push(entry);
                proof {
                    assert(titled_views(named@) =~= titled_views(before).push((entry.0@, entry.1@)));
                }
            },
            None => {},
        }
        i += 1;
    }
    proof {
        assert(views(own@).take(i as int) =~= views(own@));
    }
    Ok(named)
}

/// Inserts a record as it is.
fn insert_user_game(store: &mut Store, user_game: NewUserGame) -> (r: Result<(), ErrorKind>)
    ensures
        final(store)@.wf(),
        (final(store)@, r) == old(store)@.insert_user_game(user_game@),
{
    proof {
        use_type_invariant(&*store);
    }
    let rows = store.user_games();
    if user_game_index_by_pair(rows, user_game.user_id, user_game.game_id).is_some() {
        return Err(ErrorKind::StorageFailure);
    }
    let id = match next_user_game_id(rows) {
        Some(id) => id,
        None => {
            return Err(ErrorKind::StorageFailure);
        },
    };
    store.push_user_game(
        UserGame {
            id: id,
            game_id: user_game.game_id,
            user_id: user_game.user_id,
            play_state: user_game.play_state,
            platform: user_game.platform,
            acquisition_date: user_game.acquisition_date,
            start_date: user_game.start_date,
            beat_date: user_game.beat_date,
        },
    );
    Ok(())
}

/// Adds a record to a user's collection. A play state or a platform outside
/// its allow-list gives `InvalidEnumValue` before anything is written; a game
/// that the user has already gives `StorageFailure`.
pub fn add_user_game(store: &mut Store, user_game: NewUserGame, platforms: &Vec<Platform>) -> (r:
    Result<(), ErrorKind>)
    ensures
        final(store)@.wf(),
        (final(store)@, r) == old(store)@.add_user_game(user_game@, platform_slugs(platforms@)),
{
    proof {
        use_type_invariant(&*store);
    }
    if !are_valid_enum_values(&user_game.play_state, &user_game.platform, platforms) {
        return Err(ErrorKind::InvalidEnumValue);
    }
    insert_user_game(store, user_game)
}

/// Overwrites play state, platform and dates of the record that has the id of
/// `game`. Where no record has that id, nothing changes.
pub fn update_user_game(store: &mut Store, game: UserGame) -> (r: Result<(), ErrorKind>)
    ensures
        final(store)@.wf(),
        r == Ok::<(), ErrorKind>(()),
        final(store)@ == old(store)@.update_user_game(game@),
{
    proof {
        use_type_invariant(&*store);
    }
    let rows = store.user_games();
    match user_game_index_by_id(rows, game.id) {
        None => Ok(()),
        Some(i) => {
            proof {
                lemma_position(user_game_ids(store@.user_games), game.id);
            }
            assert(views(rows@).len() == rows@.len());
            let merged = UserGame {
                id: rows[i].id,
                game_id: rows[i].game_id,
                user_id: rows[i].user_id,
                play_state: game.play_state,
                platform: game.platform,
                acquisition_date: game.acquisition_date,
                start_date: game.start_date,
                beat_date: game.beat_date,
            };
            store.set_user_game(i, merged);
            Ok(())
        },
    }
}

/// Merges a record into a user's collection: where the user has the game
/// already, that record is overwritten in place; otherwise the record is
/// inserted. However often it is called for one user and one game, there is
/// at most one record for them.
pub fn upsert_user_game(store: &mut Store, user_game: NewUserGame) -> (r: Result<(), ErrorKind>)
    ensures
        final(store)@.wf(),
        (final(store)@, r) == old(store)@.upsert_user_game(user_game@),
{
    let rows = store.user_games();
    match user_game_index_by_pair(rows, user_game.user_id, user_game.game_id) {
        Some(i) => {
            proof {
                lemma_position(
                    user_game_pairs(store@.user_games),
                    (user_game.user_id, user_game.game_id),
                );
            }
            assert(views(rows@).len() == rows@.len());
            let merged = UserGame {
                id: rows[i].id,
                game_id: rows[i].game_id,
                user_id: rows[i].user_id,
                play_state: user_game.play_state,
                platform: user_game.platform,
                acquisition_date: user_game.acquisition_date,
                start_date: user_game.start_date,
                beat_date: user_game.beat_date,
            };
            store.set_user_game(i, merged);
            Ok(())
        },
        None => insert_user_game(store, user_game),
    }
}

/// Sets play state and platform of one record. The caller has checked that
/// the record belongs to the user who asks.
pub fn update_user_game_state(
    store: &mut Store,
    user_game_id: i64,
    play_state: String,
    platform: String,
) -> (r: Result<(), ErrorKind>)
    ensures
        final(store)@.wf(),
        (final(store)@, r) == old(store)@.update_user_game_state(
            user_game_id,
            play_state@,
            platform@,
        ),
{
    proof {
        use_type_invariant(&*store);
    }
    let rows = store.user_games();
    match user_game_index_by_id(rows, user_game_id) {
        None => Err(ErrorKind::NotFound),
        Some(i) => {
            proof {
                lemma_position(user_game_ids(store@.user_games), user_game_id);
            }
            assert(views(rows@).len() == rows@.len());
            let changed = UserGame {
                id: rows[i].id,
                game_id: rows[i].game_id,
                user_id: rows[i].user_id,
                play_state: play_state,
                platform: platform,
                acquisition_date: rows[i].acquisition_date,
                start_date: rows[i].start_date,
                beat_date: rows[i].beat_date,
            };
            store.set_user_game(i, changed);
            Ok(())
        },
    }
}

/// The authorization gate: a record may be changed by the user that the
/// session names, and by nobody else.
pub fn assert_owner(session: &Session, user_game: &UserGame) -> (r: Result<(), ErrorKind>)
    ensures
        r == if user_game.user_id == session.user_id {
            Ok::<(), ErrorKind>(())
        } else {
            Err::<(), ErrorKind>(ErrorKind::Forbidden)
        },
{
    if user_game.user_id == session.user_id {
        Ok(())
    } else {
        Err(ErrorKind::Forbidden)
    }
}

/// Adds a game to a user's collection by its title, acquired at `now`.
pub fn add_game_at(
    store: &mut Store,
    user_id: i64,
    name: String,
    play_state: String,
    platform: String,
    platforms: &Vec<Platform>,
    now: i64,
) -> (r: Result<(), ErrorKind>)
    ensures
        final(store)@.wf(),
        (final(store)@, r) == old(store)@.add_game(
            user_id,
            name@,
            play_state@,
            platform@,
            platform_slugs(platforms@),
            now,
        ),
{
    proof {
        use_type_invariant(&*store);
    }
    if !are_valid_enum_values(&play_state, &platform, platforms) {
        return Err(ErrorKind::InvalidEnumValue);
    }
    let game_id = match upsert_game(store, name) {
        Ok(game_id) => game_id,
        Err(e) => {
            return Err(e);
        },
    };
    add_user_game(
        store,
        NewUserGame {
            game_id: game_id,
            user_id: user_id,
            play_state: play_state,
            platform: platform,
            acquisition_date: now,
            start_date: None,
            beat_date: None,
        },
        platforms,
    )
}

/// Adds a game to a user's collection by its title, acquired at the time of
/// the call.
pub fn add_game(
    store: &mut Store,
    user_id: i64,
    name: String,
    play_state: String,
    platform: String,
    platforms: &Vec<Platform>,
) -> (r: Result<(), ErrorKind>)
    ensures
        final(store)@.wf(),
        exists|now: i64|
            (final(store)@, r) == #[trigger] old(store)@.add_game(
                user_id,
                name@,
                play_state@,
                platform@,
                platform_slugs(platforms@),
                now,
            ),
{
    let now = now_seconds();
    add_game_at(store, user_id, name, play_state, platform, platforms, now)
}

/// Changes play state and platform of a record on behalf of the user
/// `caller_user_id`, who must own it. Ownership is tested first, then the
/// values, and only then whether there is such a record.
pub fn edit_game(
    store: &mut Store,
    user_game_id: i64,
    caller_user_id: i64,
    play_state: String,
    platform: String,
    platforms: &Vec<Platform>,
) -> (r: Result<(), ErrorKind>)
    ensures
        final(store)@.wf(),
        (final(store)@, r) == old(store)@.edit_game(
            user_game_id,
            caller_user_id,
            play_state@,
            platform@,
            platform_slugs(platforms@),
        ),
{
    proof {
        use_type_invariant(&*store);
    }
    match get_user_game_by_id(store, user_game_id) {
        Ok(target) => {
            match assert_owner(&Session { user_id: caller_user_id }, &target) {
                Ok(()) => {},
                Err(e) => {
                    return Err(e);
                },
            }
        },
        Err(_) => {},
    }
    if !are_valid_enum_values(&play_state, &platform, platforms) {
        return Err(ErrorKind::InvalidEnumValue);
    }
    update_user_game_state(store, user_game_id, play_state, platform)
}

/// Merging a record for one user and one game twice in a row leaves exactly
/// one record for them, and its play state, platform and dates are those of
/// the second call. The second call adds no row.
pub proof fn lemma_upsert_user_game_twice(
    s: Tables,
    first: NewUserGameView,
    second: NewUserGameView,
)
    requires
        s.wf(),
        first.user_id == second.user_id,
        first.game_id == second.game_id,
        s.upsert_user_game(first).1 is Ok,
    ensures
        ({
            let t = s.upsert_user_game(first).0;
            let (u, r) = t.upsert_user_game(second);
            let pair = (second.user_id, second.game_id);
            &&& r is Ok
            &&& u.wf()
            &&& u.user_games.len() == t.user_games.len()
            &&& u.user_game_of(second.user_id, second.game_id) matches Some(row) && without_id(row)
                == second
            &&& forall|i: int, j: int|
                0 <= i < u.user_games.len() && 0 <= j < u.user_games.len() && #[trigger] user_game_pairs(
                    u.user_games,
                )[i] == pair && #[trigger] user_game_pairs(u.user_games)[j] == pair ==> i == j
        }),
{
    let pair = (second.user_id, second.game_id);
    let t = s.upsert_user_game(first).0;
    lemma_position(user_game_pairs(s.user_games), pair);
    match position(user_game_pairs(s.user_games), pair) {
        Some(i) => {
            let row = overwritten(s.user_games[i], first);
            lemma_set_user_game_wf(s, i, row);
            assert(user_game_pairs(t.user_games) =~= user_game_pairs(s.user_games));
        },
        None => {
            let row = with_id(first, next_id(user_game_ids(s.user_games)) as i64);
            lemma_push_user_game_wf(s, row);
            lemma_position_push(user_game_pairs(s.user_games), pair, pair);
            assert(user_game_pairs(t.user_games) =~= user_game_pairs(s.user_games).push(pair));
        },
    }
    lemma_position(user_game_pairs(t.user_games), pair);
    let k = position(user_game_pairs(t.user_games), pair)->Some_0;
    let u = t.upsert_user_game(second).0;
    lemma_set_user_game_wf(t, k, overwritten(t.user_games[k], second));
    assert(user_game_pairs(u.user_games) =~= user_game_pairs(t.user_games));
}

/// A submission with a play state or a platform outside its allow-list is
/// refused with `InvalidEnumValue`, and no row is written.
pub proof fn lemma_add_game_rejects_invalid(
    s: Tables,
    user_id: i64,
    name: Seq<char>,
    play_state: Seq<char>,
    platform: Seq<char>,
    slugs: Seq<Seq<char>>,
    now: i64,
)
    requires
        !crate::play_state::play_state_values().contains(play_state) || !slugs.contains(platform),
    ensures
        s.add_game(user_id, name, play_state, platform, slugs, now) == (
            s,
            Err::<(), ErrorKind>(ErrorKind::InvalidEnumValue),
        ),
{
}

/// A request to change a record that belongs to another user is refused with
/// `Forbidden`, whatever the values, and the store stays as it is.
pub proof fn lemma_edit_game_forbidden(
    s: Tables,
    user_game_id: i64,
    caller_user_id: i64,
    play_state: Seq<char>,
    platform: Seq<char>,
    slugs: Seq<Seq<char>>,
)
    requires
        s.user_game_by_id(user_game_id) matches Some(row) && row.user_id != caller_user_id,
    ensures
        s.edit_game(user_game_id, caller_user_id, play_state, platform, slugs) == (
            s,
            Err::<(), ErrorKind>(ErrorKind::Forbidden),
        ),
{
}

/// A request to change a record to a play state or a platform outside its
/// allow-list is refused with `InvalidEnumValue`, and the store stays as it
/// is, unless the record belongs to another user: so it is for the caller's
/// own record, and so it is where no record has the id.
pub proof fn lemma_edit_game_rejects_invalid(
    s: Tables,
    user_game_id: i64,
    caller_user_id: i64,
    play_state: Seq<char>,
    platform: Seq<char>,
    slugs: Seq<Seq<char>>,
)
    requires
        !crate::play_state::play_state_values().contains(play_state) || !slugs.contains(platform),
        !s.owned_by_another(user_game_id, caller_user_id),
    ensures
        s.edit_game(user_game_id, caller_user_id, play_state, platform, slugs) == (
            s,
            Err::<(), ErrorKind>(ErrorKind::InvalidEnumValue),
        ),
{
}

/// A request to change a record that does not exist, with values inside the
/// allow-lists, is answered with `NotFound`, and the store stays as it is.
pub proof fn lemma_edit_game_not_found(
    s: Tables,
    user_game_id: i64,
    caller_user_id: i64,
    play_state: Seq<char>,
    platform: Seq<char>,
    slugs: Seq<Seq<char>>,
)
    requires
        s.user_game_by_id(user_game_id).is_none(),
        crate::play_state::play_state_values().contains(play_state),
        slugs.contains(platform),
    ensures
        s.edit_game(user_game_id, caller_user_id, play_state, platform, slugs) == (
            s,
            Err::<(), ErrorKind>(ErrorKind::NotFound),
        ),
{
}

} // verus!
