use vstd::prelude::*;
use crate::error::ErrorKind;
use crate::keys::{lemma_position, lemma_position_push, next_id, position, row_at};
use crate::lookup::{game_index_by_id, game_index_by_name, game_index_by_steam_id, next_game_id};
use crate::model::{Game, GameView, NewGame, NewGameView};
use crate::store::{Store, Tables, game_ids, game_names, game_steam_ids, found};

verus! {

/// The key under which an external catalog id is stored: the same 64 bits
/// read as a signed number.
pub open spec fn steam_key(external_id: u64) -> i64 {
    if external_id <= i64::MAX as u64 {
        external_id as i64
    } else {
        (external_id - 0x1_0000_0000_0000_0000) as i64
    }
}

impl Tables {
    /// The game with this id.
    pub open spec fn game_by_id(self, id: i64) -> Option<GameView> {
        row_at(self.games, position(game_ids(self.games), id))
    }

    /// The game with exactly this name.
    pub open spec fn game_by_name(self, name: Seq<char>) -> Option<GameView> {
        row_at(self.games, position(game_names(self.games), name))
    }

    /// The game stored under this external key.
    pub open spec fn game_by_steam_key(self, key: i64) -> Option<GameView> {
        row_at(self.games, position(game_steam_ids(self.games), Some(key)))
    }

    /// The game can be inserted: its name is free, its external key, if it has
    /// one, is free, and an id is left.
    pub open spec fn admits_game(self, game: NewGameView) -> bool {
        &&& position(game_names(self.games), game.name).is_none()
        &&& game.steam_id.is_some() ==> position(game_steam_ids(self.games), game.steam_id).is_none()
        &&& next_id(game_ids(self.games)) <= i64::MAX
    }

    /// The store after a request to insert a game, and what the request
    /// returns: the new id, or `StorageFailure` with nothing changed.
    pub open spec fn insert_game(self, game: NewGameView) -> (Tables, Result<i64, ErrorKind>) {
        if self.admits_game(game) {
            let id = next_id(game_ids(self.games)) as i64;
            (self.push_game(GameView { id: id, name: game.name, steam_id: game.steam_id }), Ok(id))
        } else {
            (self, Err(ErrorKind::StorageFailure))
        }
    }

    /// Reconciling a title: the id of the game with exactly this name, which is
    /// inserted without an external key where there is none yet.
    pub open spec fn upsert_game(self, name: Seq<char>) -> (Tables, Result<i64, ErrorKind>) {
        match self.game_by_name(name) {
            Some(game) => (self, Ok(game.id)),
            None => self.insert_game(NewGameView { name: name, steam_id: None }),
        }
    }

    /// Reconciling an external id: the id of the game stored under its key,
    /// which is inserted under the supplied name where there is none yet. The
    /// name plays no part in the lookup.
    pub open spec fn upsert_by_external_id(self, external_id: u64, name: Seq<char>) -> (
        Tables,
        Result<i64, ErrorKind>,
    ) {
        match self.game_by_steam_key(steam_key(external_id)) {
            Some(game) => (self, Ok(game.id)),
            None => self.insert_game(
                NewGameView { name: name, steam_id: Some(steam_key(external_id)) },
            ),
        }
    }
}

/// Reads an external catalog id as the signed key it is stored under.
pub fn to_steam_key(external_id: u64) -> (r: i64)
    ensures
        r == steam_key(external_id),
{
    if external_id <= 0x7fff_ffff_ffff_ffff {
        external_id as i64
    } else {
        let low: u64 = external_id - 0x8000_0000_0000_0000;
        let low_signed: i64 = low as i64;
        low_signed + i64::MIN
    }
}

/// Loads the game with this id.
pub fn get_game_by_id(store: &Store, game_id: i64) -> (r: Result<Game, ErrorKind>)
    ensures
        found(r, store@.game_by_id(game_id)),
{
    let games = store.games();
    match game_index_by_id(games, game_id) {
        Some(i) => {
            proof {
                lemma_position(game_ids(store@.games), game_id);
            }
            Ok(games[i].clone())
        },
        None => Err(ErrorKind::NotFound),
    }
}

/// Loads the game with exactly this name, if there is one.
pub fn get_optional_game_by_name(store: &Store, name: &String) -> (r: Result<
    Option<Game>,
    ErrorKind,
>)
    ensures
        r is Ok,
        match r->Ok_0 {
            Some(game) => store@.game_by_name(name@) == Some(game@),
            None => store@.game_by_name(name@).is_none(),
        },
{
    let games = store.games();
    match game_index_by_name(games, name) {
        Some(i) => {
            proof {
                lemma_position(game_names(store@.games), name@);
            }
            Ok(Some(games[i].clone()))
        },
        None => Ok(None),
    }
}

/// Loads the game with exactly this name.
pub fn get_game_by_name(store: &Store, name: &String) -> (r: Result<Game, ErrorKind>)
    ensures
        found(r, store@.game_by_name(name@)),
{
    let games = store.games();
    match game_index_by_name(games, name) {
        Some(i) => {
            proof {
                lemma_position(game_names(store@.games), name@);
            }
            Ok(games[i].clone())
        },
        None => Err(ErrorKind::NotFound),
    }
}

/// Loads the game that an external catalog knows under `steam_id`.
pub fn get_game_by_steam_id(store: &Store, steam_id: u64) -> (r: Result<Game, ErrorKind>)
    ensures
        found(r, store@.game_by_steam_key(steam_key(steam_id))),
{
    let games = store.games();
    let key = to_steam_key(steam_id);
    match game_index_by_steam_id(games, key) {
        Some(i) => {
            proof {
                lemma_position(game_steam_ids(store@.games), Some(key));
            }
            Ok(games[i].clone())
        },
        None => Err(ErrorKind::NotFound),
    }
}

/// Inserts a game and returns its id. A name or an external key that is
/// taken, or a catalog without an id left, gives `StorageFailure`.
pub fn insert_game(store: &mut Store, game: NewGame) -> (r: Result<i64, ErrorKind>)
    ensures
        final(store)@.wf(),
        (final(store)@, r) == old(store)@.insert_game(game@),
{
    proof {
        use_type_invariant(&*store);
    }
    let games = store.games();
    if game_index_by_name(games, &game.name).is_some() {
        return Err(ErrorKind::StorageFailure);
    }
    match game.steam_id {
        Some(key) => {
            if game_index_by_steam_id(games, key).is_some() {
                return Err(ErrorKind::StorageFailure);
            }
        },
        None => {},
    }
    let id = match next_game_id(games) {
        Some(id) => id,
        None => {
            return Err(ErrorKind::StorageFailure);
        },
    };
    store.push_game(Game { id: id, name: game.name, steam_id: game.steam_id });
    Ok(id)
}

/// Returns the id of the game with exactly this name, inserting it first
/// where the catalog has none. Titles are compared as they are written.
pub fn upsert_game(store: &mut Store, name: String) -> (r: Result<i64, ErrorKind>)
    ensures
        final(store)@.wf(),
        (final(store)@, r) == old(store)@.upsert_game(name@),
{
    proof {
        use_type_invariant(&*store);
    }
    let games = store.games();
    match game_index_by_name(games, &name) {
        Some(i) => {
            proof {
                lemma_position(game_names(store@.games), name@);
            }
            Ok(games[i].id)
        },
        None => insert_game(store, NewGame { name: name, steam_id: None }),
    }
}

/// Returns the id of the game that an external catalog knows under
/// `external_id`, inserting it under `name` where the catalog has none.
pub fn upsert_by_external_id(store: &mut Store, external_id: u64, name: String) -> (r: Result<
    i64,
    ErrorKind,
>)
    ensures
        final(store)@.wf(),
        (final(store)@, r) == old(store)@.upsert_by_external_id(external_id, name@),
{
    proof {
        use_type_invariant(&*store);
    }
    let games = store.games();
    let key = to_steam_key(external_id);
    match game_index_by_steam_id(games, key) {
        Some(i) => {
            proof {
                lemma_position(game_steam_ids(store@.games), Some(key));
            }
            Ok(games[i].id)
        },
        None => insert_game(store, NewGame { name: name, steam_id: Some(key) }),
    }
}

/// Reconciling the same external id a second time, under whatever name,
/// returns the id that the first time returned and changes nothing; and
/// exactly one game is stored under that id's key.
pub proof fn lemma_upsert_by_external_id_twice(
    s: Tables,
    external_id: u64,
    first_name: Seq<char>,
    second_name: Seq<char>,
)
    requires
        s.wf(),
        s.upsert_by_external_id(external_id, first_name).1 is Ok,
    ensures
        ({
            let (t, r) = s.upsert_by_external_id(external_id, first_name);
            let key = Some(steam_key(external_id));
            &&& t.wf()
            &&& t.upsert_by_external_id(external_id, second_name) == (t, r)
            &&& exists|i: int| 0 <= i < t.games.len() && #[trigger] t.games[i].steam_id == key
            &&& forall|i: int, j: int|
                0 <= i < t.games.len() && 0 <= j < t.games.len() && #[trigger] t.games[i].steam_id
                    == key && #[trigger] t.games[j].steam_id == key ==> i == j
        }),
{
    let (t, r) = s.upsert_by_external_id(external_id, first_name);
    let key = Some(steam_key(external_id));
    lemma_position(game_steam_ids(s.games), key);
    if s.game_by_steam_key(steam_key(external_id)).is_none() {
        let game = GameView { id: r->Ok_0, name: first_name, steam_id: key };
        crate::store::lemma_push_game_wf(s, game);
        lemma_position_push(game_steam_ids(s.games), key, key);
        assert(game_steam_ids(t.games) =~= game_steam_ids(s.games).push(key));
    }
    lemma_position(game_steam_ids(t.games), key);
    let k = position(game_steam_ids(t.games), key)->Some_0;
    assert(t.games[k].steam_id == key);
    assert forall|i: int, j: int|
        0 <= i < t.games.len() && 0 <= j < t.games.len() && #[trigger] t.games[i].steam_id == key
            && #[trigger] t.games[j].steam_id == key implies i == j by {
        assert(game_steam_ids(t.games)[i] == key);
        assert(game_steam_ids(t.games)[j] == key);
    }
}

/// Reconciling the same title a second time returns the id that the first
/// time returned and changes nothing.
pub proof fn lemma_upsert_game_twice(s: Tables, name: Seq<char>)
    requires
        s.wf(),
        s.upsert_game(name).1 is Ok,
    ensures
        ({
            let (t, r) = s.upsert_game(name);
            t.upsert_game(name) == (t, r)
        }),
{
    let (t, r) = s.upsert_game(name);
    lemma_position(game_names(s.games), name);
    if s.game_by_name(name).is_none() {
        lemma_position_push(game_names(s.games), name, name);
        assert(game_names(t.games) =~= game_names(s.games).push(name));
    }
}

} // verus!
