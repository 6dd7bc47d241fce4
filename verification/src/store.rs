use vstd::prelude::*;
use crate::error::ErrorKind;
use crate::keys::{distinct_where_present, follows, increasing, position};
use crate::keys::{lemma_position, lemma_push_increasing, lemma_push_unique};
use crate::model::{Game, GameView, User, UserGame, UserGameView, UserPrivate, UserPrivateView, UserView, views};
use crate::validate::{credentials_valid, games_valid, user_games_valid, users_valid};

verus! {

/// The ids of the users, row by row.
pub open spec fn user_ids(users: Seq<UserView>) -> Seq<i64> {
    Seq::new(users.len(), |i: int| users[i].id)
}

/// The usernames, row by row.
pub open spec fn usernames(users: Seq<UserView>) -> Seq<Seq<char>> {
    Seq::new(users.len(), |i: int| users[i].username)
}

/// The email addresses, row by row.
pub open spec fn emails(users: Seq<UserView>) -> Seq<Seq<char>> {
    Seq::new(users.len(), |i: int| users[i].email)
}

/// The ids of the credentials, row by row.
pub open spec fn credential_ids(credentials: Seq<UserPrivateView>) -> Seq<i64> {
    Seq::new(credentials.len(), |i: int| credentials[i].id)
}

/// The users that the credentials belong to, row by row.
pub open spec fn credential_user_ids(credentials: Seq<UserPrivateView>) -> Seq<i64> {
    Seq::new(credentials.len(), |i: int| credentials[i].user_id)
}

/// The ids of the games, row by row.
pub open spec fn game_ids(games: Seq<GameView>) -> Seq<i64> {
    Seq::new(games.len(), |i: int| games[i].id)
}

/// The names of the games, row by row.
pub open spec fn game_names(games: Seq<GameView>) -> Seq<Seq<char>> {
    Seq::new(games.len(), |i: int| games[i].name)
}

/// The external ids of the games, row by row.
pub open spec fn game_steam_ids(games: Seq<GameView>) -> Seq<Option<i64>> {
    Seq::new(games.len(), |i: int| games[i].steam_id)
}

/// The ids of the collection records, row by row.
pub open spec fn user_game_ids(user_games: Seq<UserGameView>) -> Seq<i64> {
    Seq::new(user_games.len(), |i: int| user_games[i].id)
}

/// The `(user_id, game_id)` pairs of the collection records, row by row.
pub open spec fn user_game_pairs(user_games: Seq<UserGameView>) -> Seq<(i64, i64)> {
    Seq::new(user_games.len(), |i: int| (user_games[i].user_id, user_games[i].game_id))
}

/// The user table is valid: ids grow, and no username or email occurs twice.
pub open spec fn users_wf(users: Seq<UserView>) -> bool {
    &&& increasing(user_ids(users))
    &&& usernames(users).no_duplicates()
    &&& emails(users).no_duplicates()
}

/// The credential table is valid beside `users`: ids grow, and the credential
/// in row `i` is that of the user in row `i`, so each user has exactly one.
pub open spec fn credentials_wf(users: Seq<UserView>, credentials: Seq<UserPrivateView>) -> bool {
    &&& increasing(credential_ids(credentials))
    &&& credential_user_ids(credentials) =~= user_ids(users)
}

/// The catalog is valid: ids grow, no name occurs twice, and no external id
/// occurs twice.
pub open spec fn games_wf(games: Seq<GameView>) -> bool {
    &&& increasing(game_ids(games))
    &&& game_names(games).no_duplicates()
    &&& distinct_where_present(game_steam_ids(games))
}

/// The collection table is valid: ids grow, and no `(user_id, game_id)` pair
/// occurs twice.
pub open spec fn user_games_wf(user_games: Seq<UserGameView>) -> bool {
    &&& increasing(user_game_ids(user_games))
    &&& user_game_pairs(user_games).no_duplicates()
}

/// The four tables as mathematical sequences of rows, in the order in which
/// the rows were inserted.
pub struct Tables {
    pub users: Seq<UserView>,
    pub credentials: Seq<UserPrivateView>,
    pub games: Seq<GameView>,
    pub user_games: Seq<UserGameView>,
}

impl Tables {
    /// The store without any row.
    pub open spec fn empty() -> Tables {
        Tables {
            users: Seq::empty(),
            credentials: Seq::empty(),
            games: Seq::empty(),
            user_games: Seq::empty(),
        }
    }

    /// All uniqueness constraints hold and every user has exactly one credential.
    pub open spec fn wf(self) -> bool {
        &&& users_wf(self.users)
        &&& credentials_wf(self.users, self.credentials)
        &&& games_wf(self.games)
        &&& user_games_wf(self.user_games)
    }

    /// The store with one more user and that user's credential.
    pub open spec fn push_account(self, user: UserView, credential: UserPrivateView) -> Tables {
        Tables {
            users: self.users.push(user),
            credentials: self.credentials.push(credential),
            ..self
        }
    }

    /// The store with one more game.
    pub open spec fn push_game(self, game: GameView) -> Tables {
        Tables { games: self.games.push(game), ..self }
    }

    /// The store with one more collection record.
    pub open spec fn push_user_game(self, user_game: UserGameView) -> Tables {
        Tables { user_games: self.user_games.push(user_game), ..self }
    }

    /// The store with the user in row `i` replaced.
    pub open spec fn set_user(self, i: int, user: UserView) -> Tables {
        Tables { users: self.users.update(i, user), ..self }
    }

    /// The store with the collection record in row `i` replaced.
    pub open spec fn set_user_game(self, i: int, user_game: UserGameView) -> Tables {
        Tables { user_games: self.user_games.update(i, user_game), ..self }
    }

    /// `user` and `credential` can be appended without breaking a constraint.
    pub open spec fn account_fits(self, user: UserView, credential: UserPrivateView) -> bool {
        &&& follows(user_ids(self.users), user.id)
        &&& position(usernames(self.users), user.username).is_none()
        &&& position(emails(self.users), user.email).is_none()
        &&& follows(credential_ids(self.credentials), credential.id)
        &&& credential.user_id == user.id
    }

    /// `game` can be appended without breaking a constraint.
    pub open spec fn game_fits(self, game: GameView) -> bool {
        &&& follows(game_ids(self.games), game.id)
        &&& position(game_names(self.games), game.name).is_none()
        &&& game.steam_id.is_some() ==> position(game_steam_ids(self.games), game.steam_id).is_none()
    }

    /// `user_game` can be appended without breaking a constraint.
    pub open spec fn user_game_fits(self, user_game: UserGameView) -> bool {
        &&& follows(user_game_ids(self.user_games), user_game.id)
        &&& position(
            user_game_pairs(self.user_games),
            (user_game.user_id, user_game.game_id),
        ).is_none()
    }
}

/// Appending an account that fits keeps the store valid.
pub proof fn lemma_push_account_wf(s: Tables, user: UserView, credential: UserPrivateView)
    requires
        s.wf(),
        s.account_fits(user, credential),
    ensures
        s.push_account(user, credential).wf(),
{
    let t = s.push_account(user, credential);
    lemma_push_increasing(user_ids(s.users), user.id);
    lemma_push_unique(usernames(s.users), user.username);
    lemma_push_unique(emails(s.users), user.email);
    lemma_push_increasing(credential_ids(s.credentials), credential.id);
    assert(user_ids(t.users) =~= user_ids(s.users).push(user.id));
    assert(usernames(t.users) =~= usernames(s.users).push(user.username));
    assert(emails(t.users) =~= emails(s.users).push(user.email));
    assert(credential_ids(t.credentials) =~= credential_ids(s.credentials).push(credential.id));
    assert(credential_user_ids(t.credentials) =~= credential_user_ids(s.credentials).push(
        credential.user_id,
    ));
}

/// Appending a game that fits keeps the store valid.
pub proof fn lemma_push_game_wf(s: Tables, game: GameView)
    requires
        s.wf(),
        s.game_fits(game),
    ensures
        s.push_game(game).wf(),
{
    let t = s.push_game(game);
    lemma_push_increasing(game_ids(s.games), game.id);
    lemma_push_unique(game_names(s.games), game.name);
    lemma_position(game_steam_ids(s.games), game.steam_id);
    assert(game_ids(t.games) =~= game_ids(s.games).push(game.id));
    assert(game_names(t.games) =~= game_names(s.games).push(game.name));
    assert(game_steam_ids(t.games) =~= game_steam_ids(s.games).push(game.steam_id));
}

/// Appending a collection record that fits keeps the store valid.
pub proof fn lemma_push_user_game_wf(s: Tables, user_game: UserGameView)
    requires
        s.wf(),
        s.user_game_fits(user_game),
    ensures
        s.push_user_game(user_game).wf(),
{
    let t = s.push_user_game(user_game);
    let pair = (user_game.user_id, user_game.game_id);
    lemma_push_increasing(user_game_ids(s.user_games), user_game.id);
    lemma_push_unique(user_game_pairs(s.user_games), pair);
    assert(user_game_ids(t.user_games) =~= user_game_ids(s.user_games).push(user_game.id));
    assert(user_game_pairs(t.user_games) =~= user_game_pairs(s.user_games).push(pair));
}

/// Replacing a collection record by one with the same id, user and game keeps
/// the store valid.
pub proof fn lemma_set_user_game_wf(s: Tables, i: int, user_game: UserGameView)
    requires
        s.wf(),
        0 <= i < s.user_games.len(),
        user_game.id == s.user_games[i].id,
        user_game.user_id == s.user_games[i].user_id,
        user_game.game_id == s.user_games[i].game_id,
    ensures
        s.set_user_game(i, user_game).wf(),
{
    let t = s.set_user_game(i, user_game);
    assert(user_game_ids(t.user_games) =~= user_game_ids(s.user_games));
    assert(user_game_pairs(t.user_games) =~= user_game_pairs(s.user_games));
}

/// Replacing a user by one with the same id and email, and a username that no
/// other user has, keeps the store valid.
pub proof fn lemma_set_user_wf(s: Tables, i: int, user: UserView)
    requires
        s.wf(),
        0 <= i < s.users.len(),
        user.id == s.users[i].id,
        user.email == s.users[i].email,
        forall|j: int| 0 <= j < s.users.len() && j != i ==> s.users[j].username != user.username,
    ensures
        s.set_user(i, user).wf(),
{
    let t = s.set_user(i, user);
    assert(user_ids(t.users) =~= user_ids(s.users));
    assert(emails(t.users) =~= emails(s.users));
    assert forall|a: int, b: int|
        0 <= a < usernames(t.users).len() && 0 <= b < usernames(t.users).len() && a
            != b implies usernames(t.users)[a] != usernames(t.users)[b] by {
        if a != i && b != i {
            assert(usernames(s.users)[a] != usernames(s.users)[b]);
        }
    }
}

/// `r` hands out `row`, or reports `NotFound` where there is no row.
pub open spec fn found<T: View>(r: Result<T, ErrorKind>, row: Option<T::V>) -> bool {
    match r {
        Ok(t) => row == Some(t@),
        Err(e) => e == ErrorKind::NotFound && row.is_none(),
    }
}

/// The value of four tables of rows.
pub open spec fn tables_of(
    users: Seq<User>,
    credentials: Seq<UserPrivate>,
    games: Seq<Game>,
    user_games: Seq<UserGame>,
) -> Tables {
    Tables {
        users: views(users),
        credentials: views(credentials),
        games: views(games),
        user_games: views(user_games),
    }
}

/// The storage gateway: the four tables, held in memory. A store is valid at
/// all times: it can only be made empty, or from tables that were checked,
/// and changed by operations that keep it valid.
pub struct Store {
    users: Vec<User>,
    credentials: Vec<UserPrivate>,
    games: Vec<Game>,
    user_games: Vec<UserGame>,
}

impl View for Store {
    type V = Tables;

    closed spec fn view(&self) -> Tables {
        Tables {
            users: views(self.users@),
            credentials: views(self.credentials@),
            games: views(self.games@),
            user_games: views(self.user_games@),
        }
    }
}

impl Store {
    /// Every store is valid, at all times.
    #[verifier::type_invariant]
    pub open spec fn valid(self) -> bool {
        self@.wf()
    }

    /// A store without any row.
    pub fn new() -> (r: Store)
        ensures
            r@ == Tables::empty(),
            r@.wf(),
    {
        let users: Vec<User> = Vec::new();
        let credentials: Vec<UserPrivate> = Vec::new();
        let games: Vec<Game> = Vec::new();
        let user_games: Vec<UserGame> = Vec::new();
        proof {
            assert(views(users@) =~= Seq::empty());
            assert(views(credentials@) =~= Seq::empty());
            assert(views(games@) =~= Seq::empty());
            assert(views(user_games@) =~= Seq::empty());
        }
        Store { users: users, credentials: credentials, games: games, user_games: user_games }
    }

    /// A store that holds the given tables, where they are valid together;
    /// `None` where a uniqueness constraint is broken, ids do not grow, or the
    /// credentials do not match the users row by row.
    pub fn from_tables(
        users: Vec<User>,
        credentials: Vec<UserPrivate>,
        games: Vec<Game>,
        user_games: Vec<UserGame>,
    ) -> (r: Option<Store>)
        ensures
            match r {
                Some(store) => store@.wf() && store@ == tables_of(
                    users@,
                    credentials@,
                    games@,
                    user_games@,
                ),
                None => !tables_of(users@, credentials@, games@, user_games@).wf(),
            },
    {
        if users_valid(&users) && credentials_valid(&users, &credentials) && games_valid(&games)
            && user_games_valid(&user_games) {
            Some(
                Store { users: users, credentials: credentials, games: games, user_games: user_games },
            )
        } else {
            None
        }
    }

    /// Takes the tables out and leaves the store empty.
    fn take(&mut self) -> (r: (Vec<User>, Vec<UserPrivate>, Vec<Game>, Vec<UserGame>))
        ensures
            old(self)@ == tables_of(r.0@, r.1@, r.2@, r.3@),
            old(self)@.wf(),
            final(self)@ == Tables::empty(),
    {
        proof {
            use_type_invariant(&*self);
        }
        let mut taken = Store::new();
        std::mem::swap(&mut taken, self);
        let Store { users, credentials, games, user_games } = taken;
        (users, credentials, games, user_games)
    }

    /// The user table.
    pub fn users(&self) -> (r: &Vec<User>)
        ensures
            views(r@) == self@.users,
    {
        &self.users
    }

    /// The credential table.
    pub fn credentials(&self) -> (r: &Vec<UserPrivate>)
        ensures
            views(r@) == self@.credentials,
    {
        &self.credentials
    }

    /// The catalog.
    pub fn games(&self) -> (r: &Vec<Game>)
        ensures
            views(r@) == self@.games,
    {
        &self.games
    }

    /// The collection table.
    pub fn user_games(&self) -> (r: &Vec<UserGame>)
        ensures
            views(r@) == self@.user_games,
    {
        &self.user_games
    }

    /// Appends a user and the user's credential in one step.
    pub(crate) fn push_account(&mut self, user: User, credential: UserPrivate)
        requires
            old(self)@.account_fits(user@, credential@),
        ensures
            final(self)@ == old(self)@.push_account(user@, credential@),
            final(self)@.wf(),
    {
        let (mut users, mut credentials, games, user_games) = self.take();
        proof {
            lemma_push_account_wf(old(self)@, user@, credential@);
            assert(views(users@.push(user)) =~= views(users@).push(user@));
            assert(views(credentials@.push(credential)) =~= views(credentials@).push(credential@));
        }
        users.push(user);
        credentials.push(credential);
        *self = Store { users: users, credentials: credentials, games: games, user_games: user_games };
    }

    /// Appends a game.
    pub(crate) fn push_game(&mut self, game: Game)
        requires
            old(self)@.game_fits(game@),
        ensures
            final(self)@ == old(self)@.push_game(game@),
            final(self)@.wf(),
    {
        let (users, credentials, mut games, user_games) = self.take();
        proof {
            lemma_push_game_wf(old(self)@, game@);
            assert(views(games@.push(game)) =~= views(games@).push(game@));
        }
        games.push(game);
        *self = Store { users: users, credentials: credentials, games: games, user_games: user_games };
    }

    /// Appends a collection record.
    pub(crate) fn push_user_game(&mut self, user_game: UserGame)
        requires
            old(self)@.user_game_fits(user_game@),
        ensures
            final(self)@ == old(self)@.push_user_game(user_game@),
            final(self)@.wf(),
    {
        let (users, credentials, games, mut user_games) = self.take();
        proof {
            lemma_push_user_game_wf(old(self)@, user_game@);
            assert(views(user_games@.push(user_game)) =~= views(user_games@).push(user_game@));
        }
        user_games.push(user_game);
        *self = Store { users: users, credentials: credentials, games: games, user_games: user_games };
    }

    /// Replaces the collection record in row `i` by one with the same id, user
    /// and game.
    pub(crate) fn set_user_game(&mut self, i: usize, user_game: UserGame)
        requires
            i < old(self)@.user_games.len(),
            user_game@.id == old(self)@.user_games[i as int].id,
            user_game@.user_id == old(self)@.user_games[i as int].user_id,
            user_game@.game_id == old(self)@.user_games[i as int].game_id,
        ensures
            final(self)@ == old(self)@.set_user_game(i as int, user_game@),
            final(self)@.wf(),
    {
        let (users, credentials, games, mut user_games) = self.take();
        proof {
            lemma_set_user_game_wf(old(self)@, i as int, user_game@);
            assert(views(user_games@.update(i as int, user_game)) =~= views(user_games@).update(
                i as int,
                user_game@,
            ));
        }
        user_games.set(i, user_game);
        *self = Store { users: users, credentials: credentials, games: games, user_games: user_games };
    }

    /// Replaces the user in row `i` by one with the same id and email, and a
    /// username that no other user has.
    pub(crate) fn set_user(&mut self, i: usize, user: User)
        requires
            i < old(self)@.users.len(),
            user@.id == old(self)@.users[i as int].id,
            user@.email == old(self)@.users[i as int].email,
            forall|j: int|
                0 <= j < old(self)@.users.len() && j != i ==> old(self)@.users[j].username
                    != user@.username,
        ensures
            final(self)@ == old(self)@.set_user(i as int, user@),
            final(self)@.wf(),
    {
        let (mut users, credentials, games, user_games) = self.take();
        proof {
            lemma_set_user_wf(old(self)@, i as int, user@);
            assert(views(users@.update(i as int, user)) =~= views(users@).update(i as int, user@));
        }
        users.set(i, user);
        *self = Store { users: users, credentials: credentials, games: games, user_games: user_games };
    }
}

} // verus!
