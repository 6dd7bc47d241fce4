use vstd::prelude::*;

verus! {

/// An identity: `username` and `email` are each unique among all users.
#[derive(Debug)]
pub struct User {
    pub id: i64,
    pub username: String,
    pub email: String,
    pub steam_id: Option<String>,
}

/// The credential of one user: the adaptive hash of the password followed by
/// the salt, and the salt itself.
pub struct UserPrivate {
    pub id: i64,
    pub user_id: i64,
    pub password_hash: String,
    pub salt: String,
}

/// A catalog entry. `name` is unique; `steam_id`, where present, is unique.
#[derive(Debug)]
pub struct Game {
    pub id: i64,
    pub name: String,
    pub steam_id: Option<i64>,
}

/// A catalog entry that has no id yet.
#[derive(Debug)]
pub struct NewGame {
    pub name: String,
    pub steam_id: Option<i64>,
}

/// One user's record of one game. There is at most one per `(user_id, game_id)`.
#[derive(Debug)]
pub struct UserGame {
    pub id: i64,
    pub game_id: i64,
    pub user_id: i64,
    pub play_state: String,
    pub platform: String,
    pub acquisition_date: i64,
    pub start_date: Option<i64>,
    pub beat_date: Option<i64>,
}

/// A collection record that has no id yet.
#[derive(Debug)]
pub struct NewUserGame {
    pub game_id: i64,
    pub user_id: i64,
    pub play_state: String,
    pub platform: String,
    pub acquisition_date: i64,
    pub start_date: Option<i64>,
    pub beat_date: Option<i64>,
}

/// What a visitor submits to create an account.
pub struct UserSignupInfo {
    pub username: String,
    pub email: String,
    pub password: String,
}

/// What a visitor submits to log in.
pub struct LoginInfo {
    pub username_or_email: String,
    pub password: String,
}

/// The mathematical value of a [`User`].
pub struct UserView {
    pub id: i64,
    pub username: Seq<char>,
    pub email: Seq<char>,
    pub steam_id: Option<Seq<char>>,
}

/// The mathematical value of a [`UserPrivate`].
pub struct UserPrivateView {
    pub id: i64,
    pub user_id: i64,
    pub password_hash: Seq<char>,
    pub salt: Seq<char>,
}

/// The mathematical value of a [`Game`].
pub struct GameView {
    pub id: i64,
    pub name: Seq<char>,
    pub steam_id: Option<i64>,
}

/// The mathematical value of a [`NewGame`].
pub struct NewGameView {
    pub name: Seq<char>,
    pub steam_id: Option<i64>,
}

/// The mathematical value of a [`UserGame`].
pub struct UserGameView {
    pub id: i64,
    pub game_id: i64,
    pub user_id: i64,
    pub play_state: Seq<char>,
    pub platform: Seq<char>,
    pub acquisition_date: i64,
    pub start_date: Option<i64>,
    pub beat_date: Option<i64>,
}

/// The mathematical value of a [`NewUserGame`].
pub struct NewUserGameView {
    pub game_id: i64,
    pub user_id: i64,
    pub play_state: Seq<char>,
    pub platform: Seq<char>,
    pub acquisition_date: i64,
    pub start_date: Option<i64>,
    pub beat_date: Option<i64>,
}

/// The mathematical value of a [`UserSignupInfo`].
pub struct UserSignupInfoView {
    pub username: Seq<char>,
    pub email: Seq<char>,
    pub password: Seq<char>,
}

/// The mathematical value of a [`LoginInfo`].
pub struct LoginInfoView {
    pub username_or_email: Seq<char>,
    pub password: Seq<char>,
}

/// The characters of an optional string.
pub open spec fn option_text(s: Option<String>) -> Option<Seq<char>> {
    match s {
        Some(t) => Some(t@),
        None => None,
    }
}

impl View for User {
    type V = UserView;

    open spec fn view(&self) -> UserView {
        UserView {
            id: self.id,
            username: self.username@,
            email: self.email@,
            steam_id: option_text(self.steam_id),
        }
    }
}

impl View for UserPrivate {
    type V = UserPrivateView;

    open spec fn view(&self) -> UserPrivateView {
        UserPrivateView {
            id: self.id,
            user_id: self.user_id,
            password_hash: self.password_hash@,
            salt: self.salt@,
        }
    }
}

impl View for Game {
    type V = GameView;

    open spec fn view(&self) -> GameView {
        GameView { id: self.id, name: self.name@, steam_id: self.steam_id }
    }
}

impl View for NewGame {
    type V = NewGameView;

    open spec fn view(&self) -> NewGameView {
        NewGameView { name: self.name@, steam_id: self.steam_id }
    }
}

impl View for UserGame {
    type V = UserGameView;

    open spec fn view(&self) -> UserGameView {
        UserGameView {
            id: self.id,
            game_id: self.game_id,
            user_id: self.user_id,
            play_state: self.play_state@,
            platform: self.platform@,
            acquisition_date: self.acquisition_date,
            start_date: self.start_date,
            beat_date: self.beat_date,
        }
    }
}

impl View for NewUserGame {
    type V = NewUserGameView;

    open spec fn view(&self) -> NewUserGameView {
        NewUserGameView {
            game_id: self.game_id,
            user_id: self.user_id,
            play_state: self.play_state@,
            platform: self.platform@,
            acquisition_date: self.acquisition_date,
            start_date: self.start_date,
            beat_date: self.beat_date,
        }
    }
}

impl View for UserSignupInfo {
    type V = UserSignupInfoView;

    open spec fn view(&self) -> UserSignupInfoView {
        UserSignupInfoView {
            username: self.username@,
            email: self.email@,
            password: self.password@,
        }
    }
}

impl View for LoginInfo {
    type V = LoginInfoView;

    open spec fn view(&self) -> LoginInfoView {
        LoginInfoView { username_or_email: self.username_or_email@, password: self.password@ }
    }
}

/// The values of a sequence of rows, row by row.
pub open spec fn views<T: View>(rows: Seq<T>) -> Seq<T::V> {
    Seq::new(rows.len(), |i: int| rows[i]@)
}

/// A copy of an optional string with the same characters.
pub fn copy_option_text(s: &Option<String>) -> (r: Option<String>)
    ensures
        option_text(r) == option_text(*s),
{
    match s {
        Some(t) => Some(t.clone()),
        None => None,
    }
}

impl Clone for User {
    fn clone(&self) -> (r: Self)
        ensures
            r@ == self@,
    {
        User {
            id: self.id,
            username: self.username.clone(),
            email: self.email.clone(),
            steam_id: copy_option_text(&self.steam_id),
        }
    }
}

impl Clone for UserPrivate {
    fn clone(&self) -> (r: Self)
        ensures
            r@ == self@,
    {
        UserPrivate {
            id: self.id,
            user_id: self.user_id,
            password_hash: self.password_hash.clone(),
            salt: self.salt.clone(),
        }
    }
}

impl Clone for Game {
    fn clone(&self) -> (r: Self)
        ensures
            r@ == self@,
    {
        Game { id: self.id, name: self.name.clone(), steam_id: self.steam_id }
    }
}

impl Clone for UserGame {
    fn clone(&self) -> (r: Self)
        ensures
            r@ == self@,
    {
        UserGame {
            id: self.id,
            game_id: self.game_id,
            user_id: self.user_id,
            play_state: self.play_state.clone(),
            platform: self.platform.clone(),
            acquisition_date: self.acquisition_date,
            start_date: self.start_date,
            beat_date: self.beat_date,
        }
    }
}

} // verus!
