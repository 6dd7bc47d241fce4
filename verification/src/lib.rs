//! A personal game-collection tracker: accounts and their credentials,
//! session tokens, a catalog of games, each user's collection, and the import
//! of an external owned-games list into it.
//!
//! The tables live in a [`store::Store`], whose mathematical value is a
//! [`store::Tables`]. Every operation states, over that value, what it returns
//! and what it leaves in the store; the uniqueness constraints of the tables
//! are kept by all of them.
//!
//! - [`auth`]: signup and login, over `rand` and `bcrypt`
//! - [`session`]: issuing and validating session tokens, over `secure_session`
//! - [`catalog`]: games by name and by external id
//! - [`collection`]: a user's records of games
//! - [`steam`]: importing an owned-games list
//! - [`users`]: looking up users and changing their settings
//! - [`store`], [`validate`], [`lookup`], [`keys`]: the tables, their
//!   constraints, and searching them
//! - [`hex`], [`salt`], [`play_state`], [`model`], [`error`]: texts,
//!   allow-lists, rows, and error kinds
pub mod auth;
pub mod catalog;
mod clock;
pub mod collection;
pub mod error;
pub mod hex;
pub mod keys;
pub mod lookup;
pub mod model;
pub mod play_state;
pub mod salt;
pub mod session;
pub mod steam;
pub mod store;
pub mod users;
pub mod validate;
