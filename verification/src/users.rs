use vstd::prelude::*;
use crate::error::ErrorKind;
use crate::keys::{lemma_position, position, row_at};
use crate::lookup::{user_index_by_email, user_index_by_id, user_index_by_name};
use crate::model::{User, UserView, copy_option_text, option_text, views};
use crate::session::Session;
use crate::store::{Store, Tables, emails, found, user_ids, usernames};

verus! {

impl Tables {
    /// The user with this id.
    pub open spec fn user_by_id(self, id: i64) -> Option<UserView> {
        row_at(self.users, position(user_ids(self.users), id))
    }

    /// The user with exactly this username.
    pub open spec fn user_by_name(self, username: Seq<char>) -> Option<UserView> {
        row_at(self.users, position(usernames(self.users), username))
    }

    /// The user with exactly this email address.
    pub open spec fn user_by_email(self, email: Seq<char>) -> Option<UserView> {
        row_at(self.users, position(emails(self.users), email))
    }

    /// The user that an identifier names: the one with this username; where
    /// there is none, the one with this email address.
    pub open spec fn user_by_identifier(self, identifier: Seq<char>) -> Option<UserView> {
        match self.user_by_name(identifier) {
            Some(user) => Some(user),
            None => self.user_by_email(identifier),
        }
    }

    /// The store after a request to rename user `user_id`, and what the
    /// request returns. Where no user has that id nothing changes. A username
    /// that another user holds is refused.
    pub open spec fn rename(self, user_id: i64, username: Seq<char>) -> (
        Tables,
        Result<(), ErrorKind>,
    ) {
        match position(user_ids(self.users), user_id) {
            None => (self, Ok(())),
            Some(i) => {
                let holder = position(usernames(self.users), username);
                if holder.is_some() && holder != Some(i) {
                    (self, Err(ErrorKind::DuplicateIdentity))
                } else {
                    (self.set_user(i, UserView { username: username, ..self.users[i] }), Ok(()))
                }
            },
        }
    }

    /// The store after a user's settings were submitted, and what the
    /// submission returns: the user is renamed, and only where that worked is
    /// the external account set, an empty text standing for none.
    pub open spec fn update_settings(self, user_id: i64, username: Seq<char>, steam_id: Seq<char>) -> (
        Tables,
        Result<(), ErrorKind>,
    ) {
        let (renamed, r) = self.rename(user_id, username);
        if r is Err {
            (renamed, r)
        } else {
            (
                renamed.link_account(
                    user_id,
                    if steam_id.len() == 0 {
                        None
                    } else {
                        Some(steam_id)
                    },
                ),
                Ok(()),
            )
        }
    }

    /// The store after the external account of user `user_id` was set. Where
    /// no user has that id nothing changes.
    pub open spec fn link_account(self, user_id: i64, steam_id: Option<Seq<char>>) -> Tables {
        match position(user_ids(self.users), user_id) {
            None => self,
            Some(i) => self.set_user(i, UserView { steam_id: steam_id, ..self.users[i] }),
        }
    }
}

/// Loads the user with this id.
pub fn get_user_by_id(store: &Store, user_id: i64) -> (r: Result<User, ErrorKind>)
    ensures
        found(r, store@.user_by_id(user_id)),
{
    let users = store.users();
    match user_index_by_id(users, user_id) {
        Some(i) => {
            proof {
                lemma_position(user_ids(store@.users), user_id);
            }
            Ok(users[i].clone())
        },
        None => Err(ErrorKind::NotFound),
    }
}

/// Loads the user with exactly this username.
pub fn get_user_by_name(store: &Store, username: String) -> (r: Result<User, ErrorKind>)
    ensures
        found(r, store@.user_by_name(username@)),
{
    let users = store.users();
    match user_index_by_name(users, &username) {
        Some(i) => {
            proof {
                lemma_position(usernames(store@.users), username@);
            }
            Ok(users[i].clone())
        },
        None => Err(ErrorKind::NotFound),
    }
}

/// Loads the user with exactly this email address.
pub fn get_user_from_email(store: &Store, email: String) -> (r: Result<User, ErrorKind>)
    ensures
        found(r, store@.user_by_email(email@)),
{
    let users = store.users();
    match user_index_by_email(users, &email) {
        Some(i) => {
            proof {
                lemma_position(emails(store@.users), email@);
            }
            Ok(users[i].clone())
        },
        None => Err(ErrorKind::NotFound),
    }
}

/// Resolves a login identifier: first as a username, and only where no user
/// has that username, as an email address.
pub fn get_user_from_username_or_email(store: &Store, username_or_email: String) -> (r: Result<
    User,
    ErrorKind,
>)
    ensures
        found(r, store@.user_by_identifier(username_or_email@)),
{
    let users = store.users();
    match user_index_by_name(users, &username_or_email) {
        Some(i) => {
            proof {
                lemma_position(usernames(store@.users), username_or_email@);
            }
            Ok(users[i].clone())
        },
        None => get_user_from_email(store, username_or_email),
    }
}

/// All users, in the order of their ids.
pub fn get_all_users(store: &Store) -> (r: Result<Vec<User>, ErrorKind>)
    ensures
        r matches Ok(all) && views(all@) == store@.users,
{
    let users = store.users();
    let mut all: Vec<User> = Vec::new();
    let mut i: usize = 0;
    while i < users.len()
        invariant
            i <= users.len(),
            views(all@) =~= views(users@).take(i as int),
        decreases users.len() - i,
    {
        let ghost before = all@;
        let user = users[i].clone();
        all.push(user);
        proof {
            assert(views(all@) =~= views(before).push(user@));
            assert(views(users@).take(i as int + 1) =~= views(users@).take(i as int).push(
                users@[i as int]@,
            ));
        }
        i += 1;
    }
    proof {
        assert(views(users@).take(i as int) =~= views(users@));
    }
    Ok(all)
}

/// Renames a user. A username that another user holds is refused with
/// `DuplicateIdentity`; where no user has the id, nothing changes.
pub fn update_username(store: &mut Store, user_id: i64, username: String) -> (r: Result<
    (),
    ErrorKind,
>)
    ensures
        final(store)@.wf(),
        (final(store)@, r) == old(store)@.rename(user_id, username@),
{
    proof {
        use_type_invariant(&*store);
    }
    let found_at = user_index_by_id(store.users(), user_id);
    match found_at {
        None => Ok(()),
        Some(i) => {
            let holder = user_index_by_name(store.users(), &username);
            let taken = match holder {
                Some(j) => j != i,
                None => false,
            };
            if taken {
                Err(ErrorKind::DuplicateIdentity)
            } else {
                proof {
                    lemma_position(user_ids(store@.users), user_id);
                    lemma_position(usernames(store@.users), username@);
                }
                let users = store.users();
                assert(views(users@).len() == users@.len());
                let current = &users[i];
                let renamed = User {
                    id: current.id,
                    username: username,
                    email: current.email.clone(),
                    steam_id: copy_option_text(&current.steam_id),
                };
                proof {
                    let names = usernames(store@.users);
                    assert forall|j: int| 0 <= j < store@.users.len() && j != i implies store@.users[j].username
                        != renamed@.username by {
                        if names[j] == renamed@.username {
                            assert(holder == Some(i));
                            assert(names[j] != names[i as int]);
                        }
                    }
                }
                store.set_user(i, renamed);
                Ok(())
            }
        },
    }
}

/// Sets or clears the external account of a user; where no user has the id,
/// nothing changes.
pub fn update_steam_id(store: &mut Store, user_id: i64, steam_id: Option<String>) -> (r: Result<
    (),
    ErrorKind,
>)
    ensures
        final(store)@.wf(),
        r == Ok::<(), ErrorKind>(()),
        final(store)@ == old(store)@.link_account(user_id, option_text(steam_id)),
{
    proof {
        use_type_invariant(&*store);
    }
    let found_at = user_index_by_id(store.users(), user_id);
    match found_at {
        None => Ok(()),
        Some(i) => {
            proof {
                lemma_position(user_ids(store@.users), user_id);
            }
            let users = store.users();
            assert(views(users@).len() == users@.len());
            let current = &users[i];
            let linked = User {
                id: current.id,
                username: current.username.clone(),
                email: current.email.clone(),
                steam_id: steam_id,
            };
            proof {
                assert(usernames(store@.users).no_duplicates());
                assert forall|j: int| 0 <= j < store@.users.len() && j != i implies store@.users[j].username
                    != linked@.username by {
                    assert(usernames(store@.users)[j] != usernames(store@.users)[i as int]);
                }
            }
            store.set_user(i, linked);
            Ok(())
        },
    }
}

/// Loads the user that a session names.
pub fn get_user_from_session(store: &Store, session: &Session) -> (r: Result<User, ErrorKind>)
    ensures
        found(r, store@.user_by_id(session.user_id)),
{
    get_user_by_id(store, session.user_id)
}

/// Applies a user's settings: the new username, then the external account,
/// where an empty text clears it. A username that is taken is refused before
/// the account is touched.
pub fn update_settings(store: &mut Store, session: &Session, username: String, steam_id: String) -> (r:
    Result<(), ErrorKind>)
    ensures
        final(store)@.wf(),
        (final(store)@, r) == old(store)@.update_settings(session.user_id, username@, steam_id@),
{
    let account = if steam_id.as_str().is_empty() {
        None
    } else {
        Some(steam_id)
    };
    assert(option_text(account) == if steam_id@.len() == 0 {
        None
    } else {
        Some(steam_id@)
    });
    match update_username(store, session.user_id, username) {
        Ok(()) => {},
        Err(e) => {
            return Err(e);
        },
    }
    update_steam_id(store, session.user_id, account)
}

} // verus!
