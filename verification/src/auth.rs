use vstd::prelude::*;
use vstd::string::StringExecFns;
use crate::error::ErrorKind;
use crate::keys::{lemma_follows_absent, lemma_position, lemma_position_push, next_id, position, row_at};
use crate::lookup::{credential_index_by_user, next_credential_id, next_user_id, user_index_by_email, user_index_by_name};
use crate::model::{LoginInfo, LoginInfoView, User, UserPrivate, UserPrivateView, UserSignupInfo, UserSignupInfoView, UserView, views};
use crate::salt::{encode_salt, salt_text};
use crate::store::{Store, Tables, credential_ids, credential_user_ids, emails, user_ids, usernames};

verus! {

/// The operating system's random source, `rand::OsRng`.
#[verifier::external_type_specification]
#[verifier::external_body]
pub struct ExOsRng(rand::OsRng);

/// The error of `bcrypt::hash` and `bcrypt::verify`.
#[verifier::external_type_specification]
#[verifier::external_body]
pub struct ExBcryptError(bcrypt::BcryptError);

/// The error of `rand::OsRng::new`.
#[verifier::external_type_specification]
#[verifier::external_body]
pub struct ExIoError(std::io::Error);

/// What `bcrypt::verify` returns for a password and a stored hash: whether the
/// hash is that of this password under the cost and salt that the hash
/// carries, or `None` where it returns an error, as it does for a hash that
/// is malformed.
pub uninterp spec fn bcrypt_verdict(password: Seq<char>, hash: Seq<char>) -> Option<bool>;

/// Calls `rand::OsRng::new`, which opens the operating system's random
/// source. Nothing is claimed of the result.
#[verifier::external_body]
fn open_random_source() -> (r: Result<rand::OsRng, std::io::Error>)
{
    rand::OsRng::new()
}

/// Calls `rand::Rng::fill_bytes`, which overwrites every byte of the buffer
/// with a random one. Only the unchanged length is claimed.
#[verifier::external_body]
fn fill_random(source: &mut rand::OsRng, buffer: &mut Vec<u8>)
    ensures
        final(buffer)@.len() == old(buffer)@.len(),
{
    rand::Rng::fill_bytes(source, buffer.as_mut_slice())
}

/// Calls `bcrypt::hash` at `bcrypt::DEFAULT_COST`, which draws a fresh salt
/// of its own and returns the hash in the modular crypt format. The claim is
/// that `bcrypt::verify` accepts the same password against the hash that
/// comes back.
#[verifier::external_body]
fn hash_password(password: &str) -> (r: Result<String, bcrypt::BcryptError>)
    ensures
        r matches Ok(hash) ==> bcrypt_verdict(password@, hash@) == Some(true),
{
    bcrypt::hash(password, bcrypt::DEFAULT_COST)
}

/// Calls `bcrypt::verify`, which recomputes the hash of the password under
/// the cost and salt that the stored hash carries and compares in constant
/// time.
#[verifier::external_body]
fn verify_password(password: &str, hash: &str) -> (r: Result<bool, bcrypt::BcryptError>)
    ensures
        bcrypt_verdict(password@, hash@) == match r {
            Ok(accepted) => Some(accepted),
            Err(_) => None,
        },
{
    bcrypt::verify(password, hash)
}

impl Tables {
    /// The credential that belongs to user `user_id`.
    pub open spec fn credential_of(self, user_id: i64) -> Option<UserPrivateView> {
        row_at(self.credentials, position(credential_user_ids(self.credentials), user_id))
    }

    /// The store after an account was asked for with a password hash and a
    /// salt at hand, and what the request returns. A username or an email
    /// that is taken gives `DuplicateIdentity`; where no id is left,
    /// `StorageFailure`; in both cases nothing changes. Otherwise the user and
    /// the credential are inserted together and the user's id is returned.
    pub open spec fn register(
        self,
        info: UserSignupInfoView,
        password_hash: Seq<char>,
        salt: Seq<char>,
    ) -> (Tables, Result<i64, ErrorKind>) {
        if position(usernames(self.users), info.username).is_some() || position(
            emails(self.users),
            info.email,
        ).is_some() {
            (self, Err(ErrorKind::DuplicateIdentity))
        } else if next_id(user_ids(self.users)) > i64::MAX || next_id(
            credential_ids(self.credentials),
        ) > i64::MAX {
            (self, Err(ErrorKind::StorageFailure))
        } else {
            let user = UserView {
                id: next_id(user_ids(self.users)) as i64,
                username: info.username,
                email: info.email,
                steam_id: None,
            };
            let credential = UserPrivateView {
                id: next_id(credential_ids(self.credentials)) as i64,
                user_id: user.id,
                password_hash: password_hash,
                salt: salt,
            };
            (self.push_account(user, credential), Ok(user.id))
        }
    }

    /// What a login returns: `NotFound` where the identifier names no user,
    /// the user's id where the verifier accepts the password followed by the
    /// stored salt against the stored hash, and `InvalidCredentials` otherwise.
    pub open spec fn login(self, info: LoginInfoView) -> Result<i64, ErrorKind> {
        match self.user_by_identifier(info.username_or_email) {
            None => Err(ErrorKind::NotFound),
            Some(user) => match self.credential_of(user.id) {
                None => Err(ErrorKind::NotFound),
                Some(credential) => login_verdict(
                    user.id,
                    bcrypt_verdict(info.password + credential.salt, credential.password_hash),
                ),
            },
        }
    }
}

/// What a login returns once the verifier has spoken.
pub open spec fn login_verdict(user_id: i64, verdict: Option<bool>) -> Result<i64, ErrorKind> {
    if verdict == Some(true) {
        Ok(user_id)
    } else {
        Err(ErrorKind::InvalidCredentials)
    }
}

/// A signup that got past salting and hashing: the salt is the text of 16
/// bytes, the verifier accepts the password followed by the salt against the
/// hash, and store and result are those of registering with that hash and salt.
pub open spec fn signed_up(
    before: Tables,
    info: UserSignupInfoView,
    salt_bytes: Seq<u8>,
    password_hash: Seq<char>,
    after: Tables,
    r: Result<i64, ErrorKind>,
) -> bool {
    &&& salt_bytes.len() == 16
    &&& bcrypt_verdict(info.password + salt_text(salt_bytes), password_hash) == Some(true)
    &&& (after, r) == before.register(info, password_hash, salt_text(salt_bytes))
}

/// Inserts a user together with the credential made of `password_hash` and
/// `salt`, and returns the new user's id.
pub fn register(
    store: &mut Store,
    user_signup_info: UserSignupInfo,
    password_hash: String,
    salt: String,
) -> (r: Result<i64, ErrorKind>)
    ensures
        final(store)@.wf(),
        (final(store)@, r) == old(store)@.register(user_signup_info@, password_hash@, salt@),
{
    proof {
        use_type_invariant(&*store);
    }
    let users = store.users();
    if user_index_by_name(users, &user_signup_info.username).is_some() || user_index_by_email(
        users,
        &user_signup_info.email,
    ).is_some() {
        return Err(ErrorKind::DuplicateIdentity);
    }
    let user_id = match next_user_id(users) {
        Some(id) => id,
        None => {
            return Err(ErrorKind::StorageFailure);
        },
    };
    let credential_id = match next_credential_id(store.credentials()) {
        Some(id) => id,
        None => {
            return Err(ErrorKind::StorageFailure);
        },
    };
    let user = User {
        id: user_id,
        username: user_signup_info.username,
        email: user_signup_info.email,
        steam_id: None,
    };
    let credential = UserPrivate {
        id: credential_id,
        user_id: user_id,
        password_hash: password_hash,
        salt: salt,
    };
    store.push_account(user, credential);
    Ok(user_id)
}

/// Creates an account: draws a salt of 16 random bytes, hashes the password
/// followed by the salt's text, and inserts the user and the credential
/// together. `CryptoFailure` means that the random source or the hasher
/// failed; the store is then unchanged.
pub fn signup(store: &mut Store, user_signup_info: UserSignupInfo) -> (r: Result<i64, ErrorKind>)
    ensures
        final(store)@.wf(),
        r == Err::<i64, ErrorKind>(ErrorKind::CryptoFailure) ==> final(store)@ == old(store)@,
        r != Err::<i64, ErrorKind>(ErrorKind::CryptoFailure) ==> exists|
            salt_bytes: Seq<u8>,
            password_hash: Seq<char>,
        | #[trigger]
            signed_up(
                old(store)@,
                user_signup_info@,
                salt_bytes,
                password_hash,
                final(store)@,
                r,
            ),
{
    proof {
        use_type_invariant(&*store);
    }
    let mut source = match open_random_source() {
        Ok(source) => source,
        Err(_) => {
            return Err(ErrorKind::CryptoFailure);
        },
    };
    let mut salt_bytes: Vec<u8> = vec![0u8; 16];
    fill_random(&mut source, &mut salt_bytes);
    let salt = encode_salt(&salt_bytes);
    let salted_password = user_signup_info.password.clone().concat(salt.as_str());
    let password_hash = match hash_password(salted_password.as_str()) {
        Ok(hash) => hash,
        Err(_) => {
            return Err(ErrorKind::CryptoFailure);
        },
    };
    let ghost hash_text = password_hash@;
    let r = register(store, user_signup_info, password_hash, salt);
    proof {
        assert(signed_up(
            old(store)@,
            user_signup_info@,
            salt_bytes@,
            hash_text,
            store@,
            r,
        ));
    }
    r
}

/// Decides a login once the verifier has spoken: the user's id where it
/// accepted, `InvalidCredentials` where it rejected or failed.
pub fn conclude_login(user_id: i64, verdict: Option<bool>) -> (r: Result<i64, ErrorKind>)
    ensures
        r == login_verdict(user_id, verdict),
{
    match verdict {
        Some(true) => Ok(user_id),
        _ => Err(ErrorKind::InvalidCredentials),
    }
}

/// Authenticates: resolves the identifier as a username, else as an email
/// address, and checks the password followed by the stored salt against the
/// stored hash.
pub fn login(store: &Store, login_info: LoginInfo) -> (r: Result<i64, ErrorKind>)
    ensures
        r == store@.login(login_info@),
{
    let users = store.users();
    let named = match user_index_by_name(users, &login_info.username_or_email) {
        Some(i) => Some(i),
        None => user_index_by_email(users, &login_info.username_or_email),
    };
    proof {
        lemma_position(usernames(store@.users), login_info@.username_or_email);
        lemma_position(emails(store@.users), login_info@.username_or_email);
    }
    let i = match named {
        Some(i) => i,
        None => {
            return Err(ErrorKind::NotFound);
        },
    };
    assert(views(users@).len() == users@.len());
    let user_id = users[i].id;
    let credentials = store.credentials();
    proof {
        lemma_position(credential_user_ids(store@.credentials), user_id);
    }
    let k = match credential_index_by_user(credentials, user_id) {
        Some(k) => k,
        None => {
            return Err(ErrorKind::NotFound);
        },
    };
    assert(views(credentials@).len() == credentials@.len());
    let credential = &credentials[k];
    let salted_password = login_info.password.concat(credential.salt.as_str());
    let verdict = match verify_password(
        salted_password.as_str(),
        credential.password_hash.as_str(),
    ) {
        Ok(accepted) => Some(accepted),
        Err(_) => None,
    };
    conclude_login(user_id, verdict)
}

/// What a login by username returns right after a signup that succeeded,
/// whatever the password: the verifier's word on that password against the
/// hash and salt that the signup stored.
pub proof fn lemma_login_by_username_after_register(
    before: Tables,
    info: UserSignupInfoView,
    password_hash: Seq<char>,
    salt: Seq<char>,
    password: Seq<char>,
)
    requires
        before.wf(),
        before.register(info, password_hash, salt).1 is Ok,
    ensures
        ({
            let (after, r) = before.register(info, password_hash, salt);
            after.login(LoginInfoView { username_or_email: info.username, password: password })
                == login_verdict(r->Ok_0, bcrypt_verdict(password + salt, password_hash))
        }),
{
    let (after, r) = before.register(info, password_hash, salt);
    let n = before.users.len() as int;
    let user = after.users[n];
    lemma_position_push(usernames(before.users), info.username, info.username);
    assert(usernames(after.users) =~= usernames(before.users).push(info.username));
    lemma_follows_absent(user_ids(before.users), user.id);
    lemma_position_push(credential_user_ids(before.credentials), user.id, user.id);
    assert(credential_user_ids(after.credentials) =~= credential_user_ids(before.credentials).push(
        user.id,
    ));
}

/// After a signup that succeeded, a login with the same username and the same
/// password returns the id that the signup returned. So does a login with the
/// email address in place of the username, unless some user has that address
/// as username.
pub proof fn lemma_login_after_signup(
    before: Tables,
    info: UserSignupInfoView,
    salt_bytes: Seq<u8>,
    password_hash: Seq<char>,
    after: Tables,
    r: Result<i64, ErrorKind>,
)
    requires
        before.wf(),
        r is Ok,
    ensures
        signed_up(before, info, salt_bytes, password_hash, after, r) ==> after.login(
            LoginInfoView { username_or_email: info.username, password: info.password },
        ) == r,
        signed_up(before, info, salt_bytes, password_hash, after, r) && position(
            usernames(after.users),
            info.email,
        ).is_none() ==> after.login(
            LoginInfoView { username_or_email: info.email, password: info.password },
        ) == r,
{
    if signed_up(before, info, salt_bytes, password_hash, after, r) {
        let salt = salt_text(salt_bytes);
        lemma_login_by_username_after_register(before, info, password_hash, salt, info.password);
        if position(usernames(after.users), info.email).is_none() {
            let n = before.users.len() as int;
            let user = after.users[n];
            lemma_position_push(emails(before.users), info.email, info.email);
            assert(emails(after.users) =~= emails(before.users).push(info.email));
            lemma_follows_absent(user_ids(before.users), user.id);
            lemma_position_push(credential_user_ids(before.credentials), user.id, user.id);
            assert(credential_user_ids(after.credentials) =~= credential_user_ids(
                before.credentials,
            ).push(user.id));
        }
    }
}

/// After a signup that succeeded, a login with the same username and any
/// other password does not fail with any kind but `InvalidCredentials`, and
/// fails with it exactly where the verifier does not accept that password.
pub proof fn lemma_login_with_other_password(
    before: Tables,
    info: UserSignupInfoView,
    salt_bytes: Seq<u8>,
    password_hash: Seq<char>,
    after: Tables,
    r: Result<i64, ErrorKind>,
    password: Seq<char>,
)
    requires
        before.wf(),
        r is Ok,
    ensures
        signed_up(before, info, salt_bytes, password_hash, after, r) ==> ({
            let again = after.login(
                LoginInfoView { username_or_email: info.username, password: password },
            );
            let accepted = bcrypt_verdict(password + salt_text(salt_bytes), password_hash) == Some(
                true,
            );
            &&& again == r || again == Err::<i64, ErrorKind>(ErrorKind::InvalidCredentials)
            &&& again == r <==> accepted
        }),
{
    if signed_up(before, info, salt_bytes, password_hash, after, r) {
        lemma_login_by_username_after_register(
            before,
            info,
            password_hash,
            salt_text(salt_bytes),
            password,
        );
    }
}

} // verus!
