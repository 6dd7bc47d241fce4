use vstd::prelude::*;
use vstd::string::StrSliceExecFns;
use vstd::string::StringExecFns;
use crate::error::ErrorKind;
use crate::hex::{from_hex, hex_bytes, lemma_hex_round_trip, to_hex};

verus! {

/// What a session token carries: the id of the authenticated user, and
/// nothing else.
#[derive(Clone, Copy, Debug, PartialEq, Eq, Structural)]
pub struct Session {
    pub user_id: i64,
}

/// The error of the session managers of the crate `secure_session`.
#[verifier::external_type_specification]
#[verifier::external_body]
pub struct ExSessionError(secure_session::error::SessionError);

/// What `ChaCha20Poly1305SessionManager::deserialize` finds in a sealed
/// token under a key: the user id that was sealed, or `None` where it returns
/// an error, as it does for a token that is too short or fails authentication
/// under that key, and where the session it finds holds no value.
pub uninterp spec fn sealed_user_id(key: Seq<u8>, sealed: Seq<u8>) -> Option<i64>;

/// Calls `ChaCha20Poly1305SessionManager::from_key` and `serialize` of the
/// crate `secure_session`, which encrypts and authenticates a session that
/// holds the user id and no expiry, under the key and with a fresh nonce. The
/// claim is that `deserialize` under the same key finds that user id in what
/// comes back.
#[verifier::external_body]
fn seal(key: &[u8; 32], user_id: i64) -> (r: Result<Vec<u8>, secure_session::error::SessionError>)
    ensures
        r matches Ok(sealed) ==> sealed_user_id(key@, sealed@) == Some(user_id),
{
    let manager = secure_session::session::ChaCha20Poly1305SessionManager::<i64>::from_key(*key);
    let session = secure_session::session::Session { expires: None, value: Some(user_id) };
    secure_session::session::SessionManager::serialize(&manager, &session)
}

/// Calls `ChaCha20Poly1305SessionManager::from_key` and `deserialize` of the
/// crate `secure_session`, which authenticates and decrypts the token under
/// the key, and hands out the value of the session it finds.
#[verifier::external_body]
fn unseal(key: &[u8; 32], sealed: &Vec<u8>) -> (r: Result<
    Option<i64>,
    secure_session::error::SessionError,
>)
    ensures
        sealed_user_id(key@, sealed@) == match r {
            Ok(value) => value,
            Err(_) => None,
        },
{
    let manager = secure_session::session::ChaCha20Poly1305SessionManager::<i64>::from_key(*key);
    secure_session::session::SessionManager::deserialize(&manager, sealed.as_slice()).map(
        |session| session.value,
    )
}

/// The session that an unsealed token stands for.
pub open spec fn session_of(unsealed: Option<i64>) -> Result<Session, ErrorKind> {
    match unsealed {
        Some(user_id) => Ok(Session { user_id: user_id }),
        None => Err(ErrorKind::Unauthenticated),
    }
}

/// What validating a token under a key returns: the session whose user id is
/// sealed in the bytes that the token spells; `Unauthenticated` where the
/// token spells no bytes or the bytes do not open under the key.
pub open spec fn validated(key: Seq<u8>, token: Seq<char>) -> Result<Session, ErrorKind> {
    match hex_bytes(token) {
        Some(sealed) => session_of(sealed_user_id(key, sealed)),
        None => Err(ErrorKind::Unauthenticated),
    }
}

/// Decides a validation once the token has been unsealed.
pub fn conclude_validation(unsealed: Option<i64>) -> (r: Result<Session, ErrorKind>)
    ensures
        r == session_of(unsealed),
{
    match unsealed {
        Some(user_id) => Ok(Session { user_id: user_id }),
        None => Err(ErrorKind::Unauthenticated),
    }
}

/// Issues and validates session tokens under one symmetric key, which it is
/// given when it is made and never changes. It keeps no record of the tokens
/// it issued: a token is revoked by discarding it.
pub struct SessionManager {
    key: [u8; 32],
}

impl SessionManager {
    /// The key that tokens are sealed under.
    pub closed spec fn key(&self) -> Seq<u8> {
        self.key@
    }

    /// A manager for the given key.
    pub fn new(key: [u8; 32]) -> (r: SessionManager)
        ensures
            r.key() == key@,
    {
        SessionManager { key: key }
    }

    /// Issues a token for a user: the user id sealed under the key, written
    /// as text. `CryptoFailure` means that sealing failed.
    pub fn issue(&self, user_id: i64) -> (r: Result<String, ErrorKind>)
        ensures
            match r {
                Ok(token) => validated(self.key(), token@) == Ok::<Session, ErrorKind>(
                    Session { user_id: user_id },
                ),
                Err(e) => e == ErrorKind::CryptoFailure,
            },
    {
        match seal(&self.key, user_id) {
            Ok(sealed) => {
                proof {
                    lemma_hex_round_trip(sealed@);
                }
                Ok(to_hex(&sealed))
            },
            Err(_) => Err(ErrorKind::CryptoFailure),
        }
    }

    /// Validates a token: the session it was issued for, or `Unauthenticated`
    /// where it is malformed, was tampered with, or was sealed under another key.
    pub fn validate(&self, token: &str) -> (r: Result<Session, ErrorKind>)
        ensures
            r == validated(self.key(), token@),
    {
        match from_hex(token) {
            Some(sealed) => {
                let unsealed = match unseal(&self.key, &sealed) {
                    Ok(value) => value,
                    Err(_) => None,
                };
                conclude_validation(unsealed)
            },
            None => Err(ErrorKind::Unauthenticated),
        }
    }
}

/// What a cookie that carries a session token begins with: the cookie's
/// name and the equals sign.
pub open spec fn cookie_prefix() -> Seq<char> {
    "ss="@
}

/// What follows the token in the line that hands a cookie to a client: the
/// cookie is sent back for every path, and scripts cannot read it.
pub open spec fn cookie_attributes() -> Seq<char> {
    "; Path=/; HttpOnly"@
}

/// The pair is that of the session cookie.
pub open spec fn carries_token(pair: Seq<char>) -> bool {
    pair.len() >= 3 && pair.take(3) == cookie_prefix()
}

/// The token that the cookies of a request carry: the value of the first pair
/// that is the session cookie's, if there is one.
pub open spec fn token_in(pairs: Seq<Seq<char>>) -> Option<Seq<char>>
    decreases pairs.len(),
{
    if pairs.len() == 0 {
        None
    } else {
        match token_in(pairs.drop_last()) {
            Some(token) => Some(token),
            None => if carries_token(pairs.last()) {
                Some(pairs.last().skip(3))
            } else {
                None
            },
        }
    }
}

/// The characters of texts, text by text.
pub open spec fn texts(lines: Seq<String>) -> Seq<Seq<char>> {
    Seq::new(lines.len(), |i: int| lines[i]@)
}

/// Finds the session token among the cookies of a request, each given as a
/// pair of name and value with an equals sign between them.
pub fn token_from_cookies(pairs: &Vec<String>) -> (r: Option<String>)
    ensures
        match r {
            Some(token) => token_in(texts(pairs@)) == Some(token@),
            None => token_in(texts(pairs@)).is_none(),
        },
{
    let mut i: usize = 0;
    proof {
        assert(texts(pairs@).take(0) =~= Seq::empty());
    }
    while i < pairs.len()
        invariant
            i <= pairs.len(),
            token_in(texts(pairs@).take(i as int)).is_none(),
        decreases pairs.len() - i,
    {
        let pair = pairs[i].as_str();
        let n = pair.unicode_len();
        proof {
            reveal_strlit("ss=");
            let next = texts(pairs@).take(i as int + 1);
            assert(next.drop_last() =~= texts(pairs@).take(i as int));
            assert(next.last() == pair@);
        }
        if n >= 3 && pair.get_char(0) == 's' && pair.get_char(1) == 's' && pair.get_char(2) == '=' {
            let token = String::from_str(pair.substring_char(3, n));
            proof {
                assert(pair@.take(3) =~= cookie_prefix());
                assert(pair@.subrange(3, n as int) =~= pair@.skip(3));
                lemma_token_in_prefix(texts(pairs@), i as int + 1);
            }
            return Some(token);
        }
        proof {
            if pair@.len() >= 3 {
                assert(pair@.take(3)[0] == pair@[0]);
                assert(pair@.take(3)[1] == pair@[1]);
                assert(pair@.take(3)[2] == pair@[2]);
            }
        }
        i += 1;
    }
    proof {
        assert(texts(pairs@).take(i as int) =~= texts(pairs@));
    }
    None
}

/// A token found among the first pairs is the token found among all.
pub proof fn lemma_token_in_prefix(pairs: Seq<Seq<char>>, n: int)
    requires
        0 <= n <= pairs.len(),
        token_in(pairs.take(n)).is_some(),
    ensures
        token_in(pairs) == token_in(pairs.take(n)),
    decreases pairs.len() - n,
{
    if n < pairs.len() {
        assert(pairs.take(n + 1).drop_last() =~= pairs.take(n));
        lemma_token_in_prefix(pairs, n + 1);
    } else {
        assert(pairs.take(n) =~= pairs);
    }
}

/// The line that hands a token to a client as the session cookie.
pub fn cookie_line(token: &str) -> (r: String)
    ensures
        r@ == cookie_prefix() + token@ + cookie_attributes(),
{
    let mut line = String::from_str("ss=");
    line.append(token);
    line.append("; Path=/; HttpOnly");
    line
}

/// The line that tells a client to discard the session cookie. Revoking a
/// session is no more than that: no record of tokens is kept.
pub fn discard_line() -> (r: String)
    ensures
        r@ == cookie_prefix() + cookie_attributes() + "; Max-Age=0"@,
{
    let mut line = String::from_str("ss=");
    line.append("; Path=/; HttpOnly");
    line.append("; Max-Age=0");
    line
}

} // verus!
