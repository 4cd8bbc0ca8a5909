//! Users: the credentials that a caller presents, the user as the service
//! sees it, and the user as it is stored.

use crate::password::acceptable;
use crate::password::digest_of;
use crate::password::meets_policy;
use crate::password::HashedPassword;
use crate::session_token::SessionToken;
use crate::user_id::is_user_id;
use crate::user_id::UserId;
use vstd::prelude::*;

verus! {

/// The text of an optional string.
pub open spec fn optional_text(s: Option<String>) -> Option<Seq<char>> {
    match s {
        Some(s) => Some(s@),
        None => None,
    }
}

/// The texts of a list of tokens.
pub open spec fn token_texts(tokens: Seq<SessionToken>) -> Seq<Seq<char>> {
    Seq::new(tokens.len(), |i: int| tokens[i]@)
}

/// A name and a plaintext password, as a caller presents them.
#[derive(Debug)]
pub struct UserAuth {
    pub username: String,
    pub password: String,
}

/// What credentials hold.
pub struct Credentials {
    pub username: Seq<char>,
    pub password: Seq<char>,
}

impl View for UserAuth {
    type V = Credentials;

    open spec fn view(&self) -> Credentials {
        Credentials { username: self.username@, password: self.password@ }
    }
}

/// A user as the service sees it. The session tokens are not part of it.
#[derive(Clone, Debug)]
pub struct BackendUserMe {
    pub id: UserId,
    pub username: String,
    pub password: HashedPassword,
    pub email: Option<String>,
}

/// What a user record holds.
pub struct Account {
    pub id: Seq<char>,
    pub username: Seq<char>,
    pub password: Seq<u8>,
    pub email: Option<Seq<char>>,
}

impl View for BackendUserMe {
    type V = Account;

    open spec fn view(&self) -> Account {
        Account {
            id: self.id@,
            username: self.username@,
            password: self.password@,
            email: optional_text(self.email),
        }
    }
}

/// The account that registering `credentials` under the identifier `id`
/// creates: the password is kept as its digest, and there is no email.
pub open spec fn new_account(id: Seq<char>, credentials: Credentials) -> Account {
    Account {
        id,
        username: credentials.username,
        password: digest_of(credentials.password),
        email: None,
    }
}

impl BackendUserMe {
    /// A new user under a random identifier. The identifier may be in use:
    /// the caller checks that against the store.
    pub fn new(username: String, password: String) -> (user: BackendUserMe)
        ensures
            is_user_id(user@.id),
            user@ == new_account(
                user@.id,
                Credentials { username: username@, password: password@ },
            ),
    {
        Self::with_id(UserId::new(), username, password)
    }

    /// A new user under the identifier `id`.
    pub fn with_id(id: UserId, username: String, password: String) -> (user: BackendUserMe)
        ensures
            user@ == new_account(id@, Credentials { username: username@, password: password@ }),
    {
        BackendUserMe { id, username, password: HashedPassword::new(password), email: None }
    }

    /// Whether `password` meets the password policy.
    pub fn check_password(password: &str) -> (b: bool)
        ensures
            b == acceptable(password@),
    {
        meets_policy(password)
    }

    /// Gives the user another random identifier and changes nothing else.
    pub fn gen_new_id(&mut self)
        ensures
            is_user_id(final(self)@.id),
            final(self)@ == (Account { id: final(self)@.id, ..old(self)@ }),
    {
        self.id = UserId::new();
    }
}

/// A user as it is stored, with the session tokens that it holds.
#[derive(Debug)]
pub struct DbUser {
    pub id: UserId,
    pub username: String,
    pub password: HashedPassword,
    pub email: Option<String>,
    pub session_tokens: Vec<SessionToken>,
}

/// What a stored user holds.
pub struct StoredUser {
    pub account: Account,
    pub session_tokens: Seq<Seq<char>>,
}

impl View for DbUser {
    type V = StoredUser;

    open spec fn view(&self) -> StoredUser {
        StoredUser {
            account: Account {
                id: self.id@,
                username: self.username@,
                password: self.password@,
                email: optional_text(self.email),
            },
            session_tokens: token_texts(self.session_tokens@),
        }
    }
}

impl DbUser {
    /// The stored form of a new user: it holds no session token.
    pub fn from_backend_user(user: BackendUserMe) -> (stored: DbUser)
        ensures
            stored@ == (StoredUser { account: user@, session_tokens: Seq::empty() }),
    {
        let stored = DbUser {
            id: user.id,
            username: user.username,
            password: user.password,
            email: user.email,
            session_tokens: Vec::new(),
        };
        proof {
            assert(stored@.session_tokens =~= Seq::<Seq<char>>::empty());
        }
        stored
    }

    /// The user without its session tokens.
    pub fn to_backend_user(self) -> (user: BackendUserMe)
        ensures
            user@ == self@.account,
    {
        BackendUserMe {
            id: self.id,
            username: self.username,
            password: self.password,
            email: self.email,
        }
    }
}

} // verus!
