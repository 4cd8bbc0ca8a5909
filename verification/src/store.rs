//! The boundary to the document store: what the service asks of it, what it
//! answers, and a model of a store that keeps its promises.
//!
//! The service never talks to a store itself. It hands out a [`Request`],
//! the caller performs it and hands back the [`Reply`]. The model says what
//! the answers of a store mean, so that whole operations can be reasoned
//! about.

use crate::session_token::SessionToken;
use crate::todo::Todo;
use crate::todo::TodoDocument;
use crate::todo::TodoStorage;
use crate::user::Account;
use crate::user::BackendUserMe;
use crate::user::DbUser;
use crate::user_id::UserId;
use vstd::prelude::*;

verus! {

/// One round trip to the store.
#[derive(Debug)]
pub enum Request {
    /// The user with this identifier, if there is one.
    FindById(UserId),
    /// The user with this name, if there is one.
    FindByUsername(String),
    /// The user that holds this session token, if there is one.
    FindBySessionToken(SessionToken),
    /// Store this user, holding no session token.
    Insert(BackendUserMe),
    /// Add the token to those that the user of this name holds.
    AttachSessionToken { username: String, token: SessionToken },
    /// Take the token from the user that holds it. Where nobody holds it,
    /// nothing changes and the store still reports success.
    DetachSessionToken(SessionToken),
    /// The todo list of this user, if one is stored.
    FindTodo(UserId),
    /// Store this list in place of the one that its owner had.
    SaveTodo(TodoStorage),
}

/// What a request asks for.
pub enum Query {
    UserById(Seq<char>),
    UserByName(Seq<char>),
    UserByToken(Seq<char>),
    Insert(Account),
    Attach { username: Seq<char>, token: Seq<char> },
    Detach(Seq<char>),
    TodoOf(Seq<char>),
    SaveTodo(TodoDocument),
}

impl View for Request {
    type V = Query;

    open spec fn view(&self) -> Query {
        match *self {
            Request::FindById(id) => Query::UserById(id@),
            Request::FindByUsername(username) => Query::UserByName(username@),
            Request::FindBySessionToken(token) => Query::UserByToken(token@),
            Request::Insert(user) => Query::Insert(user@),
            Request::AttachSessionToken { username, token } => Query::Attach {
                username: username@,
                token: token@,
            },
            Request::DetachSessionToken(token) => Query::Detach(token@),
            Request::FindTodo(id) => Query::TodoOf(id@),
            Request::SaveTodo(storage) => Query::SaveTodo(storage@),
        }
    }
}

/// What the store answered. A lookup that failed is answered like one that
/// found nothing.
#[derive(Debug)]
pub enum Reply {
    /// The answer to a lookup of a user.
    User(Option<BackendUserMe>),
    /// The answer to a write: whether it succeeded.
    Written(bool),
    /// The answer to a lookup of a todo list.
    Todo(Option<Todo>),
}

/// What a reply says.
pub enum Answer {
    User(Option<Account>),
    Written(bool),
    Todo(Option<Seq<Seq<char>>>),
}

impl View for Reply {
    type V = Answer;

    open spec fn view(&self) -> Answer {
        match *self {
            Reply::User(Some(user)) => Answer::User(Some(user@)),
            Reply::User(None) => Answer::User(None),
            Reply::Written(done) => Answer::Written(done),
            Reply::Todo(Some(todo)) => Answer::Todo(Some(todo@)),
            Reply::Todo(None) => Answer::Todo(None),
        }
    }
}

impl Reply {
    /// The reply that the outcome of a lookup of a user stands for: the user
    /// without its session tokens where one was found, and none where none
    /// was found or the store failed.
    pub fn from_user_lookup<E>(found: Result<Option<DbUser>, E>) -> (reply: Reply)
        ensures
            reply@ == Answer::User(
                match found {
                    Ok(Some(stored)) => Some(stored@.account),
                    _ => None,
                },
            ),
    {
        match found {
            Ok(Some(stored)) => Reply::User(Some(stored.to_backend_user())),
            _ => Reply::User(None),
        }
    }

    /// The reply that the outcome of a lookup of a todo list stands for: the
    /// list without its owner where one was found, and none where none was
    /// found or the store failed.
    pub fn from_todo_lookup<E>(found: Result<Option<TodoStorage>, E>) -> (reply: Reply)
        ensures
            reply@ == Answer::Todo(
                match found {
                    Ok(Some(storage)) => Some(storage@.tasks),
                    _ => None,
                },
            ),
    {
        match found {
            Ok(Some(storage)) => Reply::Todo(Some(storage.to_todo_list())),
            _ => Reply::Todo(None),
        }
    }

    /// The reply that the outcome of a write stands for: whether it
    /// succeeded.
    pub fn from_write<T, E>(written: Result<T, E>) -> (reply: Reply)
        ensures
            reply@ == Answer::Written(written is Ok),
    {
        match written {
            Ok(_) => Reply::Written(true),
            Err(_) => Reply::Written(false),
        }
    }
}

/// Where the store is expected when no address is configured.
pub const MONGO_URL_DEFAULT: &'static str = "mongodb://localhost:27017";

/// The address of the store: the configured one, or the default where none
/// is configured.
pub fn connection_url(configured: Option<String>) -> (url: String)
    ensures
        url@ == (match configured {
            Some(address) => address@,
            None => MONGO_URL_DEFAULT@,
        }),
{
    match configured {
        Some(address) => address,
        None => MONGO_URL_DEFAULT.to_owned(),
    }
}

/// A user in the model of the store: the account and the tokens it holds.
pub struct Row {
    pub account: Account,
    pub tokens: Set<Seq<char>>,
}

/// By what a user is looked up.
pub enum Key {
    Id(Seq<char>),
    Name(Seq<char>),
    Token(Seq<char>),
}

/// Whether the row is one that a lookup by `key` may return.
pub open spec fn selects(key: Key, row: Row) -> bool {
    match key {
        Key::Id(id) => row.account.id == id,
        Key::Name(username) => row.account.username == username,
        Key::Token(token) => row.tokens.contains(token),
    }
}

/// A model of the store: the users, and the todo list of each user that has
/// one.
pub struct Database {
    pub users: Seq<Row>,
    pub todos: Map<Seq<char>, Seq<Seq<char>>>,
}

impl Database {
    /// The store before anything was written to it.
    pub open spec fn empty() -> Database {
        Database { users: Seq::empty(), todos: Map::empty() }
    }

    /// Whether a lookup by `key` finds a user.
    pub open spec fn finds(self, key: Key) -> bool {
        exists|i: int| 0 <= i < self.users.len() && selects(key, #[trigger] self.users[i])
    }

    /// The place of the user that a lookup by `key` returns. Where several
    /// users match, the store picks one of them.
    pub open spec fn place(self, key: Key) -> int {
        choose|i: int| 0 <= i < self.users.len() && selects(key, #[trigger] self.users[i])
    }

    /// The answer to a lookup by `key`.
    pub open spec fn lookup(self, key: Key) -> Option<Account> {
        if self.finds(key) {
            Some(self.users[self.place(key)].account)
        } else {
            None
        }
    }

    /// The store after `account` was inserted, holding no token.
    pub open spec fn insert(self, account: Account) -> Database {
        Database { users: self.users.push(Row { account, tokens: Set::empty() }), ..self }
    }

    /// The store after `token` was attached to the user named `username`.
    pub open spec fn attach(self, username: Seq<char>, token: Seq<char>) -> Database {
        if self.finds(Key::Name(username)) {
            let i = self.place(Key::Name(username));
            let row = self.users[i];
            Database { users: self.users.update(i, Row { tokens: row.tokens.insert(token), ..row }), ..self }
        } else {
            self
        }
    }

    /// The store after `token` was detached from the user that held it.
    pub open spec fn detach(self, token: Seq<char>) -> Database {
        if self.finds(Key::Token(token)) {
            let i = self.place(Key::Token(token));
            let row = self.users[i];
            Database { users: self.users.update(i, Row { tokens: row.tokens.remove(token), ..row }), ..self }
        } else {
            self
        }
    }

    /// The stored todo list of the user `owner`.
    pub open spec fn todo_of(self, owner: Seq<char>) -> Option<Seq<Seq<char>>> {
        if self.todos.dom().contains(owner) {
            Some(self.todos[owner])
        } else {
            None
        }
    }

    /// The store after `document` replaced the list of its owner.
    pub open spec fn save(self, document: TodoDocument) -> Database {
        Database { todos: self.todos.insert(document.owner, document.tasks), ..self }
    }

    /// What the store is after `query`, and what it answers. In the model no
    /// write fails.
    pub open spec fn respond(self, query: Query) -> (Database, Answer) {
        match query {
            Query::UserById(id) => (self, Answer::User(self.lookup(Key::Id(id)))),
            Query::UserByName(username) => (self, Answer::User(self.lookup(Key::Name(username)))),
            Query::UserByToken(token) => (self, Answer::User(self.lookup(Key::Token(token)))),
            Query::Insert(account) => (self.insert(account), Answer::Written(true)),
            Query::Attach { username, token } => (
                self.attach(username, token),
                Answer::Written(true),
            ),
            Query::Detach(token) => (self.detach(token), Answer::Written(true)),
            Query::TodoOf(owner) => (self, Answer::Todo(self.todo_of(owner))),
            Query::SaveTodo(document) => (self.save(document), Answer::Written(true)),
        }
    }

    /// No two users hold `token`.
    pub open spec fn held_once(self, token: Seq<char>) -> bool {
        forall|i: int, j: int|
            0 <= i < self.users.len() && 0 <= j < self.users.len() && (
            #[trigger] self.users[i]).tokens.contains(token) && (
            #[trigger] self.users[j]).tokens.contains(token) ==> i == j
    }

    /// No two users share a name or an identifier.
    pub open spec fn distinct_users(self) -> bool {
        forall|i: int, j: int|
            0 <= i < self.users.len() && 0 <= j < self.users.len() && i != j ==> {
                &&& (#[trigger] self.users[i]).account.id != (#[trigger] self.users[j]).account.id
                &&& self.users[i].account.username != self.users[j].account.username
            }
    }
}

} // verus!
