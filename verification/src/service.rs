//! The decisions of the authentication and todo services.
//!
//! An operation is a small state machine. Starting one gives the first
//! [`Step`]: a request to perform on the store, or the result. The caller
//! performs the request and hands the reply to [`Operation::handle`], which
//! gives the next step, until the operation finishes. The machine holds no
//! connection and does no I/O, so every decision of a request is made here.

use crate::error::ApiError;
use crate::password::acceptable;
use crate::password::digest_of;
use crate::session_token::is_session_token;
use crate::session_token::SessionToken;
use crate::store::Answer;
use crate::store::Query;
use crate::store::Reply;
use crate::store::Request;
use crate::todo::Todo;
use crate::todo::TodoDocument;
use crate::todo::TodoStorage;
use crate::user::new_account;
use crate::user::Account;
use crate::user::BackendUserMe;
use crate::user::Credentials;
use crate::user::UserAuth;
use crate::user_id::is_user_id;
use crate::user_id::UserId;
use vstd::prelude::*;

verus! {

/// How many identifiers a registration tries before it gives up.
pub const ID_ATTEMPTS: u8 = 8;

/// What an operation gives its caller when it succeeds.
#[derive(Debug, PartialEq)]
pub enum Outcome {
    /// Registration and login: the token of the new session.
    Session(SessionToken),
    /// Logout: nothing.
    LoggedOut,
    /// Resolution: the user that the token belongs to, or none for an
    /// anonymous caller.
    Identity(Option<UserId>),
    /// The todo service: the list of the user.
    Tasks(Todo),
}

/// What an outcome holds.
pub enum Payload {
    Session(Seq<char>),
    LoggedOut,
    Identity(Option<Seq<char>>),
    Tasks(Seq<Seq<char>>),
}

impl View for Outcome {
    type V = Payload;

    open spec fn view(&self) -> Payload {
        match *self {
            Outcome::Session(token) => Payload::Session(token@),
            Outcome::LoggedOut => Payload::LoggedOut,
            Outcome::Identity(Some(id)) => Payload::Identity(Some(id@)),
            Outcome::Identity(None) => Payload::Identity(None),
            Outcome::Tasks(todo) => Payload::Tasks(todo@),
        }
    }
}

/// What the caller of an operation does next.
#[derive(Debug)]
pub enum Step {
    /// Perform the request and hand the reply to [`Operation::handle`].
    Ask(Request),
    /// The operation is over, with this result.
    Finish(Result<Outcome, ApiError>),
}

/// What a step says.
pub enum Turn {
    Ask(Query),
    Finish(Result<Payload, ApiError>),
}

impl View for Step {
    type V = Turn;

    open spec fn view(&self) -> Turn {
        match *self {
            Step::Ask(request) => Turn::Ask(request@),
            Step::Finish(Ok(outcome)) => Turn::Finish(Ok(outcome@)),
            Step::Finish(Err(error)) => Turn::Finish(Err(error)),
        }
    }
}

/// An operation under way: what it waits for, and what it has to remember.
#[derive(Debug)]
pub enum Operation {
    /// Registration asked whether the name is in use.
    CheckingUsername { auth: UserAuth },
    /// Registration asked whether the identifier of `user` is in use, and
    /// may try `attempts_left` more.
    CheckingId { auth: UserAuth, user: BackendUserMe, attempts_left: u8 },
    /// Registration asked to insert the user.
    Inserting { auth: UserAuth },
    /// Login asked for the user of that name.
    FindingUser { auth: UserAuth },
    /// Login asked to attach the token.
    Attaching { token: SessionToken },
    /// Logout asked to detach the token.
    Detaching,
    /// Resolution asked for the user of the token.
    Resolving,
    /// Reading a list asked for the user of the token.
    ResolvingReader,
    /// Reading a list asked for the list.
    Reading,
    /// Adding a task asked for the user of the token.
    ResolvingWriter { task: String },
    /// Adding a task asked for the list of `owner`.
    Extending { owner: UserId, task: String },
    /// Adding a task asked to store the new list.
    Saving { todo: Todo },
    /// The operation is over.
    Finished,
}

/// What an operation under way holds.
pub enum Stage {
    CheckingUsername { credentials: Credentials },
    CheckingId { credentials: Credentials, account: Account, attempts_left: nat },
    Inserting { credentials: Credentials },
    FindingUser { credentials: Credentials },
    Attaching { token: Seq<char> },
    Detaching,
    Resolving,
    ResolvingReader,
    Reading,
    ResolvingWriter { task: Seq<char> },
    Extending { owner: Seq<char>, task: Seq<char> },
    Saving { tasks: Seq<Seq<char>> },
    Finished,
}

impl View for Operation {
    type V = Stage;

    open spec fn view(&self) -> Stage {
        match *self {
            Operation::CheckingUsername { auth } => Stage::CheckingUsername { credentials: auth@ },
            Operation::CheckingId { auth, user, attempts_left } => Stage::CheckingId {
                credentials: auth@,
                account: user@,
                attempts_left: attempts_left as nat,
            },
            Operation::Inserting { auth } => Stage::Inserting { credentials: auth@ },
            Operation::FindingUser { auth } => Stage::FindingUser { credentials: auth@ },
            Operation::Attaching { token } => Stage::Attaching { token: token@ },
            Operation::Detaching => Stage::Detaching,
            Operation::Resolving => Stage::Resolving,
            Operation::ResolvingReader => Stage::ResolvingReader,
            Operation::Reading => Stage::Reading,
            Operation::ResolvingWriter { task } => Stage::ResolvingWriter { task: task@ },
            Operation::Extending { owner, task } => Stage::Extending { owner: owner@, task: task@ },
            Operation::Saving { todo } => Stage::Saving { tasks: todo@ },
            Operation::Finished => Stage::Finished,
        }
    }
}

/// The operation ends with `result`.
pub open spec fn finish(result: Result<Payload, ApiError>) -> (Stage, Turn) {
    (Stage::Finished, Turn::Finish(result))
}

/// The operation ends with the failure `error`.
pub open spec fn fail(error: ApiError) -> (Stage, Turn) {
    finish(Err(error))
}

/// Registration: a password that does not meet the policy is refused before
/// anything is asked of the store; otherwise the name is looked up.
pub open spec fn register_start(credentials: Credentials) -> (Stage, Turn) {
    if !acceptable(credentials.password) {
        fail(ApiError::PasswordInsufficient)
    } else {
        (Stage::CheckingUsername { credentials }, Turn::Ask(Query::UserByName(credentials.username)))
    }
}

/// Login: the user of that name is looked up.
pub open spec fn login_start(credentials: Credentials) -> (Stage, Turn) {
    (Stage::FindingUser { credentials }, Turn::Ask(Query::UserByName(credentials.username)))
}

/// Logout: without a token it fails; with one, the token is detached.
pub open spec fn logout_start(token: Option<Seq<char>>) -> (Stage, Turn) {
    match token {
        None => fail(ApiError::MissingSessionToken),
        Some(token) => (Stage::Detaching, Turn::Ask(Query::Detach(token))),
    }
}

/// Resolution: without a token the caller is anonymous, which is no
/// failure; with one, its user is looked up.
pub open spec fn resolve_start(token: Option<Seq<char>>) -> (Stage, Turn) {
    match token {
        None => finish(Ok(Payload::Identity(None))),
        Some(token) => (Stage::Resolving, Turn::Ask(Query::UserByToken(token))),
    }
}

/// Reading the list: an anonymous caller is refused; otherwise the user of
/// the token is looked up.
pub open spec fn get_list_start(token: Option<Seq<char>>) -> (Stage, Turn) {
    match token {
        None => fail(ApiError::InternalServerError),
        Some(token) => (Stage::ResolvingReader, Turn::Ask(Query::UserByToken(token))),
    }
}

/// Adding a task: an anonymous caller is refused; otherwise the user of the
/// token is looked up.
pub open spec fn add_task_start(token: Option<Seq<char>>, task: Seq<char>) -> (Stage, Turn) {
    match token {
        None => fail(ApiError::InternalServerError),
        Some(token) => (Stage::ResolvingWriter { task }, Turn::Ask(Query::UserByToken(token))),
    }
}

/// The list that a stored list, or the lack of one, stands for.
pub open spec fn list_or_empty(stored: Option<Seq<Seq<char>>>) -> Seq<Seq<char>> {
    match stored {
        Some(tasks) => tasks,
        None => Seq::empty(),
    }
}

/// What an operation at `stage` does with the answer of the store. `id` and
/// `token` are the random identifier and token that it may use; a stage that
/// needs none ignores them. An answer of the wrong kind ends the operation
/// with `InternalServerError`.
pub open spec fn next(stage: Stage, answer: Answer, id: Seq<char>, token: Seq<char>) -> (
    Stage,
    Turn,
) {
    match stage {
        Stage::CheckingUsername { credentials } => match answer {
            Answer::User(Some(_)) => fail(ApiError::UsernameInUse),
            Answer::User(None) => (
                Stage::CheckingId {
                    credentials,
                    account: new_account(id, credentials),
                    attempts_left: (ID_ATTEMPTS - 1) as nat,
                },
                Turn::Ask(Query::UserById(id)),
            ),
            _ => fail(ApiError::InternalServerError),
        },
        Stage::CheckingId { credentials, account, attempts_left } => match answer {
            Answer::User(Some(_)) => if attempts_left == 0 {
                fail(ApiError::InternalServerError)
            } else {
                (
                    Stage::CheckingId {
                        credentials,
                        account: Account { id, ..account },
                        attempts_left: (attempts_left - 1) as nat,
                    },
                    Turn::Ask(Query::UserById(id)),
                )
            },
            Answer::User(None) => (
                Stage::Inserting { credentials },
                Turn::Ask(Query::Insert(account)),
            ),
            _ => fail(ApiError::InternalServerError),
        },
        Stage::Inserting { credentials } => match answer {
            Answer::Written(true) => login_start(credentials),
            _ => fail(ApiError::InternalServerError),
        },
        Stage::FindingUser { credentials } => match answer {
            Answer::User(Some(account)) => if account.password == digest_of(credentials.password) {
                (
                    Stage::Attaching { token },
                    Turn::Ask(Query::Attach { username: account.username, token }),
                )
            } else {
                fail(ApiError::IncorrectCredentials)
            },
            Answer::User(None) => fail(ApiError::IncorrectCredentials),
            _ => fail(ApiError::InternalServerError),
        },
        Stage::Attaching { token: attached } => match answer {
            Answer::Written(true) => finish(Ok(Payload::Session(attached))),
            _ => fail(ApiError::InternalServerError),
        },
        Stage::Detaching => match answer {
            Answer::Written(true) => finish(Ok(Payload::LoggedOut)),
            _ => fail(ApiError::InternalServerError),
        },
        Stage::Resolving => match answer {
            Answer::User(Some(account)) => finish(Ok(Payload::Identity(Some(account.id)))),
            Answer::User(None) => finish(Ok(Payload::Identity(None))),
            _ => fail(ApiError::InternalServerError),
        },
        Stage::ResolvingReader => match answer {
            Answer::User(Some(account)) => (Stage::Reading, Turn::Ask(Query::TodoOf(account.id))),
            _ => fail(ApiError::InternalServerError),
        },
        Stage::Reading => match answer {
            Answer::Todo(stored) => finish(Ok(Payload::Tasks(list_or_empty(stored)))),
            _ => fail(ApiError::InternalServerError),
        },
        Stage::ResolvingWriter { task } => match answer {
            Answer::User(Some(account)) => (
                Stage::Extending { owner: account.id, task },
                Turn::Ask(Query::TodoOf(account.id)),
            ),
            _ => fail(ApiError::InternalServerError),
        },
        Stage::Extending { owner, task } => match answer {
            Answer::Todo(stored) => (
                Stage::Saving { tasks: list_or_empty(stored).push(task) },
                Turn::Ask(
                    Query::SaveTodo(
                        TodoDocument { owner, tasks: list_or_empty(stored).push(task) },
                    ),
                ),
            ),
            _ => fail(ApiError::InternalServerError),
        },
        Stage::Saving { tasks } => match answer {
            Answer::Written(true) => finish(Ok(Payload::Tasks(tasks))),
            _ => fail(ApiError::InternalServerError),
        },
        Stage::Finished => fail(ApiError::InternalServerError),
    }
}

/// The end of an operation that failed.
fn refuse(error: ApiError) -> (r: (Operation, Step))
    ensures
        (r.0@, r.1@) == fail(error),
{
    (Operation::Finished, Step::Finish(Err(error)))
}

/// The end of an operation that succeeded.
fn complete(outcome: Outcome) -> (r: (Operation, Step))
    ensures
        (r.0@, r.1@) == finish(Ok(outcome@)),
{
    (Operation::Finished, Step::Finish(Ok(outcome)))
}

impl Operation {
    /// Starts a registration.
    pub fn register(auth: UserAuth) -> (r: (Operation, Step))
        ensures
            (r.0@, r.1@) == register_start(auth@),
    {
        if !BackendUserMe::check_password(auth.password.as_str()) {
            refuse(ApiError::PasswordInsufficient)
        } else {
            let username = auth.username.clone();
            (Operation::CheckingUsername { auth }, Step::Ask(Request::FindByUsername(username)))
        }
    }

    /// Starts a login.
    pub fn login(auth: UserAuth) -> (r: (Operation, Step))
        ensures
            (r.0@, r.1@) == login_start(auth@),
    {
        let username = auth.username.clone();
        (Operation::FindingUser { auth }, Step::Ask(Request::FindByUsername(username)))
    }

    /// Starts a logout with the token that the request carried, if any.
    pub fn logout(token: Option<SessionToken>) -> (r: (Operation, Step))
        ensures
            (r.0@, r.1@) == logout_start(
                match token {
                    Some(token) => Some(token@),
                    None => None,
                },
            ),
    {
        match token {
            None => refuse(ApiError::MissingSessionToken),
            Some(token) => (Operation::Detaching, Step::Ask(Request::DetachSessionToken(token))),
        }
    }

    /// Starts the resolution of the token that the request carried, if any,
    /// to its user.
    pub fn resolve(token: Option<SessionToken>) -> (r: (Operation, Step))
        ensures
            (r.0@, r.1@) == resolve_start(
                match token {
                    Some(token) => Some(token@),
                    None => None,
                },
            ),
    {
        match token {
            None => complete(Outcome::Identity(None)),
            Some(token) => (Operation::Resolving, Step::Ask(Request::FindBySessionToken(token))),
        }
    }

    /// Starts reading the todo list of the user that the token belongs to.
    pub fn get_list(token: Option<SessionToken>) -> (r: (Operation, Step))
        ensures
            (r.0@, r.1@) == get_list_start(
                match token {
                    Some(token) => Some(token@),
                    None => None,
                },
            ),
    {
        match token {
            None => refuse(ApiError::InternalServerError),
            Some(token) => (
                Operation::ResolvingReader,
                Step::Ask(Request::FindBySessionToken(token)),
            ),
        }
    }

    /// Starts adding `task` to the todo list of the user that the token
    /// belongs to.
    pub fn add_task(token: Option<SessionToken>, task: String) -> (r: (Operation, Step))
        ensures
            (r.0@, r.1@) == add_task_start(
                match token {
                    Some(token) => Some(token@),
                    None => None,
                },
                task@,
            ),
    {
        match token {
            None => refuse(ApiError::InternalServerError),
            Some(token) => (
                Operation::ResolvingWriter { task },
                Step::Ask(Request::FindBySessionToken(token)),
            ),
        }
    }

    /// Takes the reply of the store to the request that was asked last, and
    /// gives the next step. An identifier and a token are drawn at random
    /// for every reply; a stage that needs neither drops them.
    pub fn handle(self, reply: Reply) -> (r: (Operation, Step))
        ensures
            exists|id: Seq<char>, token: Seq<char>|
                is_user_id(id) && is_session_token(token) && (r.0@, r.1@) == #[trigger] next(
                    self@,
                    reply@,
                    id,
                    token,
                ),
    {
        let fresh_id = UserId::new();
        let fresh_token = SessionToken::new();
        let r = self.advance(reply, fresh_id, fresh_token);
        proof {
            assert((r.0@, r.1@) == next(self@, reply@, fresh_id@, fresh_token@));
        }
        r
    }

    /// As [`Operation::handle`], with the identifier and the token that the
    /// operation may use given by the caller.
    pub fn advance(self, reply: Reply, fresh_id: UserId, fresh_token: SessionToken) -> (r: (
        Operation,
        Step,
    ))
        ensures
            (r.0@, r.1@) == next(self@, reply@, fresh_id@, fresh_token@),
    {
        match self {
            Operation::CheckingUsername { auth } => match reply {
                Reply::User(Some(_)) => refuse(ApiError::UsernameInUse),
                Reply::User(None) => {
                    let user = BackendUserMe::with_id(
                        fresh_id,
                        auth.username.clone(),
                        auth.password.clone(),
                    );
                    (
                        Operation::CheckingId { auth, user, attempts_left: ID_ATTEMPTS - 1 },
                        Step::Ask(Request::FindById(fresh_id)),
                    )
                },
                _ => refuse(ApiError::InternalServerError),
            },
            Operation::CheckingId { auth, user, attempts_left } => match reply {
                Reply::User(Some(_)) => if attempts_left == 0 {
                    refuse(ApiError::InternalServerError)
                } else {
                    let mut user = user;
                    user.id = fresh_id;
                    (
                        Operation::CheckingId { auth, user, attempts_left: attempts_left - 1 },
                        Step::Ask(Request::FindById(fresh_id)),
                    )
                },
                Reply::User(None) => (
                    Operation::Inserting { auth },
                    Step::Ask(Request::Insert(user)),
                ),
                _ => refuse(ApiError::InternalServerError),
            },
            Operation::Inserting { auth } => match reply {
                Reply::Written(true) => Operation::login(auth),
                _ => refuse(ApiError::InternalServerError),
            },
            Operation::FindingUser { auth } => match reply {
                Reply::User(Some(user)) => if user.password.matches(auth.password.as_str()) {
                    (
                        Operation::Attaching { token: fresh_token },
                        Step::Ask(
                            Request::AttachSessionToken {
                                username: user.username,
                                token: fresh_token,
                            },
                        ),
                    )
                } else {
                    refuse(ApiError::IncorrectCredentials)
                },
                Reply::User(None) => refuse(ApiError::IncorrectCredentials),
                _ => refuse(ApiError::InternalServerError),
            },
            Operation::Attaching { token } => match reply {
                Reply::Written(true) => complete(Outcome::Session(token)),
                _ => refuse(ApiError::InternalServerError),
            },
            Operation::Detaching => match reply {
                Reply::Written(true) => complete(Outcome::LoggedOut),
                _ => refuse(ApiError::InternalServerError),
            },
            Operation::Resolving => match reply {
                Reply::User(Some(user)) => complete(Outcome::Identity(Some(user.id))),
                Reply::User(None) => complete(Outcome::Identity(None)),
                _ => refuse(ApiError::InternalServerError),
            },
            Operation::ResolvingReader => match reply {
                Reply::User(Some(user)) => (
                    Operation::Reading,
                    Step::Ask(Request::FindTodo(user.id)),
                ),
                _ => refuse(ApiError::InternalServerError),
            },
            Operation::Reading => match reply {
                Reply::Todo(Some(todo)) => complete(Outcome::Tasks(todo)),
                Reply::Todo(None) => complete(Outcome::Tasks(Todo::new())),
                _ => refuse(ApiError::InternalServerError),
            },
            Operation::ResolvingWriter { task } => match reply {
                Reply::User(Some(user)) => (
                    Operation::Extending { owner: user.id, task },
                    Step::Ask(Request::FindTodo(user.id)),
                ),
                _ => refuse(ApiError::InternalServerError),
            },
            Operation::Extending { owner, task } => match reply {
                Reply::Todo(stored) => {
                    let mut todo = match stored {
                        Some(todo) => todo,
                        None => Todo::new(),
                    };
                    todo.push(task);
                    let copy = todo.duplicate();
                    (
                        Operation::Saving { todo },
                        Step::Ask(Request::SaveTodo(TodoStorage::new(owner, copy))),
                    )
                },
                _ => refuse(ApiError::InternalServerError),
            },
            Operation::Saving { todo } => match reply {
                Reply::Written(true) => complete(Outcome::Tasks(todo)),
                _ => refuse(ApiError::InternalServerError),
            },
            Operation::Finished => refuse(ApiError::InternalServerError),
        }
    }
}

} // verus!
