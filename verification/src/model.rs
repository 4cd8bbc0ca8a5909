//! Whole operations, run against the model of the store.
//!
//! [`run`] plays the caller: it hands each request of an operation to the
//! model and the answer back to the operation, until the operation finishes.
//! The theorems below say what registration, login, logout and the todo
//! service do to a store that nobody else writes to, and what can be lost
//! when two operations write to it in turn.

use crate::error::ApiError;
use crate::password::acceptable;
use crate::password::digest_of;
use crate::service::add_task_start;
use crate::service::get_list_start;
use crate::service::list_or_empty;
use crate::service::login_start;
use crate::service::logout_start;
use crate::service::next;
use crate::service::register_start;
use crate::service::resolve_start;
use crate::service::Payload;
use crate::service::Stage;
use crate::service::Turn;
use crate::service::ID_ATTEMPTS;
use crate::store::Answer;
use crate::store::Database;
use crate::store::Key;
use crate::store::Query;
use crate::todo::TodoDocument;
use crate::user::Credentials;
use vstd::prelude::*;

verus! {

/// The identifiers and tokens that chance hands to an operation: those for
/// the reply that comes `n`th are `ids(n)` and `tokens(n)`.
pub struct Draws {
    pub ids: spec_fn(nat) -> Seq<char>,
    pub tokens: spec_fn(nat) -> Seq<char>,
}

/// A bound on the requests that an operation at `stage` still makes, the one
/// that it waits for included.
pub open spec fn requests_left(stage: Stage) -> nat {
    match stage {
        Stage::CheckingUsername { .. } => (ID_ATTEMPTS + 4) as nat,
        Stage::CheckingId { attempts_left, .. } => attempts_left + 4,
        Stage::Inserting { .. } => 3,
        Stage::FindingUser { .. } => 2,
        Stage::Attaching { .. } => 1,
        Stage::Detaching => 1,
        Stage::Resolving => 1,
        Stage::ResolvingReader => 2,
        Stage::Reading => 1,
        Stage::ResolvingWriter { .. } => 3,
        Stage::Extending { .. } => 2,
        Stage::Saving { .. } => 1,
        Stage::Finished => 0,
    }
}

/// Every reply brings an operation nearer to its end, so that none makes
/// more requests than `requests_left` says at its start: a registration at
/// most four and one for each identifier it tries, the others at most
/// three.
pub proof fn lemma_replies_make_progress(
    stage: Stage,
    answer: Answer,
    id: Seq<char>,
    token: Seq<char>,
)
    requires
        stage != Stage::Finished,
    ensures
        requests_left(next(stage, answer, id, token).0) < requests_left(stage),
{
}

/// The store and the result after the operation at `stage`, whose last step
/// was `turn`, has run to its end against the store `db`. `clock` counts the
/// replies so far. An operation that is over has nothing to ask; a reply
/// that it is handed all the same is an answer of the wrong kind.
pub open spec fn run(db: Database, stage: Stage, turn: Turn, draws: Draws, clock: nat) -> (
    Database,
    Result<Payload, ApiError>,
)
    decreases requests_left(stage),
{
    match turn {
        Turn::Finish(result) => (db, result),
        Turn::Ask(query) => {
            let (db_after, answer) = db.respond(query);
            let (stage_after, turn_after) = next(
                stage,
                answer,
                (draws.ids)(clock),
                (draws.tokens)(clock),
            );
            if stage is Finished {
                (db_after, Err(ApiError::InternalServerError))
            } else {
                run(db_after, stage_after, turn_after, draws, clock + 1)
            }
        },
    }
}

/// The operation that starts with `start`, run to its end.
pub open spec fn perform(db: Database, start: (Stage, Turn), draws: Draws) -> (
    Database,
    Result<Payload, ApiError>,
) {
    run(db, start.0, start.1, draws, 0)
}

/// A registration, run to its end.
pub open spec fn register(db: Database, credentials: Credentials, draws: Draws) -> (
    Database,
    Result<Payload, ApiError>,
) {
    perform(db, register_start(credentials), draws)
}

/// A login, run to its end.
pub open spec fn login(db: Database, credentials: Credentials, draws: Draws) -> (
    Database,
    Result<Payload, ApiError>,
) {
    perform(db, login_start(credentials), draws)
}

/// A logout, run to its end.
pub open spec fn logout(db: Database, token: Option<Seq<char>>, draws: Draws) -> (
    Database,
    Result<Payload, ApiError>,
) {
    perform(db, logout_start(token), draws)
}

/// The resolution of a token, run to its end.
pub open spec fn resolve(db: Database, token: Option<Seq<char>>, draws: Draws) -> (
    Database,
    Result<Payload, ApiError>,
) {
    perform(db, resolve_start(token), draws)
}

/// Reading the todo list, run to its end.
pub open spec fn get_list(db: Database, token: Option<Seq<char>>, draws: Draws) -> (
    Database,
    Result<Payload, ApiError>,
) {
    perform(db, get_list_start(token), draws)
}

/// Adding a task, run to its end.
pub open spec fn add_task(
    db: Database,
    token: Option<Seq<char>>,
    task: Seq<char>,
    draws: Draws,
) -> (Database, Result<Payload, ApiError>) {
    perform(db, add_task_start(token, task), draws)
}

/// Login with a name that nobody has and login with a wrong password end
/// alike: with `IncorrectCredentials`, and the store as it was.
pub proof fn lemma_login_refusals_look_alike(db: Database, credentials: Credentials, draws: Draws)
    requires
        match db.lookup(Key::Name(credentials.username)) {
            None => true,
            Some(account) => account.password != digest_of(credentials.password),
        },
    ensures
        login(db, credentials, draws) == (db, Err::<Payload, ApiError>(ApiError::IncorrectCredentials)),
{
    reveal_with_fuel(run, 3);
}

/// Attaching a token changes no account, and adds no user.
pub proof fn lemma_attach_keeps_accounts(db: Database, username: Seq<char>, token: Seq<char>)
    ensures
        db.attach(username, token).users.len() == db.users.len(),
        db.attach(username, token).todos == db.todos,
        forall|i: int|
            0 <= i < db.users.len() ==> (#[trigger] db.attach(username, token).users[i]).account
                == db.users[i].account,
{
}

/// Detaching a token changes no account, and removes no user.
pub proof fn lemma_detach_keeps_accounts(db: Database, token: Seq<char>)
    ensures
        db.detach(token).users.len() == db.users.len(),
        db.detach(token).todos == db.todos,
        forall|i: int|
            0 <= i < db.users.len() ==> (#[trigger] db.detach(token).users[i]).account
                == db.users[i].account,
{
}

/// A login with the password of a user of that name succeeds: it attaches
/// the token that chance handed it to that user, and returns it.
pub proof fn lemma_login_issues_token(db: Database, credentials: Credentials, draws: Draws)
    requires
        db.lookup(Key::Name(credentials.username)) matches Some(account) && account.password
            == digest_of(credentials.password),
    ensures
        login(db, credentials, draws) == (
            db.attach(credentials.username, (draws.tokens)(0)),
            Ok::<Payload, ApiError>(Payload::Session((draws.tokens)(0))),
        ),
        db.attach(credentials.username, (draws.tokens)(0)).finds(Key::Token((draws.tokens)(0))),
{
    reveal_with_fuel(run, 3);
    let token = (draws.tokens)(0);
    let i = db.place(Key::Name(credentials.username));
    assert(db.users[i].account.username == credentials.username);
    let after = db.attach(credentials.username, token);
    assert(crate::store::selects(Key::Token(token), after.users[i]));
}

/// A logout without a token fails with `MissingSessionToken` and asks
/// nothing of the store.
pub proof fn lemma_logout_needs_token(db: Database, draws: Draws)
    ensures
        logout(db, None, draws) == (db, Err::<Payload, ApiError>(ApiError::MissingSessionToken)),
{
    reveal_with_fuel(run, 2);
}

/// A logout with a token succeeds, whether or not anybody held the token,
/// and leaves the store with the token detached. Where no two users held
/// the token, it then resolves to nobody.
pub proof fn lemma_logout_revokes(db: Database, token: Seq<char>, draws: Draws, later: Draws)
    ensures
        logout(db, Some(token), draws) == (
            db.detach(token),
            Ok::<Payload, ApiError>(Payload::LoggedOut),
        ),
        db.held_once(token) ==> !db.detach(token).finds(Key::Token(token)),
        db.held_once(token) ==> resolve(db.detach(token), Some(token), later) == (
            db.detach(token),
            Ok::<Payload, ApiError>(Payload::Identity(None)),
        ),
{
    reveal_with_fuel(run, 3);
    if db.held_once(token) {
        let after = db.detach(token);
        if after.finds(Key::Token(token)) {
            let j = after.place(Key::Token(token));
            assert(crate::store::selects(Key::Token(token), after.users[j]));
            if db.finds(Key::Token(token)) {
                let i = db.place(Key::Token(token));
                assert(crate::store::selects(Key::Token(token), db.users[i]));
                assert(i != j);
                assert(crate::store::selects(Key::Token(token), db.users[j]));
            } else {
                assert(crate::store::selects(Key::Token(token), db.users[j]));
            }
            assert(false);
        }
    }
}

/// The token of a new session resolves to the user that logged in, where
/// chance handed out a token that nobody held; and after a logout with that
/// token, it resolves to nobody.
pub proof fn lemma_session_lasts_until_logout(
    db: Database,
    credentials: Credentials,
    draws: Draws,
    later: Draws,
)
    requires
        db.lookup(Key::Name(credentials.username)) matches Some(account) && account.password
            == digest_of(credentials.password),
        !db.finds(Key::Token((draws.tokens)(0))),
    ensures
        ({
            let token = (draws.tokens)(0);
            let (opened, session) = login(db, credentials, draws);
            let (closed, farewell) = logout(opened, Some(token), later);
            &&& session == Ok::<Payload, ApiError>(Payload::Session(token))
            &&& resolve(opened, Some(token), later).1 == Ok::<Payload, ApiError>(
                Payload::Identity(Some(db.lookup(Key::Name(credentials.username))->0.id)),
            )
            &&& farewell == Ok::<Payload, ApiError>(Payload::LoggedOut)
            &&& resolve(closed, Some(token), later).1 == Ok::<Payload, ApiError>(
                Payload::Identity(None),
            )
        }),
{
    let token = (draws.tokens)(0);
    let i = db.place(Key::Name(credentials.username));
    let opened = db.attach(credentials.username, token);
    lemma_login_issues_token(db, credentials, draws);
    assert(opened.users[i].tokens.contains(token));
    assert(opened.held_once(token)) by {
        assert forall|j: int, k: int|
            0 <= j < opened.users.len() && 0 <= k < opened.users.len() && (
            #[trigger] opened.users[j]).tokens.contains(token) && (
            #[trigger] opened.users[k]).tokens.contains(token) implies j == k by {
            if j != i {
                assert(crate::store::selects(Key::Token(token), db.users[j]));
            }
            if k != i {
                assert(crate::store::selects(Key::Token(token), db.users[k]));
            }
        }
    }
    lemma_held_token_resolves(opened, token, i, later);
    lemma_logout_revokes(opened, token, later, later);
}

/// A token that a user holds resolves to that user, where nobody else
/// holds it.
pub proof fn lemma_held_token_resolves(db: Database, token: Seq<char>, i: int, draws: Draws)
    requires
        0 <= i < db.users.len(),
        db.users[i].tokens.contains(token),
        db.held_once(token),
    ensures
        resolve(db, Some(token), draws) == (
            db,
            Ok::<Payload, ApiError>(Payload::Identity(Some(db.users[i].account.id))),
        ),
{
    reveal_with_fuel(run, 3);
    assert(crate::store::selects(Key::Token(token), db.users[i]));
    let j = db.place(Key::Token(token));
    assert(crate::store::selects(Key::Token(token), db.users[j]));
    assert(i == j);
}

/// Resolution without a token gives an anonymous caller, and is no failure.
pub proof fn lemma_no_token_is_anonymous(db: Database, draws: Draws)
    ensures
        resolve(db, None, draws) == (db, Ok::<Payload, ApiError>(Payload::Identity(None))),
{
    reveal_with_fuel(run, 2);
}

/// Reading gives the stored list of the user that the token belongs to, and
/// the empty list where none is stored; the store stays as it was.
pub proof fn lemma_get_list_reads(db: Database, token: Seq<char>, draws: Draws)
    requires
        db.finds(Key::Token(token)),
    ensures
        get_list(db, Some(token), draws) == (
            db,
            Ok::<Payload, ApiError>(
                Payload::Tasks(list_or_empty(db.todo_of(db.lookup(Key::Token(token))->0.id))),
            ),
        ),
        db.todo_of(db.lookup(Key::Token(token))->0.id) is None ==> get_list(
            db,
            Some(token),
            draws,
        ).1 == Ok::<Payload, ApiError>(Payload::Tasks(Seq::empty())),
{
    reveal_with_fuel(run, 3);
}

/// A caller whose token belongs to nobody, or who has none, cannot read or
/// extend a list: both fail with `InternalServerError` and change nothing.
pub proof fn lemma_todo_needs_session(
    db: Database,
    token: Option<Seq<char>>,
    task: Seq<char>,
    draws: Draws,
)
    requires
        token matches Some(token) ==> !db.finds(Key::Token(token)),
    ensures
        get_list(db, token, draws) == (db, Err::<Payload, ApiError>(ApiError::InternalServerError)),
        add_task(db, token, task, draws) == (
            db,
            Err::<Payload, ApiError>(ApiError::InternalServerError),
        ),
{
    reveal_with_fuel(run, 3);
}

/// The list of `owner` after `task` was added to what the store `db` holds.
pub open spec fn extended(db: Database, owner: Seq<char>, task: Seq<char>) -> Seq<Seq<char>> {
    list_or_empty(db.todo_of(owner)).push(task)
}

/// Adding a task stores the list with the task at its end, in place of the
/// list that was stored, and returns it; reading then gives the same list.
pub proof fn lemma_add_task_appends(
    db: Database,
    token: Seq<char>,
    task: Seq<char>,
    draws: Draws,
    later: Draws,
)
    requires
        db.finds(Key::Token(token)),
    ensures
        ({
            let owner = db.lookup(Key::Token(token))->0.id;
            let tasks = extended(db, owner, task);
            let after = db.save(TodoDocument { owner, tasks });
            &&& add_task(db, Some(token), task, draws) == (
                after,
                Ok::<Payload, ApiError>(Payload::Tasks(tasks)),
            )
            &&& get_list(after, Some(token), later) == (
                after,
                Ok::<Payload, ApiError>(Payload::Tasks(tasks)),
            )
        }),
{
    reveal_with_fuel(run, 4);
    let owner = db.lookup(Key::Token(token))->0.id;
    let tasks = extended(db, owner, task);
    let after = db.save(TodoDocument { owner, tasks });
    assert(after.users == db.users);
    assert(after.finds(Key::Token(token)) == db.finds(Key::Token(token)));
    assert(after.place(Key::Token(token)) == db.place(Key::Token(token)));
}

/// Tasks that are added one after the other are all kept, in the order in
/// which they were added: the second addition returns the list that was
/// stored at first with both tasks at its end.
pub proof fn lemma_tasks_accumulate(
    db: Database,
    token: Seq<char>,
    first: Seq<char>,
    second: Seq<char>,
    draws: Draws,
    later: Draws,
)
    requires
        db.finds(Key::Token(token)),
    ensures
        ({
            let owner = db.lookup(Key::Token(token))->0.id;
            let before = list_or_empty(db.todo_of(owner));
            let between = add_task(db, Some(token), first, draws).0;
            add_task(between, Some(token), second, later).1 == Ok::<Payload, ApiError>(
                Payload::Tasks(before.push(first).push(second)),
            )
        }),
{
    let owner = db.lookup(Key::Token(token))->0.id;
    let between = db.save(TodoDocument { owner, tasks: extended(db, owner, first) });
    lemma_add_task_appends(db, token, first, draws, later);
    assert(between.users == db.users);
    assert(between.finds(Key::Token(token)) == db.finds(Key::Token(token)));
    assert(between.place(Key::Token(token)) == db.place(Key::Token(token)));
    lemma_add_task_appends(between, token, second, later, later);
}

/// A registration with a password that does not meet the policy fails with
/// `PasswordInsufficient` and asks nothing of the store.
pub proof fn lemma_registration_needs_password(db: Database, credentials: Credentials, draws: Draws)
    requires
        !acceptable(credentials.password),
    ensures
        register(db, credentials, draws) == (
            db,
            Err::<Payload, ApiError>(ApiError::PasswordInsufficient),
        ),
{
    reveal_with_fuel(run, 2);
}

/// A registration under a name that a user has fails with `UsernameInUse`,
/// and the store stays as it was.
pub proof fn lemma_registration_needs_free_name(
    db: Database,
    credentials: Credentials,
    draws: Draws,
)
    requires
        acceptable(credentials.password),
        db.finds(Key::Name(credentials.username)),
    ensures
        register(db, credentials, draws) == (
            db,
            Err::<Payload, ApiError>(ApiError::UsernameInUse),
        ),
{
    reveal_with_fuel(run, 3);
}

/// The store after a registration under a free name and a free identifier:
/// it holds the new account, and the account holds the token.
pub open spec fn registered(db: Database, credentials: Credentials, id: Seq<char>, token: Seq<char>)
    -> Database {
    db.insert(crate::user::new_account(id, credentials)).attach(credentials.username, token)
}

/// A registration with an acceptable password succeeds where the name is
/// free and the first identifier that chance hands it is free: the account
/// is stored under that identifier, and the token of its first session is
/// attached to it and returned.
pub proof fn lemma_registration_succeeds(db: Database, credentials: Credentials, draws: Draws)
    requires
        acceptable(credentials.password),
        !db.finds(Key::Name(credentials.username)),
        !db.finds(Key::Id((draws.ids)(0))),
    ensures
        register(db, credentials, draws) == (
            registered(db, credentials, (draws.ids)(0), (draws.tokens)(3)),
            Ok::<Payload, ApiError>(Payload::Session((draws.tokens)(3))),
        ),
{
    reveal_with_fuel(run, 6);
    let account = crate::user::new_account((draws.ids)(0), credentials);
    let stored = db.insert(account);
    lemma_inserted_is_found(db, account);
}

/// A user that has registered can log in, and is known by the token of the
/// registration: after a registration under a free name and a free
/// identifier, a login with the same credentials succeeds; and where chance
/// handed the registration a token that nobody held, that token resolves to
/// the new identifier.
pub proof fn lemma_registered_user_is_known(
    db: Database,
    credentials: Credentials,
    draws: Draws,
    later: Draws,
)
    requires
        acceptable(credentials.password),
        !db.finds(Key::Name(credentials.username)),
        !db.finds(Key::Id((draws.ids)(0))),
    ensures
        ({
            let after = register(db, credentials, draws).0;
            &&& login(after, credentials, later).1 == Ok::<Payload, ApiError>(
                Payload::Session((later.tokens)(0)),
            )
            &&& !db.finds(Key::Token((draws.tokens)(3))) ==> resolve(
                after,
                Some((draws.tokens)(3)),
                later,
            ).1 == Ok::<Payload, ApiError>(Payload::Identity(Some((draws.ids)(0))))
        }),
{
    let account = crate::user::new_account((draws.ids)(0), credentials);
    let token = (draws.tokens)(3);
    let stored = db.insert(account);
    let after = stored.attach(credentials.username, token);
    let last = db.users.len() as int;
    lemma_registration_succeeds(db, credentials, draws);
    lemma_inserted_is_found(db, account);
    assert(crate::store::selects(Key::Name(credentials.username), stored.users[last]));
    assert(stored.place(Key::Name(credentials.username)) == last) by {
        let i = stored.place(Key::Name(credentials.username));
        if i != last {
            assert(crate::store::selects(Key::Name(credentials.username), db.users[i]));
        }
    }
    assert(after.users[last].account == account);
    assert(crate::store::selects(Key::Name(credentials.username), after.users[last]));
    assert(after.lookup(Key::Name(credentials.username)) == Some(account)) by {
        let i = after.place(Key::Name(credentials.username));
        if i != last {
            assert(after.users[i].account == db.users[i].account);
            assert(crate::store::selects(Key::Name(credentials.username), db.users[i]));
        }
    }
    lemma_login_issues_token(after, credentials, later);
    if !db.finds(Key::Token(token)) {
        assert(after.users[last].tokens.contains(token));
        assert(after.held_once(token)) by {
            assert forall|j: int, k: int|
                0 <= j < after.users.len() && 0 <= k < after.users.len() && (
                #[trigger] after.users[j]).tokens.contains(token) && (
                #[trigger] after.users[k]).tokens.contains(token) implies j == k by {
                if j != last {
                    assert(crate::store::selects(Key::Token(token), db.users[j]));
                }
                if k != last {
                    assert(crate::store::selects(Key::Token(token), db.users[k]));
                }
            }
        }
        lemma_held_token_resolves(after, token, last, later);
    }
}

/// A user that was inserted under a free name is the one that a lookup of
/// the name returns.
proof fn lemma_inserted_is_found(db: Database, account: crate::user::Account)
    requires
        !db.finds(Key::Name(account.username)),
    ensures
        db.insert(account).lookup(Key::Name(account.username)) == Some(account),
{
    let stored = db.insert(account);
    let last = db.users.len() as int;
    assert(crate::store::selects(Key::Name(account.username), stored.users[last]));
    let i = stored.place(Key::Name(account.username));
    if i != last {
        assert(crate::store::selects(Key::Name(account.username), db.users[i]));
    }
}

/// Attaching a token keeps each name in use that was in use.
proof fn lemma_attach_keeps_names(
    db: Database,
    username: Seq<char>,
    token: Seq<char>,
    name: Seq<char>,
)
    requires
        db.finds(Key::Name(name)),
    ensures
        db.attach(username, token).finds(Key::Name(name)),
{
    let i = db.place(Key::Name(name));
    assert(crate::store::selects(Key::Name(name), db.users[i]));
    assert(crate::store::selects(Key::Name(name), db.attach(username, token).users[i]));
}

/// Attaching a token keeps the users distinct.
proof fn lemma_attach_keeps_distinct(db: Database, username: Seq<char>, token: Seq<char>)
    requires
        db.distinct_users(),
    ensures
        db.attach(username, token).distinct_users(),
{
    let after = db.attach(username, token);
    assert forall|i: int, j: int|
        0 <= i < after.users.len() && 0 <= j < after.users.len() && i != j implies {
        &&& (#[trigger] after.users[i]).account.id != (#[trigger] after.users[j]).account.id
        &&& after.users[i].account.username != after.users[j].account.username
    } by {
        assert(after.users[i].account == db.users[i].account);
        assert(after.users[j].account == db.users[j].account);
    }
}

/// What the search for a free identifier leads to, whatever chance hands
/// out: a registration that succeeds leaves the name in use.
proof fn lemma_id_search_takes_name(
    db: Database,
    credentials: Credentials,
    account: crate::user::Account,
    attempts_left: nat,
    draws: Draws,
    clock: nat,
)
    requires
        account.username == credentials.username,
    ensures
        ({
            let r = run(
                db,
                Stage::CheckingId { credentials, account, attempts_left },
                Turn::Ask(Query::UserById(account.id)),
                draws,
                clock,
            );
            r.1 is Ok ==> r.0.finds(Key::Name(credentials.username))
        }),
    decreases attempts_left,
{
    let stage = Stage::CheckingId { credentials, account, attempts_left };
    match db.lookup(Key::Id(account.id)) {
        Some(_) => {
            if attempts_left > 0 {
                let retry = crate::user::Account { id: (draws.ids)(clock), ..account };
                lemma_id_search_takes_name(
                    db,
                    credentials,
                    retry,
                    (attempts_left - 1) as nat,
                    draws,
                    clock + 1,
                );
                reveal_with_fuel(run, 2);
            } else {
                reveal_with_fuel(run, 2);
            }
        },
        None => {
            reveal_with_fuel(run, 5);
            let stored = db.insert(account);
            let last = db.users.len() as int;
            assert(crate::store::selects(Key::Name(credentials.username), stored.users[last]));
            match stored.lookup(Key::Name(credentials.username)) {
                Some(found) => {
                    lemma_attach_keeps_names(
                        stored,
                        found.username,
                        (draws.tokens)(clock + 2),
                        credentials.username,
                    );
                },
                None => {},
            }
        },
    }
}

/// After a registration that succeeded, the name is in use.
pub proof fn lemma_registered_name_is_taken(db: Database, credentials: Credentials, draws: Draws)
    requires
        register(db, credentials, draws).1 is Ok,
    ensures
        register(db, credentials, draws).0.finds(Key::Name(credentials.username)),
{
    reveal_with_fuel(run, 2);
    if acceptable(credentials.password) && !db.finds(Key::Name(credentials.username)) {
        lemma_id_search_takes_name(
            db,
            credentials,
            crate::user::new_account((draws.ids)(0), credentials),
            (ID_ATTEMPTS - 1) as nat,
            draws,
            1,
        );
    }
}

/// Registering a name twice: where the first registration succeeded, a
/// second one under the same name, with any acceptable password, fails with
/// `UsernameInUse` and leaves the store, and so the first user, as it was.
pub proof fn lemma_second_registration_refused(
    db: Database,
    first: Credentials,
    second: Credentials,
    draws: Draws,
    later: Draws,
)
    requires
        register(db, first, draws).1 is Ok,
        second.username == first.username,
        acceptable(second.password),
    ensures
        register(register(db, first, draws).0, second, later) == (
            register(db, first, draws).0,
            Err::<Payload, ApiError>(ApiError::UsernameInUse),
        ),
{
    lemma_registered_name_is_taken(db, first, draws);
    lemma_registration_needs_free_name(register(db, first, draws).0, second, later);
}

/// Inserting an account under a free name and a free identifier keeps the
/// users distinct.
proof fn lemma_insert_keeps_distinct(db: Database, account: crate::user::Account)
    requires
        db.distinct_users(),
        !db.finds(Key::Name(account.username)),
        !db.finds(Key::Id(account.id)),
    ensures
        db.insert(account).distinct_users(),
{
    let after = db.insert(account);
    let last = db.users.len() as int;
    assert forall|i: int, j: int|
        0 <= i < after.users.len() && 0 <= j < after.users.len() && i != j implies {
        &&& (#[trigger] after.users[i]).account.id != (#[trigger] after.users[j]).account.id
        &&& after.users[i].account.username != after.users[j].account.username
    } by {
        if i < last {
            assert(!crate::store::selects(Key::Name(account.username), db.users[i]));
            assert(!crate::store::selects(Key::Id(account.id), db.users[i]));
        }
        if j < last {
            assert(!crate::store::selects(Key::Name(account.username), db.users[j]));
            assert(!crate::store::selects(Key::Id(account.id), db.users[j]));
        }
    }
}

/// What the search for a free identifier leads to under a free name,
/// whatever chance hands out: the users stay distinct, and a registration
/// that fails has written nothing.
proof fn lemma_id_search_keeps_distinct(
    db: Database,
    credentials: Credentials,
    account: crate::user::Account,
    attempts_left: nat,
    draws: Draws,
    clock: nat,
)
    requires
        db.distinct_users(),
        !db.finds(Key::Name(credentials.username)),
        account.username == credentials.username,
        account.password == digest_of(credentials.password),
    ensures
        ({
            let r = run(
                db,
                Stage::CheckingId { credentials, account, attempts_left },
                Turn::Ask(Query::UserById(account.id)),
                draws,
                clock,
            );
            &&& r.0.distinct_users()
            &&& r.1 is Err ==> r.0 == db
        }),
    decreases attempts_left,
{
    match db.lookup(Key::Id(account.id)) {
        Some(_) => {
            if attempts_left > 0 {
                let retry = crate::user::Account { id: (draws.ids)(clock), ..account };
                lemma_id_search_keeps_distinct(
                    db,
                    credentials,
                    retry,
                    (attempts_left - 1) as nat,
                    draws,
                    clock + 1,
                );
                reveal_with_fuel(run, 2);
            } else {
                reveal_with_fuel(run, 2);
            }
        },
        None => {
            reveal_with_fuel(run, 5);
            let stored = db.insert(account);
            lemma_insert_keeps_distinct(db, account);
            lemma_inserted_is_found(db, account);
            lemma_attach_keeps_distinct(stored, account.username, (draws.tokens)(clock + 2));
        },
    }
}

/// Registration keeps the users distinct: where no two users shared a name
/// or an identifier before, none do after, whatever identifiers chance
/// handed out. And a registration that fails has written nothing.
pub proof fn lemma_registration_keeps_users_distinct(
    db: Database,
    credentials: Credentials,
    draws: Draws,
)
    requires
        db.distinct_users(),
    ensures
        register(db, credentials, draws).0.distinct_users(),
        register(db, credentials, draws).1 is Err ==> register(db, credentials, draws).0 == db,
{
    reveal_with_fuel(run, 2);
    if acceptable(credentials.password) && !db.finds(Key::Name(credentials.username)) {
        lemma_id_search_keeps_distinct(
            db,
            credentials,
            crate::user::new_account((draws.ids)(0), credentials),
            (ID_ATTEMPTS - 1) as nat,
            draws,
            1,
        );
    }
}

/// One round trip of the operation at `stage`, whose last step was `turn`:
/// the store performs the request, and the operation takes the answer.
pub open spec fn round(db: Database, client: (Stage, Turn), draws: Draws, clock: nat) -> (
    Database,
    (Stage, Turn),
) {
    match client.1 {
        Turn::Finish(_) => (db, client),
        Turn::Ask(query) => {
            let (db_after, answer) = db.respond(query);
            (db_after, next(client.0, answer, (draws.ids)(clock), (draws.tokens)(clock)))
        },
    }
}

/// The store and the two callers after two additions for one user whose
/// requests reach the store in turn, so that both have read the list before
/// either stores its own.
pub open spec fn add_in_turn(
    db: Database,
    token: Seq<char>,
    first: Seq<char>,
    second: Seq<char>,
    draws: Draws,
) -> (Database, (Stage, Turn), (Stage, Turn)) {
    let a = add_task_start(Some(token), first);
    let b = add_task_start(Some(token), second);
    let (db, a) = round(db, a, draws, 0);
    let (db, b) = round(db, b, draws, 0);
    let (db, a) = round(db, a, draws, 1);
    let (db, b) = round(db, b, draws, 1);
    let (db, a) = round(db, a, draws, 2);
    let (db, b) = round(db, b, draws, 2);
    (db, a, b)
}

/// Two additions at the same time may lose one task. Where both read the
/// list before either stores its own, both report success, each with its
/// own task at the end of the list that it read, and the store is left with
/// the list of the one that wrote last: the task of the other is not in it,
/// unless it was there before or is the same task.
pub proof fn lemma_additions_in_turn_lose_one(
    db: Database,
    token: Seq<char>,
    first: Seq<char>,
    second: Seq<char>,
    draws: Draws,
)
    requires
        db.finds(Key::Token(token)),
    ensures
        ({
            let owner = db.lookup(Key::Token(token))->0.id;
            let before = list_or_empty(db.todo_of(owner));
            let (after, a, b) = add_in_turn(db, token, first, second, draws);
            &&& a.1 == Turn::Finish(Ok(Payload::Tasks(before.push(first))))
            &&& b.1 == Turn::Finish(Ok(Payload::Tasks(before.push(second))))
            &&& after.todo_of(owner) == Some(before.push(second))
            &&& first != second && !before.contains(first) ==> !after.todo_of(owner)->0.contains(
                first,
            )
        }),
{
    let owner = db.lookup(Key::Token(token))->0.id;
    let before = list_or_empty(db.todo_of(owner));
    let a0 = add_task_start(Some(token), first);
    let b0 = add_task_start(Some(token), second);
    let (db1, a1) = round(db, a0, draws, 0);
    let (db2, b1) = round(db1, b0, draws, 0);
    let (db3, a2) = round(db2, a1, draws, 1);
    let (db4, b2) = round(db3, b1, draws, 1);
    let (db5, a3) = round(db4, a2, draws, 2);
    let (db6, b3) = round(db5, b2, draws, 2);
    assert(db4 == db);
    assert(a2.1 == Turn::Ask(
        Query::SaveTodo(TodoDocument { owner, tasks: before.push(first) }),
    ));
    assert(b2.1 == Turn::Ask(
        Query::SaveTodo(TodoDocument { owner, tasks: before.push(second) }),
    ));
    assert(db6.todo_of(owner) == Some(before.push(second)));
    if first != second && !before.contains(first) {
        let last = before.push(second);
        if last.contains(first) {
            let k = choose|k: int| 0 <= k < last.len() && last[k] == first;
            if k < before.len() {
                assert(before[k] == first);
            }
        }
    }
}

} // verus!
