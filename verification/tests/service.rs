use todo_backend::error::ApiError;
use todo_backend::service::Operation;
use todo_backend::service::Outcome;
use todo_backend::service::Step;
use todo_backend::service::ID_ATTEMPTS;
use todo_backend::session_token::SessionToken;
use todo_backend::store::connection_url;
use todo_backend::store::Reply;
use todo_backend::store::Request;
use todo_backend::store::MONGO_URL_DEFAULT;
use todo_backend::todo::Todo;
use todo_backend::todo::TodoStorage;
use todo_backend::user::BackendUserMe;
use todo_backend::user::DbUser;
use todo_backend::user::UserAuth;
use todo_backend::user_id::UserId;

/// A store in memory that does what the requests say.
struct Store {
    users: Vec<DbUser>,
    todos: Vec<(UserId, Todo)>,
    requests: usize,
}

fn visible(user: &DbUser) -> BackendUserMe {
    BackendUserMe {
        id: user.id,
        username: user.username.clone(),
        password: user.password.clone(),
        email: user.email.clone(),
    }
}

impl Store {
    fn new() -> Store {
        Store { users: Vec::new(), todos: Vec::new(), requests: 0 }
    }

    fn perform(&mut self, request: Request) -> Reply {
        self.requests += 1;
        match request {
            Request::FindById(id) => {
                Reply::User(self.users.iter().find(|u| u.id == id).map(visible))
            }
            Request::FindByUsername(username) => {
                Reply::User(self.users.iter().find(|u| u.username == username).map(visible))
            }
            Request::FindBySessionToken(token) => Reply::User(
                self.users.iter().find(|u| u.session_tokens.contains(&token)).map(visible),
            ),
            Request::Insert(user) => {
                self.users.push(DbUser::from_backend_user(user));
                Reply::Written(true)
            }
            Request::AttachSessionToken { username, token } => {
                if let Some(user) = self.users.iter_mut().find(|u| u.username == username) {
                    user.session_tokens.push(token);
                }
                Reply::Written(true)
            }
            Request::DetachSessionToken(token) => {
                if let Some(user) =
                    self.users.iter_mut().find(|u| u.session_tokens.contains(&token))
                {
                    user.session_tokens.retain(|t| *t != token);
                }
                Reply::Written(true)
            }
            Request::FindTodo(id) => Reply::Todo(
                self.todos.iter().find(|(owner, _)| *owner == id).map(|(_, t)| t.duplicate()),
            ),
            Request::SaveTodo(storage) => {
                let owner = storage.user_id();
                let todo = storage.to_todo_list();
                self.todos.retain(|(o, _)| *o != owner);
                self.todos.push((owner, todo));
                Reply::Written(true)
            }
        }
    }

    fn run(&mut self, start: (Operation, Step)) -> Result<Outcome, ApiError> {
        let (mut operation, mut step) = start;
        loop {
            match step {
                Step::Finish(result) => return result,
                Step::Ask(request) => {
                    let reply = self.perform(request);
                    let (o, s) = operation.handle(reply);
                    operation = o;
                    step = s;
                }
            }
        }
    }

    fn register(&mut self, username: &str, password: &str) -> Result<Outcome, ApiError> {
        self.run(Operation::register(auth(username, password)))
    }

    fn login(&mut self, username: &str, password: &str) -> Result<Outcome, ApiError> {
        self.run(Operation::login(auth(username, password)))
    }

    fn session(&mut self, username: &str, password: &str) -> SessionToken {
        match self.register(username, password) {
            Ok(Outcome::Session(token)) => token,
            other => panic!("registration gave {:?}", other),
        }
    }

    fn tasks(&mut self, token: SessionToken) -> Vec<String> {
        match self.run(Operation::get_list(Some(token))) {
            Ok(Outcome::Tasks(todo)) => todo.into_tasks(),
            other => panic!("reading gave {:?}", other),
        }
    }

    fn add(&mut self, token: SessionToken, task: &str) -> Vec<String> {
        match self.run(Operation::add_task(Some(token), task.to_string())) {
            Ok(Outcome::Tasks(todo)) => todo.into_tasks(),
            other => panic!("adding gave {:?}", other),
        }
    }
}

fn auth(username: &str, password: &str) -> UserAuth {
    UserAuth { username: username.to_string(), password: password.to_string() }
}

fn finished(step: Step) -> Result<Outcome, ApiError> {
    match step {
        Step::Finish(result) => result,
        Step::Ask(request) => panic!("the operation asked {:?}", request),
    }
}

fn asked(step: Step) -> Request {
    match step {
        Step::Ask(request) => request,
        Step::Finish(result) => panic!("the operation finished with {:?}", result),
    }
}

fn some_user(id: &str, username: &str, password: &str) -> BackendUserMe {
    BackendUserMe::with_id(
        UserId::from_str(id).unwrap(),
        username.to_string(),
        password.to_string(),
    )
}

#[test]
fn registration_stores_the_user_and_opens_a_session() {
    let mut store = Store::new();
    let token = store.session("ann", "abc1234");
    assert_eq!(store.users.len(), 1);
    assert_eq!(store.users[0].username, "ann");
    assert!(store.users[0].password.matches("abc1234"));
    assert_eq!(store.users[0].email, None);
    assert_eq!(store.users[0].session_tokens, vec![token]);
    assert_eq!(store.requests, 5);
}

#[test]
fn registration_with_weak_password_is_refused_without_asking() {
    let mut store = Store::new();
    assert_eq!(store.register("ann", "abcdefgh"), Err(ApiError::PasswordInsufficient));
    assert_eq!(store.register("ann", "abc12"), Err(ApiError::PasswordInsufficient));
    assert_eq!(store.register("ann", "abc1234#"), Err(ApiError::PasswordInsufficient));
    assert_eq!(store.requests, 0);
    assert!(store.users.is_empty());
}

#[test]
fn second_registration_of_a_name_is_refused() {
    let mut store = Store::new();
    let token = store.session("ann", "abc1234");
    let id = store.users[0].id;
    assert_eq!(store.register("ann", "other-pw1"), Err(ApiError::UsernameInUse));
    assert_eq!(store.register("ann", "abc1234"), Err(ApiError::UsernameInUse));
    assert_eq!(store.users.len(), 1);
    assert_eq!(store.users[0].id, id);
    assert_eq!(store.users[0].username, "ann");
    assert!(store.users[0].password.matches("abc1234"));
    assert!(!store.users[0].password.matches("other-pw1"));
    assert_eq!(store.users[0].session_tokens, vec![token]);
}

#[test]
fn weak_password_is_reported_before_a_name_in_use() {
    let mut store = Store::new();
    store.session("ann", "abc1234");
    assert_eq!(store.register("ann", "weak"), Err(ApiError::PasswordInsufficient));
}

#[test]
fn registration_of_other_names_goes_on() {
    let mut store = Store::new();
    let ann = store.session("ann", "abc1234");
    let bob = store.session("bob", "abc1234");
    assert_ne!(ann, bob);
    assert_eq!(store.users.len(), 2);
    assert_ne!(store.users[0].id, store.users[1].id);
}

#[test]
fn login_with_wrong_password_or_unknown_name_looks_alike() {
    let mut store = Store::new();
    store.session("ann", "abc1234");
    let wrong = store.login("ann", "abc1235");
    let unknown = store.login("bob", "abc1234");
    assert_eq!(wrong, Err(ApiError::IncorrectCredentials));
    assert_eq!(unknown, Err(ApiError::IncorrectCredentials));
    assert_eq!(wrong, unknown);
    assert_eq!(store.users[0].session_tokens.len(), 1);
}

#[test]
fn login_opens_another_session() {
    let mut store = Store::new();
    let first = store.session("ann", "abc1234");
    let second = match store.login("ann", "abc1234") {
        Ok(Outcome::Session(token)) => token,
        other => panic!("login gave {:?}", other),
    };
    assert_ne!(first, second);
    assert_eq!(store.users[0].session_tokens, vec![first, second]);
    let id = store.users[0].id;
    assert_eq!(store.run(Operation::resolve(Some(first))), Ok(Outcome::Identity(Some(id))));
    assert_eq!(store.run(Operation::resolve(Some(second))), Ok(Outcome::Identity(Some(id))));
}

#[test]
fn logout_revokes_the_token_and_no_other() {
    let mut store = Store::new();
    let first = store.session("ann", "abc1234");
    let second = match store.login("ann", "abc1234") {
        Ok(Outcome::Session(token)) => token,
        other => panic!("login gave {:?}", other),
    };
    let id = store.users[0].id;
    assert_eq!(store.run(Operation::logout(Some(first))), Ok(Outcome::LoggedOut));
    assert_eq!(store.run(Operation::resolve(Some(first))), Ok(Outcome::Identity(None)));
    assert_eq!(store.run(Operation::resolve(Some(second))), Ok(Outcome::Identity(Some(id))));
    assert_eq!(
        store.run(Operation::get_list(Some(first))),
        Err(ApiError::InternalServerError)
    );
}

#[test]
fn logout_without_token_is_refused_without_asking() {
    let mut store = Store::new();
    assert_eq!(store.run(Operation::logout(None)), Err(ApiError::MissingSessionToken));
    assert_eq!(store.requests, 0);
}

#[test]
fn logout_with_unknown_token_succeeds() {
    let mut store = Store::new();
    let token = store.session("ann", "abc1234");
    assert_eq!(store.run(Operation::logout(Some(SessionToken::new()))), Ok(Outcome::LoggedOut));
    assert_eq!(store.users[0].session_tokens, vec![token]);
}

#[test]
fn no_token_resolves_to_nobody() {
    let mut store = Store::new();
    assert_eq!(store.run(Operation::resolve(None)), Ok(Outcome::Identity(None)));
    assert_eq!(store.requests, 0);
    assert_eq!(
        store.run(Operation::resolve(Some(SessionToken::new()))),
        Ok(Outcome::Identity(None))
    );
}

#[test]
fn list_of_a_new_user_is_empty() {
    let mut store = Store::new();
    let token = store.session("ann", "abc1234");
    assert_eq!(store.tasks(token), Vec::<String>::new());
    assert!(store.todos.is_empty());
}

#[test]
fn added_tasks_come_last() {
    let mut store = Store::new();
    let token = store.session("ann", "abc1234");
    assert_eq!(store.add(token, "buy milk"), vec!["buy milk".to_string()]);
    assert_eq!(store.tasks(token), vec!["buy milk".to_string()]);
    assert_eq!(
        store.add(token, "call mom"),
        vec!["buy milk".to_string(), "call mom".to_string()]
    );
    assert_eq!(store.tasks(token), vec!["buy milk".to_string(), "call mom".to_string()]);
    assert_eq!(store.todos.len(), 1);
}

#[test]
fn each_user_has_a_list_of_their_own() {
    let mut store = Store::new();
    let ann = store.session("ann", "abc1234");
    let bob = store.session("bob", "abc1234");
    store.add(ann, "buy milk");
    store.add(bob, "call mom");
    assert_eq!(store.tasks(ann), vec!["buy milk".to_string()]);
    assert_eq!(store.tasks(bob), vec!["call mom".to_string()]);
    assert_eq!(store.todos.len(), 2);
}

#[test]
fn todo_service_needs_a_valid_session() {
    let mut store = Store::new();
    assert_eq!(store.run(Operation::get_list(None)), Err(ApiError::InternalServerError));
    assert_eq!(
        store.run(Operation::add_task(None, "buy milk".to_string())),
        Err(ApiError::InternalServerError)
    );
    assert_eq!(store.requests, 0);
    let stranger = SessionToken::new();
    assert_eq!(
        store.run(Operation::get_list(Some(stranger))),
        Err(ApiError::InternalServerError)
    );
    assert_eq!(
        store.run(Operation::add_task(Some(stranger), "buy milk".to_string())),
        Err(ApiError::InternalServerError)
    );
    assert!(store.todos.is_empty());
}

#[test]
fn additions_at_the_same_time_may_lose_a_task() {
    let mut store = Store::new();
    let token = store.session("ann", "abc1234");
    store.add(token, "buy milk");

    let (a, a_step) = Operation::add_task(Some(token), "call mom".to_string());
    let (b, b_step) = Operation::add_task(Some(token), "walk dog".to_string());
    // Both resolve their user and read the list before either stores its own.
    let (a, a_step) = a.handle(store.perform(asked(a_step)));
    let (b, b_step) = b.handle(store.perform(asked(b_step)));
    let (a, a_step) = a.handle(store.perform(asked(a_step)));
    let (b, b_step) = b.handle(store.perform(asked(b_step)));
    let (_, a_step) = a.handle(store.perform(asked(a_step)));
    let (_, b_step) = b.handle(store.perform(asked(b_step)));

    assert_eq!(
        finished(a_step),
        Ok(Outcome::Tasks(Todo::from_tasks(vec!["buy milk".to_string(), "call mom".to_string()])))
    );
    assert_eq!(
        finished(b_step),
        Ok(Outcome::Tasks(Todo::from_tasks(vec!["buy milk".to_string(), "walk dog".to_string()])))
    );
    assert_eq!(store.tasks(token), vec!["buy milk".to_string(), "walk dog".to_string()]);
}

#[test]
fn additions_one_after_the_other_keep_both_tasks() {
    let mut store = Store::new();
    let token = store.session("ann", "abc1234");
    store.add(token, "call mom");
    store.add(token, "walk dog");
    assert_eq!(store.tasks(token), vec!["call mom".to_string(), "walk dog".to_string()]);
}

#[test]
fn registration_asks_for_the_name_first() {
    let (operation, step) = Operation::register(auth("ann", "abc1234"));
    assert!(matches!(operation, Operation::CheckingUsername { .. }));
    assert!(matches!(asked(step), Request::FindByUsername(name) if name == "ann"));
}

#[test]
fn registration_tries_the_identifier_it_is_given() {
    let id = UserId::from_str("0123456789ab").unwrap();
    let (operation, _) = Operation::register(auth("ann", "abc1234"));
    let (operation, step) = operation.advance(Reply::User(None), id, SessionToken::new());
    assert!(matches!(asked(step), Request::FindById(asked_id) if asked_id == id));
    let (operation, step) = operation.advance(Reply::User(None), UserId::new(), SessionToken::new());
    match asked(step) {
        Request::Insert(user) => {
            assert_eq!(user.id, id);
            assert_eq!(user.username, "ann");
            assert!(user.password.matches("abc1234"));
            assert_eq!(user.email, None);
        }
        other => panic!("the operation asked {:?}", other),
    }
    assert!(matches!(operation, Operation::Inserting { .. }));
}

#[test]
fn registration_tries_another_identifier_after_a_collision() {
    let taken = UserId::from_str("0123456789ab").unwrap();
    let free = UserId::from_str("ba9876543210").unwrap();
    let holder = some_user("0123456789ab", "bob", "abc1234");
    let (operation, _) = Operation::register(auth("ann", "abc1234"));
    let (operation, step) = operation.advance(Reply::User(None), taken, SessionToken::new());
    assert!(matches!(asked(step), Request::FindById(id) if id == taken));
    let (operation, step) = operation.advance(Reply::User(Some(holder)), free, SessionToken::new());
    assert!(matches!(asked(step), Request::FindById(id) if id == free));
    let (_, step) = operation.advance(Reply::User(None), UserId::new(), SessionToken::new());
    match asked(step) {
        Request::Insert(user) => {
            assert_eq!(user.id, free);
            assert_eq!(user.username, "ann");
            assert!(user.password.matches("abc1234"));
        }
        other => panic!("the operation asked {:?}", other),
    }
}

#[test]
fn registration_gives_up_after_too_many_collisions() {
    assert_eq!(ID_ATTEMPTS, 8);
    let (mut operation, _) = Operation::register(auth("ann", "abc1234"));
    let (o, mut step) = operation.advance(Reply::User(None), UserId::new(), SessionToken::new());
    operation = o;
    let mut asked_ids = 0;
    while let Step::Ask(request) = step {
        assert!(matches!(request, Request::FindById(_)));
        asked_ids += 1;
        let holder = some_user("0123456789ab", "bob", "abc1234");
        let (o, s) = operation.handle(Reply::User(Some(holder)));
        operation = o;
        step = s;
    }
    assert_eq!(asked_ids, 8);
    assert_eq!(finished(step), Err(ApiError::InternalServerError));
}

#[test]
fn login_attaches_the_token_it_is_given() {
    let token = SessionToken::from_str("0123456789abcdef0123456789abcdef").unwrap();
    let user = some_user("0123456789ab", "ann", "abc1234");
    let (operation, step) = Operation::login(auth("ann", "abc1234"));
    assert!(matches!(asked(step), Request::FindByUsername(name) if name == "ann"));
    let (operation, step) = operation.advance(Reply::User(Some(user)), UserId::new(), token);
    assert!(matches!(
        asked(step),
        Request::AttachSessionToken { username, token: attached }
            if username == "ann" && attached == token
    ));
    let (operation, step) =
        operation.advance(Reply::Written(true), UserId::new(), SessionToken::new());
    assert_eq!(finished(step), Ok(Outcome::Session(token)));
    assert!(matches!(operation, Operation::Finished));
}

#[test]
fn failed_writes_end_in_internal_server_error() {
    let fail = || Reply::Written(false);

    let (operation, _) = Operation::register(auth("ann", "abc1234"));
    let (operation, _) = operation.handle(Reply::User(None));
    let (operation, _) = operation.handle(Reply::User(None));
    let (_, step) = operation.handle(fail());
    assert_eq!(finished(step), Err(ApiError::InternalServerError));

    let (operation, _) = Operation::login(auth("ann", "abc1234"));
    let (operation, _) =
        operation.handle(Reply::User(Some(some_user("0123456789ab", "ann", "abc1234"))));
    let (_, step) = operation.handle(fail());
    assert_eq!(finished(step), Err(ApiError::InternalServerError));

    let (operation, _) = Operation::logout(Some(SessionToken::new()));
    let (_, step) = operation.handle(fail());
    assert_eq!(finished(step), Err(ApiError::InternalServerError));

    let (operation, _) = Operation::add_task(Some(SessionToken::new()), "buy milk".to_string());
    let (operation, _) =
        operation.handle(Reply::User(Some(some_user("0123456789ab", "ann", "abc1234"))));
    let (operation, _) = operation.handle(Reply::Todo(None));
    let (_, step) = operation.handle(fail());
    assert_eq!(finished(step), Err(ApiError::InternalServerError));
}

#[test]
fn registration_reports_a_user_that_cannot_be_found_again() {
    let (operation, _) = Operation::register(auth("ann", "abc1234"));
    let (operation, _) = operation.handle(Reply::User(None));
    let (operation, _) = operation.handle(Reply::User(None));
    let (operation, step) = operation.handle(Reply::Written(true));
    assert!(matches!(asked(step), Request::FindByUsername(name) if name == "ann"));
    let (_, step) = operation.handle(Reply::User(None));
    assert_eq!(finished(step), Err(ApiError::IncorrectCredentials));
}

#[test]
fn replies_of_the_wrong_kind_end_in_internal_server_error() {
    let (operation, _) = Operation::register(auth("ann", "abc1234"));
    let (operation, step) = operation.handle(Reply::Written(true));
    assert_eq!(finished(step), Err(ApiError::InternalServerError));
    let (_, step) = operation.handle(Reply::User(None));
    assert_eq!(finished(step), Err(ApiError::InternalServerError));

    let (operation, _) = Operation::login(auth("ann", "abc1234"));
    let (_, step) = operation.handle(Reply::Todo(None));
    assert_eq!(finished(step), Err(ApiError::InternalServerError));

    let (operation, _) = Operation::get_list(Some(SessionToken::new()));
    let (_, step) = operation.handle(Reply::Todo(None));
    assert_eq!(finished(step), Err(ApiError::InternalServerError));

    let (operation, _) = Operation::logout(Some(SessionToken::new()));
    let (_, step) = operation.handle(Reply::User(None));
    assert_eq!(finished(step), Err(ApiError::InternalServerError));
}

#[test]
fn adding_stores_the_whole_list_for_its_owner() {
    let owner = UserId::from_str("0123456789ab").unwrap();
    let (operation, _) = Operation::add_task(Some(SessionToken::new()), "call mom".to_string());
    let (operation, step) =
        operation.handle(Reply::User(Some(some_user("0123456789ab", "ann", "abc1234"))));
    assert!(matches!(asked(step), Request::FindTodo(id) if id == owner));
    let stored = Todo::from_tasks(vec!["buy milk".to_string()]);
    let (operation, step) = operation.handle(Reply::Todo(Some(stored)));
    match asked(step) {
        Request::SaveTodo(storage) => {
            assert_eq!(
                storage,
                TodoStorage::new(
                    owner,
                    Todo::from_tasks(vec!["buy milk".to_string(), "call mom".to_string()])
                )
            );
        }
        other => panic!("the operation asked {:?}", other),
    }
    let (_, step) = operation.handle(Reply::Written(true));
    assert_eq!(
        finished(step),
        Ok(Outcome::Tasks(Todo::from_tasks(vec!["buy milk".to_string(), "call mom".to_string()])))
    );
}

#[test]
fn failed_lookups_count_as_not_found() {
    let stored = DbUser::from_backend_user(some_user("0123456789ab", "ann", "abc1234"));
    match Reply::from_user_lookup::<String>(Ok(Some(stored))) {
        Reply::User(Some(user)) => assert_eq!(user.username, "ann"),
        other => panic!("the reply was {:?}", other),
    }
    assert!(matches!(Reply::from_user_lookup::<String>(Ok(None)), Reply::User(None)));
    assert!(matches!(
        Reply::from_user_lookup(Err("connection lost".to_string())),
        Reply::User(None)
    ));

    let owner = UserId::from_str("0123456789ab").unwrap();
    let storage = TodoStorage::new(owner, Todo::from_tasks(vec!["buy milk".to_string()]));
    match Reply::from_todo_lookup::<String>(Ok(Some(storage))) {
        Reply::Todo(Some(todo)) => assert_eq!(todo.into_tasks(), vec!["buy milk".to_string()]),
        other => panic!("the reply was {:?}", other),
    }
    assert!(matches!(Reply::from_todo_lookup::<String>(Ok(None)), Reply::Todo(None)));
    assert!(matches!(
        Reply::from_todo_lookup(Err("connection lost".to_string())),
        Reply::Todo(None)
    ));
}

#[test]
fn writes_are_reported_as_done_or_failed() {
    assert!(matches!(Reply::from_write::<u32, String>(Ok(1)), Reply::Written(true)));
    assert!(matches!(
        Reply::from_write::<u32, String>(Err("connection lost".to_string())),
        Reply::Written(false)
    ));
}

#[test]
fn store_address_defaults_to_the_local_one() {
    assert_eq!(MONGO_URL_DEFAULT, "mongodb://localhost:27017");
    assert_eq!(connection_url(None), "mongodb://localhost:27017");
    assert_eq!(
        connection_url(Some("mongodb://db.example.org:27017".to_string())),
        "mongodb://db.example.org:27017"
    );
    assert_eq!(connection_url(Some(String::new())), "");
}
