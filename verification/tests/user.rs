use todo_backend::password::HashedPassword;
use todo_backend::session_token::SessionToken;
use todo_backend::user::BackendUserMe;
use todo_backend::user::DbUser;
use todo_backend::user::UserAuth;
use todo_backend::user_id::UserId;

#[test]
fn new_user_keeps_name_and_hashes_password() {
    let user = BackendUserMe::new("ann".to_string(), "abc1234".to_string());
    assert_eq!(user.username, "ann");
    assert!(user.password.matches("abc1234"));
    assert_eq!(user.password, HashedPassword::new("abc1234".to_string()));
    assert_eq!(user.email, None);
    assert_eq!(user.id.to_string().len(), 12);
}

#[test]
fn new_user_with_given_id() {
    let id = UserId::from_str("0123456789ab").unwrap();
    let user = BackendUserMe::with_id(id, "ann".to_string(), "abc1234".to_string());
    assert_eq!(user.id, id);
    assert_eq!(user.username, "ann");
    assert!(user.password.matches("abc1234"));
    assert_eq!(user.email, None);
}

#[test]
fn new_id_changes_nothing_else() {
    let mut user = BackendUserMe::new("ann".to_string(), "abc1234".to_string());
    user.email = Some("ann@example.org".to_string());
    let mut changed = false;
    for _ in 0..8 {
        let before = user.id;
        user.gen_new_id();
        changed = changed || user.id != before;
        assert_eq!(user.id.to_string().len(), 12);
        assert_eq!(user.username, "ann");
        assert!(user.password.matches("abc1234"));
        assert_eq!(user.email, Some("ann@example.org".to_string()));
    }
    assert!(changed);
}

#[test]
fn stored_user_starts_without_tokens() {
    let mut user = BackendUserMe::new("ann".to_string(), "abc1234".to_string());
    user.email = Some("ann@example.org".to_string());
    let id = user.id;
    let stored = DbUser::from_backend_user(user);
    assert_eq!(stored.id, id);
    assert_eq!(stored.username, "ann");
    assert!(stored.password.matches("abc1234"));
    assert_eq!(stored.email, Some("ann@example.org".to_string()));
    assert!(stored.session_tokens.is_empty());
}

#[test]
fn stored_user_gives_the_user_back() {
    let id = UserId::from_str("0123456789ab").unwrap();
    let stored = DbUser {
        id,
        username: "ann".to_string(),
        password: HashedPassword::new("abc1234".to_string()),
        email: None,
        session_tokens: vec![SessionToken::new(), SessionToken::new()],
    };
    let user = stored.to_backend_user();
    assert_eq!(user.id, id);
    assert_eq!(user.username, "ann");
    assert!(user.password.matches("abc1234"));
    assert_eq!(user.email, None);
}

#[test]
fn credentials_hold_name_and_password() {
    let auth = UserAuth { username: "ann".to_string(), password: "abc1234".to_string() };
    assert_eq!(auth.username, "ann");
    assert_eq!(auth.password, "abc1234");
}
