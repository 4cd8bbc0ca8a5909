use todo_backend::session_token::SessionToken;
use todo_backend::session_token::SESSION_TOKEN_LEN;

#[test]
fn new_token_has_thirty_two_symbols() {
    assert_eq!(SESSION_TOKEN_LEN, 32);
    for _ in 0..50 {
        let text = SessionToken::new().to_string();
        assert_eq!(text.chars().count(), 32);
        assert!(text.chars().all(|c| "0123456789abcdef".contains(c)));
    }
}

#[test]
fn new_tokens_differ() {
    let first = SessionToken::new();
    let others: Vec<SessionToken> = (0..8).map(|_| SessionToken::new()).collect();
    assert!(others.iter().all(|token| *token != first));
}

#[test]
fn token_text_is_read_back() {
    for _ in 0..50 {
        let token = SessionToken::new();
        assert_eq!(SessionToken::from_str(&token.to_string()), Ok(token));
    }
}

#[test]
fn read_token_writes_the_same_text() {
    let text = "0123456789abcdef0123456789abcdef";
    let token = SessionToken::from_str(text).unwrap();
    assert_eq!(token.to_string(), text);
}

#[test]
fn token_of_another_length_is_refused() {
    assert_eq!(SessionToken::from_str(""), Err("Could not deserialize SessionToken"));
    assert_eq!(
        SessionToken::from_str("0123456789abcdef0123456789abcde"),
        Err("Could not deserialize SessionToken")
    );
    assert_eq!(
        SessionToken::from_str("0123456789abcdef0123456789abcdef0"),
        Err("Could not deserialize SessionToken")
    );
}

#[test]
fn token_with_other_characters_is_refused() {
    assert_eq!(
        SessionToken::from_str("0123456789abcdef0123456789abcdeg"),
        Err("Invalid character")
    );
    assert_eq!(
        SessionToken::from_str("0123456789ABCDEF0123456789abcdef"),
        Err("Invalid character")
    );
    assert_eq!(
        SessionToken::from_str("0123456789abcdef 123456789abcdef"),
        Err("Invalid character")
    );
}
