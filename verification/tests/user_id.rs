use std::cmp::Ordering;
use todo_backend::hex::symbol_of;
use todo_backend::hex::value_of;
use todo_backend::user_id::UserId;
use todo_backend::user_id::USER_ID_LEN;

#[test]
fn new_id_has_twelve_symbols() {
    assert_eq!(USER_ID_LEN, 12);
    for _ in 0..50 {
        let text = UserId::new().to_string();
        assert_eq!(text.chars().count(), 12);
        assert!(text.chars().all(|c| "0123456789abcdef".contains(c)));
    }
}

#[test]
fn new_ids_are_drawn_from_the_whole_alphabet() {
    let mut seen = [false; 16];
    for _ in 0..200 {
        for c in UserId::new().to_string().chars() {
            seen[value_of(c).unwrap() as usize] = true;
        }
    }
    assert!(seen.iter().all(|s| *s));
}

#[test]
fn new_ids_differ() {
    let first = UserId::new();
    let others: Vec<UserId> = (0..8).map(|_| UserId::new()).collect();
    assert!(others.iter().any(|id| *id != first));
}

#[test]
fn id_text_is_read_back() {
    for _ in 0..50 {
        let id = UserId::new();
        assert_eq!(UserId::from_str(&id.to_string()), Ok(id));
    }
}

#[test]
fn id_is_read_in_either_case() {
    let lower = UserId::from_str("0123abcdef89").unwrap();
    let upper = UserId::from_str("0123ABCDEF89").unwrap();
    let mixed = UserId::from_str("0123aBcDeF89").unwrap();
    assert_eq!(lower, upper);
    assert_eq!(lower, mixed);
    assert_eq!(upper.to_string(), "0123abcdef89");
    assert_eq!(lower.to_string(), "0123abcdef89");
}

#[test]
fn id_of_another_length_is_refused() {
    assert_eq!(UserId::from_str(""), Err("Could not deserialize UserId"));
    assert_eq!(UserId::from_str("0123456789a"), Err("Could not deserialize UserId"));
    assert_eq!(UserId::from_str("0123456789abc"), Err("Could not deserialize UserId"));
    assert_eq!(UserId::from_str("0123456789abcdef"), Err("Could not deserialize UserId"));
}

#[test]
fn id_of_another_length_is_refused_before_its_characters() {
    assert_eq!(UserId::from_str("xyz"), Err("Could not deserialize UserId"));
    assert_eq!(UserId::from_str("0123456789abcdefg"), Err("Could not deserialize UserId"));
}

#[test]
fn id_with_other_characters_is_refused() {
    assert_eq!(UserId::from_str("0123456789ag"), Err("Invalid character"));
    assert_eq!(UserId::from_str("g123456789ab"), Err("Invalid character"));
    assert_eq!(UserId::from_str("01234 6789ab"), Err("Invalid character"));
    assert_eq!(UserId::from_str("0123456789a-"), Err("Invalid character"));
    assert_eq!(UserId::from_str("0123456789aG"), Err("Invalid character"));
}

#[test]
fn id_with_characters_of_several_bytes_is_refused() {
    // Twelve bytes in ten characters.
    assert_eq!(UserId::from_str("01234567\u{e9}\u{e9}"), Err("Invalid character"));
    // Twelve characters in thirteen bytes.
    assert_eq!(UserId::from_str("0123456789a\u{e9}"), Err("Could not deserialize UserId"));
}

#[test]
fn ids_are_equal_when_their_symbols_are() {
    let a = UserId::from_str("00000000000a").unwrap();
    let b = UserId::from_str("00000000000A").unwrap();
    let c = UserId::from_str("00000000000b").unwrap();
    assert!(a == b);
    assert!(a != c);
    assert_eq!(a.partial_cmp(&b), Some(Ordering::Equal));
}

#[test]
fn ids_are_ordered_as_their_texts() {
    let texts = ["000000000000", "00000000000a", "0000000000a0", "09ffffffffff", "a00000000000", "ffffffffffff"];
    for i in 0..texts.len() {
        for j in 0..texts.len() {
            let a = UserId::from_str(texts[i]).unwrap();
            let b = UserId::from_str(texts[j]).unwrap();
            assert_eq!(a.partial_cmp(&b), Some(texts[i].cmp(texts[j])));
            assert_eq!(a.cmp(&b), texts[i].cmp(texts[j]));
            assert_eq!(a < b, i < j);
            assert_eq!(a == b, i == j);
        }
    }
}

#[test]
fn symbols_and_values_correspond() {
    let alphabet: Vec<char> = "0123456789abcdef".chars().collect();
    for v in 0u8..16 {
        assert_eq!(symbol_of(v), alphabet[v as usize]);
        assert_eq!(value_of(alphabet[v as usize]), Some(v));
    }
    assert_eq!(symbol_of(16), '0');
    assert_eq!(symbol_of(0x1a), 'a');
    assert_eq!(symbol_of(255), 'f');
    assert_eq!(value_of('A'), Some(10));
    assert_eq!(value_of('F'), Some(15));
    assert_eq!(value_of('g'), None);
    assert_eq!(value_of('G'), None);
    assert_eq!(value_of('/'), None);
    assert_eq!(value_of(':'), None);
    assert_eq!(value_of('@'), None);
    assert_eq!(value_of('`'), None);
}

#[test]
fn reading_agrees_with_lowering_the_text_first() {
    let samples = [
        "", "0", "000000000000", "ABCDEF abcde", "abcdefabcdef", "ABCDEFABCDEF", "aBcDeF012345",
        "0123456789ab", "0123456789aB", "0123456789ag", "0123456789aG", "g00000000000",
        "00000000000", "0000000000000", "zzzzzzzzzzzz", "ZZZZZZZZZZZZ", "0123-4567-89",
        "+123456789ab", "0x123456789a", "012345678 9a", " 0123456789a",
    ];
    for sample in samples {
        let lowered = sample.to_lowercase();
        let expected = if lowered.len() != 12 {
            Err("Could not deserialize UserId")
        } else if lowered.chars().all(|c| "0123456789abcdef".contains(c)) {
            Ok(lowered.clone())
        } else {
            Err("Invalid character")
        };
        assert_eq!(UserId::from_str(sample).map(|id| id.to_string()), expected);
    }
}
