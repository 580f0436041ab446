use std::collections::hash_map::DefaultHasher;
use std::hash::{Hash, Hasher};

use ibc::identifier::validate_client_type;
use ibc::{ClientType, IdentifierError};
use parity_scale_codec::{Decode, Encode};

fn hash_of(c: &ClientType) -> u64 {
    let mut h = DefaultHasher::new();
    c.hash(&mut h);
    h.finish()
}

#[test]
fn checked_trims_surrounding_whitespace() {
    let c = ClientType::new(" 07-tendermint ".to_string()).unwrap();
    assert_eq!(c.as_str(), "07-tendermint");
}

#[test]
fn checked_trims_unicode_whitespace() {
    let c = ClientType::new("\u{3000}\t06-solomachine\n\u{a0}".to_string()).unwrap();
    assert_eq!(c.as_str(), "06-solomachine");
}

#[test]
fn checked_rejects_empty() {
    assert_eq!(ClientType::new(String::new()), Err(IdentifierError::Empty));
}

#[test]
fn checked_rejects_whitespace_only() {
    assert_eq!(ClientType::new("  \t\n ".to_string()), Err(IdentifierError::Empty));
}

#[test]
fn checked_rejects_separator() {
    assert_eq!(
        ClientType::new("07-tender/mint".to_string()),
        Err(IdentifierError::ContainSeparator { id: "07-tender/mint".to_string() })
    );
}

#[test]
fn checked_rejects_invalid_character() {
    assert_eq!(
        ClientType::new(" not a valid id!! ".to_string()),
        Err(IdentifierError::InvalidCharacter { id: "not a valid id!!".to_string() })
    );
}

#[test]
fn checked_rejects_short_text() {
    assert_eq!(
        ClientType::new("07-tm".to_string()),
        Err(IdentifierError::InvalidLength { id: "07-tm".to_string(), length: 5, min: 7, max: 43 })
    );
}

#[test]
fn checked_rejects_long_text() {
    let long = "a".repeat(44);
    assert_eq!(
        ClientType::new(long.clone()),
        Err(IdentifierError::InvalidLength { id: long, length: 44, min: 7, max: 43 })
    );
}

#[test]
fn checked_accepts_length_bounds() {
    assert_eq!(ClientType::new("abcdefg".to_string()).unwrap().as_str(), "abcdefg");
    let longest = "b".repeat(43);
    assert_eq!(ClientType::new(longest.clone()).unwrap().as_str(), longest);
}

#[test]
fn checked_counts_length_in_bytes() {
    // four characters, eight bytes
    assert_eq!(ClientType::new("éééé".to_string()).unwrap().as_str(), "éééé");
    assert_eq!(
        ClientType::new("ééé".to_string()),
        Err(IdentifierError::InvalidLength { id: "ééé".to_string(), length: 6, min: 7, max: 43 })
    );
}

#[test]
fn checked_accepts_special_characters() {
    let c = ClientType::new("a._+-#[]<>".to_string()).unwrap();
    assert_eq!(c.as_str(), "a._+-#[]<>");
}

#[test]
fn validator_reports_same_as_checked() {
    assert_eq!(validate_client_type("07-tendermint"), Ok(()));
    assert_eq!(validate_client_type(""), Err(IdentifierError::Empty));
    assert_eq!(
        validate_client_type(" 07-tendermint"),
        Err(IdentifierError::InvalidCharacter { id: " 07-tendermint".to_string() })
    );
}

#[test]
fn unchecked_keeps_text_as_given() {
    let c = ClientType::from("not a valid id!!".to_string());
    assert_eq!(c.as_str(), "not a valid id!!");
    let padded = ClientType::from(" 07-tendermint ".to_string());
    assert_eq!(padded.as_str(), " 07-tendermint ");
    assert_eq!(ClientType::from(String::new()).as_str(), "");
}

#[test]
fn display_of_checked_value() {
    let c = ClientType::new("06-solomachine".to_string()).unwrap();
    assert_eq!(c.to_string(), "ClientType(06-solomachine)");
}

#[test]
fn display_of_unchecked_value() {
    assert_eq!(ClientType::from(" x y ".to_string()).to_string(), "ClientType( x y )");
    assert_eq!(ClientType::from(String::new()).to_string(), "ClientType()");
}

#[test]
fn equality_follows_text() {
    let a = ClientType::new(" 07-tendermint".to_string()).unwrap();
    let b = ClientType::from("07-tendermint".to_string());
    let c = ClientType::from("07-tendermint ".to_string());
    assert_eq!(a, a);
    assert_eq!(a, b);
    assert_eq!(b, a);
    assert_ne!(a, c);
}

#[test]
fn equal_values_hash_equal() {
    let a = ClientType::new("07-tendermint".to_string()).unwrap();
    let b = ClientType::from("07-tendermint".to_string());
    assert_eq!(hash_of(&a), hash_of(&b));
}

#[test]
fn a_orders_before_b() {
    let a = ClientType::from("a".to_string());
    let b = ClientType::from("b".to_string());
    assert!(a < b);
    assert!(b > a);
    assert_eq!(a.partial_cmp(&b), Some(std::cmp::Ordering::Less));
    assert_eq!(a.cmp(&b), std::cmp::Ordering::Less);
}

#[test]
fn prefix_orders_first() {
    let short = ClientType::from("07".to_string());
    let long = ClientType::from("07-tendermint".to_string());
    assert!(short < long);
    assert_eq!(long.partial_cmp(&long.clone()), Some(std::cmp::Ordering::Equal));
}

#[test]
fn sorting_values_sorts_texts() {
    let texts = vec!["b", "07-tendermint", "06-solomachine", "é", "z", "", "ab", "a"];
    let mut values: Vec<ClientType> = texts.iter().map(|t| ClientType::from(t.to_string())).collect();
    let mut by_partial = values.clone();
    values.sort();
    by_partial.sort_by(|x, y| x.partial_cmp(y).unwrap());
    let mut sorted_texts = texts.clone();
    sorted_texts.sort();
    let got: Vec<&str> = values.iter().map(|c| c.as_str()).collect();
    let got_partial: Vec<&str> = by_partial.iter().map(|c| c.as_str()).collect();
    assert_eq!(got, sorted_texts);
    assert_eq!(got_partial, sorted_texts);
}

#[test]
fn text_round_trips_through_borsh() {
    let c = ClientType::new("07-tendermint".to_string()).unwrap();
    let bytes = borsh::to_vec(&c.as_str().to_string()).unwrap();
    let back: String = borsh::from_slice(&bytes).unwrap();
    assert_eq!(ClientType::from(back), c);
}

#[test]
fn text_round_trips_through_scale() {
    let c = ClientType::from(" unchecked text ".to_string());
    let bytes = c.as_str().to_string().encode();
    let back = String::decode(&mut &bytes[..]).unwrap();
    assert_eq!(ClientType::from(back).as_str(), " unchecked text ");
}
