use evilcon_sim::deck::{Deck, CardId, DECK_SIZE};
use evilcon_sim::codex::{CodexDataFile, CodexEntry, Rarity};
use evilcon_sim::validator::{DeckValidator, DeckValidityError};
use evilcon_sim::runner::{ValidationResult, classify_validation, validate_user_deck};
use evilcon_sim::game::{CardGameEnv, GameWinner};
use evilcon_sim::code::{serialize_game_code, deserialize_game_code, DeserializeError};

#[test]
fn test_deck_from_str() {
    let deck: Deck = "1, 2, 3, 4, 5".parse().unwrap();
    assert_eq!(deck.0, vec![CardId(1), CardId(2), CardId(3), CardId(4), CardId(5)]);
}

#[test]
fn test_deck_from_str_empty() {
    let deck: Deck = "".parse().unwrap();
    assert!(deck.is_empty(), "Deck {:?} is not empty", deck);
}

#[test]
fn test_deck_from_str_invalid() {
    "a".parse::<Deck>().unwrap_err();
}

#[test]
fn test_deck_from_str_messy_whitespace() {
    let deck: Deck = "  7 ,, 8 ,9  ".parse().unwrap();
    assert_eq!(deck.0, vec![CardId(7), CardId(8), CardId(9)]);
    assert_eq!(deck.len(), 3);
}

#[test]
fn test_deck_to_text() {
    let deck = Deck(vec![CardId(1), CardId(-2), CardId(30)]);
    assert_eq!(deck.to_text(), "1, -2, 30");
    assert_eq!(Deck(Vec::new()).to_text(), "");
}

fn entry(id: i64, name: &str, limited: bool, rarity: Rarity) -> CodexEntry {
    CodexEntry {
        id,
        name: String::from(name),
        path: format!("res://card_game/playing_card/cards/card_{id}.gd"),
        limited,
        rarity,
    }
}

fn sample_validator() -> DeckValidator {
    let codex = CodexDataFile {
        max_id: 3,
        cards: vec![
            entry(0, "Tiny Imp", false, Rarity::Common),
            entry(1, "Grand Golem", false, Rarity::UltraRare),
            entry(2, "Sealed Relic", true, Rarity::Rare),
            entry(3, "Street Busker", false, Rarity::Uncommon),
        ],
    };
    DeckValidator::new(codex)
}

#[test]
fn test_four_copies_is_one_critical_error() {
    let validator = sample_validator();
    let deck = vec![CardId(0), CardId(0), CardId(0), CardId(0), CardId(3)];
    let errors = validator.validate_deck(&deck);
    assert_eq!(errors.len(), 1);
    assert!(matches!(errors[0], DeckValidityError::MoreThanThreeCopies(_)));
    assert!(errors[0].is_critical());
}

#[test]
fn test_duplicate_limited_is_one_critical_error() {
    let validator = sample_validator();
    let deck = vec![CardId(2), CardId(2), CardId(0)];
    let errors = validator.validate_deck(&deck);
    assert_eq!(errors.len(), 1);
    assert!(matches!(errors[0], DeckValidityError::DuplicateLimited(_)));
    assert!(errors[0].is_critical());
}

#[test]
fn test_duplicate_ultra_rare_is_one_warning() {
    let validator = sample_validator();
    let deck = vec![CardId(1), CardId(1), CardId(0)];
    let errors = validator.validate_deck(&deck);
    assert_eq!(errors.len(), 1);
    assert!(matches!(errors[0], DeckValidityError::DuplicateUltraRare(_)));
    assert!(!errors[0].is_critical());
    // The deck stays legal overall: only a warning.
    assert_eq!(classify_validation(&errors), ValidationResult::Warn);
}

#[test]
fn test_three_copies_is_fine() {
    let validator = sample_validator();
    let deck = vec![CardId(0), CardId(0), CardId(0)];
    let errors = validator.validate_deck(&deck);
    assert!(errors.is_empty());
    assert_eq!(classify_validation(&errors), ValidationResult::Valid);
}

#[test]
fn test_unknown_card_is_passed_over() {
    let validator = sample_validator();
    let deck = vec![CardId(99), CardId(99), CardId(99), CardId(99)];
    let errors = validator.validate_deck(&deck);
    assert!(errors.is_empty());
}

#[test]
fn test_validate_user_deck_outcomes() {
    let validator = sample_validator();
    assert_eq!(
        validate_user_deck(&validator, &Deck(vec![CardId(0), CardId(3)])),
        ValidationResult::Valid,
    );
    assert_eq!(
        validate_user_deck(&validator, &Deck(vec![CardId(2), CardId(2)])),
        ValidationResult::CriticalError,
    );
    assert_eq!(ValidationResult::Valid.to_status_code(), 0);
    assert_eq!(ValidationResult::Warn.to_status_code(), 1);
    assert_eq!(ValidationResult::CriticalError.to_status_code(), 2);
}

#[test]
fn test_pretty_to_string() {
    let validator = sample_validator();
    let deck = vec![CardId(0), CardId(42), CardId(2)];
    assert_eq!(validator.pretty_to_string(&deck), "0 (Tiny Imp), 42 (???), 2 (Sealed Relic)");
}

#[test]
fn test_roundtrip_game_code() {
    let example_seed = 123456u64;
    let bottom_deck = Deck((0..20).map(CardId).collect());
    let top_deck = Deck((51..71).map(CardId).collect());
    let input_env = CardGameEnv { bottom_deck, top_deck };
    let b64_str = serialize_game_code(example_seed, &input_env).unwrap();
    let (out_seed, out_env) = deserialize_game_code(&b64_str).unwrap();
    assert_eq!(example_seed, out_seed);
    assert_eq!(input_env, out_env);
}

#[test]
fn test_game_code_matches_layout() {
    // The code is the standard base64 encoding of the packed bytes:
    // version zero, the seed big-endian, then both decks one byte each.
    let seed = 0x0102030405060708u64;
    let bottom_deck = Deck((0..DECK_SIZE as i64).map(CardId).collect());
    let top_deck = Deck((100..100 + DECK_SIZE as i64).map(CardId).collect());
    let env = CardGameEnv { bottom_deck, top_deck };
    let code = serialize_game_code(seed, &env).unwrap();
    let mut bytes = vec![0u8];
    bytes.extend(seed.to_be_bytes());
    bytes.extend((0..DECK_SIZE as i64).map(|x| x as u8));
    bytes.extend((100..100 + DECK_SIZE as i64).map(|x| x as u8));
    assert_eq!(code, base64::Engine::encode(&base64::prelude::BASE64_STANDARD, &bytes));
}

#[test]
fn test_serialize_rejects_bad_deck_size() {
    let env = CardGameEnv {
        bottom_deck: Deck(vec![CardId(1)]),
        top_deck: Deck((0..20).map(CardId).collect()),
    };
    assert!(serialize_game_code(1, &env).is_err());
}

#[test]
fn test_deserialize_error_variants() {
    assert!(matches!(
        deserialize_game_code("!!!not-base64!!!"),
        Err(DeserializeError::Base64DecodeError(_)),
    ));
    let short = base64::Engine::encode(&base64::prelude::BASE64_STANDARD, [0u8; 10]);
    assert!(matches!(deserialize_game_code(&short), Err(DeserializeError::BadInputLength)));
    let mut bytes = [0u8; 49];
    bytes[0] = 7;
    let bad_version = base64::Engine::encode(&base64::prelude::BASE64_STANDARD, bytes);
    assert!(matches!(
        deserialize_game_code(&bad_version),
        Err(DeserializeError::InvalidVersionByte),
    ));
}

#[test]
fn test_game_winner_text() {
    assert_eq!(GameWinner::Bottom.as_text(), "BOTTOM");
    assert_eq!(GameWinner::Top.as_text(), "TOP");
}
