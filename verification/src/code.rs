//! Game codes: a match is reproducible from its random seed and the two
//! decks, and those are packed into a compact binary form and carried as
//! base64 text for easy logging and replay.

use vstd::prelude::*;
use crate::deck::{Deck, CardId, DECK_SIZE};
use crate::game::CardGameEnv;

verus! {

/// The error on serializing a game code.
#[derive(Debug, Clone)]
pub enum SerializeError {
    BadDeckSize,
}

/// Base64's decode error, carried through unchanged.
#[verifier::external_type_specification]
#[verifier::external_body]
pub struct ExDecodeError(base64::DecodeError);

/// The error on reading a game code back.
#[derive(Debug)]
pub enum DeserializeError {
    Base64DecodeError(base64::DecodeError),
    InvalidVersionByte,
    BadInputLength,
}

/// What the standard base64 alphabet encodes `bytes` as.
pub uninterp spec fn b64_encoding(bytes: Seq<u8>) -> Seq<char>;

/// What standard base64 decoding makes of `s`: `None` when `s` is not a
/// canonical base64 string.
pub uninterp spec fn b64_decoding(s: Seq<char>) -> Option<Seq<u8>>;

/// Relies on base64's `Engine::encode` with the `BASE64_STANDARD` engine:
/// the result depends on the bytes alone, and `Engine::decode` with the
/// same engine inverts it, as the crate documents.
#[verifier::external_body]
fn b64_encode(bytes: &Vec<u8>) -> (r: String)
    ensures
        r@ == b64_encoding(bytes@),
        b64_decoding(r@) == Some(bytes@),
{
    base64::Engine::encode(&base64::prelude::BASE64_STANDARD, bytes)
}

/// Relies on base64's `Engine::decode` with the `BASE64_STANDARD` engine:
/// the result depends on the string alone.
#[verifier::external_body]
fn b64_decode(s: &str) -> (r: Result<Vec<u8>, base64::DecodeError>)
    ensures
        match r {
            Ok(b) => b64_decoding(s@) == Some(b@),
            Err(_) => b64_decoding(s@) is None,
        },
{
    base64::Engine::decode(&base64::prelude::BASE64_STANDARD, s)
}

/// The big-endian bytes of a 64-bit integer.
pub open spec fn u64_be_bytes(n: u64) -> Seq<u8> {
    seq![
        ((n >> 56) & 0xff) as u8,
        ((n >> 48) & 0xff) as u8,
        ((n >> 40) & 0xff) as u8,
        ((n >> 32) & 0xff) as u8,
        ((n >> 24) & 0xff) as u8,
        ((n >> 16) & 0xff) as u8,
        ((n >> 8) & 0xff) as u8,
        (n & 0xff) as u8,
    ]
}

/// The 64-bit integer read out of eight big-endian bytes.
pub open spec fn u64_of_be(b: Seq<u8>) -> u64
    recommends
        b.len() == 8,
{
    (((b[0] as u64) << 56) | ((b[1] as u64) << 48) | ((b[2] as u64) << 40) | ((b[3] as u64) << 32)
        | ((b[4] as u64) << 24) | ((b[5] as u64) << 16) | ((b[6] as u64) << 8) | (b[7] as u64)) as u64
}

/// Reading back the big-endian bytes of `n` gives `n`.
pub proof fn lemma_be_roundtrip(n: u64)
    ensures
        u64_of_be(u64_be_bytes(n)) == n,
{
    let b = u64_be_bytes(n);
    assert((n >> 56) & 0xff < 256 && (n >> 48) & 0xff < 256 && (n >> 40) & 0xff < 256 && (n >> 32)
        & 0xff < 256 && (n >> 24) & 0xff < 256 && (n >> 16) & 0xff < 256 && (n >> 8) & 0xff < 256
        && n & 0xff < 256) by (bit_vector);
    assert(b[0] as u64 == (n >> 56) & 0xff);
    assert(b[1] as u64 == (n >> 48) & 0xff);
    assert(b[2] as u64 == (n >> 40) & 0xff);
    assert(b[3] as u64 == (n >> 32) & 0xff);
    assert(b[4] as u64 == (n >> 24) & 0xff);
    assert(b[5] as u64 == (n >> 16) & 0xff);
    assert(b[6] as u64 == (n >> 8) & 0xff);
    assert(b[7] as u64 == n & 0xff);
    assert(((((n >> 56) & 0xff) << 56) | (((n >> 48) & 0xff) << 48) | (((n >> 40) & 0xff) << 40)
        | (((n >> 32) & 0xff) << 32) | (((n >> 24) & 0xff) << 24) | (((n >> 16) & 0xff) << 16)
        | (((n >> 8) & 0xff) << 8) | (n & 0xff)) == n) by (bit_vector);
}

/// Writing back the integer read out of eight bytes gives those bytes.
pub proof fn lemma_be_bytes_inverse(b: Seq<u8>)
    requires
        b.len() == 8,
    ensures
        u64_be_bytes(u64_of_be(b)) =~= b,
{
    let x0 = b[0] as u64;
    let x1 = b[1] as u64;
    let x2 = b[2] as u64;
    let x3 = b[3] as u64;
    let x4 = b[4] as u64;
    let x5 = b[5] as u64;
    let x6 = b[6] as u64;
    let x7 = b[7] as u64;
    let n = u64_of_be(b);
    assert(n == ((x0 << 56) | (x1 << 48) | (x2 << 40) | (x3 << 32) | (x4 << 24) | (x5 << 16) | (
    x6 << 8) | x7) as u64);
    assert(((((x0 << 56) | (x1 << 48) | (x2 << 40) | (x3 << 32) | (x4 << 24) | (x5 << 16) | (x6
        << 8) | x7) >> 56) & 0xff) == x0 && ((((x0 << 56) | (x1 << 48) | (x2 << 40) | (x3 << 32) | (
    x4 << 24) | (x5 << 16) | (x6 << 8) | x7) >> 48) & 0xff) == x1 && ((((x0 << 56) | (x1 << 48) | (
    x2 << 40) | (x3 << 32) | (x4 << 24) | (x5 << 16) | (x6 << 8) | x7) >> 40) & 0xff) == x2 && ((((
    x0 << 56) | (x1 << 48) | (x2 << 40) | (x3 << 32) | (x4 << 24) | (x5 << 16) | (x6 << 8) | x7)
        >> 32) & 0xff) == x3 && ((((x0 << 56) | (x1 << 48) | (x2 << 40) | (x3 << 32) | (x4 << 24) | (
    x5 << 16) | (x6 << 8) | x7) >> 24) & 0xff) == x4 && ((((x0 << 56) | (x1 << 48) | (x2 << 40) | (
    x3 << 32) | (x4 << 24) | (x5 << 16) | (x6 << 8) | x7) >> 16) & 0xff) == x5 && ((((x0 << 56) | (
    x1 << 48) | (x2 << 40) | (x3 << 32) | (x4 << 24) | (x5 << 16) | (x6 << 8) | x7) >> 8) & 0xff)
        == x6 && (((x0 << 56) | (x1 << 48) | (x2 << 40) | (x3 << 32) | (x4 << 24) | (x5 << 16) | (x6
        << 8) | x7) & 0xff) == x7) by (bit_vector)
        requires
            x0 < 256 && x1 < 256 && x2 < 256 && x3 < 256 && x4 < 256 && x5 < 256 && x6 < 256 && x7
                < 256,
    ;
}

/// The packed binary form of a game: a zero version byte, the seed in
/// big-endian order, then the two decks' card IDs, one byte each.
pub open spec fn game_code_bytes(seed: u64, bottom: Seq<i64>, top: Seq<i64>) -> Seq<u8> {
    seq![0u8] + u64_be_bytes(seed) + bottom.map_values(|x: i64| x as u8) + top.map_values(
        |x: i64| x as u8,
    )
}

/// Whether every card ID of `ids` fits in one byte.
pub open spec fn ids_fit_in_byte(ids: Seq<i64>) -> bool {
    forall|i: int| 0 <= i < ids.len() ==> 0 <= #[trigger] ids[i] <= 255
}

/// Appends the big-endian bytes of `seed`.
fn push_be_bytes(bytes: &mut Vec<u8>, seed: u64)
    ensures
        final(bytes)@ == old(bytes)@ + u64_be_bytes(seed),
{
    bytes.push(((seed >> 56) & 0xff) as u8);
    bytes.push(((seed >> 48) & 0xff) as u8);
    bytes.push(((seed >> 40) & 0xff) as u8);
    bytes.push(((seed >> 32) & 0xff) as u8);
    bytes.push(((seed >> 24) & 0xff) as u8);
    bytes.push(((seed >> 16) & 0xff) as u8);
    bytes.push(((seed >> 8) & 0xff) as u8);
    bytes.push((seed & 0xff) as u8);
    proof {
        assert(bytes@ =~= old(bytes)@ + u64_be_bytes(seed));
    }
}

/// Appends each card ID of `deck` as one byte.
fn push_deck_bytes(bytes: &mut Vec<u8>, deck: &Deck)
    requires
        ids_fit_in_byte(deck@),
    ensures
        final(bytes)@ == old(bytes)@ + deck@.map_values(|x: i64| x as u8),
{
    let mut i: usize = 0;
    while i < deck.0.len()
        invariant
            i <= deck.0@.len(),
            deck@.len() == deck.0@.len(),
            ids_fit_in_byte(deck@),
            bytes@ == old(bytes)@ + deck@.subrange(0, i as int).map_values(|x: i64| x as u8),
        decreases deck.0@.len() - i,
    {
        proof {
            assert(deck@[i as int] == deck.0@[i as int].0);
        }
        bytes.push(deck.0[i].0 as u8);
        proof {
            assert(deck@.subrange(0, i + 1 as int).map_values(|x: i64| x as u8) =~= deck@.subrange(
                0,
                i as int,
            ).map_values(|x: i64| x as u8).push(deck@[i as int] as u8));
            assert(bytes@ =~= old(bytes)@ + deck@.subrange(0, i + 1 as int).map_values(
                |x: i64| x as u8,
            ));
        }
        i = i + 1;
    }
    proof {
        assert(deck@.subrange(0, deck@.len() as int) =~= deck@);
    }
}

/// Packs a seed and the two decks into a base64 game code. Both decks
/// must hold exactly [`DECK_SIZE`] cards; the caller must keep every card
/// ID within one byte.
pub fn serialize_game_code(seed: u64, env: &CardGameEnv) -> (r: Result<String, SerializeError>)
    requires
        ids_fit_in_byte(env.bottom_deck@),
        ids_fit_in_byte(env.top_deck@),
    ensures
        r matches Ok(s) ==> {
            &&& env.bottom_deck@.len() == DECK_SIZE
            &&& env.top_deck@.len() == DECK_SIZE
            &&& s@ == b64_encoding(game_code_bytes(seed, env.bottom_deck@, env.top_deck@))
            &&& b64_decoding(s@) == Some(game_code_bytes(seed, env.bottom_deck@, env.top_deck@))
        },
        r is Err <==> !(env.bottom_deck@.len() == DECK_SIZE && env.top_deck@.len() == DECK_SIZE),
        r is Err ==> r == Err::<String, SerializeError>(SerializeError::BadDeckSize),
{
    if env.bottom_deck.len() != DECK_SIZE || env.top_deck.len() != DECK_SIZE {
        return Err(SerializeError::BadDeckSize);
    }
    let mut bytes: Vec<u8> = Vec::with_capacity(49);
    bytes.push(0u8);
    push_be_bytes(&mut bytes, seed);
    push_deck_bytes(&mut bytes, &env.bottom_deck);
    push_deck_bytes(&mut bytes, &env.top_deck);
    proof {
        assert(bytes@ =~= game_code_bytes(seed, env.bottom_deck@, env.top_deck@));
    }
    Ok(b64_encode(&bytes))
}

/// Reads a game code back into its seed and decks.
pub fn deserialize_game_code(s: &str) -> (r: Result<(u64, CardGameEnv), DeserializeError>)
    ensures
        b64_decoding(s@) is None ==> r matches Err(DeserializeError::Base64DecodeError(_)),
        b64_decoding(s@) matches Some(bytes) ==> {
            &&& (bytes.len() != 49 ==> r matches Err(DeserializeError::BadInputLength))
            &&& (bytes.len() == 49 && bytes[0] != 0 ==> r matches Err(
                DeserializeError::InvalidVersionByte,
            ))
            &&& (bytes.len() == 49 && bytes[0] == 0 ==> (r matches Ok(p) && p.0 == u64_of_be(
                bytes.subrange(1, 9),
            ) && p.1.bottom_deck@ == bytes.subrange(9, 29).map_values(|x: u8| x as i64)
                && p.1.top_deck@ == bytes.subrange(29, 49).map_values(|x: u8| x as i64)))
        },
{
    let bytes = match b64_decode(s) {
        Ok(b) => b,
        Err(e) => {
            return Err(DeserializeError::Base64DecodeError(e));
        }
    };
    if bytes.len() != 49 {
        return Err(DeserializeError::BadInputLength);
    }
    if bytes[0] != 0 {
        return Err(DeserializeError::InvalidVersionByte);
    }
    let seed = ((bytes[1] as u64) << 56) | ((bytes[2] as u64) << 48) | ((bytes[3] as u64) << 40)
        | ((bytes[4] as u64) << 32) | ((bytes[5] as u64) << 24) | ((bytes[6] as u64) << 16) | ((
    bytes[7] as u64) << 8) | (bytes[8] as u64);
    proof {
        let be = bytes@.subrange(1, 9);
        assert(be[0] == bytes@[1] && be[1] == bytes@[2] && be[2] == bytes@[3] && be[3] == bytes@[4]
            && be[4] == bytes@[5] && be[5] == bytes@[6] && be[6] == bytes@[7] && be[7] == bytes@[8]);
        assert(seed == u64_of_be(be));
    }
    let bottom_deck = read_deck_bytes(&bytes, 9);
    let top_deck = read_deck_bytes(&bytes, 29);
    Ok((seed, CardGameEnv { bottom_deck, top_deck }))
}

/// Reads [`DECK_SIZE`] card IDs out of `bytes`, one byte each, starting
/// at `start`.
fn read_deck_bytes(bytes: &Vec<u8>, start: usize) -> (r: Deck)
    requires
        start + DECK_SIZE <= bytes@.len(),
    ensures
        r@ == bytes@.subrange(start as int, start + DECK_SIZE).map_values(|x: u8| x as i64),
{
    let total = bytes.len();
    let mut cards: Vec<CardId> = Vec::new();
    let mut i: usize = 0;
    while i < DECK_SIZE
        invariant
            i <= DECK_SIZE,
            start + DECK_SIZE <= bytes@.len(),
            bytes@.len() == total,
            cards@.map_values(|c: CardId| c.0) == bytes@.subrange(
                start as int,
                start + i,
            ).map_values(|x: u8| x as i64),
        decreases DECK_SIZE - i,
    {
        let ghost before = cards@;
        cards.push(CardId(bytes[start + i] as i64));
        proof {
            assert(cards@.map_values(|c: CardId| c.0) =~= before.map_values(|c: CardId| c.0).push(
                bytes@[start + i] as i64,
            ));
            assert(bytes@.subrange(start as int, start + i + 1).map_values(|x: u8| x as i64)
                =~= bytes@.subrange(start as int, start + i).map_values(|x: u8| x as i64).push(
                bytes@[start + i] as i64,
            ));
        }
        i = i + 1;
    }
    Deck(cards)
}

/// Round trip: decoding the packed bytes of any game recovers the exact
/// seed and both decks, byte for byte.
pub proof fn lemma_game_code_roundtrip(seed: u64, bottom: Seq<i64>, top: Seq<i64>)
    requires
        bottom.len() == DECK_SIZE,
        top.len() == DECK_SIZE,
        ids_fit_in_byte(bottom),
        ids_fit_in_byte(top),
    ensures
        ({
            let bytes = game_code_bytes(seed, bottom, top);
            &&& bytes.len() == 49
            &&& bytes[0] == 0
            &&& u64_of_be(bytes.subrange(1, 9)) == seed
            &&& bytes.subrange(9, 29).map_values(|x: u8| x as i64) == bottom
            &&& bytes.subrange(29, 49).map_values(|x: u8| x as i64) == top
        }),
{
    let bytes = game_code_bytes(seed, bottom, top);
    assert(bytes.subrange(1, 9) =~= u64_be_bytes(seed));
    lemma_be_roundtrip(seed);
    assert(bytes.subrange(9, 29) =~= bottom.map_values(|x: i64| x as u8));
    assert(bytes.subrange(29, 49) =~= top.map_values(|x: i64| x as u8));
    assert(bottom.map_values(|x: i64| x as u8).map_values(|x: u8| x as i64) =~= bottom);
    assert(top.map_values(|x: i64| x as u8).map_values(|x: u8| x as i64) =~= top);
}

} // verus!
