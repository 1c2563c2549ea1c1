//! Decks of playing cards: the deck model and its textual form, a
//! comma-separated list of card IDs with optional whitespace around each
//! number.

use vstd::prelude::*;
use crate::text::{is_space, is_space_char, dec_rep_signed, i64_to_string, chars_of, append_chars, push_char};
use crate::numparse::{parse_int_spec, parse_i64_range};

verus! {

/// The number of cards a tournament-legal deck holds.
pub const DECK_SIZE: usize = 20;

/// The ID of a playing card.
#[derive(Debug, Clone, Copy, PartialEq, Eq)]
pub struct CardId(pub i64);

/// Newtype wrapper around a vector of [`CardId`].
#[derive(Debug, Clone, PartialEq, Eq)]
pub struct Deck(pub Vec<CardId>);

impl View for CardId {
    type V = i64;

    open spec fn view(&self) -> i64 {
        self.0
    }
}

impl View for Deck {
    type V = Seq<i64>;

    open spec fn view(&self) -> Seq<i64> {
        self.0@.map_values(|c: CardId| c.0)
    }
}

/// The error on a malformed textual deck.
#[derive(Debug, Clone, PartialEq, Eq)]
pub enum DeckFromStrError {
    ParseIntError,
}

/// The first position at or after `start` holding a comma, or the length
/// of `s` if there is none.
pub open spec fn spec_comma_pos(s: Seq<char>, start: int) -> int
    decreases s.len() - start,
{
    if start < 0 || start >= s.len() {
        s.len() as int
    } else if s[start] == ',' {
        start
    } else {
        spec_comma_pos(s, start + 1)
    }
}

/// The first position in `[start, end)` holding a non-space character, or
/// `end` if there is none.
pub open spec fn spec_skip_spaces(s: Seq<char>, start: int, end: int) -> int
    decreases end - start,
{
    if start >= end {
        end
    } else if is_space(s[start]) {
        spec_skip_spaces(s, start + 1, end)
    } else {
        start
    }
}

/// The position just past the last non-space character of `[start, end)`,
/// or `start` if all of it is spaces.
pub open spec fn spec_trim_end(s: Seq<char>, start: int, end: int) -> int
    decreases end - start,
{
    if end <= start {
        start
    } else if is_space(s[end - 1]) {
        spec_trim_end(s, start, end - 1)
    } else {
        end
    }
}

/// `s[start..end]` with surrounding whitespace removed.
pub open spec fn spec_trimmed(s: Seq<char>, start: int, end: int) -> Seq<char> {
    let a = spec_skip_spaces(s, start, end);
    let b = spec_trim_end(s, a, end);
    s.subrange(a, b)
}

/// The parse of the comma-separated card list in `s` from `start` on:
/// every token is trimmed, empty tokens are dropped, and each remaining
/// token must be a 64-bit decimal integer.
pub open spec fn parse_deck_spec(s: Seq<char>, start: int) -> Option<Seq<i64>>
    decreases s.len() - start + 1,
        via parse_deck_spec_decreases
{
    if start > s.len() {
        Some(Seq::<i64>::empty())
    } else {
        let end = spec_comma_pos(s, start);
        let tok = spec_trimmed(s, start, end);
        let rest = parse_deck_spec(s, end + 1);
        if tok.len() == 0 {
            rest
        } else {
            match parse_int_spec(tok) {
                Some(v) => match rest {
                    Some(r) => Some(seq![v as i64] + r),
                    None => None,
                },
                None => None,
            }
        }
    }
}

/// The comma search never moves the cursor backwards and never leaves
/// the sequence.
pub proof fn lemma_comma_pos_bounds(s: Seq<char>, start: int)
    requires
        0 <= start <= s.len(),
    ensures
        start <= spec_comma_pos(s, start) <= s.len(),
    decreases s.len() - start,
{
    if start < s.len() && s[start] != ',' {
        lemma_comma_pos_bounds(s, start + 1);
    }
}

#[via_fn]
proof fn parse_deck_spec_decreases(s: Seq<char>, start: int) {
    if 0 <= start <= s.len() {
        lemma_comma_pos_bounds(s, start);
    }
}

/// Finds the next comma at or after `start`.
fn find_comma(chars: &Vec<char>, start: usize) -> (end: usize)
    requires
        start <= chars@.len(),
    ensures
        start <= end <= chars@.len(),
        end == spec_comma_pos(chars@, start as int),
{
    let mut i = start;
    while i < chars.len()
        invariant
            start <= i <= chars@.len(),
            spec_comma_pos(chars@, start as int) == spec_comma_pos(chars@, i as int),
        decreases chars@.len() - i,
    {
        if chars[i] == ',' {
            return i;
        }
        i = i + 1;
    }
    i
}

/// Finds the first non-space position in `[start, end)`.
fn skip_spaces(chars: &Vec<char>, start: usize, end: usize) -> (a: usize)
    requires
        start <= end <= chars@.len(),
    ensures
        start <= a <= end,
        a == spec_skip_spaces(chars@, start as int, end as int),
{
    let mut i = start;
    while i < end
        invariant
            start <= i <= end <= chars@.len(),
            spec_skip_spaces(chars@, start as int, end as int)
                == spec_skip_spaces(chars@, i as int, end as int),
        decreases end - i,
    {
        if !is_space_char(chars[i]) {
            return i;
        }
        i = i + 1;
    }
    i
}

/// Finds the position just past the last non-space character of
/// `[start, end)`.
fn trim_end_pos(chars: &Vec<char>, start: usize, end: usize) -> (b: usize)
    requires
        start <= end <= chars@.len(),
    ensures
        start <= b <= end,
        b == spec_trim_end(chars@, start as int, end as int),
{
    let mut i = end;
    while i > start
        invariant
            start <= i <= end <= chars@.len(),
            spec_trim_end(chars@, start as int, end as int)
                == spec_trim_end(chars@, start as int, i as int),
        decreases i,
    {
        if !is_space_char(chars[i - 1]) {
            return i;
        }
        i = i - 1;
    }
    i
}

impl Deck {
    /// Whether the deck holds no cards.
    pub fn is_empty(&self) -> (r: bool)
        ensures
            r == (self@.len() == 0),
    {
        self.0.is_empty()
    }

    /// The number of cards in the deck.
    pub fn len(&self) -> (r: usize)
        ensures
            r == self@.len(),
    {
        self.0.len()
    }

    /// Parses a comma-separated list of card IDs. Whitespace around each
    /// number is ignored, as are empty entries.
    pub fn parse(s: &str) -> (r: Result<Deck, DeckFromStrError>)
        ensures
            r matches Ok(d) ==> parse_deck_spec(s@, 0) == Some(d@),
            r is Err ==> parse_deck_spec(s@, 0) is None,
    {
        let chars = chars_of(s);
        let mut cards: Vec<CardId> = Vec::new();
        let mut cursor: usize = 0;
        loop
            invariant_except_break
                cursor <= chars@.len(),
                chars@ == s@,
                match parse_deck_spec(chars@, cursor as int) {
                    Some(rest) => parse_deck_spec(chars@, 0) == Some(
                        cards@.map_values(|c: CardId| c.0) + rest,
                    ),
                    None => parse_deck_spec(chars@, 0) is None,
                },
            ensures
                parse_deck_spec(s@, 0) == Some(cards@.map_values(|c: CardId| c.0)),
            decreases chars@.len() - cursor,
        {
            let end = find_comma(&chars, cursor);
            let a = skip_spaces(&chars, cursor, end);
            let b = trim_end_pos(&chars, a, end);
            let ghost tok = spec_trimmed(chars@, cursor as int, end as int);
            proof {
                assert(tok == chars@.subrange(a as int, b as int));
            }
            let ghost prev_cards = cards@;
            if a < b {
                match parse_i64_range(&chars, a, b) {
                    Some(v) => {
                        cards.push(CardId(v));
                        proof {
                            assert(cards@.map_values(|c: CardId| c.0)
                                =~= prev_cards.map_values(|c: CardId| c.0) + seq![v as i64]);
                        }
                    }
                    None => {
                        proof {
                            assert(parse_deck_spec(chars@, cursor as int) is None);
                            assert(parse_deck_spec(s@, 0) is None);
                        }
                        return Err(DeckFromStrError::ParseIntError);
                    }
                }
            }
            proof {
                match parse_deck_spec(chars@, end + 1) {
                    Some(rest) => {
                        assert(parse_deck_spec(chars@, 0) == Some(
                            cards@.map_values(|c: CardId| c.0) + rest,
                        )) by {
                            if a < b {
                                let v = parse_int_spec(tok)->Some_0;
                                assert(prev_cards.map_values(|c: CardId| c.0) + (seq![v as i64] + rest)
                                    =~= cards@.map_values(|c: CardId| c.0) + rest);
                            }
                        }
                    }
                    None => {
                        assert(parse_deck_spec(chars@, 0) is None);
                    }
                }
            }
            if end == chars.len() {
                proof {
                    assert(parse_deck_spec(chars@, end + 1) == Some(Seq::<i64>::empty()));
                    assert(cards@.map_values(|c: CardId| c.0) + Seq::<i64>::empty()
                        =~= cards@.map_values(|c: CardId| c.0));
                }
                break;
            }
            cursor = end + 1;
        }
        Ok(Deck(cards))
    }

    /// The textual form of the deck: the card IDs in decimal, separated by
    /// a comma and a space.
    pub fn to_text(&self) -> (r: String)
        ensures
            r@ == deck_string_spec(self@),
    {
        let mut out = String::new();
        let mut i: usize = 0;
        while i < self.0.len()
            invariant
                i <= self.0@.len(),
                out@ == deck_string_spec(self@.subrange(0, i as int)),
                self@.len() == self.0@.len(),
            decreases self.0@.len() - i,
        {
            let ghost prefix = self@.subrange(0, i as int);
            if i > 0 {
                push_char(&mut out, ',');
                push_char(&mut out, ' ');
            }
            let num = i64_to_string(self.0[i].0);
            let num_chars = chars_of(num.as_str());
            append_chars(&mut out, &num_chars);
            proof {
                let extended = self@.subrange(0, i + 1 as int);
                assert(extended.drop_last() =~= prefix);
                assert(extended.last() == self@[i as int] == self.0@[i as int].0);
                if i == 0 {
                    assert(out@ =~= dec_rep_signed(self@[0] as int));
                } else {
                    assert(out@ =~= deck_string_spec(prefix) + seq![',', ' ']
                        + dec_rep_signed(self@[i as int] as int));
                }
            }
            i = i + 1;
        }
        proof {
            assert(self@.subrange(0, self@.len() as int) =~= self@);
        }
        out
    }
}

/// The textual form of a card list: decimal IDs joined by a comma and a
/// space.
pub open spec fn deck_string_spec(ids: Seq<i64>) -> Seq<char>
    decreases ids.len(),
{
    if ids.len() == 0 {
        Seq::<char>::empty()
    } else if ids.len() == 1 {
        dec_rep_signed(ids[0] as int)
    } else {
        deck_string_spec(ids.drop_last()) + seq![',', ' '] + dec_rep_signed(ids.last() as int)
    }
}

impl core::str::FromStr for Deck {
    type Err = DeckFromStrError;

    fn from_str(s: &str) -> Result<Deck, DeckFromStrError> {
        Deck::parse(s)
    }
}

} // verus!
