//! Top-level validation outcomes: how a deck check maps to a process
//! status.

use vstd::prelude::*;
use crate::deck::Deck;
use crate::validator::{DeckValidator, DeckValidityError, validate_spec};

verus! {

/// The overall outcome of validating one deck.
#[derive(Debug, Clone, Copy, PartialEq, Eq, Structural)]
pub enum ValidationResult {
    Valid,
    Warn,
    CriticalError,
}

/// Whether any of the problems found is critical.
pub open spec fn any_critical(errors: Seq<DeckValidityError>) -> bool {
    exists|i: int|
        0 <= i < errors.len() && !((#[trigger] errors[i]) matches DeckValidityError::DuplicateUltraRare(_))
}

/// The overall outcome for a list of problems: critical problems make
/// the deck illegal, non-critical ones only draw a warning, and a clean
/// list passes.
pub open spec fn classify_spec(errors: Seq<DeckValidityError>) -> ValidationResult {
    if any_critical(errors) {
        ValidationResult::CriticalError
    } else if errors.len() > 0 {
        ValidationResult::Warn
    } else {
        ValidationResult::Valid
    }
}

impl ValidationResult {
    /// The process status code this outcome maps to.
    pub fn to_status_code(self) -> (r: u8)
        ensures
            r == match self {
                ValidationResult::Valid => 0u8,
                ValidationResult::Warn => 1u8,
                ValidationResult::CriticalError => 2u8,
            },
    {
        match self {
            ValidationResult::Valid => 0,
            ValidationResult::Warn => 1,
            ValidationResult::CriticalError => 2,
        }
    }
}

/// Classifies a list of problems found in one deck.
pub fn classify_validation(errors: &Vec<DeckValidityError>) -> (r: ValidationResult)
    ensures
        r == classify_spec(errors@),
{
    let mut saw_critical = false;
    let mut i: usize = 0;
    while i < errors.len()
        invariant
            i <= errors@.len(),
            saw_critical == exists|j: int|
                0 <= j < i && !((#[trigger] errors@[j]) matches DeckValidityError::DuplicateUltraRare(_)),
        decreases errors@.len() - i,
    {
        if errors[i].is_critical() {
            saw_critical = true;
        }
        i = i + 1;
    }
    if saw_critical {
        ValidationResult::CriticalError
    } else if errors.len() > 0 {
        ValidationResult::Warn
    } else {
        ValidationResult::Valid
    }
}

/// Validates a deck against the codex and folds the problems into one
/// overall outcome.
pub fn validate_user_deck(validator: &DeckValidator, deck: &Deck) -> (r: ValidationResult)
    ensures
        r == classify_spec(
            validate_spec(validator.codex@, deck@, 0),
        ),
{
    let errors = validator.validate_deck(deck.0.as_slice());
    proof {
        assert(deck.0@.map_values(|c: crate::deck::CardId| c.0) == deck@);
    }
    classify_validation(&errors)
}

} // verus!
