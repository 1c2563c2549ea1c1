//! A headless, deterministic simulator for a scripted card game.
//!
//! The crate provides the value model, class/object system, method
//! dispatcher and evaluator of the embedded scripting language, together
//! with the deck model, the deck-legality checker and the compact
//! "game code" encoding used to replay a match from a seed.

#![allow(unused_imports)]

pub mod ast;
pub mod class;
pub mod code;
pub mod codex;
pub mod deck;
pub mod errors;
pub mod eval;
pub mod game;
pub mod gdstring;
pub mod heap;
pub mod ident;
pub mod method;
pub mod mocking;
pub mod numparse;
pub mod ops;
pub mod opsem;
pub mod rng;
pub mod runner;
pub mod strfmt;
pub mod text;
pub mod util;
pub mod validator;
pub mod value;
