//! A library for the Brazilian card game Truco, played between a human
//! player and a simple computer opponent.
//!
//! The card model (ranks, suits, the manilha relation and trick comparison),
//! deck construction and dealing, trick resolution and match scoring all live
//! here with verified contracts. Console input and output belong to the
//! program built on top of this crate.

pub mod card;
pub mod game;
