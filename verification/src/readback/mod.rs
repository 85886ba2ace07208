//! What is written is read back: for every beatmap that is valid, reading the text that
//! writes it gives the beatmap. The proof goes from texts and numbers to records, lines,
//! sections and the whole beatmap.

pub mod blocks;
pub mod colours;
pub mod difficulty;
pub mod editor;
pub mod general;
pub mod joining;
pub mod keys;
pub mod lines;
pub mod metadata;
pub mod plain;
pub mod records;
pub mod whole;
