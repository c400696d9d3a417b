//! A Wordle-style game and an automatic solver that narrows a dictionary of
//! five-letter words from the hints it receives.

pub mod letters;
pub mod word;
pub mod score;
pub mod game;
pub mod constraints;
pub mod solver;
