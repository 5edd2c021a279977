//! All In: the rules of the casino card duel, verified. The duel itself
//! lives in `duel`; the cards, enemies and run-long rewards it is played
//! with live in `run`.

pub mod art;
pub mod run;
pub mod devstart;
pub mod duel;
pub mod duel_laws;
pub mod hits;
pub mod info;
pub mod narrative;
pub mod peek;
pub mod progression;
pub mod shell;
pub mod state;
pub mod table;
pub mod ui;
pub mod words;
