//! Card search, deck validation and a time-bounded cache for a card database.

pub mod cache;
pub mod card;
pub mod deck_check;
pub mod duelingbook;
pub mod normalize;
pub mod search;
pub mod sorting;
pub mod tally;
pub mod text;
pub mod weburl;
