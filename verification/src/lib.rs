//! State-management core of a turn-based tabletop simulation: a store of
//! per-entity components, actions that stage changes before they are
//! committed, rules that judge a pending action, and timed effects applied in
//! ordered stages.

pub mod data;
pub mod data_character;
pub mod document;
pub mod effects;
pub mod entity_store;
pub mod game;
pub mod rule;
pub mod time;
