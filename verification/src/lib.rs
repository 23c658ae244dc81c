pub mod cards;
pub mod jokers;
pub mod errors;
pub mod game;
pub mod game_stage;
pub mod hand;
pub mod modifiers;
pub mod scoring;
pub mod suit;
