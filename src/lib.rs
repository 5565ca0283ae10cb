//! Rules engine and match bookkeeping for tournament games of Splendor.

pub mod gem;
pub mod gems;
pub mod card;
pub mod nobles;
pub mod payment;
pub mod player;
pub mod selection;
pub mod action;
pub mod history;
pub mod game;
pub mod rules;
pub mod apply;
pub mod board;
pub mod clock;
pub mod arena;
pub mod protocol;
pub mod pool;
pub mod models;
pub mod mirror;
pub mod laws;
