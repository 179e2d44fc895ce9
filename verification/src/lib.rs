//! Rules engine of a four-player riichi mahjong variant: tiles, hand
//! decomposition and shanten, yaku detection, fu and score computation, the
//! wall and the revolver, and the decisions that drive a round.

pub mod tile;
pub mod counting;
pub mod decompose;
pub mod chance;
pub mod table;
pub mod melds;
pub mod yaku;
pub mod shanten;
pub mod scoring;
pub mod evaluation;
pub mod calls;
pub mod winning;
pub mod bot;
pub mod settle;
pub mod round;
pub mod executions;
pub mod aborts;
pub mod naki;
pub mod strategy;
pub mod bot_calls;
pub mod turns;
pub mod reading;
pub mod dealing;
pub mod bot_turn;
pub mod cheating;
pub mod accusation;
pub mod exhaustive;
pub mod nuki;
