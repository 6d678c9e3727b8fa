//! Data model of an episode: questions, rounds, the episode record itself,
//! their validating builders, and the errors those builders report.

pub mod cli_args;
pub mod episode;
pub mod error;
pub mod question;
pub mod round;
