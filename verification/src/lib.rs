//! Verified core of `scaler`: resource-limit parsing, launch planning,
//! capability reports, the run-loop decisions and all text rendering.

pub mod backend;
pub mod cli;
pub mod detach;
pub mod engine;
pub mod text;
pub mod ui;
