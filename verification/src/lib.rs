//! The decisions of a home energy management daemon.
pub mod backtest;
pub mod cli;
pub mod clock;
pub mod config;
pub mod drivers;
pub mod forecasting;
pub mod names;
pub mod render;
pub mod report;
pub mod runtime;
pub mod site;
pub mod text;
