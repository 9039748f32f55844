//! The verified core of a terminal process monitor: value formatting, process
//! filters, command-line parsing, `lsof`/`nettop` output parsing, metric
//! history, preferences, and the key-driven view state of the monitor.
use vstd::prelude::*;

pub mod app;
pub mod binary64;
pub mod cli;
pub mod config;
pub mod error;
pub mod filter;
pub mod history;
pub mod inspect;
pub mod output;
pub mod ports;
pub mod sampler;
pub mod screen;
pub mod table;
pub mod format;
pub mod text;

verus! {

} // verus!
