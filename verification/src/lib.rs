//! Core logic of a community chat bot that runs a daily, wall-clock-anchored
//! status-update reconciliation job: time-window computation, checkpoint
//! parsing, qualifying-message collection, streak bookkeeping and report
//! rendering.

pub mod checkpoint;
pub mod collector;
pub mod decimal;
pub mod models;
pub mod queries;
pub mod reconcile;
pub mod report;
pub mod schedule;
pub mod text;
pub mod time;
