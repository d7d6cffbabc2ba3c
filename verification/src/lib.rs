//! A minimal uptime monitor: it checks services over HTTP on their schedules, keeps the
//! latest result of each, pings a dead man's switch while everything is up, notifies while
//! something is down and once when it is back, and serves the current status.
//!
//! This library decides; the program around it sleeps, sends and listens. What the network
//! and the clock give comes in as plain values, and what is to be sent goes out as such.

pub mod check;
pub mod cli;
pub mod config;
pub mod heartbeat;
pub mod notify;
pub mod pace;
pub mod schedule;
pub mod server;
pub mod signals;
pub mod state;
pub mod text;
pub mod time;
