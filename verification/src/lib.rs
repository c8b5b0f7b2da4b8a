//! Data model and decision logic of a Discord bot that posts messages on a
//! cron schedule, and of the HTTP API that stores the schedule.
//!
//! The I/O (Discord, HTTP, the database, files and the environment) is done
//! by the caller, which hands this library plain values and gets plain values
//! back.
pub mod api;
pub mod command;
pub mod commands;
pub mod config;
pub mod cron;
pub mod data;
pub mod decimal;
pub mod discord;
pub mod environment;
pub mod error;
pub mod message;
pub mod paths;
pub mod persistence;
pub mod sql;
pub mod task;
pub mod text;
pub mod timezone;

pub use environment::Environment;
pub use message::{Message, MessageId};
pub use task::{Task, TaskId, TaskMode, TaskState};
