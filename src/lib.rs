//! Core logic of a technician toolbox.
//!
//! The heart of it is the service run: `runner` lays out and launches the
//! worker and turns its exit into the completion event, `control` carries
//! the operator's stop / pause / skip signals, and `network` replicates a
//! saved report to a share under a deadline. Around it: report folders
//! (`reports`), saved programs and scripts (`programs`, `scripts`), built-in
//! shortcuts (`shortcuts`), portable paths and data folders (`settings`,
//! `paths`), tool availability (`tools`), logos (`icons`), and the readings
//! that complete a system snapshot (`models`, `gpus`, `extra`).

pub mod control;
pub mod extra;
pub mod gpus;
pub mod icons;
pub mod models;
pub mod network;
pub mod paths;
pub mod programs;
pub mod reports;
pub mod runner;
pub mod scripts;
pub mod settings;
pub mod shortcuts;
pub mod text;
pub mod tools;
pub mod history;
