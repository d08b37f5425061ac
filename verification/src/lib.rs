//! Account, session and network-detection logic of the LPU WiFi manager.
//!
//! The library decides; the program around it reads files, talks to the
//! portal, runs system tools and shows menus.

pub mod cli;
pub mod commands;
pub mod credentials;
pub mod dialogues;
pub mod login;
pub mod text;
pub mod types;
pub mod wifi;
