//! A bridge between a chat platform and the control service of a game server: the lines of
//! its protocol, the commands that players type into the game's chat, the answers that wait
//! for their callers, the calculator behind `=`, and the state of the one connection.
//!
//! The library decides and computes; sockets, files, clocks and the chat platform belong to
//! its caller, which performs what the library asks for and reports what happened.

pub mod age;
pub mod anvil;
pub mod bridge;
pub mod cache;
pub mod chat;
pub mod commands;
pub mod config;
pub mod connection;
pub mod dispatch;
pub mod eval;
pub mod fields;
pub mod image;
pub mod level;
pub mod nbt;
pub mod number;
pub mod pages;
pub mod protocol;
pub mod scope;
pub mod score;
pub mod scoreboard;
pub mod scorefile;
pub mod search;
pub mod text;
