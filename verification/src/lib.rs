//! A small interactive text simulation: free-text commands are matched
//! against a fixed grammar of pattern rules and turned into actions on a
//! world state (a location graph and an in-game clock).
//!
//! The command interpreter is pure: given a world snapshot and one line of
//! text it yields at most one [`command::Cmd`], chosen by a fixed rule
//! priority (movement, exit, time, wait) under full-match-to-end
//! acceptance. The executor step applies a command to the world.

pub mod clock;
pub mod command;
pub mod grammar;
pub mod parser;
pub mod table;
pub mod world;
