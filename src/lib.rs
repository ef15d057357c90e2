//! A two-player cooperative game: one player solves platforming puzzles, the
//! other dispatches clues from an office. This crate holds its verified core:
//! the collision engine and player controller of the solver, the dispatcher's
//! puzzle state, the client's lobby handshake, and the server's registry of
//! clients and rooms that relays progress between the two peers.
pub mod collider;
pub mod dispatcher;
pub mod fixed;
pub mod interop;
pub mod level;
pub mod lobby;
pub mod model;
pub mod player;
pub mod server;
pub mod shape;
pub mod solver;
pub mod tilted;
