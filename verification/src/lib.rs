//! Connect Four for two browsers: the table with its two seats, the game, and what the
//! players are told.
//!
//! [`model`] says in mathematics what every event makes of the table, [`rules`] what that means
//! field by field, and [`laws`] what holds whatever happens. [`game`] holds the table in memory, on the [`board`]; [`server`] handles
//! requests and events; [`request`] reads a request, [`stream`] paces the stream of events,
//! and [`clock`] keeps the time.

pub mod board;
pub mod clock;
pub mod game;
pub mod laws;
pub mod model;
pub mod request;
pub mod rules;
pub mod server;
pub mod stream;
pub mod text;
