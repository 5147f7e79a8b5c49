//! Session logic of a Tak game service: who controls which color in a match,
//! how matches are created and found again by their hashed id, and the
//! decisions a browser client makes on clicks, keys and typed commands.
pub mod protocol;
pub mod controllers;
pub mod hasher;
pub mod matches;
pub mod board;
pub mod text;
pub mod client;
pub mod display;
