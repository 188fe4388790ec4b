//! The WebSocket bridge to the game: the bookkeeping of one connection
//! (generations, waiting requests, inbound handlers) and its wire errors.
pub mod connection;
pub mod control;
