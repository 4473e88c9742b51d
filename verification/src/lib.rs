//! Verified core of a multiplayer matchmaking lobby: a registry of live
//! connections with addressed delivery, a room/slot state machine with
//! capacity and uniqueness invariants, and the matchmaking ticket lifecycle
//! that ties the two together.

pub mod enums;
pub mod errors;
pub mod text;
pub mod custom_room;
pub mod form;
pub mod auth;
pub mod user;
pub mod store;
pub mod websocket;
pub mod dtos;
pub mod aws;
pub mod service;
pub mod laws;
pub mod cmd;
pub mod email;
pub mod middlewares;
