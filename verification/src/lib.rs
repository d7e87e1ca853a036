//! Core of a WebSocket endpoint: the binary frame codec, incremental UTF-8
//! validation, the message reassembly state machine, the outgoing frame
//! encoder, and a transport-agnostic connection engine with keep-alive and
//! close-handshake tracking.
//!
//! The engine works on plain byte buffers: an application feeds it the bytes
//! read from its transport, drains the bytes the engine wants written, and
//! reports timer ticks and I/O outcomes.  Everything that decides or computes
//! is here and verified; performing the actual I/O is the caller's business.

pub mod connection;
pub mod frame;
pub mod http;
pub mod input;
pub mod message;
pub mod utf8;
