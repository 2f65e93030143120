//! Block transfer engine for Mifare-Classic-style contactless cards behind a
//! PC/SC reader: command framing, status decoding, request fragmentation and
//! the per-block session state machine.
//!
//! The engine makes no call to the driver. It says which bytes to send and
//! what to make of the bytes that come back; its caller holds the driver and
//! performs what the engine asks for.
//!
//! Beside the engine stand the rules of the application that uses it: the
//! permission bit field that decides who may do what, and the hours that are
//! kept for a user.

pub mod error;
pub mod text;
pub mod apdu;
pub mod permission;
pub mod hours;
pub mod read_plan;
pub mod write_plan;
pub mod session;
pub mod trace;
pub mod card_model;
pub mod reader;
pub mod command;
