//! A command-dispatch core for chat-platform interactions: argument schemas,
//! a registry of commands, typed coercion of raw option values, the hook
//! pipeline around an executor, autocomplete resolution and modal sessions.
//!
//! Callbacks are carried as opaque values and are invoked by the integrator,
//! which feeds their results back as events; only the choices callback of an
//! argument is called here.
//!
//! The modules `details`, `attribute`, `emit` and `tokens` serve attribute
//! macros: they read the details of a command from its attributes and write
//! them back as builder calls. They are the only ones that call `syn`,
//! `darling`, `proc_macro2` and `quote`. What those crates return is known
//! to the proofs by name only; the assumed contracts stand in `attribute` and
//! `tokens`, on the functions marked `external_body` and on `Clone` for paths
//! and identifiers.

pub mod argument;
pub mod attribute;
pub mod autocomplete;
pub mod coercion;
pub mod command;
pub mod declaration;
pub mod details;
pub mod dispatch;
pub mod emit;
pub mod hook;
pub mod modal;
pub mod registry;
pub mod search;
pub mod tokens;
pub mod trace;
