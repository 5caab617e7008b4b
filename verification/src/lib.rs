//! Terminal colour model, SGR attribute decoder and token stream builder.
//!
//! The crate turns the numeric parameters of `CSI … m` sequences and the
//! printable characters between them into an ordered stream of colour-change
//! and character tokens. Colours are resolved against a 269-slot palette that
//! is derived from a colour configuration.

pub mod ansi;
pub mod parser;
pub mod reports;
