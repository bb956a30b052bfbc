//! Decoder for VESA MCCS display capability strings.
//!
//! A display advertises which VCP control codes it supports through a single
//! parenthesized ASCII capability string.  This crate turns such a string into
//! a structured [`cap::Capabilities`] model: [`token`] holds the lexer,
//! [`parse`] the recursive-descent grammar parser, [`cap`] the capability
//! model and the derived input-selection queries, and [`display`] the decision
//! logic for resolving a display name to the physical monitor whose input is
//! queried or changed.  The operating-system control channel itself is an
//! external collaborator: it supplies the capability string and consumes the
//! model.

pub mod cap;
pub mod display;
pub mod monitor;
pub mod parse;
pub mod token;

use vstd::prelude::*;

verus! {

/// A physical monitor as seen by a platform backend: a friendly name, the
/// capability model decoded from its capability string, and access to the
/// input-select control.  Platform layers implement this for their handle
/// types; nothing in this crate does.
pub trait Monitor2 {
    fn name(&self) -> &str;

    fn capabilities(&self) -> &cap::Capabilities;

    fn input(&self) -> Result<cap::Input, display::Error>;

    fn set_input(&mut self, input: cap::Input) -> Result<(), display::Error>;
}

} // verus!
