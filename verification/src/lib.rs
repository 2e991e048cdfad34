//! Core engine of a terminal coding assistant: parsing of streamed model
//! output, tool-call accumulation, quota decoding, MCP tool routing, context
//! compression, and the pure state machines behind the interactive UI.

use vstd::prelude::*;

pub mod args;
pub mod jsonval;
pub mod text;
pub mod parser;
pub mod picker;
pub mod question;
pub mod commands;
pub mod engine;
pub mod history;
pub mod mcp;
pub mod menus;
pub mod quota;
pub mod settings;
pub mod stream;
pub mod themes;
pub mod toolkit;
pub mod ui;
pub mod version;
pub mod wrap;

verus! {

/// Operating mode for the assistant: read-only planning or full tool access.
#[derive(Debug, Clone, Copy, PartialEq, Eq, Structural)]
pub enum Mode {
    Plan,
    Builder,
}

impl Mode {
    /// Switch between the two modes.
    pub fn toggle(&self) -> (r: Mode)
        ensures
            r == (match self {
                Mode::Plan => Mode::Builder,
                Mode::Builder => Mode::Plan,
            }),
    {
        match self {
            Mode::Plan => Mode::Builder,
            Mode::Builder => Mode::Plan,
        }
    }

    /// Short badge text for the mode.
    pub fn label(&self) -> (r: &'static str)
        ensures
            self is Plan ==> r@ == "PLAN"@,
            self is Builder ==> r@ == "BUILDER"@,
    {
        match self {
            Mode::Plan => "PLAN",
            Mode::Builder => "BUILDER",
        }
    }
}

} // verus!
