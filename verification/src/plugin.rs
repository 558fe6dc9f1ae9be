//! The console's configuration and the plugin values that carry it.
use crate::chars::push_str;
use crate::lookup::{error_text, LookupError};
use vstd::prelude::*;
use std::time::Duration;

verus! {

/// Minibuffer config
#[derive(Debug, Clone, Copy, Default)]
pub struct Config {
    /// If true, auto hide minibuffer after use.
    pub auto_hide: bool,
    /// Auto hide delay.
    pub hide_delay: Duration,
}

/// Minibuffer plugin
#[derive(Debug, Default, Clone, Copy)]
pub struct MinibufferPlugin {
    /// Configuration
    pub config: Config,
}

/// The group of plugins the console needs.
#[derive(Debug, Clone, Copy, Default)]
pub struct MinibufferPlugins;

/// Minibuffer generally runs in the update schedule of sets in this order
/// where necessary: Input, Process, Output.
#[derive(Debug, Clone, Copy, PartialEq, Eq, Hash, Structural)]
pub enum MinibufferSet {
    Input,
    Process,
    Output,
}

/// Minibuffer error
#[derive(Debug)]
pub enum Error {
    /// An error message
    Message(String),
    /// A lookup error
    Lookup(LookupError),
    /// The user canceled a prompt or a key chord request.
    Canceled,
}

/// What an error says when shown to the user.
pub open spec fn error_message(e: Error) -> Seq<char> {
    match e {
        Error::Message(m) => m@,
        Error::Lookup(l) => "look up error"@ + error_text(l),
        Error::Canceled => "canceled"@,
    }
}

impl Error {
    /// The error's message, as shown to the user.
    pub fn text(&self) -> (s: String)
        ensures
            s@ == error_message(*self),
    {
        let mut s = String::new();
        match self {
            Error::Message(m) => push_str(&mut s, m.as_str()),
            Error::Lookup(l) => {
                push_str(&mut s, "look up error");
                let t = l.message();
                push_str(&mut s, t.as_str());
            },
            Error::Canceled => push_str(&mut s, "canceled"),
        }
        s
    }
}

} // verus!
