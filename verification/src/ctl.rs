//! The options of `replaydctl`, the command-line controller.
use vstd::prelude::*;
use crate::protocol::Commands;

verus! {

/// Options of `replaydctl`.
#[derive(Debug, Clone, Copy)]
pub struct Args {
    /// display help
    pub help: (),
    /// what to ask the daemon
    pub command: Commands,
}

/// The error text when the daemon's socket does not exist.
pub fn not_running_hint(socket_path: &str) -> (s: String)
    ensures
        s@ == socket_path@ + " does not exist\nare you sure Replayd is running?"@,
{
    let mut out = crate::text::chars_of(socket_path);
    crate::text::extend_str(&mut out, " does not exist\nare you sure Replayd is running?");
    crate::text::string_from_chars(out.as_slice())
}

} // verus!
