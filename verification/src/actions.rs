//! Custom context-menu actions: the message shown when one fails.
use vstd::prelude::*;
use crate::kde::{i32_text, push_i32};
use crate::text::{chars_of, extend_str, string_from_chars};

verus! {

/// How a custom action's process ended unsuccessfully, in the order the
/// application asks about it.
#[derive(Debug, Clone, Copy, PartialEq, Eq, Structural)]
pub enum ActionFailure {
    /// it exited with this code
    ExitCode(i32),
    /// it dumped core
    CoreDumped,
    /// a signal with this number terminated it
    Terminated(i32),
    /// a signal with this number stopped it
    Stopped(i32),
    /// nothing more is known
    Unknown,
}

/// The name (such as `SIGINT`) that nix's `Signal` gives signal number `sig`.
pub uninterp spec fn signal_name(sig: i32) -> Option<Seq<char>>;

/// Calls `nix::sys::signal::Signal::try_from` and writes the signal with its
/// `Display`; `None` for a number that is no signal nix knows.
#[verifier::external_body]
fn nix_signal_name(sig: i32) -> (r: Option<String>)
    ensures
        match r {
            Some(s) => signal_name(sig) == Some(s@),
            None => signal_name(sig) is None,
        },
{
    nix::sys::signal::Signal::try_from(sig).ok().map(|s| s.to_string())
}

/// The message shown when custom action `name` fails.
pub open spec fn failure_message(name: Seq<char>, f: ActionFailure) -> Seq<char> {
    "Custom action `"@ + name + match f {
        ActionFailure::ExitCode(c) => "` returned non-zero exit-code "@ + i32_text(c),
        ActionFailure::CoreDumped => "` core dumped"@,
        ActionFailure::Terminated(s) => match signal_name(s) {
            Some(n) => "` was terminated from a "@ + n,
            None => "` was terminated"@,
        },
        ActionFailure::Stopped(s) => match signal_name(s) {
            Some(n) => "` was stopped from a "@ + n,
            None => "` was stopped"@,
        },
        ActionFailure::Unknown => "` failed for an unknown reason"@,
    }
}

/// The message shown when custom action `name` fails (see [`failure_message`]).
pub fn action_failure_message(name: &str, f: ActionFailure) -> (s: String)
    ensures
        s@ == failure_message(name@, f),
{
    let mut out: Vec<char> = Vec::new();
    extend_str(&mut out, "Custom action `");
    extend_str(&mut out, name);
    let ghost head = out@;
    match f {
        ActionFailure::ExitCode(c) => {
            extend_str(&mut out, "` returned non-zero exit-code ");
            push_i32(&mut out, c);
        },
        ActionFailure::CoreDumped => extend_str(&mut out, "` core dumped"),
        ActionFailure::Terminated(sig) => match nix_signal_name(sig) {
            Some(n) => {
                extend_str(&mut out, "` was terminated from a ");
                extend_str(&mut out, n.as_str());
            },
            None => extend_str(&mut out, "` was terminated"),
        },
        ActionFailure::Stopped(sig) => match nix_signal_name(sig) {
            Some(n) => {
                extend_str(&mut out, "` was stopped from a ");
                extend_str(&mut out, n.as_str());
            },
            None => extend_str(&mut out, "` was stopped"),
        },
        ActionFailure::Unknown => extend_str(&mut out, "` failed for an unknown reason"),
    }
    assert(out@ =~= failure_message(name@, f));
    string_from_chars(out.as_slice())
}

} // verus!
