//! The local control protocol: what `replaydctl` and `replayd-hook` write to
//! the daemon's sockets, and how the daemon reads it.
use vstd::prelude::*;
use crate::text::{chars_of, trim, trim_spec};

verus! {

/// A subcommand of `replaydctl`.
#[derive(Debug, Clone, Copy, PartialEq, Eq, Structural)]
pub enum Commands {
    /// view the database for the app
    Db,
    /// view the identifiable games
    Games,
    /// tell replayd to save a clip
    Clip,
    /// tell replayd to toggle clipping
    Toggle,
    /// get the currently identified game
    Identify,
}

/// A command that the daemon's control socket understands.
#[derive(Debug, Clone, Copy, PartialEq, Eq, Structural)]
pub enum SocketCommand {
    /// answer with a dump of the database
    DumpDb,
    /// answer with the catalog of identifiable games
    DumpGames,
    /// save a clip from the replay buffer
    SaveClip,
    /// start or stop the replay buffer
    ToggleClipping,
}

/// What the daemon makes of one message on its control socket.
#[derive(Debug)]
pub enum SocketRequest {
    Command(SocketCommand),
    /// Anything else is the path of a clip that the recorder saved.
    ClipSaved(String),
}

/// What the daemon makes of one message on its hook socket.
#[derive(Debug)]
pub enum HookRequest {
    /// answer with the settings, games and clips
    DumpDbData,
    /// anything else is the path of a saved clip
    ClipSaved(String),
}

/// Why `replayd-hook` refuses its arguments.
#[derive(Debug, Clone, Copy, PartialEq, Eq, Structural)]
pub enum HookError {
    /// it is called with other than two arguments after its own name
    MalformedArguments,
}

impl HookError {
    pub fn message(&self) -> (s: &'static str)
        ensures
            s@ == "malformed arguments"@,
    {
        "malformed arguments"
    }
}

/// The text that `replaydctl` writes for a command, for those it sends.
pub open spec fn request_text(c: Commands) -> Option<Seq<char>> {
    match c {
        Commands::Db => Some("get/db"@),
        Commands::Games => Some("get/games"@),
        Commands::Clip => Some("signal/clip"@),
        Commands::Toggle => Some("signal/toggle"@),
        Commands::Identify => None,
    }
}

/// The command that a trimmed control message names, if any.
pub open spec fn command_for(t: Seq<char>) -> Option<SocketCommand> {
    if t == "get/db"@ {
        Some(SocketCommand::DumpDb)
    } else if t == "get/games"@ {
        Some(SocketCommand::DumpGames)
    } else if t == "signal/clip"@ {
        Some(SocketCommand::SaveClip)
    } else if t == "signal/toggle"@ {
        Some(SocketCommand::ToggleClipping)
    } else {
        None
    }
}

/// The socket command that a `replaydctl` command stands for.
pub open spec fn socket_command_of(c: Commands) -> Option<SocketCommand> {
    match c {
        Commands::Db => Some(SocketCommand::DumpDb),
        Commands::Games => Some(SocketCommand::DumpGames),
        Commands::Clip => Some(SocketCommand::SaveClip),
        Commands::Toggle => Some(SocketCommand::ToggleClipping),
        Commands::Identify => None,
    }
}

/// The text that `replaydctl` writes to the control socket for `c`; `None`
/// for `Identify`, which it answers without the daemon.
pub fn request(c: Commands) -> (r: Option<&'static str>)
    ensures
        match r {
            Some(s) => request_text(c) == Some(s@),
            None => request_text(c) is None,
        },
{
    match c {
        Commands::Db => Some("get/db"),
        Commands::Games => Some("get/games"),
        Commands::Clip => Some("signal/clip"),
        Commands::Toggle => Some("signal/toggle"),
        Commands::Identify => None,
    }
}

pub(crate) fn chars_are(v: &Vec<char>, s: &str) -> (b: bool)
    ensures
        b == (v@ == s@),
{
    let w = chars_of(s);
    if v.len() != w.len() {
        assert(v@.len() != w@.len());
        return false;
    }
    let mut i: usize = 0;
    while i < v.len()
        invariant
            i <= v@.len(),
            v@.len() == w@.len(),
            w@ == s@,
            forall|k: int| 0 <= k < i ==> v@[k] == w@[k],
        decreases v@.len() - i,
    {
        if v[i] != w[i] {
            assert(v@[i as int] != w@[i as int]);
            assert(v@ != w@);
            return false;
        }
        i = i + 1;
    }
    assert(v@ =~= w@);
    true
}

/// Reads a message of the control socket: a command when the message,
/// without surrounding whitespace, is one of the command words; otherwise the
/// whole message, untrimmed, as the path of a saved clip.
pub fn parse_request(buf: &str) -> (r: SocketRequest)
    ensures
        match r {
            SocketRequest::Command(c) => command_for(trim_spec(buf@)) == Some(c),
            SocketRequest::ClipSaved(p) => command_for(trim_spec(buf@)) is None && p@ == buf@,
        },
{
    let t = trim(buf);
    if chars_are(&t, "get/db") {
        SocketRequest::Command(SocketCommand::DumpDb)
    } else if chars_are(&t, "get/games") {
        SocketRequest::Command(SocketCommand::DumpGames)
    } else if chars_are(&t, "signal/clip") {
        SocketRequest::Command(SocketCommand::SaveClip)
    } else if chars_are(&t, "signal/toggle") {
        SocketRequest::Command(SocketCommand::ToggleClipping)
    } else {
        SocketRequest::ClipSaved(buf.to_string())
    }
}

/// Reads a message of the hook socket: `\dbdata` (surrounding whitespace
/// aside) asks for a dump; anything else, untrimmed, is a saved clip's path.
pub fn parse_hook_request(buf: &str) -> (r: HookRequest)
    ensures
        match r {
            HookRequest::DumpDbData => trim_spec(buf@) == "\\dbdata"@,
            HookRequest::ClipSaved(p) => trim_spec(buf@) != "\\dbdata"@ && p@ == buf@,
        },
{
    let t = trim(buf);
    if chars_are(&t, "\\dbdata") {
        HookRequest::DumpDbData
    } else {
        HookRequest::ClipSaved(buf.to_string())
    }
}

/// What `replayd-hook` writes to the socket: the first of its two
/// arguments (`args` holds its own name first, as `std::env::args` does).
pub fn hook_payload(args: &Vec<String>) -> (r: Result<&String, HookError>)
    ensures
        args@.len() == 3 ==> r == Ok::<&String, HookError>(&args@[1]),
        args@.len() != 3 ==> r == Err::<&String, HookError>(HookError::MalformedArguments),
{
    if args.len() != 3 {
        Err(HookError::MalformedArguments)
    } else {
        Ok(&args[1])
    }
}

} // verus!

verus! {

proof fn lemma_trim_plain(t: Seq<char>)
    requires
        t.len() > 0,
        !crate::text::is_white_space(t[0]),
        !crate::text::is_white_space(t.last()),
    ensures
        trim_spec(t) == t,
{
    assert(crate::text::leading_ws(t) == 0);
    assert(t.skip(0) =~= t);
    assert(crate::text::trailing_ws(t) == 0);
    assert(t.take(t.len() as int) =~= t);
}

/// The absolute path of a saved clip, as `replayd-hook` sends it, is never
/// read as a command word, so the daemon reads the message as that very path
/// (see [`parse_request`]).
pub proof fn law_hook_path_is_clip(p: Seq<char>)
    requires
        crate::paths::is_absolute(p),
    ensures
        command_for(trim_spec(p)) is None,
{
    reveal_strlit("get/db");
    reveal_strlit("get/games");
    reveal_strlit("signal/clip");
    reveal_strlit("signal/toggle");
    assert(!crate::text::is_white_space(p[0]));
    assert(crate::text::leading_ws(p) == 0);
    assert(p.skip(0) =~= p);
    crate::text::lemma_trailing_ws_bound(p);
    let t = trim_spec(p);
    if t.len() > 0 {
        assert(t[0] == '/');
        assert("get/db"@[0] == 'g');
        assert("get/games"@[0] == 'g');
        assert("signal/clip"@[0] == 's');
        assert("signal/toggle"@[0] == 's');
    }
}

/// Every message that `replaydctl` sends is read by the daemon as the
/// command that the `replaydctl` subcommand stands for.
pub proof fn law_request_roundtrip(c: Commands)
    ensures
        request_text(c) matches Some(t) ==> command_for(trim_spec(t)) == socket_command_of(c),
{
    reveal_strlit("get/db");
    reveal_strlit("get/games");
    reveal_strlit("signal/clip");
    reveal_strlit("signal/toggle");
    match c {
        Commands::Db => lemma_trim_plain("get/db"@),
        Commands::Games => lemma_trim_plain("get/games"@),
        Commands::Clip => lemma_trim_plain("signal/clip"@),
        Commands::Toggle => {
            lemma_trim_plain("signal/toggle"@);
            assert("signal/toggle"@ != "signal/clip"@) by {
                assert("signal/toggle"@.len() != "signal/clip"@.len());
            }
        },
        Commands::Identify => {},
    }
}

} // verus!
