//! The replay buffer: whether gpu-screen-recorder runs, the command line it
//! is started with, and what starting, stopping and toggling it does.
use vstd::prelude::*;
use crate::schema::{Codec, Container, FrameRate, Quality, Resolution, Settings};
use crate::text::{decimal, trim, string_from_chars, extend_str, views, trim_spec};

verus! {

/// Why a recorder operation is refused.
#[derive(Debug, Clone, Copy, PartialEq, Eq, Structural)]
pub enum RecorderError {
    /// starting while a recorder process is held
    AlreadyRunning,
    /// stopping while no recorder process is held
    NotRunning,
    /// starting with no display chosen in the settings
    NoDisplay,
}

impl RecorderError {
    /// The message that the application shows for the error.
    pub fn message(&self) -> (s: &'static str)
        ensures
            s@ == match self {
                RecorderError::AlreadyRunning => "gpu-screen-recorder already running"@,
                RecorderError::NotRunning => "gpu-screen-recorder not running"@,
                RecorderError::NoDisplay => "no display specified"@,
            },
    {
        match self {
            RecorderError::AlreadyRunning => "gpu-screen-recorder already running",
            RecorderError::NotRunning => "gpu-screen-recorder not running",
            RecorderError::NoDisplay => "no display specified",
        }
    }
}

/// What the application must do to carry out a toggle.
#[derive(Debug)]
pub enum ToggleStep<C> {
    /// spawn `gpu-screen-recorder` with these arguments, then hand the child
    /// to [`Recorder::attach`]
    Spawn(Vec<String>),
    /// interrupt this process, which the recorder no longer holds
    Stop(C),
}

/// The arguments of `gpu-screen-recorder` for the given settings, display
/// and hook program.
pub open spec fn recorder_args(s: Settings, display: Seq<char>, hook: Seq<char>) -> Seq<Seq<char>> {
    seq![
        "-s"@, s.resolution.spec_cmd(),
        "-w"@, display,
        "-v"@, "no"@,
        "-f"@, s.frame_rate.spec_cmd(),
        "-r"@, decimal(s.buffer_length as nat),
        "-k"@, s.codec.spec_cmd(),
        "-c"@, s.container.spec_cmd(),
        "-a"@, "default_output|default_input"@,
        "-q"@, s.quality.spec_cmd(),
        "-bm"@, "qp"@,
        "-encoder"@, "gpu"@,
        "-sc"@, hook,
        "-o"@, s.output_dir@,
    ]
}

/// The argument after `-q` names the chosen quality in gpu-screen-recorder's
/// words: `medium`, `high`, `very_high` or `ultra`.
pub proof fn law_quality_argument(s: Settings, display: Seq<char>, hook: Seq<char>)
    ensures
        recorder_args(s, display, hook)[16] == "-q"@,
        recorder_args(s, display, hook)[17] == match s.quality {
            Quality::Medium => "medium"@,
            Quality::High => "high"@,
            Quality::VeryHigh => "very_high"@,
            Quality::Ultra => "ultra"@,
        },
{
}

proof fn lemma_cmd_words_differ()
    ensures
        forall|a: Resolution, b: Resolution| a.spec_cmd() == b.spec_cmd() ==> a == b,
        forall|a: FrameRate, b: FrameRate| a.spec_cmd() == b.spec_cmd() ==> a == b,
        forall|a: Codec, b: Codec| a.spec_cmd() == b.spec_cmd() ==> a == b,
        forall|a: Container, b: Container| a.spec_cmd() == b.spec_cmd() ==> a == b,
        forall|a: Quality, b: Quality| a.spec_cmd() == b.spec_cmd() ==> a == b,
{
    reveal_strlit("2560x1440");
    reveal_strlit("1920x1080");
    reveal_strlit("1280x720");
    reveal_strlit("24");
    reveal_strlit("30");
    reveal_strlit("60");
    reveal_strlit("120");
    reveal_strlit("144");
    reveal_strlit("h264");
    reveal_strlit("av1");
    reveal_strlit("hevc");
    reveal_strlit("mp4");
    reveal_strlit("mkv");
    reveal_strlit("medium");
    reveal_strlit("high");
    reveal_strlit("very_high");
    reveal_strlit("ultra");
    assert("2560x1440"@[0] != "1920x1080"@[0]);
    assert("2560x1440"@.len() != "1280x720"@.len());
    assert("1920x1080"@.len() != "1280x720"@.len());
    assert("medium"@.len() != "high"@.len() && "medium"@.len() != "very_high"@.len() && "medium"@.len() != "ultra"@.len());
    assert("high"@.len() != "very_high"@.len() && "high"@.len() != "ultra"@.len() && "very_high"@.len() != "ultra"@.len());
    assert("24"@[0] != "30"@[0] && "24"@[0] != "60"@[0] && "30"@[0] != "60"@[0]);
    assert("120"@[1] != "144"@[1]);
    assert("h264"@[1] != "hevc"@[1]);
    assert("mp4"@[1] != "mkv"@[1]);
}

/// The command line tells the settings it carries: two settings (with their
/// displays and clip hooks) that give the same gpu-screen-recorder command
/// line agree in resolution, display, frame rate, buffer length, codec,
/// container, quality, hook and output folder. So a setting that changes
/// changes the command line.
pub proof fn law_command_line_tells_settings(s1: Settings, d1: Seq<char>, h1: Seq<char>, s2: Settings, d2: Seq<char>, h2: Seq<char>)
    requires
        recorder_args(s1, d1, h1) == recorder_args(s2, d2, h2),
    ensures
        s1.resolution == s2.resolution,
        d1 == d2,
        s1.frame_rate == s2.frame_rate,
        s1.buffer_length == s2.buffer_length,
        s1.codec == s2.codec,
        s1.container == s2.container,
        s1.quality == s2.quality,
        h1 == h2,
        s1.output_dir@ == s2.output_dir@,
{
    let a1 = recorder_args(s1, d1, h1);
    let a2 = recorder_args(s2, d2, h2);
    assert(a1[1] == a2[1]);
    assert(a1[3] == a2[3]);
    assert(a1[7] == a2[7]);
    assert(a1[9] == a2[9]);
    assert(a1[11] == a2[11]);
    assert(a1[13] == a2[13]);
    assert(a1[17] == a2[17]);
    assert(a1[23] == a2[23]);
    assert(a1[25] == a2[25]);
    lemma_cmd_words_differ();
    crate::text::lemma_decimal_reads_back(s1.buffer_length as nat);
    crate::text::lemma_decimal_reads_back(s2.buffer_length as nat);
}

/// What starting gives for a recorder that is running or not: the arguments
/// to spawn `gpu-screen-recorder` with, or why it is refused.
pub open spec fn start_outcome(running: bool, s: Settings, hook: Seq<char>) -> Result<Seq<Seq<char>>, RecorderError> {
    if running {
        Err(RecorderError::AlreadyRunning)
    } else {
        match s.display {
            None => Err(RecorderError::NoDisplay),
            Some(d) => Ok(recorder_args(s, d@, hook)),
        }
    }
}

/// A toggle step, with the arguments taken as text.
pub enum StepView<C> {
    Spawn(Seq<Seq<char>>),
    Stop(C),
}

/// What a toggle gives for a recorder holding `held`: the held process to
/// stop, or, when none is held, what starting gives.
pub open spec fn toggle_outcome<C>(held: Option<C>, s: Settings, hook: Seq<char>) -> Result<StepView<C>, RecorderError> {
    match held {
        Some(c) => Ok(StepView::Stop(c)),
        None => match start_outcome(false, s, hook) {
            Ok(a) => Ok(StepView::Spawn(a)),
            Err(e) => Err(e),
        },
    }
}

/// A toggle's result, with the arguments taken as text.
pub open spec fn step_view<C>(r: Result<ToggleStep<C>, RecorderError>) -> Result<StepView<C>, RecorderError> {
    match r {
        Ok(ToggleStep::Spawn(v)) => Ok(StepView::Spawn(views(v@))),
        Ok(ToggleStep::Stop(c)) => Ok(StepView::Stop(c)),
        Err(e) => Err(e),
    }
}

/// Whether the replay buffer runs after a toggle with this outcome, once the
/// application has attached the process it spawned for a `Spawn` step
/// (see [`Recorder::toggle`] and [`Recorder::attach`]).
pub open spec fn running_after<C>(out: Result<StepView<C>, RecorderError>) -> bool {
    out matches Ok(StepView::Spawn(_))
}

/// Toggling a recorder that runs nothing does what starting it does: the
/// same arguments to spawn, or the same refusal.
pub proof fn law_toggle_when_off_is_start<C>(s: Settings, hook: Seq<char>)
    ensures
        match start_outcome(false, s, hook) {
            Ok(a) => toggle_outcome::<C>(None, s, hook) == Ok::<StepView<C>, RecorderError>(StepView::Spawn(a)),
            Err(e) => toggle_outcome::<C>(None, s, hook) == Err::<StepView<C>, RecorderError>(e),
        },
{
}

/// Toggling flips whether the replay buffer runs: a running one stops, one
/// that is off runs once the spawned process is attached; a refused toggle
/// leaves it off.
pub proof fn law_toggle_flips<C>(held: Option<C>, s: Settings, hook: Seq<char>)
    ensures
        toggle_outcome(held, s, hook) is Ok ==> running_after(toggle_outcome(held, s, hook)) == (held is None),
        toggle_outcome(held, s, hook) is Err ==> !running_after(toggle_outcome(held, s, hook)) && held is None,
{
}

/// Holds the running recorder process, if any. `C` is the handle of the
/// child process that the application spawned.
pub struct Recorder<C> {
    process: Option<C>,
}

impl<C> Recorder<C> {
    /// The process held.
    pub closed spec fn held(&self) -> Option<C> {
        self.process
    }

    /// Whether a recorder process is held.
    pub open spec fn running(&self) -> bool {
        self.held() is Some
    }

    /// A recorder that holds no process.
    pub fn new() -> (r: Recorder<C>)
        ensures
            r.held() is None,
    {
        Recorder { process: None }
    }

    /// Whether a recorder process is held.
    pub fn is_active(&self) -> (b: bool)
        ensures
            b == self.running(),
    {
        self.process.is_some()
    }

    /// The arguments to start `gpu-screen-recorder` with, where `hook_path`
    /// is the program it runs for each saved clip. Refused while a process
    /// is held, or when the settings name no display.
    pub fn start(&self, settings: &Settings, hook_path: &str) -> (r: Result<Vec<String>, RecorderError>)
        ensures
            match r {
                Ok(v) => start_outcome(self.running(), *settings, hook_path@) == Ok::<Seq<Seq<char>>, RecorderError>(views(v@)),
                Err(e) => start_outcome(self.running(), *settings, hook_path@) == Err::<Seq<Seq<char>>, RecorderError>(e),
            },
    {
        if self.process.is_some() {
            return Err(RecorderError::AlreadyRunning);
        }
        let display = match &settings.display {
            Some(d) => d,
            None => return Err(RecorderError::NoDisplay),
        };
        let mut v: Vec<String> = Vec::new();
        v.push("-s".to_string());
        v.push(settings.resolution.cmd().to_string());
        v.push("-w".to_string());
        v.push(display.clone());
        v.push("-v".to_string());
        v.push("no".to_string());
        v.push("-f".to_string());
        v.push(settings.frame_rate.cmd().to_string());
        v.push("-r".to_string());
        v.push(crate::text::u64_to_string(settings.buffer_length));
        v.push("-k".to_string());
        v.push(settings.codec.cmd().to_string());
        v.push("-c".to_string());
        v.push(settings.container.cmd().to_string());
        v.push("-a".to_string());
        v.push("default_output|default_input".to_string());
        v.push("-q".to_string());
        v.push(settings.quality.cmd().to_string());
        v.push("-bm".to_string());
        v.push("qp".to_string());
        v.push("-encoder".to_string());
        v.push("gpu".to_string());
        v.push("-sc".to_string());
        v.push(hook_path.to_string());
        v.push("-o".to_string());
        v.push(settings.output_dir.clone());
        assert(views(v@) =~= recorder_args(*settings, display@, hook_path@));
        Ok(v)
    }

    /// Holds the process that the application spawned.
    pub fn attach(&mut self, child: C)
        ensures
            final(self).held() == Some(child),
    {
        self.process = Some(child);
    }

    /// Gives up the held process, for the application to interrupt it.
    pub fn stop(&mut self) -> (r: Result<C, RecorderError>)
        ensures
            final(self).held() is None,
            match old(self).held() {
                Some(c) => r == Ok::<C, RecorderError>(c),
                None => r == Err::<C, RecorderError>(RecorderError::NotRunning),
            },
    {
        match self.process.take() {
            Some(c) => Ok(c),
            None => Err(RecorderError::NotRunning),
        }
    }

    /// The process to signal for saving a clip; none when the replay buffer
    /// is off, in which case saving a clip does nothing.
    pub fn clip(&self) -> (r: Option<&C>)
        ensures
            match self.held() {
                Some(c) => r == Some(&c),
                None => r is None,
            },
    {
        self.process.as_ref()
    }

    /// Starts the replay buffer when it is off, stops it when it is on.
    /// Starting leaves the recorder as it was until the spawned child is
    /// attached; stopping hands the held process back.
    pub fn toggle(&mut self, settings: &Settings, hook_path: &str) -> (r: Result<ToggleStep<C>, RecorderError>)
        ensures
            final(self).held() is None,
            step_view(r) == toggle_outcome(old(self).held(), *settings, hook_path@),
    {
        if self.process.is_none() {
            match self.start(settings, hook_path) {
                Ok(args) => Ok(ToggleStep::Spawn(args)),
                Err(e) => Err(e),
            }
        } else {
            match self.stop() {
                Ok(c) => Ok(ToggleStep::Stop(c)),
                Err(e) => Err(e),
            }
        }
    }
}

/// The body of the notification sent after toggling.
pub fn toggle_notification(active: bool) -> (s: &'static str)
    ensures
        s@ == if active {
            "Clipping enabled."@
        } else {
            "Clipping disabled."@
        },
{
    if active {
        "Clipping enabled."
    } else {
        "Clipping disabled."
    }
}

/// How asking `gpu-screen-recorder --version` went.
#[derive(Debug)]
pub enum VersionProbe {
    /// the program is not installed
    NotFound,
    /// it ran and exited unsuccessfully
    Failed,
    /// it ran and printed these bytes
    Output(Vec<u8>),
}

/// The text of `bytes` decoded as UTF-8 with invalid sequences replaced, as
/// `String::from_utf8_lossy` gives it.
pub uninterp spec fn utf8_lossy(bytes: Seq<u8>) -> Seq<char>;

/// Calls `String::from_utf8_lossy`; its text is given a name, which depends
/// on the bytes alone.
#[verifier::external_body]
fn decode_lossy(bytes: &[u8]) -> (s: String)
    ensures
        s@ == utf8_lossy(bytes@),
{
    String::from_utf8_lossy(bytes).into_owned()
}

/// The version line printed for the recorder.
pub fn version_line(probe: &VersionProbe) -> (s: String)
    ensures
        s@ == match probe {
            VersionProbe::NotFound => "gpu-screen-recorder not found!"@,
            VersionProbe::Failed => "gpu-screen-recorder 0.0.0 (invalid output)"@,
            VersionProbe::Output(b) => "gpu-screen-recorder "@ + trim_spec(utf8_lossy(b@)),
        },
{
    match probe {
        VersionProbe::NotFound => "gpu-screen-recorder not found!".to_string(),
        VersionProbe::Failed => "gpu-screen-recorder 0.0.0 (invalid output)".to_string(),
        VersionProbe::Output(b) => {
            let text = decode_lossy(b.as_slice());
            let t = trim(text.as_str());
            let mut out: Vec<char> = Vec::new();
            extend_str(&mut out, "gpu-screen-recorder ");
            crate::text::extend_chars(&mut out, t.as_slice());
            string_from_chars(out.as_slice())
        },
    }
}

} // verus!
