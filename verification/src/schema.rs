//! The records that the clip library stores: clips, games, settings and the
//! capture options that a user can pick.
use vstd::prelude::*;
use crate::paths::{join_path, join_spec, file_url_of, file_url};

verus! {

/// Key of a record in one of the library's tables.
pub type ObjectId = u64;

/// Capture resolution handed to the recorder.
#[derive(Debug, Clone, Copy, PartialEq, Eq, Structural)]
pub enum Resolution {
    P1440,
    P1080,
    P720,
}

/// Video codec handed to the recorder.
#[derive(Debug, Clone, Copy, PartialEq, Eq, Structural)]
pub enum Codec {
    H264,
    AV1,
    HEVC,
}

/// File container of a saved clip.
#[derive(Debug, Clone, Copy, PartialEq, Eq, Structural)]
pub enum Container {
    MP4,
    MKV,
}

/// Encoding quality preset.
#[derive(Debug, Clone, Copy, PartialEq, Eq, Structural)]
pub enum Quality {
    Medium,
    High,
    VeryHigh,
    Ultra,
}

/// Capture frame rate.
#[derive(Debug, Clone, Copy, PartialEq, Eq, Structural)]
pub enum FrameRate {
    Fps24,
    Fps30,
    Fps60,
    Fps120,
    Fps144,
}

impl Resolution {
    /// Position of the variant in declaration order.
    pub open spec fn spec_index(self) -> nat {
        match self {
            Resolution::P1440 => 0,
            Resolution::P1080 => 1,
            Resolution::P720 => 2,
        }
    }

    /// The argument that the recorder takes for this resolution.
    pub open spec fn spec_cmd(self) -> Seq<char> {
        match self {
            Resolution::P1440 => "2560x1440"@,
            Resolution::P1080 => "1920x1080"@,
            Resolution::P720 => "1280x720"@,
        }
    }

    /// The label shown to the user.
    pub open spec fn spec_display(self) -> Seq<char> {
        match self {
            Resolution::P1440 => "1440p"@,
            Resolution::P1080 => "1080p"@,
            Resolution::P720 => "720p"@,
        }
    }

    pub open spec fn spec_from_repr(i: int) -> Option<Resolution> {
        if i == 0 {
            Some(Resolution::P1440)
        } else if i == 1 {
            Some(Resolution::P1080)
        } else if i == 2 {
            Some(Resolution::P720)
        } else {
            None
        }
    }

    /// Position of the variant in declaration order.
    pub fn index(&self) -> (i: usize)
        ensures
            i == self.spec_index(),
    {
        match self {
            Resolution::P1440 => 0,
            Resolution::P1080 => 1,
            Resolution::P720 => 2,
        }
    }

    /// The variant at position `i` in declaration order, if there is one.
    pub fn from_repr(i: usize) -> (r: Option<Resolution>)
        ensures
            r == Self::spec_from_repr(i as int),
    {
        if i == 0 {
            Some(Resolution::P1440)
        } else if i == 1 {
            Some(Resolution::P1080)
        } else if i == 2 {
            Some(Resolution::P720)
        } else {
            None
        }
    }

    /// The argument that the recorder takes for this resolution.
    pub fn cmd(&self) -> (s: &'static str)
        ensures
            s@ == self.spec_cmd(),
    {
        match self {
            Resolution::P1440 => "2560x1440",
            Resolution::P1080 => "1920x1080",
            Resolution::P720 => "1280x720",
        }
    }

    /// The label shown to the user.
    pub fn display(&self) -> (s: &'static str)
        ensures
            s@ == self.spec_display(),
    {
        match self {
            Resolution::P1440 => "1440p",
            Resolution::P1080 => "1080p",
            Resolution::P720 => "720p",
        }
    }

    /// All variants, in declaration order.
    pub fn all() -> (v: Vec<Resolution>)
        ensures
            v@ == seq![Resolution::P1440, Resolution::P1080, Resolution::P720],
    {
        vec![Resolution::P1440, Resolution::P1080, Resolution::P720]
    }
}

impl Default for Resolution {
    fn default() -> (r: Resolution)
        ensures
            r == Resolution::P1080,
    {
        Resolution::P1080
    }
}

impl Codec {
    pub open spec fn spec_index(self) -> nat {
        match self {
            Codec::H264 => 0,
            Codec::AV1 => 1,
            Codec::HEVC => 2,
        }
    }

    pub open spec fn spec_cmd(self) -> Seq<char> {
        match self {
            Codec::H264 => "h264"@,
            Codec::AV1 => "av1"@,
            Codec::HEVC => "hevc"@,
        }
    }

    pub open spec fn spec_display(self) -> Seq<char> {
        match self {
            Codec::H264 => "H.264"@,
            Codec::AV1 => "AV1"@,
            Codec::HEVC => "HEVC"@,
        }
    }

    pub open spec fn spec_from_repr(i: int) -> Option<Codec> {
        if i == 0 {
            Some(Codec::H264)
        } else if i == 1 {
            Some(Codec::AV1)
        } else if i == 2 {
            Some(Codec::HEVC)
        } else {
            None
        }
    }

    /// Position of the variant in declaration order.
    pub fn index(&self) -> (i: usize)
        ensures
            i == self.spec_index(),
    {
        match self {
            Codec::H264 => 0,
            Codec::AV1 => 1,
            Codec::HEVC => 2,
        }
    }

    /// The variant at position `i` in declaration order, if there is one.
    pub fn from_repr(i: usize) -> (r: Option<Codec>)
        ensures
            r == Self::spec_from_repr(i as int),
    {
        if i == 0 {
            Some(Codec::H264)
        } else if i == 1 {
            Some(Codec::AV1)
        } else if i == 2 {
            Some(Codec::HEVC)
        } else {
            None
        }
    }

    /// The argument that the recorder takes for this codec.
    pub fn cmd(&self) -> (s: &'static str)
        ensures
            s@ == self.spec_cmd(),
    {
        match self {
            Codec::H264 => "h264",
            Codec::AV1 => "av1",
            Codec::HEVC => "hevc",
        }
    }

    /// The label shown to the user.
    pub fn display(&self) -> (s: &'static str)
        ensures
            s@ == self.spec_display(),
    {
        match self {
            Codec::H264 => "H.264",
            Codec::AV1 => "AV1",
            Codec::HEVC => "HEVC",
        }
    }

    /// All variants, in declaration order.
    pub fn all() -> (v: Vec<Codec>)
        ensures
            v@ == seq![Codec::H264, Codec::AV1, Codec::HEVC],
    {
        vec![Codec::H264, Codec::AV1, Codec::HEVC]
    }
}

impl Default for Codec {
    fn default() -> (r: Codec)
        ensures
            r == Codec::H264,
    {
        Codec::H264
    }
}

impl Container {
    pub open spec fn spec_index(self) -> nat {
        match self {
            Container::MP4 => 0,
            Container::MKV => 1,
        }
    }

    pub open spec fn spec_cmd(self) -> Seq<char> {
        match self {
            Container::MP4 => "mp4"@,
            Container::MKV => "mkv"@,
        }
    }

    pub open spec fn spec_display(self) -> Seq<char> {
        match self {
            Container::MP4 => "MP4"@,
            Container::MKV => "MKV"@,
        }
    }

    pub open spec fn spec_from_repr(i: int) -> Option<Container> {
        if i == 0 {
            Some(Container::MP4)
        } else if i == 1 {
            Some(Container::MKV)
        } else {
            None
        }
    }

    /// Position of the variant in declaration order.
    pub fn index(&self) -> (i: usize)
        ensures
            i == self.spec_index(),
    {
        match self {
            Container::MP4 => 0,
            Container::MKV => 1,
        }
    }

    /// The variant at position `i` in declaration order, if there is one.
    pub fn from_repr(i: usize) -> (r: Option<Container>)
        ensures
            r == Self::spec_from_repr(i as int),
    {
        if i == 0 {
            Some(Container::MP4)
        } else if i == 1 {
            Some(Container::MKV)
        } else {
            None
        }
    }

    /// The argument that the recorder takes for this container.
    pub fn cmd(&self) -> (s: &'static str)
        ensures
            s@ == self.spec_cmd(),
    {
        match self {
            Container::MP4 => "mp4",
            Container::MKV => "mkv",
        }
    }

    /// The label shown to the user.
    pub fn display(&self) -> (s: &'static str)
        ensures
            s@ == self.spec_display(),
    {
        match self {
            Container::MP4 => "MP4",
            Container::MKV => "MKV",
        }
    }

    /// All variants, in declaration order.
    pub fn all() -> (v: Vec<Container>)
        ensures
            v@ == seq![Container::MP4, Container::MKV],
    {
        vec![Container::MP4, Container::MKV]
    }
}

impl Default for Container {
    fn default() -> (r: Container)
        ensures
            r == Container::MP4,
    {
        Container::MP4
    }
}

impl Quality {
    pub open spec fn spec_index(self) -> nat {
        match self {
            Quality::Medium => 0,
            Quality::High => 1,
            Quality::VeryHigh => 2,
            Quality::Ultra => 3,
        }
    }

    pub open spec fn spec_cmd(self) -> Seq<char> {
        match self {
            Quality::Medium => "medium"@,
            Quality::High => "high"@,
            Quality::VeryHigh => "very_high"@,
            Quality::Ultra => "ultra"@,
        }
    }

    pub open spec fn spec_display(self) -> Seq<char> {
        match self {
            Quality::Medium => "Medium"@,
            Quality::High => "High"@,
            Quality::VeryHigh => "Very High"@,
            Quality::Ultra => "Ultra"@,
        }
    }

    pub open spec fn spec_from_repr(i: int) -> Option<Quality> {
        if i == 0 {
            Some(Quality::Medium)
        } else if i == 1 {
            Some(Quality::High)
        } else if i == 2 {
            Some(Quality::VeryHigh)
        } else if i == 3 {
            Some(Quality::Ultra)
        } else {
            None
        }
    }

    /// Position of the variant in declaration order.
    pub fn index(&self) -> (i: usize)
        ensures
            i == self.spec_index(),
    {
        match self {
            Quality::Medium => 0,
            Quality::High => 1,
            Quality::VeryHigh => 2,
            Quality::Ultra => 3,
        }
    }

    /// The variant at position `i` in declaration order, if there is one.
    pub fn from_repr(i: usize) -> (r: Option<Quality>)
        ensures
            r == Self::spec_from_repr(i as int),
    {
        if i == 0 {
            Some(Quality::Medium)
        } else if i == 1 {
            Some(Quality::High)
        } else if i == 2 {
            Some(Quality::VeryHigh)
        } else if i == 3 {
            Some(Quality::Ultra)
        } else {
            None
        }
    }

    /// The argument that the recorder takes for this quality.
    pub fn cmd(&self) -> (s: &'static str)
        ensures
            s@ == self.spec_cmd(),
    {
        match self {
            Quality::Medium => "medium",
            Quality::High => "high",
            Quality::VeryHigh => "very_high",
            Quality::Ultra => "ultra",
        }
    }

    /// The label shown to the user.
    pub fn display(&self) -> (s: &'static str)
        ensures
            s@ == self.spec_display(),
    {
        match self {
            Quality::Medium => "Medium",
            Quality::High => "High",
            Quality::VeryHigh => "Very High",
            Quality::Ultra => "Ultra",
        }
    }

    /// All variants, in declaration order.
    pub fn all() -> (v: Vec<Quality>)
        ensures
            v@ == seq![Quality::Medium, Quality::High, Quality::VeryHigh, Quality::Ultra],
    {
        vec![Quality::Medium, Quality::High, Quality::VeryHigh, Quality::Ultra]
    }
}

impl Default for Quality {
    fn default() -> (r: Quality)
        ensures
            r == Quality::High,
    {
        Quality::High
    }
}

impl FrameRate {
    pub open spec fn spec_index(self) -> nat {
        match self {
            FrameRate::Fps24 => 0,
            FrameRate::Fps30 => 1,
            FrameRate::Fps60 => 2,
            FrameRate::Fps120 => 3,
            FrameRate::Fps144 => 4,
        }
    }

    pub open spec fn spec_cmd(self) -> Seq<char> {
        match self {
            FrameRate::Fps24 => "24"@,
            FrameRate::Fps30 => "30"@,
            FrameRate::Fps60 => "60"@,
            FrameRate::Fps120 => "120"@,
            FrameRate::Fps144 => "144"@,
        }
    }

    /// For frame rates the label and the recorder argument are the same text.
    pub open spec fn spec_display(self) -> Seq<char> {
        self.spec_cmd()
    }

    pub open spec fn spec_from_repr(i: int) -> Option<FrameRate> {
        if i == 0 {
            Some(FrameRate::Fps24)
        } else if i == 1 {
            Some(FrameRate::Fps30)
        } else if i == 2 {
            Some(FrameRate::Fps60)
        } else if i == 3 {
            Some(FrameRate::Fps120)
        } else if i == 4 {
            Some(FrameRate::Fps144)
        } else {
            None
        }
    }

    /// Position of the variant in declaration order.
    pub fn index(&self) -> (i: usize)
        ensures
            i == self.spec_index(),
    {
        match self {
            FrameRate::Fps24 => 0,
            FrameRate::Fps30 => 1,
            FrameRate::Fps60 => 2,
            FrameRate::Fps120 => 3,
            FrameRate::Fps144 => 4,
        }
    }

    /// The variant at position `i` in declaration order, if there is one.
    pub fn from_repr(i: usize) -> (r: Option<FrameRate>)
        ensures
            r == Self::spec_from_repr(i as int),
    {
        if i == 0 {
            Some(FrameRate::Fps24)
        } else if i == 1 {
            Some(FrameRate::Fps30)
        } else if i == 2 {
            Some(FrameRate::Fps60)
        } else if i == 3 {
            Some(FrameRate::Fps120)
        } else if i == 4 {
            Some(FrameRate::Fps144)
        } else {
            None
        }
    }

    /// The argument that the recorder takes for this frame rate.
    pub fn cmd(&self) -> (s: &'static str)
        ensures
            s@ == self.spec_cmd(),
    {
        match self {
            FrameRate::Fps24 => "24",
            FrameRate::Fps30 => "30",
            FrameRate::Fps60 => "60",
            FrameRate::Fps120 => "120",
            FrameRate::Fps144 => "144",
        }
    }

    /// The label shown to the user.
    pub fn display(&self) -> (s: &'static str)
        ensures
            s@ == self.spec_display(),
    {
        match self {
            FrameRate::Fps24 => "24",
            FrameRate::Fps30 => "30",
            FrameRate::Fps60 => "60",
            FrameRate::Fps120 => "120",
            FrameRate::Fps144 => "144",
        }
    }

    /// All variants, in declaration order.
    pub fn all() -> (v: Vec<FrameRate>)
        ensures
            v@ == seq![
                FrameRate::Fps24,
                FrameRate::Fps30,
                FrameRate::Fps60,
                FrameRate::Fps120,
                FrameRate::Fps144,
            ],
    {
        vec![FrameRate::Fps24, FrameRate::Fps30, FrameRate::Fps60, FrameRate::Fps120, FrameRate::Fps144]
    }
}

impl Default for FrameRate {
    fn default() -> (r: FrameRate)
        ensures
            r == FrameRate::Fps60,
    {
        FrameRate::Fps60
    }
}

/// Picking a variant by its position gives that variant back, for every option type.
pub proof fn lemma_from_repr_index(
    r: Resolution,
    c: Codec,
    k: Container,
    q: Quality,
    f: FrameRate,
)
    ensures
        Resolution::spec_from_repr(r.spec_index() as int) == Some(r),
        Codec::spec_from_repr(c.spec_index() as int) == Some(c),
        Container::spec_from_repr(k.spec_index() as int) == Some(k),
        Quality::spec_from_repr(q.spec_index() as int) == Some(q),
        FrameRate::spec_from_repr(f.spec_index() as int) == Some(f),
{
}

/// A saved clip. `path` is relative to the library folder (the settings' `output_dir`).
#[derive(Debug)]
pub struct Clip {
    pub id: ObjectId,
    pub game: Option<ObjectId>,
    pub title: String,
    pub path: String,
    pub created: u64,
    pub duration_secs: Option<u64>,
    pub codec: Codec,
    pub container: Container,
    pub resolution: Resolution,
    pub quality: Quality,
    pub fps: FrameRate,
    pub favorited: bool,
}

impl Clip {
    /// The clip's location on disk: `path` joined onto the library folder.
    pub fn absolute_path(&self, library: &str) -> (p: String)
        ensures
            p@ == join_spec(library@, self.path@),
    {
        join_path(library, self.path.as_str())
    }

    /// The `file://` URI of the clip; an error when the joined path is not absolute.
    pub fn uri(&self, library: &str) -> (r: Result<String, ()>)
        ensures
            r is Ok <==> {
                let p = join_spec(library@, self.path@);
                p.len() > 0 && p[0] == '/'
            },
            r matches Ok(u) ==> u@ == file_url(join_spec(library@, self.path@)),
    {
        let p = self.absolute_path(library);
        file_url_of(p.as_str())
    }
}

/// A game that at least one clip was tagged with; `game_id` indexes the
/// catalog of identifiable games.
#[derive(Debug, Clone, Copy, PartialEq, Eq, Structural)]
pub struct Game {
    pub id: ObjectId,
    pub game_id: ObjectId,
}

impl Default for Game {
    fn default() -> (g: Game)
        ensures
            g == (Game { id: 0, game_id: 0 }),
    {
        Game { id: 0, game_id: 0 }
    }
}

/// A shell command that the user can run on a clip from its context menu.
#[derive(Debug)]
pub struct CustomAction {
    pub id: ObjectId,
    pub name: String,
    pub command: String,
}

/// The user's settings.
#[derive(Debug)]
pub struct Settings {
    pub buffer_length: u64,
    pub codec: Codec,
    pub resolution: Resolution,
    pub container: Container,
    pub display: Option<String>,
    pub frame_rate: FrameRate,
    pub quality: Quality,
    pub output_dir: String,
    pub show_end_title_buttons: bool,
    pub notifications: bool,
    pub sound_feedback: bool,
    pub custom_actions: Vec<CustomAction>,
}

impl Settings {
    /// The default settings, saving clips into `output_dir`.
    pub fn with_output_dir(output_dir: String) -> (s: Settings)
        ensures
            s.buffer_length == 60,
            s.codec == Codec::H264,
            s.resolution == Resolution::P1080,
            s.container == Container::MP4,
            s.quality == Quality::High,
            s.frame_rate == FrameRate::Fps60,
            s.display is None,
            s.output_dir@ == output_dir@,
            s.show_end_title_buttons,
            !s.notifications,
            s.sound_feedback,
            s.custom_actions@.len() == 0,
    {
        Settings {
            buffer_length: 60,
            codec: Codec::default(),
            resolution: Resolution::default(),
            container: Container::default(),
            quality: Quality::default(),
            frame_rate: FrameRate::default(),
            display: None,
            output_dir,
            show_end_title_buttons: true,
            notifications: false,
            sound_feedback: true,
            custom_actions: Vec::new(),
        }
    }
}

} // verus!
