//! The dialogs of the clip library window: their messages, their answers,
//! and what each message makes the dialog do.
use vstd::prelude::*;
use crate::schema::{Clip, Codec, Container, FrameRate, ObjectId, Quality, Resolution};
use crate::text::{chars_of, string_from_chars};
use humansize::{format_size, WINDOWS};

verus! {

/// Messages of a yes/no dialog.
#[derive(Debug)]
pub enum ConfirmDialogMessage {
    Show,
    Hide,
    Response(ConfirmDialogResponse),
}

/// The answer of a yes/no dialog.
#[derive(Debug, Clone, Copy, PartialEq, Eq, Structural)]
pub enum ConfirmDialogResponse {
    Confirm,
    Cancel,
}

/// Messages of a text input dialog.
#[derive(Debug)]
pub enum InputDialogMessage {
    /// open with this text in the entry
    Show(String),
    Hide,
    Response(InputDialogResponse),
}

/// The answer of a text input dialog.
#[derive(Debug)]
pub enum InputDialogResponse {
    Confirm(String),
    Cancel,
}

/// Messages of a dialog that offers a list of options.
#[derive(Debug)]
pub enum SelectDialogMessage {
    /// open with these options, the first one selected
    Show(Vec<String>),
    Hide,
    Response(SelectDialogResponse),
    /// the confirm button was pressed
    Confirm,
}

/// The answer of a selection dialog: the position of the chosen option.
#[derive(Debug, Clone, Copy, PartialEq, Eq, Structural)]
pub enum SelectDialogResponse {
    Confirm(u64),
    Cancel,
}

/// What the properties dialog shows of a clip.
#[derive(Debug)]
pub struct ClipProperties {
    pub id: ObjectId,
    pub title: String,
    pub thumbnail: String,
    pub absolute_path: String,
    pub game: Option<String>,
    pub size: u64,
    pub created: u64,
    pub duration: u64,
    pub quality: Quality,
    pub resolution: Resolution,
    pub codec: Codec,
    pub container: Container,
    pub fps: FrameRate,
}

/// Messages of the properties dialog.
#[derive(Debug)]
pub enum PropertiesDialogMessage {
    Show(ClipProperties),
    CopyClipPath,
    OpenClip,
}

/// What a dialog does on a message.
#[derive(Debug)]
pub enum DialogStep<R> {
    /// present itself over the window
    Present,
    /// close
    Close,
    /// close and answer with `R`
    CloseWith(R),
}

/// A yes/no dialog presents itself on `Show`, closes on `Hide`, and closes
/// with the answer on `Response`.
pub fn confirm_dialog_step(msg: ConfirmDialogMessage) -> (r: DialogStep<ConfirmDialogResponse>)
    ensures
        match msg {
            ConfirmDialogMessage::Show => r is Present,
            ConfirmDialogMessage::Hide => r is Close,
            ConfirmDialogMessage::Response(a) => r matches DialogStep::CloseWith(b) && a == b,
        },
{
    match msg {
        ConfirmDialogMessage::Show => DialogStep::Present,
        ConfirmDialogMessage::Hide => DialogStep::Close,
        ConfirmDialogMessage::Response(a) => DialogStep::CloseWith(a),
    }
}

/// A text input dialog keeps the text it is shown with for its entry and
/// presents itself; it closes on `Hide`, and closes with the answer on `Response`.
pub fn input_dialog_step(initial: &mut String, msg: InputDialogMessage) -> (r: DialogStep<InputDialogResponse>)
    ensures
        match msg {
            InputDialogMessage::Show(t) => r is Present && final(initial)@ == t@,
            InputDialogMessage::Hide => r is Close && final(initial)@ == old(initial)@,
            InputDialogMessage::Response(a) => r matches DialogStep::CloseWith(b) && a == b
                && final(initial)@ == old(initial)@,
        },
{
    match msg {
        InputDialogMessage::Show(t) => {
            *initial = t;
            DialogStep::Present
        },
        InputDialogMessage::Hide => DialogStep::Close,
        InputDialogMessage::Response(a) => DialogStep::CloseWith(a),
    }
}

/// What a selection dialog does on a message.
#[derive(Debug)]
pub enum SelectStep {
    /// show these options with the first selected, and present itself
    Present(Vec<String>),
    Close,
    CloseWith(SelectDialogResponse),
    /// feed itself this answer
    Answer(SelectDialogResponse),
}

/// A selection dialog shows its options with the first one selected; its
/// confirm button answers with the selected position.
pub fn select_dialog_step(selected: u64, msg: SelectDialogMessage) -> (r: SelectStep)
    ensures
        match msg {
            SelectDialogMessage::Show(o) => r matches SelectStep::Present(p) && p@ == o@,
            SelectDialogMessage::Hide => r is Close,
            SelectDialogMessage::Response(a) => r matches SelectStep::CloseWith(b) && a == b,
            SelectDialogMessage::Confirm => r matches SelectStep::Answer(b) && b
                == SelectDialogResponse::Confirm(selected),
        },
{
    match msg {
        SelectDialogMessage::Show(o) => SelectStep::Present(o),
        SelectDialogMessage::Hide => SelectStep::Close,
        SelectDialogMessage::Response(a) => SelectStep::CloseWith(a),
        SelectDialogMessage::Confirm => SelectStep::Answer(SelectDialogResponse::Confirm(selected)),
    }
}

/// What the properties dialog shows for a clip: its record, with its
/// thumbnail file, location, game name and size on disk; an unknown duration
/// shows as 0.
pub fn clip_properties(
    clip: Clip,
    thumbnail: String,
    absolute_path: String,
    game: Option<String>,
    size: u64,
) -> (p: ClipProperties)
    ensures
        p.id == clip.id,
        p.title == clip.title,
        p.thumbnail == thumbnail,
        p.absolute_path == absolute_path,
        p.game == game,
        p.size == size,
        p.created == clip.created,
        p.duration == match clip.duration_secs {
            Some(d) => d,
            None => 0,
        },
        p.quality == clip.quality,
        p.resolution == clip.resolution,
        p.codec == clip.codec,
        p.container == clip.container,
        p.fps == clip.fps,
{
    ClipProperties {
        id: clip.id,
        title: clip.title,
        thumbnail,
        absolute_path,
        game,
        size,
        created: clip.created,
        duration: match clip.duration_secs {
            Some(d) => d,
            None => 0,
        },
        quality: clip.quality,
        resolution: clip.resolution,
        codec: clip.codec,
        container: clip.container,
        fps: clip.fps,
    }
}

/// What `humansize::format_size` writes for `bytes` with its `WINDOWS`
/// options.
pub uninterp spec fn windows_size(bytes: u64) -> Seq<char>;

/// Calls `humansize::format_size` with the `WINDOWS` options: the size in
/// steps of 1024 with up to two decimals, a space and a unit out of `B`,
/// `kB`, `MB`, … (the crate computes it in floating point). The text is
/// given a name and not spelled out.
#[verifier::external_body]
fn format_windows_size(bytes: u64) -> (s: String)
    ensures
        s@ == windows_size(bytes),
{
    format_size(bytes, WINDOWS)
}

/// `c` with an ASCII capital lowered.
pub open spec fn lower_ascii(c: char) -> char {
    if 'A' <= c && c <= 'Z' {
        ((c as u32) + 32) as char
    } else {
        c
    }
}

/// `s` with its ASCII capitals lowered.
pub open spec fn lowered(s: Seq<char>) -> Seq<char> {
    s.map_values(|c: char| lower_ascii(c))
}

fn lower_char(c: char) -> (r: char)
    ensures
        r == lower_ascii(c),
{
    if 'A' <= c && c <= 'Z' {
        let b: u8 = (c as u8) + 32;
        b as char
    } else {
        c
    }
}

/// The size line of the properties dialog: the size as humansize writes it
/// with Windows units, lowered (`1.5 KB` becomes `1.5 kb`; the only letters
/// there are ASCII ones).
pub fn size_label(bytes: u64) -> (s: String)
    ensures
        s@ == lowered(windows_size(bytes)),
{
    let raw = format_windows_size(bytes);
    let v = chars_of(raw.as_str());
    let mut out: Vec<char> = Vec::new();
    let mut i: usize = 0;
    while i < v.len()
        invariant
            i <= v@.len(),
            v@ == windows_size(bytes),
            out@ == lowered(v@.take(i as int)),
        decreases v.len() - i,
    {
        out.push(lower_char(v[i]));
        i = i + 1;
        assert(out@ =~= lowered(v@.take(i as int)));
    }
    assert(v@.take(v@.len() as int) =~= v@);
    string_from_chars(out.as_slice())
}

/// The game line of the properties dialog.
pub fn game_label(game: &Option<String>) -> (s: &str)
    ensures
        match game {
            Some(g) => s@ == g@,
            None => s@ == "Unknown"@,
        },
{
    match game {
        Some(g) => g.as_str(),
        None => "Unknown",
    }
}

} // verus!
