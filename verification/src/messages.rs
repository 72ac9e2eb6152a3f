//! The messages of the clip library window, and where other parts of the
//! application feed them in.
use vstd::prelude::*;
use crate::dialogs::{ConfirmDialogResponse, InputDialogResponse, SelectDialogResponse};
use crate::order::SortOrder;
use crate::protocol::SocketCommand;
use crate::schema::{CustomAction, ObjectId};

verus! {

/// A message of the clip library window.
#[derive(Debug)]
pub enum Message {
    Void,
    LoadSettings,
    Close,
    ShowWindow,
    Exit,
    ShowAbout,
    Init,
    Error(String),
    LoadClips,
    LoadGames,
    SearchChanged(String),
    Search(String),
    /// the game chip at this position was selected
    GameSelected(usize),
    GameDeselected,
    /// the recorder saved a clip at this path
    ClipReceived(String),
    SaveClip,
    ToggleClipping,
    PickOutputDir,
    ClearThumbnailCache,
    DeleteDb,
    DeleteDbConfirm,
    SetOutputDir(String),
    DeleteClips,
    DeleteClipsConfirm,
    RenameClips,
    RenameClipsConfirm(String),
    OpenClipFolder,
    OpenClipId(ObjectId),
    OpenClips,
    OpenClipProperties,
    SelectGame,
    SelectGameConfirm(ObjectId),
    F2Pressed,
    DelPressed,
    EscapePressed,
    SetSortOrder(SortOrder, bool),
    AddCustomAction,
    EditCustomAction(ObjectId),
    EditCustomActionConfirm(CustomAction),
    DeleteCustomAction(ObjectId),
}

/// The window's message for a control-socket command that it handles; the
/// dump commands are answered by the socket listener itself.
pub fn socket_message(c: SocketCommand) -> (m: Option<Message>)
    ensures
        match c {
            SocketCommand::SaveClip => m matches Some(Message::SaveClip),
            SocketCommand::ToggleClipping => m matches Some(Message::ToggleClipping),
            _ => m is None,
        },
{
    match c {
        SocketCommand::SaveClip => Some(Message::SaveClip),
        SocketCommand::ToggleClipping => Some(Message::ToggleClipping),
        _ => None,
    }
}

/// The global shortcuts that the window binds: id and description.
pub fn shortcuts() -> (v: Vec<(&'static str, &'static str)>)
    ensures
        v@.len() == 2,
        v@[0].0@ == "clip"@ && v@[0].1@ == "Save a clip"@,
        v@[1].0@ == "toggle-clipping"@ && v@[1].1@ == "Toggle screen recording for clipping"@,
{
    vec![("clip", "Save a clip"), ("toggle-clipping", "Toggle screen recording for clipping")]
}

/// The message for an activated global shortcut; unknown ids are ignored.
pub fn shortcut_message(id: &str) -> (m: Option<Message>)
    ensures
        id@ == "clip"@ ==> m matches Some(Message::SaveClip),
        id@ == "toggle-clipping"@ ==> m matches Some(Message::ToggleClipping),
        id@ != "clip"@ && id@ != "toggle-clipping"@ ==> m is None,
{
    proof {
        reveal_strlit("clip");
        reveal_strlit("toggle-clipping");
    }
    let v = crate::text::chars_of(id);
    let clip = crate::text::chars_of("clip");
    let toggle = crate::text::chars_of("toggle-clipping");
    if v.len() == clip.len() && crate::text::starts_with_chars(&v, &clip) {
        assert(v@.subrange(0, clip@.len() as int) =~= v@);
        Some(Message::SaveClip)
    } else if v.len() == toggle.len() && crate::text::starts_with_chars(&v, &toggle) {
        assert(v@.subrange(0, toggle@.len() as int) =~= v@);
        Some(Message::ToggleClipping)
    } else {
        proof {
            if v@ == clip@ {
                assert(v@.subrange(0, clip@.len() as int) =~= v@);
            }
            if v@ == toggle@ {
                assert(v@.subrange(0, toggle@.len() as int) =~= v@);
            }
        }
        None
    }
}

/// The message for the answer of the delete-clips dialog.
pub fn delete_clips_answer(a: ConfirmDialogResponse) -> (m: Message)
    ensures
        a == ConfirmDialogResponse::Confirm ==> m is DeleteClipsConfirm,
        a == ConfirmDialogResponse::Cancel ==> m is Void,
{
    match a {
        ConfirmDialogResponse::Confirm => Message::DeleteClipsConfirm,
        _ => Message::Void,
    }
}

/// The message for the answer of the delete-database dialog.
pub fn delete_db_answer(a: ConfirmDialogResponse) -> (m: Message)
    ensures
        a == ConfirmDialogResponse::Confirm ==> m is DeleteDbConfirm,
        a == ConfirmDialogResponse::Cancel ==> m is Void,
{
    match a {
        ConfirmDialogResponse::Confirm => Message::DeleteDbConfirm,
        _ => Message::Void,
    }
}

/// The message for the answer of the rename dialog.
pub fn rename_answer(a: InputDialogResponse) -> (m: Message)
    ensures
        match a {
            InputDialogResponse::Confirm(s) => m matches Message::RenameClipsConfirm(t) && t == s,
            InputDialogResponse::Cancel => m is Void,
        },
{
    match a {
        InputDialogResponse::Confirm(s) => Message::RenameClipsConfirm(s),
        _ => Message::Void,
    }
}

/// The message for the answer of the game dialog.
pub fn select_game_answer(a: SelectDialogResponse) -> (m: Message)
    ensures
        match a {
            SelectDialogResponse::Confirm(i) => m matches Message::SelectGameConfirm(j) && i == j,
            SelectDialogResponse::Cancel => m is Void,
        },
{
    match a {
        SelectDialogResponse::Confirm(i) => Message::SelectGameConfirm(i),
        _ => Message::Void,
    }
}

} // verus!
