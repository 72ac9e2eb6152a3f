use replayd::actions::{action_failure_message, ActionFailure};
use replayd::args::Args;
use replayd::dialogs::{
    clip_properties, confirm_dialog_step, game_label, input_dialog_step, select_dialog_step, ConfirmDialogMessage,
    ConfirmDialogResponse, DialogStep, InputDialogMessage, InputDialogResponse, SelectDialogMessage,
    SelectDialogResponse, SelectStep,
};
use replayd::hypr::{active_window, active_window_pid, split_at_char, HyprError};
use replayd::kde::kdotool_outcome;
use replayd::messages::{
    delete_clips_answer, delete_db_answer, rename_answer, select_game_answer, shortcut_message, shortcuts,
    socket_message, Message,
};
use replayd::protocol::SocketCommand;
use replayd::schema::{Clip, Codec, Container, FrameRate, Quality, Resolution};

const HYPR: &str = r#"{"address":"0x1","class":"cs2","title":"Counter-Strike 2","pid":4242,"fullscreen":2}"#;

#[test]
fn hyprland_active_window() {
    assert_eq!(active_window_pid(HYPR), Ok(4242));
    let w = active_window(HYPR, Some("cs2\0-steam\0-novid")).unwrap();
    assert_eq!(w.class, "cs2");
    assert_eq!(w.title, "Counter-Strike 2");
    assert!(w.fullscreen);
    assert_eq!(w.executable.as_deref(), Some("cs2"));
    assert_eq!(w.cmdline, vec!["-steam", "-novid"]);
    let w = active_window(HYPR, None).unwrap();
    assert_eq!(w.executable, None);
    assert!(w.cmdline.is_empty());
}

#[test]
fn hyprland_errors() {
    assert_eq!(active_window_pid("not json").unwrap_err(), HyprError::NotJson);
    assert_eq!(active_window_pid(r#"{"class":"x"}"#).unwrap_err(), HyprError::NoPid);
    assert_eq!(active_window(r#"{"title":"t","fullscreen":0}"#, None).unwrap_err(), HyprError::NoClass);
    assert_eq!(active_window(r#"{"class":"c","fullscreen":0}"#, None).unwrap_err(), HyprError::NoTitle);
    assert_eq!(active_window(r#"{"class":"c","title":"t"}"#, None).unwrap_err(), HyprError::NoFullscreen);
    let w = active_window(r#"{"class":"c","title":"t","fullscreen":1}"#, None).unwrap();
    assert!(!w.fullscreen);
    assert_eq!(HyprError::NoPid.message(), "no pid in window json");
}

#[test]
fn splitting_at_nul() {
    assert_eq!(split_at_char("a\0b", '\0'), vec!["a", "b"]);
    assert_eq!(split_at_char("", '\0'), vec![""]);
    assert_eq!(split_at_char("steam\n", '\0'), vec!["steam\n"]);
    assert_eq!(split_at_char("a\0", '\0'), vec!["a", ""]);
}

#[test]
fn kdotool_results() {
    let r = kdotool_outcome(false, Some(1), "", "no window");
    assert_eq!(r.result.unwrap_err().into_iter().collect::<String>(), "no window\n\nkdotool returned 1 exit-code");
    let r = kdotool_outcome(false, None, "", "");
    assert_eq!(r.result.unwrap_err().into_iter().collect::<String>(), "\n\nkdotool returned unknown exit-code");
    let r = kdotool_outcome(false, Some(-2), "", "");
    assert_eq!(r.result.unwrap_err().into_iter().collect::<String>(), "\n\nkdotool returned -2 exit-code");
    let r = kdotool_outcome(true, Some(0), "{abc}\n", " \n");
    assert_eq!(r.result.unwrap().into_iter().collect::<String>(), "{abc}\n");
    assert!(!r.warn);
    assert!(kdotool_outcome(true, Some(0), "", "warning").warn);
}

#[test]
fn custom_action_failures() {
    assert_eq!(action_failure_message("Upload", ActionFailure::ExitCode(3)), "Custom action `Upload` returned non-zero exit-code 3");
    assert_eq!(action_failure_message("Upload", ActionFailure::CoreDumped), "Custom action `Upload` core dumped");
    assert_eq!(action_failure_message("Upload", ActionFailure::Terminated(9)), "Custom action `Upload` was terminated from a SIGKILL");
    assert_eq!(action_failure_message("Upload", ActionFailure::Terminated(999)), "Custom action `Upload` was terminated");
    assert_eq!(action_failure_message("Upload", ActionFailure::Stopped(19)), "Custom action `Upload` was stopped from a SIGSTOP");
    assert_eq!(action_failure_message("Upload", ActionFailure::Stopped(999)), "Custom action `Upload` was stopped");
    assert_eq!(action_failure_message("Upload", ActionFailure::Unknown), "Custom action `Upload` failed for an unknown reason");
}

#[test]
fn dialog_steps() {
    assert!(matches!(confirm_dialog_step(ConfirmDialogMessage::Show), DialogStep::Present));
    assert!(matches!(confirm_dialog_step(ConfirmDialogMessage::Hide), DialogStep::Close));
    assert!(matches!(
        confirm_dialog_step(ConfirmDialogMessage::Response(ConfirmDialogResponse::Confirm)),
        DialogStep::CloseWith(ConfirmDialogResponse::Confirm)
    ));
    let mut initial = String::new();
    assert!(matches!(input_dialog_step(&mut initial, InputDialogMessage::Show("Old".to_string())), DialogStep::Present));
    assert_eq!(initial, "Old");
    match input_dialog_step(&mut initial, InputDialogMessage::Response(InputDialogResponse::Confirm("New".to_string()))) {
        DialogStep::CloseWith(InputDialogResponse::Confirm(s)) => assert_eq!(s, "New"),
        _ => panic!("expected an answer"),
    }
    assert!(matches!(
        select_dialog_step(2, SelectDialogMessage::Confirm),
        SelectStep::Answer(SelectDialogResponse::Confirm(2))
    ));
    match select_dialog_step(0, SelectDialogMessage::Show(vec!["None".to_string()])) {
        SelectStep::Present(o) => assert_eq!(o, vec!["None"]),
        _ => panic!("expected options"),
    }
}

#[test]
fn dialog_answers_become_messages() {
    assert!(matches!(delete_clips_answer(ConfirmDialogResponse::Confirm), Message::DeleteClipsConfirm));
    assert!(matches!(delete_clips_answer(ConfirmDialogResponse::Cancel), Message::Void));
    assert!(matches!(delete_db_answer(ConfirmDialogResponse::Confirm), Message::DeleteDbConfirm));
    assert!(matches!(rename_answer(InputDialogResponse::Confirm("t".to_string())), Message::RenameClipsConfirm(ref s) if s == "t"));
    assert!(matches!(rename_answer(InputDialogResponse::Cancel), Message::Void));
    assert!(matches!(select_game_answer(SelectDialogResponse::Confirm(4)), Message::SelectGameConfirm(4)));
}

#[test]
fn shortcuts_and_socket_commands() {
    for (id, _) in shortcuts() {
        assert!(shortcut_message(id).is_some());
    }
    assert!(matches!(shortcut_message("clip"), Some(Message::SaveClip)));
    assert!(matches!(shortcut_message("toggle-clipping"), Some(Message::ToggleClipping)));
    assert!(shortcut_message("other").is_none());
    assert!(matches!(socket_message(SocketCommand::SaveClip), Some(Message::SaveClip)));
    assert!(socket_message(SocketCommand::DumpDb).is_none());
}

#[test]
fn properties_of_a_clip() {
    let c = Clip {
        id: 5,
        game: None,
        title: "Ace".to_string(),
        path: "a.mp4".to_string(),
        created: 10,
        duration_secs: None,
        codec: Codec::AV1,
        container: Container::MKV,
        resolution: Resolution::P720,
        quality: Quality::Ultra,
        fps: FrameRate::Fps144,
        favorited: true,
    };
    let p = clip_properties(c, "/t.jpg".to_string(), "/v/a.mp4".to_string(), None, 1024);
    assert_eq!(p.id, 5);
    assert_eq!(p.title, "Ace");
    assert_eq!(p.duration, 0);
    assert_eq!(p.size, 1024);
    assert_eq!(p.codec, Codec::AV1);
    assert_eq!(game_label(&p.game), "Unknown");
    assert_eq!(game_label(&Some("Minecraft".to_string())), "Minecraft");
}

#[test]
fn daemon_options() {
    let a = Args { help: (), version: false, verbose: true, open_minimized: true };
    assert_eq!(a.log_filter(), "trace");
    assert!(!a.window_visible());
    let b = Args { verbose: false, open_minimized: false, ..a };
    assert_eq!(b.log_filter(), "info");
    assert!(b.window_visible());
}

#[test]
fn size_line_of_properties() {
    assert_eq!(replayd::dialogs::size_label(512), "512 b");
    assert_eq!(replayd::dialogs::size_label(1536), "1.50 kb");
    assert_eq!(replayd::dialogs::size_label(0), "0 b");
    for n in [1u64, 1023, 1024, 1_000_000, 123_456_789, u64::MAX] {
        assert_eq!(
            replayd::dialogs::size_label(n),
            humansize::format_size(n, humansize::WINDOWS).to_lowercase()
        );
    }
}
