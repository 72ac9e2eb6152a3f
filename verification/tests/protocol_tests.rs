use replayd::ctl::not_running_hint;
use replayd::protocol::{hook_payload, parse_hook_request, parse_request, request, Commands, HookError, HookRequest, SocketCommand, SocketRequest};

fn command(buf: &str) -> Option<SocketCommand> {
    match parse_request(buf) {
        SocketRequest::Command(c) => Some(c),
        SocketRequest::ClipSaved(_) => None,
    }
}

#[test]
fn every_ctl_request_reaches_its_command() {
    assert_eq!(command(request(Commands::Db).unwrap()), Some(SocketCommand::DumpDb));
    assert_eq!(command(request(Commands::Games).unwrap()), Some(SocketCommand::DumpGames));
    assert_eq!(command(request(Commands::Clip).unwrap()), Some(SocketCommand::SaveClip));
    assert_eq!(command(request(Commands::Toggle).unwrap()), Some(SocketCommand::ToggleClipping));
    assert_eq!(request(Commands::Identify), None);
}

#[test]
fn commands_ignore_surrounding_whitespace() {
    assert_eq!(command("  signal/clip\n"), Some(SocketCommand::SaveClip));
    assert_eq!(command("signal/clips"), None);
}

#[test]
fn other_messages_are_clip_paths_untrimmed() {
    match parse_request(" /videos/Replay.mp4\n") {
        SocketRequest::ClipSaved(p) => assert_eq!(p, " /videos/Replay.mp4\n"),
        _ => panic!("expected a clip path"),
    }
}

#[test]
fn hook_socket_messages() {
    assert!(matches!(parse_hook_request("\\dbdata\n"), HookRequest::DumpDbData));
    match parse_hook_request("/videos/a.mp4") {
        HookRequest::ClipSaved(p) => assert_eq!(p, "/videos/a.mp4"),
        _ => panic!("expected a clip path"),
    }
}

#[test]
fn hook_sends_its_first_argument() {
    let args = vec!["replayd-hook".to_string(), "/videos/a.mp4".to_string(), "regular".to_string()];
    assert_eq!(hook_payload(&args).unwrap(), "/videos/a.mp4");
    let e = hook_payload(&args[..2].to_vec()).unwrap_err();
    assert_eq!(e, HookError::MalformedArguments);
    assert_eq!(e.message(), "malformed arguments");
}

#[test]
fn hint_when_daemon_is_not_running() {
    assert_eq!(
        not_running_hint("/run/user/1000/replayd/socket.sock"),
        "/run/user/1000/replayd/socket.sock does not exist\nare you sure Replayd is running?"
    );
}

#[test]
fn hook_message_of_an_absolute_path_is_a_clip() {
    for p in ["/get/db", "/home/u/Videos/signal/clip", "/ signal/toggle", "/"] {
        match replayd::protocol::parse_request(p) {
            replayd::protocol::SocketRequest::ClipSaved(s) => assert_eq!(s, p),
            other => panic!("{p:?} read as {other:?}"),
        }
    }
}
