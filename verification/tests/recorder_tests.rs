use replayd::recorder::{toggle_notification, version_line, Recorder, RecorderError, ToggleStep, VersionProbe};
use replayd::schema::{Codec, Settings};

fn settings(display: Option<&str>) -> Settings {
    let mut s = Settings::with_output_dir("/home/u/Videos/Clips".to_string());
    s.display = display.map(|d| d.to_string());
    s.codec = Codec::AV1;
    s.buffer_length = 90;
    s
}

#[test]
fn start_arguments() {
    let r: Recorder<u32> = Recorder::new();
    let args = r.start(&settings(Some("DP-1")), "/usr/bin/replayd-hook").unwrap();
    let expected = [
        "-s", "1920x1080", "-w", "DP-1", "-v", "no", "-f", "60", "-r", "90", "-k", "av1", "-c", "mp4", "-a",
        "default_output|default_input", "-q", "high", "-bm", "qp", "-encoder", "gpu", "-sc", "/usr/bin/replayd-hook",
        "-o", "/home/u/Videos/Clips",
    ];
    assert_eq!(args, expected.iter().map(|s| s.to_string()).collect::<Vec<_>>());
}

#[test]
fn start_is_refused_without_display_or_when_running() {
    let mut r: Recorder<u32> = Recorder::new();
    assert_eq!(r.start(&settings(None), "hook").unwrap_err(), RecorderError::NoDisplay);
    r.attach(42);
    assert_eq!(r.start(&settings(Some("DP-1")), "hook").unwrap_err(), RecorderError::AlreadyRunning);
    assert_eq!(RecorderError::AlreadyRunning.message(), "gpu-screen-recorder already running");
    assert_eq!(RecorderError::NoDisplay.message(), "no display specified");
}

#[test]
fn toggle_starts_then_stops() {
    let mut r: Recorder<u32> = Recorder::new();
    assert!(!r.is_active());
    match r.toggle(&settings(Some("DP-1")), "hook").unwrap() {
        ToggleStep::Spawn(args) => assert_eq!(args[3], "DP-1"),
        ToggleStep::Stop(_) => panic!("expected a start"),
    }
    assert!(!r.is_active());
    r.attach(7);
    assert!(r.is_active());
    assert_eq!(r.clip(), Some(&7));
    match r.toggle(&settings(Some("DP-1")), "hook").unwrap() {
        ToggleStep::Stop(p) => assert_eq!(p, 7),
        ToggleStep::Spawn(_) => panic!("expected a stop"),
    }
    assert!(!r.is_active());
    assert_eq!(r.clip(), None);
}

#[test]
fn stop_without_process() {
    let mut r: Recorder<u32> = Recorder::new();
    assert_eq!(r.stop().unwrap_err(), RecorderError::NotRunning);
    assert_eq!(RecorderError::NotRunning.message(), "gpu-screen-recorder not running");
    assert_eq!(r.toggle(&settings(None), "hook").err(), Some(RecorderError::NoDisplay));
}

#[test]
fn notification_texts() {
    assert_eq!(toggle_notification(true), "Clipping enabled.");
    assert_eq!(toggle_notification(false), "Clipping disabled.");
}

#[test]
fn version_lines() {
    assert_eq!(version_line(&VersionProbe::NotFound), "gpu-screen-recorder not found!");
    assert_eq!(version_line(&VersionProbe::Failed), "gpu-screen-recorder 0.0.0 (invalid output)");
    assert_eq!(version_line(&VersionProbe::Output(b"5.1.2\n".to_vec())), "gpu-screen-recorder 5.1.2");
    assert_eq!(version_line(&VersionProbe::Output(vec![0x35, 0xff])), "gpu-screen-recorder 5\u{fffd}");
}

#[test]
fn toggle_when_off_is_start_and_flips() {
    for display in [Some("DP-1"), None] {
        let s = settings(display);
        let mut r: Recorder<u32> = Recorder::new();
        let started = r.start(&s, "hook");
        match (r.toggle(&s, "hook"), started) {
            (Ok(ToggleStep::Spawn(a)), Ok(b)) => {
                assert_eq!(a, b);
                assert!(!r.is_active());
                r.attach(7);
                assert!(r.is_active());
                assert!(matches!(r.toggle(&s, "hook"), Ok(ToggleStep::Stop(7))));
                assert!(!r.is_active());
            }
            (Err(a), Err(b)) => {
                assert_eq!(a, b);
                assert!(!r.is_active());
            }
            _ => panic!("toggle and start disagree"),
        }
    }
}
