use replayd::schema::{Clip, Codec, Container, FrameRate, Game, Quality, Resolution, Settings};

fn clip(path: &str) -> Clip {
    Clip {
        id: 3,
        game: None,
        title: "Untitled".to_string(),
        path: path.to_string(),
        created: 1_700_000_000,
        duration_secs: Some(30),
        codec: Codec::H264,
        container: Container::MP4,
        resolution: Resolution::P1080,
        quality: Quality::High,
        fps: FrameRate::Fps60,
        favorited: false,
    }
}

#[test]
fn recorder_arguments_of_options() {
    assert_eq!(Resolution::P1440.cmd(), "2560x1440");
    assert_eq!(Resolution::P1080.cmd(), "1920x1080");
    assert_eq!(Resolution::P720.cmd(), "1280x720");
    assert_eq!(Codec::HEVC.cmd(), "hevc");
    assert_eq!(Container::MKV.cmd(), "mkv");
    assert_eq!(Quality::VeryHigh.cmd(), "very_high");
    assert_eq!(FrameRate::Fps144.cmd(), "144");
}

#[test]
fn labels_of_options() {
    assert_eq!(Resolution::P720.display(), "720p");
    assert_eq!(Codec::H264.display(), "H.264");
    assert_eq!(Container::MP4.display(), "MP4");
    assert_eq!(Quality::VeryHigh.display(), "Very High");
    assert_eq!(FrameRate::Fps24.display(), "24");
}

#[test]
fn from_repr_gives_back_each_variant() {
    for (i, r) in Resolution::all().into_iter().enumerate() {
        assert_eq!(r.index(), i);
        assert_eq!(Resolution::from_repr(i), Some(r));
    }
    for (i, c) in Codec::all().into_iter().enumerate() {
        assert_eq!(Codec::from_repr(i), Some(c));
    }
    for (i, c) in Container::all().into_iter().enumerate() {
        assert_eq!(Container::from_repr(i), Some(c));
    }
    for (i, q) in Quality::all().into_iter().enumerate() {
        assert_eq!(Quality::from_repr(i), Some(q));
    }
    for (i, f) in FrameRate::all().into_iter().enumerate() {
        assert_eq!(FrameRate::from_repr(i), Some(f));
    }
    assert_eq!(Resolution::from_repr(3), None);
    assert_eq!(Container::from_repr(2), None);
    assert_eq!(FrameRate::from_repr(5), None);
}

#[test]
fn defaults() {
    assert_eq!(Resolution::default(), Resolution::P1080);
    assert_eq!(Codec::default(), Codec::H264);
    assert_eq!(Container::default(), Container::MP4);
    assert_eq!(Quality::default(), Quality::High);
    assert_eq!(FrameRate::default(), FrameRate::Fps60);
    assert_eq!(Game::default(), Game { id: 0, game_id: 0 });
    let s = Settings::with_output_dir("/home/u/Videos/Clips".to_string());
    assert_eq!(s.buffer_length, 60);
    assert_eq!(s.output_dir, "/home/u/Videos/Clips");
    assert!(s.display.is_none());
    assert!(s.show_end_title_buttons);
    assert!(!s.notifications);
    assert!(s.sound_feedback);
    assert!(s.custom_actions.is_empty());
}

#[test]
fn absolute_path_joins_library_and_clip() {
    assert_eq!(clip("2024/a.mp4").absolute_path("/lib"), "/lib/2024/a.mp4");
    assert_eq!(clip("a.mp4").absolute_path("/lib/"), "/lib/a.mp4");
    assert_eq!(clip("a.mp4").absolute_path(""), "a.mp4");
    assert_eq!(clip("/elsewhere/a.mp4").absolute_path("/lib"), "/elsewhere/a.mp4");
    assert_eq!(clip("").absolute_path("/lib"), "/lib/");
}

#[test]
fn moving_the_library_moves_the_clip() {
    let c = clip("a.mp4");
    assert_eq!(c.absolute_path("/mnt/backup/Clips"), "/mnt/backup/Clips/a.mp4");
}

#[test]
fn uri_of_clip() {
    assert_eq!(clip("a b.mp4").uri("/lib").unwrap(), "file:///lib/a%20b.mp4");
    assert_eq!(clip("a.mp4").uri("relative").is_err(), true);
}
