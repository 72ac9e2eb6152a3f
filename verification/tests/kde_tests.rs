use replayd::kde::{kde_window, kde_window_fields, parse_bool, parse_u64, InfoText, KdeField};

#[test]
fn numbers_and_flags_read_as_std_reads_them() {
    for t in ["", "+", "-", "0", "+0", "-0", "42", "+42", "007", "18446744073709551615", "18446744073709551616",
        "99999999999999999999", "1a", " 1", "1 ", "uint32 12", "٣"] {
        assert_eq!(parse_u64(t), t.parse::<u64>().ok(), "{t:?}");
    }
    for t in ["true", "false", "True", "", " true", "1"] {
        assert_eq!(parse_bool(t), t.parse::<bool>().ok(), "{t:?}");
    }
}

fn text(s: &str) -> InfoText {
    InfoText::Text(s.to_string())
}

#[test]
fn kwin_fields_in_order() {
    let some = |s: &str| Some(s.to_string());
    let e = |c, k, f, p| kde_window_fields(c, k, f, p).unwrap_err();
    assert_eq!(e(InfoText::Missing, InfoText::Missing, None, None), KdeField::MissingTitle);
    assert_eq!(e(InfoText::NotText, text("c"), some("true"), some("1")), KdeField::TitleNotString);
    assert_eq!(e(text("t"), InfoText::Missing, some("true"), some("1")), KdeField::MissingClass);
    assert_eq!(e(text("t"), InfoText::NotText, some("true"), some("1")), KdeField::ClassNotString);
    assert_eq!(e(text("t"), text("c"), None, some("1")), KdeField::MissingFullscreen);
    assert_eq!(e(text("t"), text("c"), some("yes"), some("1")), KdeField::InvalidFullscreen);
    assert_eq!(e(text("t"), text("c"), some("false"), None), KdeField::MissingPid);
    assert_eq!(e(text("t"), text("c"), some("false"), some("uint32 5")), KdeField::InvalidPid);
    assert_eq!(KdeField::InvalidFullscreen.message(), "invalid fulscreen bool");
    let f = kde_window_fields(text("Game"), text("game.bin"), some("true"), some("4242")).unwrap();
    assert_eq!((f.title.as_str(), f.class.as_str(), f.fullscreen, f.pid), ("Game", "game.bin", true, 4242));
    let w = kde_window(f, "game.bin\0--fast");
    assert_eq!(w.title, "Game");
    assert_eq!(w.class, "game.bin");
    assert!(w.fullscreen);
    assert_eq!(w.executable.as_deref(), Some("game.bin"));
    assert_eq!(w.cmdline, vec!["--fast".to_string()]);
}
