use replayd::identifier::{IdentifiableGame, Window};
use replayd::library::{game_for_window, received_clip, GameChoice, OutsideLibrary};
use replayd::paths::{strip_prefix, uri_paths, UriProblem};
use replayd::schema::{Codec, Game, Settings};
use std::path::{Component, Path};

const SAMPLES: &[&str] = &[
    "", "/", "//", ".", "./", "./.", "..", "a", "a/", "a/.", "a//b", "a/./b/", "/a", "/a/", "/a/b",
    "/a/b/", "/a/./b/./", "//a//b//", "./a", "./a/b", "../a", ".a/b", "a/b/c", "/home/u/Videos",
    "/home/u/Videos/", "/home/u/Videos/clip.mp4", "/home/u/Videos/games/x.mkv", "/home/u/Videos2/y.mp4",
    "/home/u/./Videos//z.mp4", "a/b/../c",
];

fn std_strip(path: &str, base: &str) -> Option<String> {
    Path::new(path).strip_prefix(base).ok().map(|p| p.to_str().unwrap().to_string())
}

fn names(p: &str) -> Vec<String> {
    Path::new(p)
        .components()
        .map(|c| match c {
            Component::RootDir => "/".to_string(),
            Component::CurDir => ".".to_string(),
            other => other.as_os_str().to_str().unwrap().to_string(),
        })
        .collect()
}

#[test]
fn strip_prefix_agrees_with_std_path() {
    for path in SAMPLES {
        for base in SAMPLES {
            assert_eq!(strip_prefix(path, base), std_strip(path, base), "path {path:?} base {base:?}");
        }
    }
}

#[test]
fn strip_prefix_examples() {
    assert_eq!(strip_prefix("/home/u/Videos/clip.mp4", "/home/u/Videos"), Some("clip.mp4".to_string()));
    assert_eq!(strip_prefix("/home/u/Videos/clip.mp4", "/home/u/Videos/"), Some("clip.mp4".to_string()));
    assert_eq!(strip_prefix("/home/u/Videos//games/./x.mkv/", "/home/u/Videos"), Some("games/./x.mkv".to_string()));
    assert_eq!(strip_prefix("/home/u/Videos2/y.mp4", "/home/u/Videos"), None);
    assert_eq!(strip_prefix("/a/b", "/a/b"), Some(String::new()));
    assert_eq!(strip_prefix("a/b/", ""), Some("a/b".to_string()));
    assert_eq!(strip_prefix("./a", "a"), None);
}

#[test]
fn stripped_path_joined_back_names_the_same_file() {
    for path in SAMPLES {
        for base in SAMPLES {
            if let Some(rel) = strip_prefix(path, base) {
                let joined = replayd::paths::join_path(base, &rel);
                assert_eq!(names(&joined), names(path), "path {path:?} base {base:?}");
            }
        }
    }
}

fn settings(dir: &str) -> Settings {
    Settings::with_output_dir(dir.to_string())
}

#[test]
fn received_clip_is_filed_relative_to_the_library() {
    let s = settings("/home/u/Videos");
    let c = received_clip(&s, "/home/u/Videos/Replay 1.mp4", Some(4), Some(30), 1700000000).unwrap();
    assert_eq!(c.path, "Replay 1.mp4");
    assert_eq!(c.id, 0);
    assert_eq!(c.title, "Untitled");
    assert_eq!(c.game, Some(4));
    assert_eq!(c.duration_secs, Some(30));
    assert_eq!(c.created, 1700000000);
    assert_eq!(c.codec, Codec::H264);
    assert!(!c.favorited);
    assert_eq!(c.absolute_path(&s.output_dir), "/home/u/Videos/Replay 1.mp4");
}

#[test]
fn received_clip_outside_the_library_is_refused() {
    let s = settings("/home/u/Videos");
    let e = received_clip(&s, "/tmp/Replay 1.mp4", None, None, 0).unwrap_err();
    assert_eq!(e, OutsideLibrary);
    assert_eq!(e.message(), "invalid clip recv");
}

fn window(class: &str, fullscreen: bool) -> Window {
    Window {
        class: class.to_string(),
        title: String::new(),
        executable: None,
        cmdline: vec![],
        fullscreen,
    }
}

fn catalog() -> Vec<IdentifiableGame> {
    vec![IdentifiableGame {
        id: 7,
        name: "Seven".to_string(),
        classes: vec!["seven".to_string()],
        title_substring: None,
        executables: vec![],
    }]
}

#[test]
fn game_for_window_only_in_fullscreen() {
    let cat = catalog();
    let games = vec![Game { id: 2, game_id: 7 }];
    assert_eq!(game_for_window(Some(&cat), &window("seven", true), &games), Some(GameChoice::Existing(2)));
    assert_eq!(game_for_window(Some(&cat), &window("seven", true), &vec![]), Some(GameChoice::Add(7)));
    assert_eq!(game_for_window(Some(&cat), &window("seven", false), &games), None);
    assert_eq!(game_for_window(Some(&cat), &window("other", true), &games), None);
    assert_eq!(game_for_window(None, &window("seven", true), &games), None);
}

#[test]
fn relative_path_follows_a_moved_library() {
    for path in SAMPLES {
        for base in SAMPLES {
            if base.is_empty() {
                continue;
            }
            if let Some(rel) = strip_prefix(path, base) {
                for moved in ["", "/mnt/backup", "/mnt/backup/", "clips", "./clips"] {
                    let joined = replayd::paths::join_path(moved, &rel);
                    let mut expected = names(moved);
                    expected.extend(names(path).into_iter().skip(names(base).len()));
                    assert_eq!(names(&joined), expected, "path {path:?} base {base:?} moved {moved:?}");
                }
            }
        }
    }
}

#[test]
fn moved_library_keeps_clip_location() {
    let s = settings("/home/u/Videos");
    let c = received_clip(&s, "/home/u/Videos/games/x.mkv", None, None, 0).unwrap();
    assert_eq!(c.path, "games/x.mkv");
    assert_eq!(c.absolute_path("/mnt/backup/Videos"), "/mnt/backup/Videos/games/x.mkv");
}

#[test]
fn chosen_file_uris_become_paths() {
    let ok = vec!["file:///home/u/My%20Clips".to_string(), "file://localhost/tmp/x".to_string()];
    assert_eq!(uri_paths(&ok), Ok(vec![b"/home/u/My Clips".to_vec(), b"/tmp/x".to_vec()]));
    let bad = vec!["file:///a".to_string(), "not a uri".to_string(), "https://example.com/x".to_string()];
    assert_eq!(uri_paths(&bad), Err(UriProblem::Invalid));
    let remote = vec!["https://example.com/x".to_string(), "not a uri".to_string()];
    assert_eq!(uri_paths(&remote), Err(UriProblem::NotAFile));
    assert_eq!(UriProblem::NotAFile.message(), "invalid file uri");
    assert_eq!(uri_paths(&vec![]), Ok(vec![]));
}

#[test]
fn chosen_file_uri_with_non_utf8_path_keeps_its_bytes() {
    assert_eq!(uri_paths(&vec!["file:///tmp/%FF".to_string()]), Ok(vec![b"/tmp/\xFF".to_vec()]));
}

#[test]
fn stored_path_is_found_again_below_any_library() {
    for path in SAMPLES {
        for base in SAMPLES {
            if base.is_empty() {
                continue;
            }
            if let Some(rel) = strip_prefix(path, base) {
                for lib in ["/mnt/backup", "/mnt/backup/", "clips", "./clips", ".", "/", *base] {
                    let joined = replayd::paths::join_path(lib, &rel);
                    assert_eq!(strip_prefix(&joined, lib), Some(rel.clone()), "rel {rel:?} lib {lib:?}");
                }
            }
        }
    }
}
