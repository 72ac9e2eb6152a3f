use replayd::thumbnail::{cache_path, seek_position, thumbnail_pipeline};

#[test]
fn cache_file_is_md5_of_relative_path() {
    assert_eq!(cache_path("/home/u/.cache/replayd/thumbs", "2024/clip.mp4"), "/home/u/.cache/replayd/thumbs/94113f48497cabe2f1879b42894c583e.jpg");
    assert_eq!(cache_path("cache", "Replay_2024-01-05_15-07-09.mp4"), "cache/405488044b84b90fd5afe1b30b10323d.jpg");
    assert_eq!(cache_path("cache", ""), "cache/d41d8cd98f00b204e9800998ecf8427e.jpg");
}

#[test]
fn pipeline_description() {
    assert_eq!(
        thumbnail_pipeline("file:///v/a.mp4", "/c/x.jpg"),
        "uridecodebin uri=\"file:///v/a.mp4\" ! videoconvert ! videoscale ! video/x-raw,width=320,height=180 ! jpegenc ! filesink location=\"/c/x.jpg\""
    );
}

#[test]
fn seek_a_tenth_in() {
    assert_eq!(seek_position(Some(60_000_000_000)), 6_000_000_000);
    assert_eq!(seek_position(None), 1_000_000_000);
}
