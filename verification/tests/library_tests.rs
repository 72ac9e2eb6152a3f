use replayd::identifier::IdentifiableGame;
use replayd::library::{
    choose_game, clip_visible, clips_to_delete, display_index, game_chips, game_options, needs_first_migration,
    new_clip, next_object_id, record_for, remove_custom_action, rename_prompt, replace_custom_action,
    selected_game_for, status_caption, unused_games, ActionNotFound, GameChoice, CURRENT_VERSION,
};
use replayd::order::{order_clips, SortOrder, SortState};
use replayd::schema::{Clip, Codec, Container, CustomAction, FrameRate, Game, Quality, Resolution, Settings};
use std::cmp::Ordering;

fn clip(id: u64, game: Option<u64>) -> Clip {
    Clip {
        id,
        game,
        title: format!("clip {id}"),
        path: format!("{id}.mp4"),
        created: 0,
        duration_secs: None,
        codec: Codec::H264,
        container: Container::MP4,
        resolution: Resolution::P1080,
        quality: Quality::High,
        fps: FrameRate::Fps60,
        favorited: false,
    }
}

fn entry(id: u64, name: &str) -> IdentifiableGame {
    IdentifiableGame { id, name: name.to_string(), classes: vec![], title_substring: None, executables: vec![] }
}

#[test]
fn games_without_clips_are_deleted() {
    let games = vec![Game { id: 0, game_id: 5 }, Game { id: 1, game_id: 7 }, Game { id: 2, game_id: 9 }];
    let clips = vec![clip(0, Some(1)), clip(1, None), clip(2, Some(42))];
    let mut unused = unused_games(&games, &clips);
    unused.sort();
    assert_eq!(unused, vec![0, 2]);
    assert!(unused_games(&games, &vec![clip(0, Some(0)), clip(1, Some(1)), clip(2, Some(2))]).is_empty());
}

#[test]
fn choosing_a_game() {
    let games = vec![Game { id: 0, game_id: 3 }, Game { id: 1, game_id: 0 }];
    assert_eq!(choose_game(0, &games), GameChoice::Clear);
    assert_eq!(choose_game(1, &games), GameChoice::Existing(1));
    assert_eq!(choose_game(4, &games), GameChoice::Existing(0));
    assert_eq!(choose_game(3, &games), GameChoice::Add(2));
    assert_eq!(record_for(&games, 3), GameChoice::Existing(0));
}

#[test]
fn game_dialog_entries() {
    let catalog = vec![entry(0, "Counter-Strike 2"), entry(1, "Minecraft")];
    assert_eq!(game_options(&catalog), vec!["None", "Counter-Strike 2", "Minecraft"]);
}

#[test]
fn selected_clips_are_deleted_last_first() {
    let clips = vec![clip(10, None), clip(11, None), clip(12, None), clip(13, None)];
    assert_eq!(clips_to_delete(&clips, &vec![13, 10, 99]), vec![3, 0]);
    assert!(clips_to_delete(&clips, &vec![]).is_empty());
}

#[test]
fn display_positions() {
    let displays = vec!["DP-1".to_string(), "HDMI-A-1".to_string()];
    assert_eq!(display_index(&displays, &Some("HDMI-A-1".to_string())), Some(1));
    assert_eq!(display_index(&displays, &Some("eDP-1".to_string())), Some(0));
    assert_eq!(display_index(&displays, &None), None);
}

#[test]
fn game_filter() {
    assert_eq!(selected_game_for(&vec![0, 4, 6], 0), None);
    assert_eq!(selected_game_for(&vec![0, 4, 6], 2), Some(6));
    assert_eq!(selected_game_for(&vec![0, 4, 6], 3), None);
    assert!(clip_visible(None, None));
    assert!(clip_visible(Some(4), Some(4)));
    assert!(!clip_visible(Some(4), Some(6)));
    assert!(!clip_visible(Some(4), None));
}

#[test]
fn game_bar_chips() {
    let catalog = vec![entry(0, "Counter-Strike 2"), entry(1, "Minecraft")];
    let games = vec![Game { id: 3, game_id: 1 }];
    let chips = game_chips(&games, Some(&catalog)).unwrap();
    assert_eq!(chips, vec![(0, "All games".to_string()), (3, "Minecraft".to_string())]);
    let e = game_chips(&vec![Game { id: 3, game_id: 8 }], Some(&catalog)).unwrap_err();
    assert_eq!(e.game_id, 8);
    assert_eq!(e.message(), "could not get game name");
    assert!(game_chips(&games, None).is_err());
}

#[test]
fn status_line_and_prompts() {
    let s = Settings::with_output_dir("/v".to_string());
    assert_eq!(status_caption(&s), "1080pp · 60 fps · H.264");
    assert_eq!(rename_prompt(1, "My clip"), "My clip");
    assert_eq!(rename_prompt(3, "My clip"), "New titles");
}

#[test]
fn saved_clip_record() {
    let mut s = Settings::with_output_dir("/v".to_string());
    s.codec = Codec::HEVC;
    let c = new_clip(&s, "a.mp4".to_string(), Some(2), Some(30), 1_700_000_000);
    assert_eq!(c.id, 0);
    assert_eq!(c.title, "Untitled");
    assert_eq!(c.path, "a.mp4");
    assert_eq!(c.codec, Codec::HEVC);
    assert_eq!(c.game, Some(2));
    assert_eq!(c.duration_secs, Some(30));
    assert_eq!(c.created, 1_700_000_000);
}

#[test]
fn record_keys_and_migrations() {
    assert_eq!(next_object_id(None), 0);
    assert_eq!(next_object_id(Some(41)), 42);
    assert!(needs_first_migration(0));
    assert!(!needs_first_migration(CURRENT_VERSION));
}

#[test]
fn custom_action_edits() {
    let mut s = Settings::with_output_dir("/v".to_string());
    s.custom_actions = vec![
        CustomAction { id: 1, name: "a".to_string(), command: "x".to_string() },
        CustomAction { id: 2, name: "b".to_string(), command: "y".to_string() },
    ];
    assert_eq!(
        replace_custom_action(&mut s, CustomAction { id: 2, name: "c".to_string(), command: "z".to_string() }),
        Ok(())
    );
    assert_eq!(s.custom_actions[1].name, "c");
    assert_eq!(remove_custom_action(&mut s, 1), Ok(()));
    assert_eq!(s.custom_actions.len(), 1);
    assert_eq!(s.custom_actions[0].id, 2);
    assert_eq!(remove_custom_action(&mut s, 7), Err(ActionNotFound));
    assert_eq!(ActionNotFound.message(), "could not find action");
}

#[test]
fn clip_orders() {
    assert_eq!(order_clips(SortOrder::NewestFirst, 1, 2, 0, 0), Ordering::Greater);
    assert_eq!(order_clips(SortOrder::OldestFirst, 1, 2, 0, 0), Ordering::Less);
    assert_eq!(order_clips(SortOrder::Relevance, 1, 2, 50, 10), Ordering::Less);
    assert_eq!(order_clips(SortOrder::Relevance, 1, 2, 10, 10), Ordering::Equal);
    assert_eq!(SortOrder::from_repr(1), Some(SortOrder::NewestFirst));
    assert_eq!(SortOrder::from_repr(3), None);
    assert_eq!(SortOrder::OldestFirst.index(), 2);
}

#[test]
fn searching_switches_to_relevance_unless_the_user_chose() {
    let mut s = SortState::new();
    s.on_search(false);
    assert_eq!(s.sort_order, SortOrder::Relevance);
    s.on_search(true);
    assert_eq!(s.sort_order, SortOrder::NewestFirst);
    s.set_sort_order(SortOrder::OldestFirst, true);
    s.on_search(false);
    assert_eq!(s.sort_order, SortOrder::OldestFirst);
    s.on_search(true);
    assert!(!s.user_overrode_sort);
    assert_eq!(s.sort_order, SortOrder::OldestFirst);
    s.on_search(false);
    assert_eq!(s.sort_order, SortOrder::Relevance);
}
