use replayd::identifier::{
    get_all_games, get_game, identify_game, select_window_manager, strip_comment_lines, unknown_window_manager_message,
    Executable, IdentifiableGame, Window, WindowManagerKind,
};

fn game(id: u64, name: &str, classes: &[&str], title: Option<&str>, exes: Vec<Executable>) -> IdentifiableGame {
    IdentifiableGame {
        id,
        name: name.to_string(),
        classes: classes.iter().map(|c| c.to_string()).collect(),
        title_substring: title.map(|t| t.to_string()),
        executables: exes,
    }
}

fn exe(binary: &str, args: &[&str]) -> Executable {
    Executable { binary: binary.to_string(), arguments: args.iter().map(|a| a.to_string()).collect() }
}

fn window(class: &str, title: &str, executable: Option<&str>, cmdline: &[&str]) -> Window {
    Window {
        class: class.to_string(),
        title: title.to_string(),
        executable: executable.map(|e| e.to_string()),
        cmdline: cmdline.iter().map(|a| a.to_string()).collect(),
        fullscreen: true,
    }
}

fn catalog() -> Vec<IdentifiableGame> {
    vec![
        game(0, "Counter-Strike 2", &["cs2"], None, vec![]),
        game(1, "Minecraft", &["Minecraft*"], Some("Minecraft"), vec![exe("java", &["net.minecraft"])]),
        game(2, "Some Steam Game", &[], None, vec![exe("steam", &["-applaunch", "123"])]),
        game(3, "Browser Game", &["firefox"], Some("Game Tab"), vec![]),
    ]
}

#[test]
fn identifies_by_class() {
    let c = catalog();
    assert_eq!(identify_game(Some(&c), &window("cs2", "Counter-Strike 2", None, &[])), Some(0));
}

#[test]
fn identifies_by_executable_and_arguments() {
    let c = catalog();
    let w = window("steam_app", "x", Some("steam"), &["-applaunch", "123", "-fullscreen"]);
    assert_eq!(identify_game(Some(&c), &w), Some(2));
    let w = window("steam_app", "x", Some("steam"), &["-applaunch", "999"]);
    assert_eq!(identify_game(Some(&c), &w), None);
}

#[test]
fn arguments_are_searched_in_the_joined_command_line() {
    let c = catalog();
    let w = window("x", "y", Some("java"), &["-cp", "a.jar", "net.minecraft.client.Main"]);
    assert_eq!(identify_game(Some(&c), &w), Some(1));
}

#[test]
fn class_match_needs_title_substring() {
    let c = catalog();
    assert_eq!(identify_game(Some(&c), &window("firefox", "Mail", None, &[])), None);
    assert_eq!(identify_game(Some(&c), &window("firefox", "My Game Tab - Firefox", None, &[])), Some(3));
}

#[test]
fn first_matching_game_wins() {
    let mut c = catalog();
    c.push(game(9, "Other CS", &["cs2"], None, vec![]));
    assert_eq!(identify_game(Some(&c), &window("cs2", "", None, &[])), Some(0));
}

#[test]
fn unloaded_catalog_identifies_nothing() {
    assert_eq!(identify_game(None, &window("cs2", "", None, &[])), None);
}

#[test]
fn catalog_lookup() {
    let c = catalog();
    assert_eq!(get_game(Some(&c), 1).unwrap().name, "Minecraft");
    assert!(get_game(Some(&c), 4).is_none());
    assert!(get_game(None, 0).is_none());
    assert_eq!(get_all_games(Some(&c)).len(), 4);
}

#[test]
fn comment_lines_are_dropped() {
    let text = "// games\n[\n// first\n  {\"id\": 0}\r\n]\n";
    assert_eq!(strip_comment_lines(text), "[  {\"id\": 0}]");
    assert_eq!(strip_comment_lines(""), "");
    assert_eq!(strip_comment_lines("a\n\nb"), "ab");
    assert_eq!(strip_comment_lines("a\r"), "a\r");
    assert_eq!(strip_comment_lines(" // not a comment"), " // not a comment");
}

#[test]
fn window_manager_for_desktop() {
    assert_eq!(select_window_manager("Hyprland").ok(), Some(WindowManagerKind::Hyprland));
    let e = select_window_manager("sway").err().unwrap();
    assert_eq!(e.message(), "sway is unknown");
    assert_eq!(unknown_window_manager_message(), "unknown window manager");
}
