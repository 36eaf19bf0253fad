use galscan::detect::{detect_game_from_folder, scan_games, FolderWalk, WalkEntry};

fn entry(path: &str, size: u64) -> WalkEntry {
    WalkEntry { path: path.to_string(), size }
}

fn walk(path: &str, is_dir: bool, entries: Vec<WalkEntry>) -> FolderWalk {
    FolderWalk { path: path.to_string(), is_dir, entries }
}

#[test]
fn my_game_scenario() {
    let w = walk(
        "MyGame",
        true,
        vec![
            entry("MyGame", 0),
            entry("MyGame/MyGame.exe", 2 * 1024 * 1024),
            entry("MyGame/unins000.exe", 500 * 1024),
            entry("MyGame/data.xp3", 300 * 1024 * 1024),
        ],
    );
    let g = detect_game_from_folder(&w).expect("a game should be detected");
    assert_eq!(g.title, "MyGame");
    assert!(g.exe_path.ends_with("MyGame.exe"));
    assert_eq!(g.exe_path, "MyGame/MyGame.exe");
    assert_eq!(g.install_path, "MyGame");
    assert_eq!(g.engine, Some("KiriKiri".to_string()));
}

#[test]
fn chs_build_preferred_over_equal_size() {
    let w = walk(
        "VN2",
        true,
        vec![
            entry("VN2", 0),
            entry("VN2/chs", 0),
            entry("VN2/chs/game.exe", 1024 * 1024),
            entry("VN2/game.exe", 1024 * 1024),
        ],
    );
    let g = detect_game_from_folder(&w).expect("a game should be detected");
    assert_eq!(g.exe_path, "VN2/chs/game.exe");
}

#[test]
fn empty_folder_detects_nothing() {
    let w = walk("Empty", true, vec![entry("Empty", 0)]);
    assert!(detect_game_from_folder(&w).is_none());
}

#[test]
fn folder_without_executables_detects_nothing() {
    // marker files alone do not make a game
    let w = walk(
        "OnlyData",
        true,
        vec![entry("OnlyData", 0), entry("OnlyData/data.xp3", 4096), entry("OnlyData/readme.txt", 10)],
    );
    assert!(detect_game_from_folder(&w).is_none());
}

#[test]
fn missing_folder_detects_nothing() {
    let w = walk("/nonexistent", false, vec![]);
    assert!(detect_game_from_folder(&w).is_none());
}

#[test]
fn batch_scan_skips_missing_and_keeps_order() {
    let walks = vec![
        walk("valid/path", true, vec![entry("valid/path", 0), entry("valid/path/game.exe", 2048)]),
        walk("/nonexistent", false, vec![]),
        walk("valid2/path", true, vec![entry("valid2/path", 0), entry("valid2/path/play.exe", 4096)]),
    ];
    let games = scan_games(&walks);
    assert_eq!(games.len(), 2);
    assert_eq!(games[0].install_path, "valid/path");
    assert_eq!(games[0].exe_path, "valid/path/game.exe");
    assert_eq!(games[1].install_path, "valid2/path");
    assert_eq!(games[1].exe_path, "valid2/path/play.exe");
}

#[test]
fn batch_scan_skips_folders_with_no_detection() {
    let walks = vec![
        walk("empty1", true, vec![entry("empty1", 0)]),
        walk("full", true, vec![entry("full", 0), entry("full/run.exe", 1024)]),
        walk("empty2", true, vec![entry("empty2", 0)]),
    ];
    let games = scan_games(&walks);
    assert_eq!(games.len(), 1);
    assert_eq!(games[0].install_path, "full");
}

#[test]
fn non_blacklisted_chosen_over_larger_blacklisted() {
    let w = walk(
        "G",
        true,
        vec![
            entry("G", 0),
            entry("G/tiny.exe", 1024),
            entry("G/setup.exe", 900 * 1024 * 1024),
        ],
    );
    let g = detect_game_from_folder(&w).expect("a game should be detected");
    assert_eq!(g.exe_path, "G/tiny.exe");
}

#[test]
fn sole_blacklisted_executable_is_still_reported() {
    // a folder holding only an uninstaller is still a detection: some
    // executable was found, and the scorer can only rank what exists
    let w = walk("G", true, vec![entry("G", 0), entry("G/setup.exe", 1024)]);
    let g = detect_game_from_folder(&w).expect("a game should be detected");
    assert_eq!(g.exe_path, "G/setup.exe");
}

#[test]
fn first_of_equal_scores_wins() {
    let w = walk(
        "G",
        true,
        vec![entry("G", 0), entry("G/alpha.exe", 512), entry("G/beta.exe", 512)],
    );
    let g = detect_game_from_folder(&w).expect("a game should be detected");
    assert_eq!(g.exe_path, "G/alpha.exe");
}

#[test]
fn engine_marker_in_other_subdirectory_still_counts() {
    let w = walk(
        "G",
        true,
        vec![
            entry("G", 0),
            entry("G/bin", 0),
            entry("G/bin/game.exe", 4096),
            entry("G/data", 0),
            entry("G/data/arc.nsa", 123),
        ],
    );
    let g = detect_game_from_folder(&w).expect("a game should be detected");
    assert_eq!(g.exe_path, "G/bin/game.exe");
    assert_eq!(g.engine, Some("NScripter".to_string()));
}

#[test]
fn last_engine_marker_in_walk_order_wins() {
    let w = walk(
        "G",
        true,
        vec![
            entry("G", 0),
            entry("G/data.xp3", 1),
            entry("G/game.exe", 1024),
            entry("G/sub", 0),
            entry("G/sub/arc.nsa", 1),
        ],
    );
    let g = detect_game_from_folder(&w).expect("a game should be detected");
    assert_eq!(g.engine, Some("NScripter".to_string()));
}

#[test]
fn no_marker_leaves_engine_unset() {
    let w = walk("G", true, vec![entry("G", 0), entry("G/game.exe", 1024)]);
    let g = detect_game_from_folder(&w).expect("a game should be detected");
    assert_eq!(g.engine, None);
}

#[test]
fn uppercase_exe_extension_counts() {
    let w = walk("G", true, vec![entry("G", 0), entry("G/GAME.EXE", 1024)]);
    let g = detect_game_from_folder(&w).expect("a game should be detected");
    assert_eq!(g.exe_path, "G/GAME.EXE");
}

#[test]
fn title_is_base_name_of_folder_path() {
    let w = walk(
        "Library/Games/Foo",
        true,
        vec![entry("Library/Games/Foo", 0), entry("Library/Games/Foo/Foo.exe", 1024)],
    );
    let g = detect_game_from_folder(&w).expect("a game should be detected");
    assert_eq!(g.title, "Foo");
    assert_eq!(g.install_path, "Library/Games/Foo");
}

#[test]
fn title_ignores_trailing_separator() {
    let w = walk(
        "Games/Foo/",
        true,
        vec![entry("Games/Foo/", 0), entry("Games/Foo/Foo.exe", 1024)],
    );
    let g = detect_game_from_folder(&w).expect("a game should be detected");
    assert_eq!(g.title, "Foo");
}

#[test]
fn title_handles_backslash_paths() {
    let w = walk(
        "C:\\Games\\Bar",
        true,
        vec![entry("C:\\Games\\Bar", 0), entry("C:\\Games\\Bar\\Bar.exe", 1024)],
    );
    let g = detect_game_from_folder(&w).expect("a game should be detected");
    assert_eq!(g.title, "Bar");
    assert_eq!(g.exe_path, "C:\\Games\\Bar\\Bar.exe");
}

#[test]
fn path_without_final_component_gives_empty_title() {
    let w = walk("/", true, vec![entry("/", 0), entry("/game.exe", 1024)]);
    let g = detect_game_from_folder(&w).expect("a game should be detected");
    assert_eq!(g.title, "");
    assert_eq!(g.install_path, "/");
}

#[test]
fn bgi_marker_is_both_candidate_and_marker() {
    // BGI.exe names the engine and is an executable candidate at once
    let w = walk("G", true, vec![entry("G", 0), entry("G/BGI.exe", 1024)]);
    let g = detect_game_from_folder(&w).expect("a game should be detected");
    assert_eq!(g.exe_path, "G/BGI.exe");
    assert_eq!(g.engine, Some("BGI/Ethornell".to_string()));
}
