use std::path::PathBuf;

use mpvpaper_rs_core::config::{
    config_dir_from, get_config_dir, get_pauselist_path, get_stoplist_path, parse_list_content,
    pauselist_path_in, sibling_program, stoplist_path_in,
};
use mpvpaper_rs_core::handover::{holder_program_path, player_program_path};
use mpvpaper_rs_core::holder::load_stoplist;
use mpvpaper_rs_core::startup::watchlist_from;

#[test]
fn test_config_dir_ends_with_app_name() {
    let path = get_config_dir();
    assert!(path.ends_with("mpvpaper-rs"));
}

#[test]
fn test_pauselist_path() {
    let path = get_pauselist_path();
    assert!(path.ends_with("pauselist"));
    assert!(path.parent().unwrap().ends_with("mpvpaper-rs"));
}

#[test]
fn test_stoplist_path() {
    let path = get_stoplist_path();
    assert!(path.ends_with("stoplist"));
    assert!(path.parent().unwrap().ends_with("mpvpaper-rs"));
}

#[test]
fn config_dir_fallbacks() {
    let both = config_dir_from(Some(PathBuf::from("/etc/xdg")), Some(PathBuf::from("/home/u")));
    assert_eq!(both, PathBuf::from("/etc/xdg/mpvpaper-rs"));
    let home = config_dir_from(None, Some(PathBuf::from("/home/u")));
    assert_eq!(home, PathBuf::from("/home/u/.config/mpvpaper-rs"));
    let none = config_dir_from(None, None);
    assert_eq!(none, PathBuf::from("/tmp/mpvpaper-rs"));
}

#[test]
fn list_file_format() {
    let text = "firefox\n  # a comment\n\n  steam  \r\n#obs\nmpv";
    assert_eq!(
        parse_list_content(text),
        vec!["firefox".to_string(), "steam".to_string(), "mpv".to_string()]
    );
    assert!(parse_list_content("").is_empty());
    assert!(parse_list_content("\n\n   \n").is_empty());
    assert_eq!(parse_list_content("a\n"), vec!["a".to_string()]);
}

#[test]
fn stoplist_and_watchlists_from_files() {
    assert!(load_stoplist(None).is_empty());
    assert_eq!(load_stoplist(Some("game\n")), vec!["game".to_string()]);
    assert_eq!(watchlist_from(None), None);
    assert_eq!(watchlist_from(Some("# nothing\n")), None);
    assert_eq!(watchlist_from(Some("vlc\nmpv")), Some(vec!["vlc".to_string(), "mpv".to_string()]));
}

#[test]
fn sibling_programs() {
    let exe = PathBuf::from("/usr/local/bin/mpvpaper-rs");
    assert_eq!(holder_program_path(&exe), Some(PathBuf::from("/usr/local/bin/mpvpaper-rs-holder")));
    let holder = PathBuf::from("/opt/mp/mpvpaper-rs-holder");
    assert_eq!(player_program_path(&holder), Some(PathBuf::from("/opt/mp/mpvpaper-rs")));
    assert_eq!(sibling_program(&PathBuf::from("/"), "x"), None);
    assert_eq!(sibling_program(&PathBuf::from(""), "x"), None);
    assert_eq!(sibling_program(&PathBuf::from("prog"), "x"), Some(PathBuf::from("x")));
}

#[test]
fn list_files_beside_each_other() {
    let dir = config_dir_from(None, Some(PathBuf::from("/home/u")));
    assert_eq!(pauselist_path_in(&dir), PathBuf::from("/home/u/.config/mpvpaper-rs/pauselist"));
    assert_eq!(stoplist_path_in(&dir), PathBuf::from("/home/u/.config/mpvpaper-rs/stoplist"));
    assert_eq!(pauselist_path_in(&dir).parent(), stoplist_path_in(&dir).parent());
    assert_eq!(get_pauselist_path().parent(), get_stoplist_path().parent());
    assert_eq!(get_pauselist_path(), get_config_dir().join("pauselist"));
}
