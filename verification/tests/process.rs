use mpvpaper_rs_core::holder::{holder_selector, holder_should_revive, should_revive, transparent_pool_size};
use mpvpaper_rs_core::cli::Args;
use mpvpaper_rs_core::process::{
    check_watch_list, cmdline_matches, is_pid_dir_name, is_process_running, record_matches,
    ProcessRecord,
};

fn rec(dir: &str, comm: Option<&str>, cmdline: Option<&[u8]>) -> ProcessRecord {
    ProcessRecord {
        dir_name: dir.to_string(),
        comm: comm.map(|c| c.to_string()),
        cmdline: cmdline.map(|b| b.to_vec()),
    }
}

fn sample_table() -> Vec<ProcessRecord> {
    vec![
        rec("1", Some("systemd\n"), Some(b"/sbin/init\0splash\0")),
        rec("self", Some("mpvpaper-rs\n"), None),
        rec("4242", Some("firefox\n"), Some(b"/usr/lib/firefox/firefox\0")),
        rec("77", Some("a_very_long_pro\n"), Some(b"/opt/bin/a_very_long_program_name\0--flag\0")),
        rec("78", None, Some(b"steam\0")),
    ]
}

#[test]
fn test_is_process_running_nonexistent() {
    assert!(!is_process_running("this_process_does_not_exist_12345", &sample_table()));
}

#[test]
fn test_check_watch_list_empty() {
    let list: Vec<String> = vec![];
    assert!(check_watch_list(&list, &sample_table()).is_none());
}

#[test]
fn test_check_watch_list_none_running() {
    let list = vec!["nonexistent_process_1".to_string(), "nonexistent_process_2".to_string()];
    assert!(check_watch_list(&list, &sample_table()).is_none());
}

#[test]
fn process_matching_rules() {
    let table = sample_table();
    assert!(is_process_running("firefox", &table));
    assert!(is_process_running("systemd", &table));
    // directory names that are not process ids are skipped
    assert!(!is_process_running("mpvpaper-rs", &table));
    // a long name is found through the command line when comm is cut
    assert!(is_process_running("a_very_long_program_name", &table));
    // without comm, an entry never matches
    assert!(!is_process_running("steam", &table));
    // a short name is not looked up in the command line
    assert!(!is_process_running("init", &table));
    let list = vec!["nope".to_string(), "firefox".to_string(), "systemd".to_string()];
    assert_eq!(check_watch_list(&list, &table), Some("firefox".to_string()));
}

#[test]
fn record_details() {
    assert!(is_pid_dir_name("123"));
    assert!(is_pid_dir_name(""));
    assert!(!is_pid_dir_name("12a"));
    assert!(cmdline_matches(&b"/usr/bin/obs\0x".to_vec(), "obs"));
    assert!(cmdline_matches(&b"obs".to_vec(), "obs"));
    assert!(!cmdline_matches(&b"/usr/bin/obs-studio\0".to_vec(), "obs"));
    assert!(!cmdline_matches(&vec![0xff, 0xfe, 0], "obs"));
    assert!(record_matches(&rec("9", Some("  vlc  "), None), "vlc"));
}

#[test]
fn holder_revive_decision() {
    let table = sample_table();
    assert!(!should_revive(&Vec::new(), &table));
    assert!(!should_revive(&vec!["firefox".to_string()], &table));
    assert!(should_revive(&vec!["game".to_string(), "other".to_string()], &table));
}

#[test]
fn holder_needs_output() {
    let mut args = Args::parse_from(&["mpvpaper-rs-holder"]);
    assert!(holder_selector(&args).is_err());
    args.output = Some("DP-3".to_string());
    assert_eq!(holder_selector(&args).unwrap(), "DP-3");
    assert_eq!(transparent_pool_size(3), 12);
}

#[test]
fn holder_revives_when_visible_again() {
    let table = sample_table();
    let none: Vec<String> = Vec::new();
    // after an auto-stop without a stoplist: wait for a frame
    assert!(!holder_should_revive(&none, &table, false));
    assert!(holder_should_revive(&none, &table, true));
    // a running stoplist program keeps the holder, visible or not
    let listed = vec!["firefox".to_string()];
    assert!(!holder_should_revive(&listed, &table, true));
    assert!(!holder_should_revive(&listed, &table, false));
    // a stoplist whose programs are gone revives as before
    let gone = vec!["game".to_string()];
    assert!(holder_should_revive(&gone, &table, false));
}
