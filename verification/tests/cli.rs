use mpvpaper_rs_core::cli::{layer_from_name, layer_name, parse_seconds, relaunch_arguments, Args, CliError, LayerArg};
use mpvpaper_rs_core::handover::{relaunch_argv, ArgvError};
use mpvpaper_rs_core::mpv::{restore_plan, save_info_text};

fn base_args() -> Args {
    Args {
        show_outputs: false,
        verbose: 0,
        fork: false,
        auto_pause: false,
        auto_stop: false,
        slideshow: None,
        layer: LayerArg::Background,
        mpv_options: None,
        no_mpv_config: false,
        restore_info: None,
        output: None,
        video_path: None,
    }
}

#[test]
fn test_show_outputs_no_args_needed() {
    let args = Args::parse_from(&["mpvpaper-rs", "-d"]);
    assert!(args.show_outputs);
    assert!(args.validate().is_ok());
}

#[test]
fn test_missing_output_error() {
    let args = Args {
        show_outputs: false,
        verbose: 0,
        fork: false,
        auto_pause: false,
        auto_stop: false,
        slideshow: None,
        layer: LayerArg::Background,
        mpv_options: None,
        no_mpv_config: false,
        restore_info: None,
        output: None,
        video_path: Some("/path/to/video.mp4".to_string()),
    };
    assert!(args.validate().is_err());
}

#[test]
fn test_missing_video_path_error() {
    let args = Args {
        show_outputs: false,
        verbose: 0,
        fork: false,
        auto_pause: false,
        auto_stop: false,
        slideshow: None,
        layer: LayerArg::Background,
        mpv_options: None,
        no_mpv_config: false,
        restore_info: None,
        output: Some("DP-2".to_string()),
        video_path: None,
    };
    assert!(args.validate().is_err());
}

#[test]
fn test_playlist_option_allows_no_video_path() {
    let args = Args {
        show_outputs: false,
        verbose: 0,
        fork: false,
        auto_pause: false,
        auto_stop: false,
        slideshow: None,
        layer: LayerArg::Background,
        mpv_options: Some("--playlist=/path/to/playlist.txt".to_string()),
        no_mpv_config: false,
        restore_info: None,
        output: Some("DP-2".to_string()),
        video_path: None,
    };
    assert!(args.validate().is_ok());
}

#[test]
fn test_valid_args() {
    let args = Args::parse_from(&["mpvpaper-rs", "DP-2", "/path/to/video.mp4"]);
    assert_eq!(args.output, Some("DP-2".to_string()));
    assert_eq!(args.video_path, Some("/path/to/video.mp4".to_string()));
    assert!(args.validate().is_ok());
}

#[test]
fn test_layer_arg() {
    let args = Args::parse_from(&["mpvpaper-rs", "-l", "overlay", "DP-2", "/path/to/video.mp4"]);
    assert_eq!(args.layer, LayerArg::Overlay);
}

#[test]
fn test_verbose_count() {
    let args = Args::parse_from(&["mpvpaper-rs", "-vvv", "-d"]);
    assert_eq!(args.verbose, 3);
}

#[test]
fn validate_messages() {
    let mut args = base_args();
    assert_eq!(
        args.validate(),
        Err("Output name is required (e.g., DP-2, HDMI-A-1, ALL)".to_string())
    );
    args.output = Some("DP-2".to_string());
    assert_eq!(
        args.validate(),
        Err("Video path is required unless --playlist= is specified".to_string())
    );
    args.mpv_options = Some("--loop --playlist=list.txt".to_string());
    assert_eq!(args.validate(), Ok(()));
}

#[test]
fn loop_playlist_is_no_playlist() {
    let mut args = base_args();
    args.output = Some("DP-2".to_string());
    args.mpv_options = Some("--loop-playlist=inf".to_string());
    assert_eq!(
        args.validate(),
        Err("Video path is required unless --playlist= is specified".to_string())
    );
    args.mpv_options = Some("playlist=list.txt".to_string());
    assert!(args.validate().is_err());
}

#[test]
fn defaults_and_all_options() {
    let args = Args::parse_from(&["mpvpaper-rs"]);
    assert!(!args.show_outputs && !args.fork && !args.auto_pause && !args.auto_stop);
    assert_eq!(args.verbose, 0);
    assert_eq!(args.layer, LayerArg::Background);
    assert_eq!(args.slideshow, None);
    assert_eq!(args.output, None);

    let args = Args::parse_from(&[
        "mpvpaper-rs",
        "--fork",
        "-ps",
        "--slideshow=30",
        "--layer",
        "top",
        "--mpv-options=--volume=50",
        "--no-mpv-config",
        "-Z",
        "2:12.5",
        "HDMI-A-1",
        "clip.mkv",
    ]);
    assert!(args.fork && args.auto_pause && args.auto_stop && args.no_mpv_config);
    assert_eq!(args.slideshow, Some(30));
    assert_eq!(args.layer, LayerArg::Top);
    assert_eq!(args.mpv_options, Some("--volume=50".to_string()));
    assert_eq!(args.restore_info, Some("2:12.5".to_string()));
    assert_eq!(args.output, Some("HDMI-A-1".to_string()));
    assert_eq!(args.video_path, Some("clip.mkv".to_string()));
}

#[test]
fn attached_short_values_and_double_dash() {
    let args = Args::parse_from(&["mpvpaper-rs", "-n5", "-lbottom", "--", "-weird-name", "v.mp4"]);
    assert_eq!(args.slideshow, Some(5));
    assert_eq!(args.layer, LayerArg::Bottom);
    assert_eq!(args.output, Some("-weird-name".to_string()));
    assert_eq!(args.video_path, Some("v.mp4".to_string()));
}

#[test]
fn parse_errors() {
    assert!(matches!(Args::try_parse_from(&["p", "-h"]), Err(CliError::Help)));
    assert!(matches!(Args::try_parse_from(&["p", "--version"]), Err(CliError::Version)));
    match Args::try_parse_from(&["p", "-x"]) {
        Err(CliError::UnknownArgument(a)) => assert_eq!(a, "-x"),
        other => panic!("unexpected {:?}", other),
    }
    match Args::try_parse_from(&["p", "--bogus"]) {
        Err(CliError::UnknownArgument(a)) => assert_eq!(a, "--bogus"),
        other => panic!("unexpected {:?}", other),
    }
    match Args::try_parse_from(&["p", "-l"]) {
        Err(CliError::MissingValue(a)) => assert_eq!(a, "--layer"),
        other => panic!("unexpected {:?}", other),
    }
    match Args::try_parse_from(&["p", "-o", "--loop"]) {
        Err(CliError::MissingValue(a)) => assert_eq!(a, "--mpv-options"),
        other => panic!("unexpected {:?}", other),
    }
    match Args::try_parse_from(&["p", "-f", "--fork"]) {
        Err(CliError::Duplicate(a)) => assert_eq!(a, "--fork"),
        other => panic!("unexpected {:?}", other),
    }
    match Args::try_parse_from(&["p", "-l", "middle"]) {
        Err(CliError::InvalidValue(v)) => assert_eq!(v, "middle"),
        other => panic!("unexpected {:?}", other),
    }
    match Args::try_parse_from(&["p", "-n", "-1x"]) {
        Err(CliError::MissingValue(a)) => assert_eq!(a, "--slideshow"),
        other => panic!("unexpected {:?}", other),
    }
    match Args::try_parse_from(&["p", "--slideshow=4294967296"]) {
        Err(CliError::InvalidValue(v)) => assert_eq!(v, "4294967296"),
        other => panic!("unexpected {:?}", other),
    }
    match Args::try_parse_from(&["p", "--fork=yes"]) {
        Err(CliError::UnexpectedValue(a)) => assert_eq!(a, "--fork"),
        other => panic!("unexpected {:?}", other),
    }
    match Args::try_parse_from(&["p", "a", "b", "c"]) {
        Err(CliError::UnexpectedPositional(w)) => assert_eq!(w, "c"),
        other => panic!("unexpected {:?}", other),
    }
}

#[test]
fn value_readers() {
    assert_eq!(layer_from_name("overlay"), Some(LayerArg::Overlay));
    assert_eq!(layer_from_name("Overlay"), None);
    assert_eq!(parse_seconds("+7"), Some(7));
    assert_eq!(parse_seconds("-0"), Some(0));
    assert_eq!(parse_seconds("4294967295"), Some(4294967295));
    assert_eq!(parse_seconds("4294967296"), None);
    assert_eq!(parse_seconds(""), None);
    assert_eq!(layer_name(LayerArg::Bottom), "bottom");
}

#[test]
fn relaunch_words_in_order() {
    let mut args = base_args();
    args.verbose = 2;
    args.fork = true;
    args.show_outputs = true;
    args.auto_stop = true;
    args.slideshow = Some(45);
    args.layer = LayerArg::Overlay;
    args.no_mpv_config = true;
    args.mpv_options = Some("volume=0".to_string());
    args.output = Some("DP-1".to_string());
    args.video_path = Some("/v.mp4".to_string());
    let restore = "3:1.5".to_string();
    let words = relaunch_arguments(&args, Some(&restore));
    let expected: Vec<String> = vec![
        "-v", "-v", "-s", "-n", "45", "-l", "overlay", "--no-mpv-config", "--mpv-options=volume=0",
        "-Z=3:1.5", "--", "DP-1", "/v.mp4",
    ]
    .into_iter()
    .map(|s| s.to_string())
    .collect();
    assert_eq!(words, expected);
}

#[test]
fn relaunch_round_trip_example() {
    let mut args = base_args();
    args.verbose = 1;
    args.auto_pause = true;
    args.auto_stop = true;
    args.slideshow = Some(0);
    args.layer = LayerArg::Bottom;
    args.mpv_options = Some("loop=inf".to_string());
    args.output = Some("eDP-1".to_string());
    args.video_path = Some("movie.webm".to_string());
    let restore = "0:0".to_string();
    let words = relaunch_arguments(&args, Some(&restore));
    let mut argv: Vec<&str> = vec!["mpvpaper-rs"];
    argv.extend(words.iter().map(|s| s.as_str()));
    let back = Args::try_parse_from(&argv).unwrap();
    assert_eq!(back.verbose, 1);
    assert!(back.auto_pause && back.auto_stop && !back.fork && !back.show_outputs);
    assert_eq!(back.slideshow, Some(0));
    assert_eq!(back.layer, LayerArg::Bottom);
    assert_eq!(back.mpv_options, args.mpv_options);
    assert_eq!(back.restore_info, Some(restore));
    assert_eq!(back.output, args.output);
    assert_eq!(back.video_path, args.video_path);
}

#[test]
fn relaunch_refuses_nul() {
    let mut args = base_args();
    args.output = Some("DP-1".to_string());
    args.video_path = Some("a\0b".to_string());
    assert_eq!(relaunch_argv(&args, None), Err(ArgvError::VideoPath));
    args.output = Some("D\0P".to_string());
    assert_eq!(relaunch_argv(&args, None), Err(ArgvError::Output));
    let bad = "1:\02".to_string();
    assert_eq!(relaunch_argv(&args, Some(&bad)), Err(ArgvError::RestoreInfo));
    args.mpv_options = Some("\0".to_string());
    assert_eq!(relaunch_argv(&args, Some(&bad)), Err(ArgvError::MpvOptions));
    let ok = base_args();
    assert_eq!(
        relaunch_argv(&ok, None),
        Ok(vec!["-l".to_string(), "background".to_string(), "--".to_string()])
    );
}

#[test]
fn handover_round_trip_example() {
    let args = Args::parse_from(&["mpvpaper-rs", "-s", "-vv", "-o", "loop=inf", "--no-mpv-config", "ALL", "/w.mp4"]);
    let save = save_info_text(3, "41.5");
    // player -> holder
    let to_holder = relaunch_argv(&args, Some(&save)).unwrap();
    let mut argv: Vec<&str> = vec!["mpvpaper-rs-holder"];
    argv.extend(to_holder.iter().map(|s| s.as_str()));
    let holder_args = Args::try_parse_from(&argv).unwrap();
    assert_eq!(holder_args.restore_info, Some("3:41.5".to_string()));
    assert!(holder_args.auto_stop && holder_args.no_mpv_config);
    assert_eq!(holder_args.verbose, 2);
    // holder -> player
    let back = relaunch_argv(&holder_args, holder_args.restore_info.as_ref()).unwrap();
    let mut argv2: Vec<&str> = vec!["mpvpaper-rs"];
    argv2.extend(back.iter().map(|s| s.as_str()));
    let revived = Args::try_parse_from(&argv2).unwrap();
    assert_eq!(revived.restore_info, holder_args.restore_info);
    assert_eq!(revived.output, Some("ALL".to_string()));
    assert_eq!(revived.mpv_options, Some("loop=inf".to_string()));
    let plan = restore_plan(revived.restore_info.as_deref().unwrap());
    assert_eq!(plan.playlist_pos, Some(3));
    assert_eq!(plan.time_text, "41.5");
}

#[test]
fn handover_keeps_dashed_values() {
    // values that look like options read back as themselves
    let mut args = base_args();
    args.mpv_options = Some("--loop --mute".to_string());
    args.output = Some("-DP-1".to_string());
    args.video_path = Some("--odd name.mp4".to_string());
    let restore = "-1:0".to_string();
    let words = relaunch_arguments(&args, Some(&restore));
    let mut argv: Vec<&str> = vec!["mpvpaper-rs"];
    argv.extend(words.iter().map(|s| s.as_str()));
    let back = Args::try_parse_from(&argv).unwrap();
    assert_eq!(back.mpv_options, args.mpv_options);
    assert_eq!(back.restore_info, Some(restore));
    assert_eq!(back.output, args.output);
    assert_eq!(back.video_path, args.video_path);
    let empty = "".to_string();
    let words = relaunch_arguments(&base_args(), Some(&empty));
    let mut argv: Vec<&str> = vec!["p"];
    argv.extend(words.iter().map(|s| s.as_str()));
    assert_eq!(Args::try_parse_from(&argv).unwrap().restore_info, Some(String::new()));
}
