use mpvpaper_rs_core::cli::{Args, LayerArg};
use mpvpaper_rs_core::error::AppError;
use mpvpaper_rs_core::mpv::options::classify_mpv_options;
use mpvpaper_rs_core::mpv::position::{restore_plan, save_info_text};
use mpvpaper_rs_core::mpv::{is_init_only_option, parse_user_options};
use mpvpaper_rs_core::numtext::{parse_i64, signed_decimal_string};
use mpvpaper_rs_core::startup::{init_options, mpv_options_of, property_plan};

fn pair(a: &str, b: &str) -> (String, String) {
    (a.to_string(), b.to_string())
}

#[test]
fn test_parse_standard_option() {
    let result = parse_user_options("--volume=50").unwrap();
    assert_eq!(result.runtime_properties.len(), 1);
    assert_eq!(result.runtime_properties[0], ("volume".to_string(), "50".to_string()));
}

#[test]
fn test_parse_no_prefix() {
    let result = parse_user_options("--no-audio").unwrap();
    assert_eq!(result.runtime_properties.len(), 1);
    assert_eq!(result.runtime_properties[0], ("audio".to_string(), "no".to_string()));
}

#[test]
fn test_parse_flag_option() {
    let result = parse_user_options("--pause").unwrap();
    assert_eq!(result.runtime_properties.len(), 1);
    assert_eq!(result.runtime_properties[0], ("pause".to_string(), "yes".to_string()));
}

#[test]
fn test_parse_init_only_option() {
    let result = parse_user_options("--vo=libmpv").unwrap();
    assert_eq!(result.init_options.len(), 1);
    assert_eq!(result.init_options[0], ("vo".to_string(), "libmpv".to_string()));
    assert!(result.runtime_properties.is_empty());
}

#[test]
fn test_parse_mixed_options() {
    let result = parse_user_options("--vo=libmpv --volume=50 --no-osc").unwrap();
    assert_eq!(result.init_options.len(), 1);
    assert_eq!(result.runtime_properties.len(), 2);
}

#[test]
fn test_parse_quoted_value() {
    let result = parse_user_options("--title=\"My Video\"").unwrap();
    assert_eq!(result.runtime_properties.len(), 1);
    assert_eq!(result.runtime_properties[0], ("title".to_string(), "My Video".to_string()));
}

#[test]
fn test_reject_space_separated() {
    let result = parse_user_options("--volume 50");
    assert!(result.is_err());
}

#[test]
fn test_reject_single_dash() {
    let result = parse_user_options("-volume=50");
    assert!(result.is_err());
}

#[test]
fn test_empty_options() {
    let result = parse_user_options("").unwrap();
    assert!(result.init_options.is_empty());
    assert!(result.runtime_properties.is_empty());
}

#[test]
fn test_whitespace_only() {
    let result = parse_user_options("   ").unwrap();
    assert!(result.init_options.is_empty());
    assert!(result.runtime_properties.is_empty());
}

#[test]
fn option_errors_and_details() {
    match parse_user_options("--title=\"open") {
        Err(AppError::Config(m)) => assert_eq!(m, "Invalid mpv options: unmatched quotes"),
        other => panic!("unexpected {:?}", other.is_ok()),
    }
    match parse_user_options("--volume 50") {
        Err(AppError::Config(m)) => {
            assert_eq!(m, "Unexpected value '50': use --option=value format (not --option value)")
        }
        other => panic!("unexpected {:?}", other.is_ok()),
    }
    match parse_user_options("-volume=50") {
        Err(AppError::Config(m)) => {
            assert_eq!(m, "Invalid mpv option format '-volume=50': use --option=value format")
        }
        other => panic!("unexpected {:?}", other.is_ok()),
    }
    let r = parse_user_options("--no-config --no-osc=yes -- --config-dir=/x").unwrap();
    assert_eq!(r.init_options, vec![pair("config", "no"), pair("config-dir", "/x")]);
    assert_eq!(r.runtime_properties, vec![pair("no-osc", "yes"), pair("", "yes")]);
    let words = vec!["--a=b=c".to_string(), "--".to_string()];
    let c = classify_mpv_options(&words).unwrap();
    assert_eq!(c.runtime_properties, vec![pair("a", "b=c"), pair("", "yes")]);
}

#[test]
fn init_only_names() {
    for k in ["config", "vo", "background", "terminal", "input-terminal", "oneverdrop", "script"] {
        assert!(is_init_only_option(k), "{}", k);
    }
    for k in ["volume", "hwdec", "Config", "", "vo "] {
        assert!(!is_init_only_option(k), "{}", k);
    }
}

#[test]
fn init_option_plan() {
    let user = vec![pair("config-dir", "/c")];
    let with = init_options(true, &user);
    assert_eq!(
        with,
        vec![
            pair("vo", "libmpv"),
            pair("background", "none"),
            pair("terminal", "yes"),
            pair("input-default-bindings", "yes"),
            pair("input-terminal", "yes"),
            pair("config", "yes"),
            pair("config-dir", "/c"),
        ]
    );
    let without = init_options(false, &Vec::new());
    assert_eq!(without.len(), 5);
    assert_eq!(without[4], pair("input-terminal", "yes"));
}

#[test]
fn options_from_args() {
    let mut args = Args::parse_from(&["p"]);
    assert_eq!(args.layer, LayerArg::Background);
    let none = mpv_options_of(&args).unwrap();
    assert!(none.init_options.is_empty() && none.runtime_properties.is_empty());
    args.mpv_options = Some("--vo=gpu --mute".to_string());
    let some = mpv_options_of(&args).unwrap();
    assert_eq!(some.init_options, vec![pair("vo", "gpu")]);
    assert_eq!(some.runtime_properties, vec![pair("mute", "yes")]);
}

#[test]
fn saved_position_round_trip() {
    let text = save_info_text(-12, "33.25");
    assert_eq!(text, "-12:33.25");
    let plan = restore_plan(&text);
    assert_eq!(plan.playlist_pos, Some(-12));
    assert_eq!(plan.time_text, "33.25");
    let plan = restore_plan("17.5");
    assert_eq!(plan.playlist_pos, None);
    assert_eq!(plan.time_text, "17.5");
    let plan = restore_plan("x:1:2");
    assert_eq!(plan.playlist_pos, None);
    assert_eq!(plan.time_text, "1:2");
    let big = save_info_text(i64::MIN, "0");
    assert_eq!(restore_plan(&big).playlist_pos, Some(i64::MIN));
}

#[test]
fn signed_numbers() {
    assert_eq!(signed_decimal_string(0), "0");
    assert_eq!(signed_decimal_string(-9223372036854775808), "-9223372036854775808");
    assert_eq!(parse_i64("+42"), Some(42));
    assert_eq!(parse_i64("-0"), Some(0));
    assert_eq!(parse_i64("9223372036854775807"), Some(i64::MAX));
    assert_eq!(parse_i64("9223372036854775808"), None);
    assert_eq!(parse_i64("-"), None);
    assert_eq!(parse_i64("1e3"), None);
}

#[test]
fn property_plan_defaults_first() {

    let plan = property_plan(&vec![pair("audio", "yes"), pair("hwdec", "no")]);
    assert_eq!(plan.len(), 4);
    assert_eq!((plan[0].name.as_str(), plan[0].value.as_str()), ("audio", "no"));
    assert!(!plan[0].required && plan[0].fallback.is_none());
    assert_eq!((plan[1].name.as_str(), plan[1].value.as_str()), ("hwdec", "auto-safe"));
    assert_eq!(plan[1].fallback, Some("auto".to_string()));
    assert!(!plan[1].required);
    assert_eq!((plan[2].name.as_str(), plan[2].value.as_str()), ("audio", "yes"));
    assert_eq!((plan[3].name.as_str(), plan[3].value.as_str()), ("hwdec", "no"));
    assert!(plan[2].required && plan[3].required && plan[3].fallback.is_none());
}

#[test]
fn readme_option_forms() {
    let a = Args::parse_from(&["mpvpaper-rs", "-o=--loop --mute", "DP-2", "/v.mp4"]);
    assert_eq!(a.mpv_options, Some("--loop --mute".to_string()));
    let b = Args::parse_from(&["mpvpaper-rs", "--mpv-options=--loop --mute", "DP-2", "/v.mp4"]);
    assert_eq!(b.mpv_options, Some("--loop --mute".to_string()));
    let parsed = parse_user_options(a.mpv_options.as_deref().unwrap()).unwrap();
    assert_eq!(parsed.runtime_properties, vec![pair("loop", "yes"), pair("mute", "yes")]);
}
