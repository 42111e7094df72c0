use mpvpaper_rs_core::render::egl::{
    api_preference, context_versions, egl_action, egl_search_after, egl_search_start, EglAction, EglStage,
    GlApiType,
};
use mpvpaper_rs_core::render::hidpi::{hidpi_buffer_size, scaled_dimension_i32};
use mpvpaper_rs_core::startup::{first_with_surface, output_selector, ready_for_renderer};
use mpvpaper_rs_core::cli::Args;
use mpvpaper_rs_core::error::AppError;
use mpvpaper_rs_core::mpv::{render_targets, should_render};
use mpvpaper_rs_core::wayland::layer::{configured_size, get_output_size_for_layer, output_position};
use mpvpaper_rs_core::wayland::output::DisplayOutput;
use mpvpaper_rs_core::wayland::state::{list_outputs, select_output, select_outputs, OutputInfo};

fn info(id: u32, name: Option<&str>, desc: Option<&str>) -> Option<OutputInfo> {
    Some(OutputInfo {
        id,
        name: name.map(|s| s.to_string()),
        description: desc.map(|s| s.to_string()),
        logical_size: Some((1920, 1080)),
        scale_factor: 1,
    })
}

fn outputs() -> Vec<Option<OutputInfo>> {
    vec![
        info(41, Some("DP-1"), Some("Dell U2720Q")),
        info(42, Some("HDMI-A-1"), Some("LG Ultra")),
        None,
        info(44, None, Some("Built-in panel")),
    ]
}

#[test]
fn single_output_selection() {
    let outs = outputs();
    assert_eq!(select_output(&outs, "HDMI-A-1").unwrap(), 1);
    assert_eq!(select_output(&outs, "Built-in panel").unwrap(), 3);
    assert_eq!(select_output(&outs, "2").unwrap(), 2);
    assert_eq!(select_output(&outs, "44").unwrap(), 3);
    assert_eq!(select_output(&outs, "ALL").unwrap(), 0);
    assert_eq!(select_output(&outs, "*").unwrap(), 0);
    match select_output(&outs, "DP-9") {
        Err(AppError::OutputNotFound(m)) => assert_eq!(m, "DP-9"),
        _ => panic!("unknown output accepted"),
    }
    match select_output(&Vec::new(), "DP-1") {
        Err(AppError::OutputNotFound(m)) => {
            assert_eq!(m, "No outputs available (ensure roundtrip completed)")
        }
        _ => panic!("empty list accepted"),
    }
}

#[test]
fn multi_output_selection() {
    let outs = outputs();
    assert_eq!(select_outputs(&outs, "*").unwrap(), vec![0, 1, 2, 3]);
    assert_eq!(select_outputs(&outs, "aLl").unwrap(), vec![0, 1, 2, 3]);
    assert_eq!(select_outputs(&outs, "DP").unwrap(), vec![0]);
    assert_eq!(select_outputs(&outs, "HDMI-A-1 and more").unwrap(), vec![1]);
    assert_eq!(select_outputs(&outs, "U").unwrap(), vec![0, 1]);
    assert_eq!(select_outputs(&outs, "3").unwrap(), vec![3]);
    assert!(select_outputs(&outs, "9").is_err());
}

#[test]
fn output_listing() {
    let mut outs = outputs();
    outs[1] = Some(OutputInfo {
        id: 42,
        name: Some("HDMI-A-1".to_string()),
        description: None,
        logical_size: None,
        scale_factor: 2,
    });
    assert_eq!(
        list_outputs(&outs),
        vec![
            "[0] DP-1 - Dell U2720Q (1920x1080@1x)".to_string(),
            "[1] HDMI-A-1 -  (?x?@2x)".to_string(),
            "[2] (info not available)".to_string(),
            "[3] (unknown) - Built-in panel (1920x1080@1x)".to_string(),
        ]
    );
}

#[test]
fn selector_defaults_to_all() {
    let mut args = Args::parse_from(&["p"]);
    assert_eq!(output_selector(&args), "*");
    args.output = Some("DP-1".to_string());
    assert_eq!(output_selector(&args), "DP-1");
}

#[test]
fn output_geometry() {
    let mut a = DisplayOutput::new(10);
    a.layer_surface_id = Some(100);
    a.width = 2560;
    a.height = 1440;
    a.scale = 2;
    let mut b = DisplayOutput::new(11);
    b.layer_surface_id = Some(101);
    let outs = vec![a, b];
    assert_eq!(get_output_size_for_layer(&outs, 100), Some((2560, 1440)));
    assert_eq!(get_output_size_for_layer(&outs, 101), None);
    assert_eq!(get_output_size_for_layer(&outs, 102), None);
    assert_eq!(configured_size(&outs, 101, (0, 0)), None);
    assert_eq!(configured_size(&outs, 100, (0, 5)), Some((2560, 1440)));
    assert_eq!(configured_size(&outs, 101, (800, 600)), Some((800, 600)));
    assert_eq!(output_position(&outs, 11), Some(1));
    assert_eq!(output_position(&outs, 12), None);
    assert_eq!(hidpi_buffer_size(&outs[0]), (5120, 2880));
    assert!(ready_for_renderer(&outs[0]));
    assert!(!ready_for_renderer(&outs[1]));
    assert_eq!(first_with_surface(&outs), None);
}

#[test]
fn output_configure_and_resize() {
    let mut o = DisplayOutput::new(1);
    o.layer_surface_id = Some(5);
    assert_eq!(o.apply_configure(800, 600), None);
    assert_eq!((o.width, o.height), (800, 600));
    assert!(should_render(&o));
    o.mark_rendered();
    assert!(!should_render(&o));
    o.has_egl_window = true;
    assert_eq!(o.apply_configure(800, 600), None);
    assert_eq!(o.apply_configure(1024, 768), Some((1024, 768)));
    o.has_egl_surface = true;
    assert_eq!(o.setup_egl(1024, 768).unwrap(), (1024, 768));
    assert!(!o.has_egl_window && !o.has_egl_surface);
    o.has_egl_window = true;
    o.has_egl_surface = true;
    match o.setup_egl(3_000_000_000, 1) {
        Err(AppError::EglInit(m)) => assert_eq!(m, "Width too large"),
        _ => panic!("huge width accepted"),
    }
    // the old window and surface are dropped even when the size is refused
    assert!(!o.has_egl_window && !o.has_egl_surface);
    assert_eq!((o.width, o.height), (1024, 768));
    let mut bare = DisplayOutput::new(2);
    bare.has_egl_window = true;
    match bare.setup_egl(1, 1) {
        Err(AppError::EglInit(m)) => assert_eq!(m, "Layer surface not available for EGL setup"),
        _ => panic!("missing surface accepted"),
    }
    assert!(bare.has_egl_window);
}

#[test]
fn output_from_info() {
    let i = info(9, Some("DP-2"), None).unwrap();
    let mut o = DisplayOutput::from_info(9, Some(&i));
    assert_eq!(o.name, "DP-2");
    assert_eq!(o.identifier, "");
    assert_eq!((o.width, o.height, o.scale), (1920, 1080, 1));
    let j = OutputInfo { scale_factor: 2, ..i };
    o.redraw_needed = false;
    o.update_from_info(&j);
    assert!(o.redraw_needed);
    assert_eq!(o.scale, 2);
}

#[test]
fn hidpi_scaling() {
    assert_eq!(scaled_dimension_i32(1920, 2), 3840);
    assert_eq!(scaled_dimension_i32(u32::MAX, 2), i32::MAX);
    assert_eq!(scaled_dimension_i32(1_500_000_000, 1), 1_500_000_000);
    assert_eq!(scaled_dimension_i32(3_000_000_000, 1), i32::MAX);
    let mut o = DisplayOutput::new(1);
    o.width = 10;
    o.height = 20;
    o.scale = 0;
    assert_eq!(hidpi_buffer_size(&o), (10, 20));
}

#[test]
fn gl_context_order() {
    assert_eq!(api_preference(), vec![GlApiType::OpenGL, GlApiType::OpenGLES]);
    assert_eq!(context_versions(GlApiType::OpenGL), vec![(4, 6), (4, 5), (4, 0), (3, 3), (3, 0)]);
    assert_eq!(context_versions(GlApiType::OpenGLES), vec![(3, 2), (3, 1), (3, 0), (2, 0)]);
}

#[test]
fn egl_search_order() {
    let mut st = egl_search_start();
    assert_eq!(egl_action(&st), EglAction::BindApi(GlApiType::OpenGL));
    st = egl_search_after(&st, true).unwrap();
    assert_eq!(egl_action(&st), EglAction::ChooseConfig(GlApiType::OpenGL));
    st = egl_search_after(&st, true).unwrap();
    assert_eq!(egl_action(&st), EglAction::CreateContext(GlApiType::OpenGL, 4, 6));
    st = egl_search_after(&st, false).unwrap();
    assert_eq!(egl_action(&st), EglAction::CreateContext(GlApiType::OpenGL, 4, 5));
    st = egl_search_after(&st, false).unwrap();
    assert_eq!(st.stage, EglStage::Context(2));
    assert_eq!(egl_search_after(&st, true), None);

    // every desktop version fails: OpenGL ES is bound next
    let mut st = egl_search_start();
    st = egl_search_after(&st, true).unwrap();
    st = egl_search_after(&st, true).unwrap();
    for _ in 0..5 {
        st = egl_search_after(&st, false).unwrap();
    }
    assert_eq!(egl_action(&st), EglAction::BindApi(GlApiType::OpenGLES));
    // a failed config gives up on OpenGL ES too
    st = egl_search_after(&st, true).unwrap();
    st = egl_search_after(&st, false).unwrap();
    assert_eq!(egl_action(&st), EglAction::GiveUp);
}

#[test]
fn frames_go_to_outputs_with_surfaces() {
    let mut outs = vec![DisplayOutput::new(1), DisplayOutput::new(2), DisplayOutput::new(3)];
    assert!(render_targets(&outs).is_empty());
    outs[0].has_egl_surface = true;
    outs[2].has_egl_surface = true;
    assert_eq!(render_targets(&outs), vec![0, 2]);
    assert_eq!(first_with_surface(&outs), Some(0));
}
