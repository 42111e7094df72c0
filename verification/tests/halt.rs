use mpvpaper_rs_core::control::halt::{HaltInfo, OutputFrameState};
use mpvpaper_rs_core::control::threads::{
    auto_pause_check, auto_pause_keeps_holding, auto_pause_release, auto_stop_check,
    on_exit_signal, on_pause_toggle_signal, pauselist_check, should_auto_unpause, slideshow_due, stoplist_check,
    track_user_pause,
};

#[test]
fn test_halt_info_should_exec_holder() {
    let mut halt_info = HaltInfo::new(false, true);
    assert!(!halt_info.should_exec_holder());

    halt_info.stop_render_loop = true;
    assert!(halt_info.should_exec_holder());
}

#[test]
fn test_halt_info_should_exec_holder_disabled() {
    let mut halt_info = HaltInfo::new(false, false);
    halt_info.stop_render_loop = true;
    assert!(!halt_info.should_exec_holder());
}

#[test]
fn frame_state_deadman_switch() {
    let mut f = OutputFrameState::new();
    assert!(!f.all_hidden());
    assert!(!f.any_ready());
    f.add_output(7);
    f.add_output(9);
    assert!(f.all_hidden());
    f.mark_ready(9);
    assert!(f.any_ready());
    assert!(!f.all_hidden());
    f.mark_ready(100);
    f.reset_all();
    assert!(f.all_hidden());
    assert!(!f.any_ready());
    f.remove_output(7);
    f.remove_output(9);
    assert!(!f.all_hidden());
}

#[test]
fn signal_prevents_handover() {
    let mut h = HaltInfo::new(true, true);
    h.stop_render_loop = true;
    assert!(h.should_exec_holder());
    on_exit_signal(&mut h);
    assert!(h.stop_render_loop && h.signal_exit);
    assert!(!h.should_exec_holder());
}

#[test]
fn pause_counter_sources() {
    let mut h = HaltInfo::new(true, false);
    h.output_frame_state.add_output(1);
    // everything hidden: the auto-pause handler takes a pause
    assert!(auto_pause_check(&mut h));
    assert_eq!(h.is_paused, 1);
    // a listed process adds a second pause
    assert!(pauselist_check(&mut h, true));
    assert_eq!(h.is_paused, 2);
    assert!(!pauselist_check(&mut h, true));
    assert_eq!(h.is_paused, 2);
    // still hidden: keep holding
    assert!(auto_pause_keeps_holding(&h));
    h.output_frame_state.mark_ready(1);
    assert!(!auto_pause_keeps_holding(&h));
    auto_pause_release(&mut h);
    assert_eq!(h.is_paused, 1);
    assert!(!should_auto_unpause(&h, true));
    assert!(!pauselist_check(&mut h, false));
    assert_eq!(h.is_paused, 0);
    assert!(should_auto_unpause(&h, true));
    assert!(!should_auto_unpause(&h, false));
}

#[test]
fn user_pause_is_respected() {
    let mut h = HaltInfo::new(true, false);
    assert!(track_user_pause(&mut h, false, true));
    assert!(h.user_paused);
    assert!(!should_auto_unpause(&h, true));
    assert!(!track_user_pause(&mut h, true, false));
    assert!(!h.user_paused);
    // a pause while an automatic pause is active is not the user's
    h.is_paused = 1;
    track_user_pause(&mut h, false, true);
    assert!(!h.user_paused);
}

#[test]
fn stopping_rules() {
    let mut h = HaltInfo::new(false, true);
    assert!(!auto_stop_check(&mut h));
    assert!(!h.stop_render_loop);
    h.output_frame_state.add_output(3);
    assert!(auto_stop_check(&mut h));
    assert!(h.stop_render_loop);
    let mut g = HaltInfo::new(false, false);
    assert!(!stoplist_check(&mut g, false));
    assert!(!g.stop_render_loop);
    assert!(stoplist_check(&mut g, true));
    assert!(g.stop_render_loop);
}

#[test]
fn slideshow_timing() {
    assert!(!slideshow_due(None, 1_000_000));
    assert!(!slideshow_due(Some(5), 4_999));
    assert!(slideshow_due(Some(5), 5_000));
    assert!(slideshow_due(Some(0), 0));
}

#[test]
fn pause_toggle_signal() {
    let mut h = HaltInfo::new(false, false);
    assert!(on_pause_toggle_signal(&mut h, false));
    assert!(h.user_paused);
    assert!(!should_auto_unpause(&h, true));
    assert!(!on_pause_toggle_signal(&mut h, true));
    assert!(!h.user_paused);
    assert!(should_auto_unpause(&h, true));
}
