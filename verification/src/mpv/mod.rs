//! mpv integration: option handling and playback-position bookkeeping.
pub mod options;
pub mod position;
pub mod render;

pub use options::{is_init_only_option, parse_user_options, ParsedMpvOptions};
pub use position::{restore_plan, save_info_text, RestorePlan};
pub use render::{render_targets, should_render};
