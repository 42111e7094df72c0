//! Handing the outputs from the player to the holder and back: where each
//! program is, and the command line each starts the other with.
use vstd::prelude::*;

use std::path::PathBuf;
use vstd::string::StringSliceAdditionalSpecFns;

use crate::cli::{law_relaunch_round_trip, parsed_args, relaunch_arguments, relaunch_words, Args, ArgsView, CliErrorView};
use crate::mpv::position::{law_saved_position_restores, restore_of, save_info_of};
use crate::config::{has_parent, is_plain_component, path_components, sibling_program};
use crate::text::{find_char, first_index_of, strings_view};

verus! {

/// The holder, next to the running player at `exe`; `None` exactly when
/// `exe` has no parent.
pub fn holder_program_path(exe: &PathBuf) -> (r: Option<PathBuf>)
    ensures
        r matches Some(q) ==> path_components(q) == path_components(*exe).drop_last().push(
            "mpvpaper-rs-holder".spec_bytes(),
        ),
        r is Some <==> has_parent(path_components(*exe)),
{
    proof {
        reveal_strlit("mpvpaper-rs-holder");
        assert forall|i: int| 0 <= i < "mpvpaper-rs-holder"@.len() implies "mpvpaper-rs-holder"@[i] != '/' by {
            assert(0 <= i < 18);
        }
    }
    sibling_program(exe, "mpvpaper-rs-holder")
}

/// The player, next to the running holder at `exe`; `None` exactly when
/// `exe` has no parent.
pub fn player_program_path(exe: &PathBuf) -> (r: Option<PathBuf>)
    ensures
        r matches Some(q) ==> path_components(q) == path_components(*exe).drop_last().push(
            "mpvpaper-rs".spec_bytes(),
        ),
        r is Some <==> has_parent(path_components(*exe)),
{
    proof {
        reveal_strlit("mpvpaper-rs");
        assert forall|i: int| 0 <= i < "mpvpaper-rs"@.len() implies "mpvpaper-rs"@[i] != '/' by {
            assert(0 <= i < 11);
        }
    }
    sibling_program(exe, "mpvpaper-rs")
}

/// An argument of a relaunch that cannot be passed to a program because it
/// holds a NUL character.
#[derive(Debug, Clone, Copy, PartialEq, Eq, Structural)]
pub enum ArgvError {
    MpvOptions,
    RestoreInfo,
    Output,
    VideoPath,
}

/// Whether a text holds a NUL character.
pub open spec fn has_nul(s: Seq<char>) -> bool {
    exists|i: int| 0 <= i < s.len() && s[i] == '\0'
}

/// Whether an optional text holds a NUL character.
pub open spec fn opt_has_nul(s: Option<Seq<char>>) -> bool {
    match s {
        Some(t) => has_nul(t),
        None => false,
    }
}

/// The first argument of a relaunch, in command-line order, that holds a NUL:
/// the mpv options, the position to restore, the output, the video path.
pub open spec fn argv_error(a: ArgsView, restore: Option<Seq<char>>) -> Option<ArgvError> {
    if opt_has_nul(a.mpv_options) {
        Some(ArgvError::MpvOptions)
    } else if opt_has_nul(restore) {
        Some(ArgvError::RestoreInfo)
    } else if opt_has_nul(a.output) {
        Some(ArgvError::Output)
    } else if opt_has_nul(a.video_path) {
        Some(ArgvError::VideoPath)
    } else {
        None
    }
}

/// Whether `s` holds a NUL character.
fn holds_nul(s: &str) -> (r: bool)
    ensures
        r == has_nul(s@),
{
    proof {
        reveal(first_index_of);
    }
    find_char(s, '\0').is_some()
}

/// Whether an optional string holds a NUL character.
fn opt_holds_nul(s: Option<&String>) -> (r: bool)
    ensures
        r == opt_has_nul(
            match s {
                Some(t) => Some(t@),
                None => None,
            },
        ),
{
    match s {
        Some(t) => holds_nul(t.as_str()),
        None => false,
    }
}

/// The arguments (after the program's name) that hand over from the player to
/// the holder, or revive the player from the holder: see [`relaunch_words`].
/// Every word must be passable to a program, so an argument holding a NUL is
/// refused: the first such one, in command-line order, is the error.
pub fn relaunch_argv(args: &Args, restore: Option<&String>) -> (r: Result<Vec<String>, ArgvError>)
    ensures
        match r {
            Ok(v) => argv_error(
                args@,
                match restore {
                    Some(s) => Some(s@),
                    None => None,
                },
            ) is None && strings_view(v@) == relaunch_words(
                args@,
                match restore {
                    Some(s) => Some(s@),
                    None => None,
                },
            ),
            Err(e) => argv_error(
                args@,
                match restore {
                    Some(s) => Some(s@),
                    None => None,
                },
            ) == Some(e),
        },
{
    if opt_holds_nul(args.mpv_options.as_ref()) {
        return Err(ArgvError::MpvOptions);
    }
    if opt_holds_nul(restore) {
        return Err(ArgvError::RestoreInfo);
    }
    if opt_holds_nul(args.output.as_ref()) {
        return Err(ArgvError::Output);
    }
    if opt_holds_nul(args.video_path.as_ref()) {
        return Err(ArgvError::VideoPath);
    }
    Ok(relaunch_arguments(args, restore))
}

/// The arguments the holder runs with after the player handed over with
/// the saved position `save_info`.
pub open spec fn holder_args(a: ArgsView, save_info: Seq<char>) -> ArgsView {
    ArgsView { show_outputs: false, fork: false, restore_info: Some(save_info), ..a }
}

/// Auto-stop's round trip keeps the command line and the position: the
/// player hands over to the holder with its arguments and the saved
/// position; the holder parses them, and revives the player with its own
/// arguments; the revived player parses exactly the holder's arguments, and
/// restores the saved playlist position and time. This holds whenever a
/// video path comes with an output (as on every parsed command line).
pub proof fn law_handover_round_trip(
    a: ArgsView,
    playlist_pos: i64,
    time_text: Seq<char>,
    holder: Seq<char>,
    player: Seq<char>,
)
    requires
        a.video_path is Some ==> a.output is Some,
    ensures
        parsed_args(seq![holder] + relaunch_words(a, Some(save_info_of(playlist_pos, time_text))))
            == Ok::<ArgsView, CliErrorView>(holder_args(a, save_info_of(playlist_pos, time_text))),
        parsed_args(
            seq![player] + relaunch_words(
                holder_args(a, save_info_of(playlist_pos, time_text)),
                Some(save_info_of(playlist_pos, time_text)),
            ),
        ) == Ok::<ArgsView, CliErrorView>(holder_args(a, save_info_of(playlist_pos, time_text))),
        restore_of(save_info_of(playlist_pos, time_text)) == (Some(playlist_pos), time_text),
{
    let save = save_info_of(playlist_pos, time_text);
    law_relaunch_round_trip(a, Some(save), holder);
    let b = holder_args(a, save);
    law_relaunch_round_trip(b, Some(save), player);
    assert(ArgsView { show_outputs: false, fork: false, restore_info: Some(save), ..b } == b);
    law_saved_position_restores(playlist_pos, time_text);
}

} // verus!
