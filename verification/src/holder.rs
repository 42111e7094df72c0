//! Decisions of the holder, which keeps the outputs covered while the player
//! is stopped and revives it when no program of the stoplist runs.
use vstd::prelude::*;

use crate::cli::Args;
use crate::config::{list_entries, parse_list_content};
use crate::error::{AppError, Result};
use crate::process::{check_watch_list, runs_in, ProcessRecord};
use crate::text::{own, strings_view};

verus! {

/// The stoplist, given the text of its file (`None` when the file is missing
/// or cannot be read, which makes the list empty).
pub fn load_stoplist(content: Option<&str>) -> (r: Vec<String>)
    ensures
        strings_view(r@) == match content {
            Some(t) => list_entries(t@),
            None => Seq::<Seq<char>>::empty(),
        },
{
    match content {
        Some(t) => parse_list_content(t),
        None => {
            let v: Vec<String> = Vec::new();
            assert(strings_view(v@) =~= Seq::<Seq<char>>::empty());
            v
        },
    }
}

/// Whether the player should be revived: the stoplist has entries and none
/// of them runs. An empty stoplist keeps the holder in place.
pub fn should_revive(stoplist: &Vec<String>, table: &Vec<ProcessRecord>) -> (r: bool)
    ensures
        r == (stoplist@.len() > 0 && forall|i: int|
            0 <= i < stoplist@.len() ==> !runs_in(table@, #[trigger] stoplist@[i]@)),
{
    if stoplist.len() == 0 {
        return false;
    }
    check_watch_list(stoplist, table).is_none()
}

/// Whether no program of the stoplist runs.
pub open spec fn stoplist_clear(stoplist: Seq<String>, table: Seq<ProcessRecord>) -> bool {
    forall|i: int| 0 <= i < stoplist.len() ==> !runs_in(table, #[trigger] stoplist[i]@)
}

/// When the holder revives the player: no program of the stoplist runs, and
/// either the stoplist has entries (a stop it caused is over) or one of the
/// holder's surfaces was shown a frame (the wallpaper is visible again, so
/// a stop by auto-stop is over).
pub open spec fn holder_revives(stoplist: Seq<String>, table: Seq<ProcessRecord>, frame_shown: bool) -> bool {
    (stoplist.len() > 0 || frame_shown) && stoplist_clear(stoplist, table)
}

/// Whether the holder revives the player now: see [`holder_revives`].
/// `frame_shown` says whether a frame callback arrived on one of the
/// holder's surfaces since it started.
pub fn holder_should_revive(stoplist: &Vec<String>, table: &Vec<ProcessRecord>, frame_shown: bool) -> (r: bool)
    ensures
        r == holder_revives(stoplist@, table@, frame_shown),
{
    if stoplist.len() == 0 && !frame_shown {
        return false;
    }
    check_watch_list(stoplist, table).is_none()
}

/// The holder's revival rule: while a stoplist program runs it never
/// revives; once the wallpaper is shown again (a frame on a holder surface)
/// and no stoplist program runs, it revives, with or without a stoplist;
/// without a shown frame it revives as [`should_revive`] decides.
pub proof fn law_holder_revival(stoplist: Seq<String>, table: Seq<ProcessRecord>, frame_shown: bool)
    ensures
        !stoplist_clear(stoplist, table) ==> !holder_revives(stoplist, table, frame_shown),
        frame_shown && stoplist_clear(stoplist, table) ==> holder_revives(stoplist, table, frame_shown),
        stoplist.len() == 0 ==> (holder_revives(stoplist, table, frame_shown) == frame_shown),
        !frame_shown ==> (holder_revives(stoplist, table, frame_shown) == (stoplist.len() > 0
            && stoplist_clear(stoplist, table))),
{
}

/// The output selector the holder covers: the holder needs an explicit one.
pub fn holder_selector(args: &Args) -> (r: Result<String>)
    ensures
        match r {
            Ok(s) => args.output == Some(s),
            Err(e) => args.output is None && e@ == crate::error::AppErrorView::Config(
                "Output name is required for holder"@,
            ),
        },
{
    match &args.output {
        Some(o) => Ok(o.clone()),
        None => Err(AppError::Config(own("Output name is required for holder"))),
    }
}

/// Bytes of shared memory for one transparent 1x1 ARGB8888 pixel per surface.
pub fn transparent_pool_size(surfaces: usize) -> (r: usize)
    requires
        surfaces <= usize::MAX / 4,
    ensures
        r == 4 * surfaces,
{
    4 * surfaces
}

} // verus!
