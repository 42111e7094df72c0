//! The playback position handed from the player to the holder and back:
//! `playlist_pos:time_pos`, or a bare `time_pos`.
use vstd::prelude::*;

use crate::numtext::{
    all_digits, is_digit, lemma_decimal_reads_back, lemma_signed_decimal_reads_back, parse_i64,
    parsed_i64, signed_decimal, signed_decimal_string,
};
use crate::text::{concat3, find_char, first_index_of, lemma_first_index_after};

verus! {

/// What to restore from a saved position: the playlist position, when the
/// text has one that reads as an `i64`, and the text of the time position,
/// which the player reads as a floating-point number of seconds.
pub struct RestorePlan {
    pub playlist_pos: Option<i64>,
    pub time_text: String,
}

/// The saved-position text for a playlist position and the text of a time
/// position.
pub open spec fn save_info_of(playlist_pos: i64, time_text: Seq<char>) -> Seq<char> {
    signed_decimal(playlist_pos as int) + seq![':'] + time_text
}

/// What a saved-position text restores: split at the first `:` into the
/// playlist position and the time; without a `:`, all of it is the time.
pub open spec fn restore_of(save_info: Seq<char>) -> (Option<i64>, Seq<char>) {
    match first_index_of(save_info, ':') {
        Some(p) => (parsed_i64(save_info.take(p)), save_info.skip(p + 1)),
        None => (None, save_info),
    }
}

/// The saved-position text `playlist_pos:time_pos`.
pub fn save_info_text(playlist_pos: i64, time_text: &str) -> (r: String)
    ensures
        r@ == save_info_of(playlist_pos, time_text@),
{
    let pos = signed_decimal_string(playlist_pos);
    proof {
        reveal_strlit(":");
    }
    concat3(pos.as_str(), ":", time_text)
}

/// What to restore from a saved position.
pub fn restore_plan(save_info: &str) -> (r: RestorePlan)
    ensures
        (r.playlist_pos, r.time_text@) == restore_of(save_info@),
{
    let n = save_info.unicode_len();
    match find_char(save_info, ':') {
        Some(p) => {
            let pos_text = save_info.substring_char(0, p);
            let time_text = save_info.substring_char(p + 1, n);
            assert(pos_text@ =~= save_info@.take(p as int));
            assert(time_text@ =~= save_info@.skip(p + 1));
            RestorePlan { playlist_pos: parse_i64(pos_text), time_text: time_text.to_string() }
        },
        None => RestorePlan { playlist_pos: None, time_text: save_info.to_string() },
    }
}

/// What the player saves before handing over, it restores when revived: the
/// playlist position comes back exactly, and so does the text of the time.
pub proof fn law_saved_position_restores(playlist_pos: i64, time_text: Seq<char>)
    ensures
        restore_of(save_info_of(playlist_pos, time_text)) == (Some(playlist_pos), time_text),
{
    let d = signed_decimal(playlist_pos as int);
    let s = save_info_of(playlist_pos, time_text);
    let m = if playlist_pos < 0 {
        (-(playlist_pos as int)) as nat
    } else {
        playlist_pos as nat
    };
    lemma_decimal_reads_back(m);
    assert forall|i: int| 0 <= i < d.len() implies d[i] != ':' by {
        if playlist_pos < 0 {
            if i > 0 {
                assert(d[i] == crate::numtext::decimal(m)[i - 1]);
                assert(is_digit(crate::numtext::decimal(m)[i - 1]));
            }
        } else {
            assert(is_digit(crate::numtext::decimal(m)[i]));
        }
    }
    lemma_first_index_after(d, ':', time_text);
    assert(s.take(d.len() as int) =~= d);
    assert(s.skip(d.len() as int + 1) =~= time_text);
    lemma_signed_decimal_reads_back(playlist_pos);
}

} // verus!
