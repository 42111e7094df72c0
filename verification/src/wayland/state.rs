//! Choosing outputs by a selector, and describing them.
use vstd::prelude::*;

use crate::error::{AppError, AppErrorView, Result};
use crate::numtext::{
    decimal, decimal_string, eq_ascii_ci, is_all_ci, parse_usize, parsed_usize, signed_decimal,
    signed_decimal_string,
};
use crate::text::{concat2, contains, occurs_at, own, seq_contains, str_eq};

verus! {

/// What the compositor told about one output (`OutputState::info`).
pub struct OutputInfo {
    /// The `wl_output` global's name (its numeric id).
    pub id: u32,
    /// Output name such as `DP-2` (needs wl_output v4 or xdg-output).
    pub name: Option<String>,
    /// Output description (make, model, serial).
    pub description: Option<String>,
    /// Logical size in compositor coordinates.
    pub logical_size: Option<(i32, i32)>,
    /// Integer scale factor.
    pub scale_factor: i32,
}

/// Error text when the output list is empty.
pub open spec fn no_outputs_message() -> Seq<char> {
    "No outputs available (ensure roundtrip completed)"@
}

/// Whether the selector means every output: `*`, or `all` in any ASCII case.
pub open spec fn is_wildcard(sel: Seq<char>) -> bool {
    sel == seq!['*'] || eq_ascii_ci(sel, seq!['a', 'l', 'l'])
}

/// Whether an output's name or description is exactly the selector.
pub open spec fn exact_match(o: Option<OutputInfo>, sel: Seq<char>) -> bool {
    match o {
        Some(info) => (info.name matches Some(n) && n@ == sel) || (info.description matches Some(d)
            && d@ == sel),
        None => false,
    }
}

/// Whether an output's global id, in decimal, is the selector.
pub open spec fn id_match(o: Option<OutputInfo>, sel: Seq<char>) -> bool {
    match o {
        Some(info) => decimal(info.id as nat) == sel,
        None => false,
    }
}

/// Whether one text contains the other, either way round.
pub open spec fn overlaps(a: Seq<char>, b: Seq<char>) -> bool {
    seq_contains(a, b) || seq_contains(b, a)
}

/// Whether an output's name or description contains the selector or is
/// contained in it (substring matching either way).
pub open spec fn fuzzy_match(o: Option<OutputInfo>, sel: Seq<char>) -> bool {
    match o {
        Some(info) => (info.name matches Some(n) && overlaps(n@, sel)) || (
        info.description matches Some(d) && overlaps(d@, sel)),
        None => false,
    }
}

/// The first position in `outs` where `p` holds, if any.
pub open spec fn first_where(outs: Seq<Option<OutputInfo>>, p: spec_fn(Option<OutputInfo>) -> bool) -> Option<int> {
    if exists|i: int| 0 <= i < outs.len() && p(outs[i]) {
        Some(choose|i: int| 0 <= i < outs.len() && p(outs[i]) && forall|j: int| 0 <= j < i ==> !p(#[trigger] outs[j]))
    } else {
        None
    }
}

/// Single-output selection: a wildcard picks the first output; otherwise an
/// exact name or description, else a position, else a global id; the empty
/// list is an error.
pub open spec fn selected_output(outs: Seq<Option<OutputInfo>>, sel: Seq<char>) -> std::result::Result<usize, AppErrorView> {
    if outs.len() == 0 {
        Err(AppErrorView::OutputNotFound(no_outputs_message()))
    } else if is_wildcard(sel) {
        Ok(0)
    } else if let Some(i) = first_where(outs, |o: Option<OutputInfo>| exact_match(o, sel)) {
        Ok(i as usize)
    } else if parsed_usize(sel) matches Some(k) && k < outs.len() {
        Ok(parsed_usize(sel)->0)
    } else if let Some(i) = first_where(outs, |o: Option<OutputInfo>| id_match(o, sel)) {
        Ok(i as usize)
    } else {
        Err(AppErrorView::OutputNotFound(sel))
    }
}

/// The text of a `Result` of the library.
pub open spec fn result_view<T>(r: Result<T>) -> std::result::Result<T, AppErrorView> {
    match r {
        Ok(v) => Ok(v),
        Err(e) => Err(e@),
    }
}

/// Whether an output's name or description is exactly `sel`.
fn output_exact(o: &Option<OutputInfo>, sel: &str) -> (r: bool)
    ensures
        r == exact_match(*o, sel@),
{
    match o {
        Some(info) => {
            let by_name = match &info.name {
                Some(n) => str_eq(n.as_str(), sel),
                None => false,
            };
            let by_desc = match &info.description {
                Some(d) => str_eq(d.as_str(), sel),
                None => false,
            };
            by_name || by_desc
        },
        None => false,
    }
}

/// Whether an output's global id, in decimal, is `sel`.
fn output_id(o: &Option<OutputInfo>, sel: &str) -> (r: bool)
    ensures
        r == id_match(*o, sel@),
{
    match o {
        Some(info) => {
            let text = decimal_string(info.id as u64);
            str_eq(text.as_str(), sel)
        },
        None => false,
    }
}

/// Whether an output's name or description overlaps `sel`.
fn output_fuzzy(o: &Option<OutputInfo>, sel: &str) -> (r: bool)
    ensures
        r == fuzzy_match(*o, sel@),
{
    match o {
        Some(info) => {
            let by_name = match &info.name {
                Some(n) => contains(n.as_str(), sel) || contains(sel, n.as_str()),
                None => false,
            };
            let by_desc = match &info.description {
                Some(d) => contains(d.as_str(), sel) || contains(sel, d.as_str()),
                None => false,
            };
            by_name || by_desc
        },
        None => false,
    }
}

/// Whether the selector is `*` or `all` in any ASCII case.
pub fn is_wildcard_selector(sel: &str) -> (r: bool)
    ensures
        r == is_wildcard(sel@),
{
    proof {
        reveal_strlit("*");
        assert("*"@ =~= seq!['*']);
    }
    str_eq(sel, "*") || is_all_ci(sel)
}

/// The first position of `outs` where `p` holds is `i`.
proof fn lemma_first_where_is(outs: Seq<Option<OutputInfo>>, p: spec_fn(Option<OutputInfo>) -> bool, i: int)
    requires
        0 <= i < outs.len(),
        p(outs[i]),
        forall|j: int| 0 <= j < i ==> !p(#[trigger] outs[j]),
    ensures
        first_where(outs, p) == Some(i),
{
    let w = choose|k: int| 0 <= k < outs.len() && p(outs[k]) && forall|j: int| 0 <= j < k ==> !p(#[trigger] outs[j]);
    if w < i {
        assert(!p(outs[w]));
    } else if w > i {
        assert(!p(outs[i]));
    }
}

/// Position of the first output whose name or description is `sel`.
fn find_exact(outputs: &Vec<Option<OutputInfo>>, sel: &str) -> (r: Option<usize>)
    ensures
        r matches Some(i) ==> first_where(outputs@, |o: Option<OutputInfo>| exact_match(o, sel@))
            == Some(i as int),
        r is None ==> first_where(outputs@, |o: Option<OutputInfo>| exact_match(o, sel@)) is None,
{
    let mut i: usize = 0;
    while i < outputs.len()
        invariant
            i <= outputs.len(),
            forall|j: int| 0 <= j < i ==> !exact_match(#[trigger] outputs@[j], sel@),
        decreases outputs.len() - i,
    {
        if output_exact(&outputs[i], sel) {
            proof {
                lemma_first_where_is(outputs@, |o: Option<OutputInfo>| exact_match(o, sel@), i as int);
            }
            return Some(i);
        }
        i = i + 1;
    }
    None
}

/// Position of the first output whose global id, in decimal, is `sel`.
fn find_by_id(outputs: &Vec<Option<OutputInfo>>, sel: &str) -> (r: Option<usize>)
    ensures
        r matches Some(i) ==> first_where(outputs@, |o: Option<OutputInfo>| id_match(o, sel@))
            == Some(i as int),
        r is None ==> first_where(outputs@, |o: Option<OutputInfo>| id_match(o, sel@)) is None,
{
    let mut i: usize = 0;
    while i < outputs.len()
        invariant
            i <= outputs.len(),
            forall|j: int| 0 <= j < i ==> !id_match(#[trigger] outputs@[j], sel@),
        decreases outputs.len() - i,
    {
        if output_id(&outputs[i], sel) {
            proof {
                lemma_first_where_is(outputs@, |o: Option<OutputInfo>| id_match(o, sel@), i as int);
            }
            return Some(i);
        }
        i = i + 1;
    }
    None
}

/// Output selection function - MUST be called after roundtrip
///
/// Matching order:
/// 1. Wildcard ("*", "all", "ALL") - the first output (see [`select_outputs`]
///    for every output)
/// 2. Output name (DP-2, HDMI-A-1, etc.)
/// 3. Output description (make model serial)
/// 4. Numeric index ("0", "1", "2", etc.) - fallback
/// 5. wl_output global id matching - final fallback
///
/// Returns the position of the chosen output in `outputs`.
pub fn select_output(outputs: &Vec<Option<OutputInfo>>, selector: &str) -> (r: Result<usize>)
    ensures
        result_view(r) == selected_output(outputs@, selector@),
{
    if outputs.len() == 0 {
        return Err(AppError::OutputNotFound(own("No outputs available (ensure roundtrip completed)")));
    }
    if is_wildcard_selector(selector) {
        return Ok(0);
    }
    if let Some(i) = find_exact(outputs, selector) {
        return Ok(i);
    }
    match parse_usize(selector) {
        Some(k) => {
            if k < outputs.len() {
                return Ok(k);
            }
        },
        None => {},
    }
    if let Some(i) = find_by_id(outputs, selector) {
        return Ok(i);
    }
    Err(AppError::OutputNotFound(own(selector)))
}

/// Positions of the outputs that match the selector loosely, in order.
pub open spec fn fuzzy_positions(outs: Seq<Option<OutputInfo>>, sel: Seq<char>) -> Seq<usize>
    decreases outs.len(),
{
    if outs.len() == 0 {
        Seq::empty()
    } else {
        let before = fuzzy_positions(outs.drop_last(), sel);
        if fuzzy_match(outs.last(), sel) {
            before.push((outs.len() - 1) as usize)
        } else {
            before
        }
    }
}

/// The positions `0..n`.
pub open spec fn all_positions(n: nat) -> Seq<usize> {
    Seq::new(n, |i: int| i as usize)
}

/// Multi-output selection: every output for a wildcard; otherwise those
/// whose name or description overlaps the selector; failing that, the
/// output at the position the selector names.
pub open spec fn selected_outputs(outs: Seq<Option<OutputInfo>>, sel: Seq<char>) -> std::result::Result<Seq<usize>, AppErrorView> {
    if outs.len() == 0 {
        Err(AppErrorView::OutputNotFound(no_outputs_message()))
    } else if is_wildcard(sel) {
        Ok(all_positions(outs.len()))
    } else if fuzzy_positions(outs, sel).len() > 0 {
        Ok(fuzzy_positions(outs, sel))
    } else if parsed_usize(sel) matches Some(k) && k < outs.len() {
        Ok(seq![parsed_usize(sel)->0])
    } else {
        Err(AppErrorView::OutputNotFound(sel))
    }
}

/// Multi-output selection function (ALL/* wildcard support)
///
/// - ALL/*: Play on all outputs simultaneously
/// - Specific name: Select every output whose name or description contains
///   the selector or is contained in it (strstr-style substring matching)
/// - Numeric position as a fallback
///
/// Returns the positions of the chosen outputs in `outputs`.
pub fn select_outputs(outputs: &Vec<Option<OutputInfo>>, selector: &str) -> (r: Result<Vec<usize>>)
    ensures
        match r {
            Ok(v) => selected_outputs(outputs@, selector@) == Ok::<Seq<usize>, AppErrorView>(v@),
            Err(e) => selected_outputs(outputs@, selector@) == Err::<Seq<usize>, AppErrorView>(e@),
        },
{
    let ghost outs = outputs@;
    let ghost sel = selector@;
    let n = outputs.len();
    if n == 0 {
        return Err(AppError::OutputNotFound(own("No outputs available (ensure roundtrip completed)")));
    }
    if is_wildcard_selector(selector) {
        let mut all: Vec<usize> = Vec::new();
        let mut i: usize = 0;
        while i < n
            invariant
                i <= n,
                all@ == all_positions(i as nat),
            decreases n - i,
        {
            all.push(i);
            assert(all@ =~= all_positions((i + 1) as nat));
            i = i + 1;
        }
        return Ok(all);
    }
    let mut matched: Vec<usize> = Vec::new();
    let mut i: usize = 0;
    assert(outs.take(0) =~= Seq::<Option<OutputInfo>>::empty());
    while i < n
        invariant
            outs == outputs@,
            sel == selector@,
            n == outs.len(),
            i <= n,
            matched@ == fuzzy_positions(outs.take(i as int), sel),
        decreases n - i,
    {
        assert(outs.take(i + 1).drop_last() =~= outs.take(i as int));
        if output_fuzzy(&outputs[i], selector) {
            matched.push(i);
        }
        i = i + 1;
    }
    assert(outs.take(n as int) =~= outs);
    if matched.len() == 0 {
        match parse_usize(selector) {
            Some(k) => {
                if k < n {
                    let mut one: Vec<usize> = Vec::new();
                    one.push(k);
                    assert(one@ =~= seq![k]);
                    return Ok(one);
                }
            },
            None => {},
        }
        return Err(AppError::OutputNotFound(own(selector)));
    }
    Ok(matched)
}

/// The name shown for an output.
pub open spec fn name_text(info: OutputInfo) -> Seq<char> {
    match info.name {
        Some(n) => n@,
        None => "(unknown)"@,
    }
}

/// The description shown for an output.
pub open spec fn desc_text(info: OutputInfo) -> Seq<char> {
    match info.description {
        Some(d) => d@,
        None => ""@,
    }
}

/// The size shown for an output: `WxH`, or `?x?` when unknown.
pub open spec fn size_text(info: OutputInfo) -> Seq<char> {
    match info.logical_size {
        Some(wh) => signed_decimal(wh.0 as int) + "x"@ + signed_decimal(wh.1 as int),
        None => "?x?"@,
    }
}

/// One line of the output listing.
pub open spec fn output_line(index: nat, o: Option<OutputInfo>) -> Seq<char> {
    match o {
        Some(info) => "["@ + decimal(index) + "] "@ + name_text(info) + " - "@ + desc_text(info)
            + " ("@ + size_text(info) + "@"@ + signed_decimal(info.scale_factor as int) + "x)"@,
        None => "["@ + decimal(index) + "] (info not available)"@,
    }
}

/// The size shown for an output.
fn size_string(info: &OutputInfo) -> (r: String)
    ensures
        r@ == size_text(*info),
{
    match info.logical_size {
        Some(wh) => {
            let ws = signed_decimal_string(wh.0 as i64);
            let hs = signed_decimal_string(wh.1 as i64);
            let mut t = concat2(ws.as_str(), "x");
            t.append(hs.as_str());
            t
        },
        None => own("?x?"),
    }
}

/// The listing line for one output.
fn describe_output(index: usize, o: &Option<OutputInfo>) -> (r: String)
    ensures
        r@ == output_line(index as nat, *o),
{
    let idx = decimal_string(index as u64);
    let mut line = concat2("[", idx.as_str());
    match o {
        Some(info) => {
            line.append("] ");
            match &info.name {
                Some(n) => line.append(n.as_str()),
                None => line.append("(unknown)"),
            }
            line.append(" - ");
            match &info.description {
                Some(d) => line.append(d.as_str()),
                None => line.append(""),
            }
            line.append(" (");
            let size = size_string(info);
            line.append(size.as_str());
            line.append("@");
            let scale = signed_decimal_string(info.scale_factor as i64);
            line.append(scale.as_str());
            line.append("x)");
            line
        },
        None => {
            line.append("] (info not available)");
            line
        },
    }
}

/// Get formatted list of all available outputs for display
pub fn list_outputs(outputs: &Vec<Option<OutputInfo>>) -> (r: Vec<String>)
    ensures
        r@.len() == outputs@.len(),
        forall|i: int| 0 <= i < outputs@.len() ==> (#[trigger] r@[i])@ == output_line(i as nat, outputs@[i]),
{
    let mut lines: Vec<String> = Vec::new();
    let mut i: usize = 0;
    while i < outputs.len()
        invariant
            i <= outputs.len(),
            lines@.len() == i,
            forall|k: int| 0 <= k < i ==> (#[trigger] lines@[k])@ == output_line(k as nat, outputs@[k]),
        decreases outputs.len() - i,
    {
        lines.push(describe_output(i, &outputs[i]));
        i = i + 1;
    }
    lines
}

/// The loose matches are real positions, in increasing order.
proof fn lemma_fuzzy_positions_increasing(outs: Seq<Option<OutputInfo>>, sel: Seq<char>)
    requires
        outs.len() <= usize::MAX,
    ensures
        forall|i: int| 0 <= i < fuzzy_positions(outs, sel).len() ==> #[trigger] fuzzy_positions(outs, sel)[i] < outs.len(),
        forall|i: int, j: int|
            0 <= i < j < fuzzy_positions(outs, sel).len() ==> #[trigger] fuzzy_positions(outs, sel)[i]
                < #[trigger] fuzzy_positions(outs, sel)[j],
    decreases outs.len(),
{
    if outs.len() > 0 {
        let before = fuzzy_positions(outs.drop_last(), sel);
        lemma_fuzzy_positions_increasing(outs.drop_last(), sel);
        let last = (outs.len() - 1) as usize;
        if fuzzy_match(outs.last(), sel) {
            let now = before.push(last);
            assert(fuzzy_positions(outs, sel) == now);
            assert forall|i: int| 0 <= i < now.len() implies #[trigger] now[i] < outs.len() by {
                if i < before.len() {
                    assert(now[i] == before[i]);
                }
            }
            assert forall|i: int, j: int| 0 <= i < j < now.len() implies #[trigger] now[i] < #[trigger] now[j] by {
                assert(now[i] == before[i]);
                if j < before.len() {
                    assert(now[j] == before[j]);
                }
            }
        }
    }
}

/// Multi-output selection covers each output at most once: on success it
/// names at least one output, every position is a real one, and positions
/// come in increasing order; a wildcard names every output. (The outputs
/// are those of a `Vec`, so their number fits in `usize`.)
pub proof fn law_selection_is_distinct(outs: Seq<Option<OutputInfo>>, sel: Seq<char>)
    requires
        outs.len() <= usize::MAX,
    ensures
        selected_outputs(outs, sel) matches Ok(v) ==> {
            &&& v.len() > 0
            &&& forall|i: int| 0 <= i < v.len() ==> #[trigger] v[i] < outs.len()
            &&& forall|i: int, j: int| 0 <= i < j < v.len() ==> #[trigger] v[i] < #[trigger] v[j]
        },
        outs.len() > 0 && is_wildcard(sel) ==> selected_outputs(outs, sel) == Ok::<Seq<usize>, AppErrorView>(
            all_positions(outs.len()),
        ),
{
    lemma_fuzzy_positions_increasing(outs, sel);
    if outs.len() > 0 && is_wildcard(sel) {
        let v = all_positions(outs.len());
        assert forall|i: int, j: int| 0 <= i < j < v.len() implies #[trigger] v[i] < #[trigger] v[j] by {
            assert(v[i] == i as usize);
            assert(v[j] == j as usize);
        }
    }
}

} // verus!

verus! {

/// Whether an output's name or description is exactly `sel`.
pub open spec fn names_exactly(o: Option<OutputInfo>, sel: Seq<char>) -> bool {
    match o {
        Some(info) => (info.name matches Some(n) && n@ == sel) || (info.description matches Some(d) && d@ == sel),
        None => false,
    }
}

/// Every output that matches loosely is among the loose matches.
proof fn lemma_fuzzy_positions_complete(outs: Seq<Option<OutputInfo>>, sel: Seq<char>, i: int)
    requires
        outs.len() <= usize::MAX,
        0 <= i < outs.len(),
        fuzzy_match(outs[i], sel),
    ensures
        fuzzy_positions(outs, sel).contains(i as usize),
    decreases outs.len(),
{
    let before = fuzzy_positions(outs.drop_last(), sel);
    if i == outs.len() - 1 {
        let now = before.push(i as usize);
        assert(now[before.len() as int] == i as usize);
    } else {
        assert(outs.drop_last()[i] == outs[i]);
        lemma_fuzzy_positions_complete(outs.drop_last(), sel, i);
        let k = choose|k: int| 0 <= k < before.len() && before[k] == i as usize;
        if fuzzy_match(outs.last(), sel) {
            assert(before.push((outs.len() - 1) as usize)[k] == i as usize);
        }
    }
}

/// An output whose name or description is the selector is always chosen:
/// for a selector that is not a wildcard, multi-output selection succeeds
/// and its positions include every such output.
pub proof fn law_named_output_is_selected(outs: Seq<Option<OutputInfo>>, sel: Seq<char>, i: int)
    requires
        outs.len() <= usize::MAX,
        0 <= i < outs.len(),
        names_exactly(outs[i], sel),
        !is_wildcard(sel),
    ensures
        selected_outputs(outs, sel) matches Ok(v) && v.contains(i as usize),
{
    assert(occurs_at(sel, sel, 0)) by {
        assert(sel.subrange(0, sel.len() as int) =~= sel);
    }
    assert(seq_contains(sel, sel));
    assert(fuzzy_match(outs[i], sel));
    lemma_fuzzy_positions_complete(outs, sel, i);
    assert(fuzzy_positions(outs, sel).len() > 0);
}

} // verus!
