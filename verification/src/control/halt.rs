//! Per-output frame bookkeeping (the deadman switch) and the halt state.
use vstd::prelude::*;

use dashmap::DashMap;

verus! {

#[verifier::external_type_specification]
#[verifier::external_body]
#[verifier::reject_recursive_types(K)]
#[verifier::reject_recursive_types(V)]
#[verifier::reject_recursive_types(S)]
pub struct ExDashMap<K, V, S>(DashMap<K, V, S>);

/// What a map from output ids to frame flags holds.
pub uninterp spec fn frame_flags(m: DashMap<u32, bool>) -> Map<u32, bool>;

/// Calls `DashMap::new`: an empty map.
#[verifier::external_body]
fn flags_new() -> (r: DashMap<u32, bool>)
    ensures
        frame_flags(r).dom().is_empty(),
{
    DashMap::new()
}

/// Calls `DashMap::insert`: the key now maps to the value, other keys unchanged.
#[verifier::external_body]
fn flags_insert(m: &mut DashMap<u32, bool>, key: u32, value: bool)
    ensures
        frame_flags(*final(m)) == frame_flags(*old(m)).insert(key, value),
{
    m.insert(key, value);
}

/// Calls `DashMap::remove`: the key is gone, other keys unchanged.
#[verifier::external_body]
fn flags_remove(m: &mut DashMap<u32, bool>, key: u32)
    ensures
        frame_flags(*final(m)) == frame_flags(*old(m)).remove(key),
{
    m.remove(&key);
}

/// Calls `DashMap::contains_key`.
#[verifier::external_body]
fn flags_contains(m: &DashMap<u32, bool>, key: u32) -> (r: bool)
    ensures
        r == frame_flags(*m).dom().contains(key),
{
    m.contains_key(&key)
}

/// Calls `DashMap::iter`, handing each entry out as a `(key, flag)` pair.
/// Each entry of the map comes out once, in an order that is not stated.
#[verifier::external_body]
fn flags_entries(m: &DashMap<u32, bool>) -> (r: Vec<(u32, bool)>)
    ensures
        r@.len() == frame_flags(*m).dom().len(),
        forall|i: int| 0 <= i < r@.len() ==> frame_flags(*m).dom().contains(#[trigger] r@[i].0)
            && frame_flags(*m)[r@[i].0] == r@[i].1,
        forall|i: int, j: int| 0 <= i < j < r@.len() ==> #[trigger] r@[i].0 != #[trigger] r@[j].0,
{
    m.iter().map(|e| (*e.key(), *e.value())).collect()
}

/// Whether some output has received a frame callback.
pub open spec fn some_ready(flags: Map<u32, bool>) -> bool {
    exists|id: u32| flags.dom().contains(id) && #[trigger] flags[id]
}

/// Whether there is at least one output and none has received a frame callback.
pub open spec fn every_hidden(flags: Map<u32, bool>) -> bool {
    flags.dom().len() > 0 && forall|id: u32| flags.dom().contains(id) ==> !#[trigger] flags[id]
}

/// The same outputs, none marked as having received a frame callback.
pub open spec fn cleared(flags: Map<u32, bool>) -> Map<u32, bool> {
    Map::new(|id: u32| flags.dom().contains(id), |id: u32| false)
}

/// The flags after a frame callback for `id`: a known output is marked; an
/// unknown id changes nothing.
pub open spec fn marked(flags: Map<u32, bool>, id: u32) -> Map<u32, bool> {
    if flags.dom().contains(id) {
        flags.insert(id, true)
    } else {
        flags
    }
}

/// Per-output frame callback state (multi-output support)
///
/// Deadman switch: tracks whether each output received a frame callback.
/// Used by auto_pause/auto_stop to determine if all outputs are hidden.
/// Outputs are keyed by the protocol id of their `wl_output`.
pub struct OutputFrameState {
    /// Output ID -> frame callback received flag
    frame_ready: DashMap<u32, bool>,
}

impl View for OutputFrameState {
    type V = Map<u32, bool>;

    closed spec fn view(&self) -> Map<u32, bool> {
        frame_flags(self.frame_ready)
    }
}

impl OutputFrameState {
    /// The flags hold finitely many outputs.
    pub open spec fn wf(&self) -> bool {
        self@.dom().finite()
    }

    /// No outputs.
    pub fn new() -> (r: Self)
        ensures
            r@ == Map::<u32, bool>::empty(),
            r.wf(),
    {
        let r = OutputFrameState { frame_ready: flags_new() };
        assert(r@ =~= Map::<u32, bool>::empty());
        r
    }

    /// Add output (MUST be called in OutputHandler::new_output!)
    pub fn add_output(&mut self, id: u32)
        requires
            old(self).wf(),
        ensures
            final(self)@ == old(self)@.insert(id, false),
            final(self).wf(),
    {
        flags_insert(&mut self.frame_ready, id, false);
    }

    /// Remove output (MUST be called in OutputHandler::output_destroyed!)
    pub fn remove_output(&mut self, id: u32)
        requires
            old(self).wf(),
        ensures
            final(self)@ == old(self)@.remove(id),
            final(self).wf(),
    {
        flags_remove(&mut self.frame_ready, id);
    }

    /// Mark frame callback received for specific output (called in frame callback)
    pub fn mark_ready(&mut self, id: u32)
        requires
            old(self).wf(),
        ensures
            final(self)@ == marked(old(self)@, id),
            final(self).wf(),
    {
        if flags_contains(&self.frame_ready, id) {
            flags_insert(&mut self.frame_ready, id, true);
        } else {
            assert(marked(self@, id) == self@);
        }
    }

    /// Reset all output frame states (called periodically by auto handler)
    pub fn reset_all(&mut self)
        requires
            old(self).wf(),
        ensures
            final(self)@ == cleared(old(self)@),
            final(self).wf(),
    {
        let ghost start = self@;
        let entries = flags_entries(&self.frame_ready);
        let mut i: usize = 0;
        while i < entries.len()
            invariant
                start.dom().finite(),
                entries@.len() == start.dom().len(),
                forall|k: int| 0 <= k < entries@.len() ==> start.dom().contains(#[trigger] entries@[k].0),
                forall|k: int, j: int| 0 <= k < j < entries@.len() ==> #[trigger] entries@[k].0 != #[trigger] entries@[j].0,
                i <= entries.len(),
                self@.dom() == start.dom(),
                forall|id: u32| #[trigger] self@.dom().contains(id) ==> (self@[id] == start[id] || !self@[id]),
                forall|k: int| 0 <= k < i ==> !self@[#[trigger] entries@[k].0],
            decreases entries.len() - i,
        {
            let (id, _) = entries[i];
            flags_insert(&mut self.frame_ready, id, false);
            assert(self@.dom() =~= start.dom());
            i = i + 1;
        }
        proof {
            assert forall|id: u32| start.dom().contains(id) implies !self@[id] by {
                lemma_listed(entries@, start.dom(), id);
            }
        }
        assert(self@ =~= cleared(start));
    }

    /// Check if at least one output received a frame callback
    pub fn any_ready(&self) -> (r: bool)
        requires
            self.wf(),
        ensures
            r == some_ready(self@),
    {
        let entries = flags_entries(&self.frame_ready);
        let mut i: usize = 0;
        while i < entries.len()
            invariant
                i <= entries.len(),
                forall|k: int| 0 <= k < entries@.len() ==> self@.dom().contains(#[trigger] entries@[k].0)
                    && self@[entries@[k].0] == entries@[k].1,
                forall|k: int| 0 <= k < i ==> !(#[trigger] entries@[k]).1,
            decreases entries.len() - i,
        {
            if entries[i].1 {
                assert(self@.dom().contains(entries@[i as int].0) && self@[entries@[i as int].0]);
                return true;
            }
            i = i + 1;
        }
        proof {
            assert forall|id: u32| self@.dom().contains(id) implies !#[trigger] self@[id] by {
                let ghost dom = self@.dom();
                lemma_listed(entries@, dom, id);
            }
        }
        false
    }

    /// Check if all outputs failed to receive frame callbacks (all hidden)
    pub fn all_hidden(&self) -> (r: bool)
        requires
            self.wf(),
        ensures
            r == every_hidden(self@),
    {
        let entries = flags_entries(&self.frame_ready);
        if entries.len() == 0 {
            return false;
        }
        let mut i: usize = 0;
        while i < entries.len()
            invariant
                i <= entries.len(),
                forall|k: int| 0 <= k < entries@.len() ==> self@.dom().contains(#[trigger] entries@[k].0)
                    && self@[entries@[k].0] == entries@[k].1,
                forall|k: int| 0 <= k < i ==> !(#[trigger] entries@[k]).1,
            decreases entries.len() - i,
        {
            if entries[i].1 {
                assert(self@.dom().contains(entries@[i as int].0) && self@[entries@[i as int].0]);
                return false;
            }
            i = i + 1;
        }
        proof {
            assert forall|id: u32| self@.dom().contains(id) implies !#[trigger] self@[id] by {
                let ghost dom = self@.dom();
                lemma_listed(entries@, dom, id);
            }
        }
        true
    }
}

/// Every member of a finite set whose distinct members a list holds as many
/// times as the set's size appears in the list.
proof fn lemma_listed(entries: Seq<(u32, bool)>, dom: Set<u32>, id: u32)
    requires
        dom.finite(),
        entries.len() == dom.len(),
        forall|k: int| 0 <= k < entries.len() ==> dom.contains(#[trigger] entries[k].0),
        forall|k: int, j: int| 0 <= k < j < entries.len() ==> #[trigger] entries[k].0 != #[trigger] entries[j].0,
        dom.contains(id),
    ensures
        exists|k: int| 0 <= k < entries.len() && #[trigger] entries[k].0 == id,
{
    let keys = Set::new(|x: u32| exists|k: int| 0 <= k < entries.len() && #[trigger] entries[k].0 == x);
    let ks = entries.map_values(|e: (u32, bool)| e.0);
    assert forall|k: int, j: int| 0 <= k < j < ks.len() implies ks[k] != ks[j] by {
        assert(ks[k] == entries[k].0 && ks[j] == entries[j].0);
    }
    assert(ks.no_duplicates());
    ks.unique_seq_to_set();
    assert(ks.to_set() =~= keys) by {
        assert forall|x: u32| keys.contains(x) implies ks.to_set().contains(x) by {
            let k = choose|k: int| 0 <= k < entries.len() && #[trigger] entries[k].0 == x;
            assert(ks[k] == x);
        }
        assert forall|x: u32| ks.to_set().contains(x) implies keys.contains(x) by {
            let k = choose|k: int| 0 <= k < ks.len() && ks[k] == x;
            assert(entries[k].0 == x);
        }
    }
    assert(keys.subset_of(dom));
    vstd::set_lib::lemma_subset_equality(keys, dom);
    assert(keys.contains(id));
}

impl Default for OutputFrameState {
    fn default() -> (r: Self)
        ensures
            r@ == Map::<u32, bool>::empty(),
            r.wf(),
    {
        Self::new()
    }
}

/// The mathematical state of [`HaltInfo`], leaving out the watch lists,
/// which never change once set.
pub struct HaltState {
    pub auto_pause: bool,
    pub auto_stop: bool,
    pub is_paused: i32,
    pub frames: Map<u32, bool>,
    pub stop_render_loop: bool,
    pub list_paused: bool,
    pub user_paused: bool,
    pub signal_exit: bool,
}

/// Pause/stop state shared by the worker threads and the render loop.
pub struct HaltInfo {
    /// Watch lists
    pub pauselist: Option<Vec<String>>,
    pub stoplist: Option<Vec<String>>,
    /// Auto features
    pub auto_pause: bool,
    pub auto_stop: bool,
    /// Pause counter: >0 means paused (multiple sources can pause)
    pub is_paused: i32,
    /// Per-output frame state (deadman switch)
    pub output_frame_state: OutputFrameState,
    /// Signal to stop the render loop
    pub stop_render_loop: bool,
    /// Track if paused by watchlist
    pub list_paused: bool,
    /// Track if user manually paused (prevents auto-unpause override)
    pub user_paused: bool,
    /// Signal exit requested (SIGINT/SIGTERM) - prevents holder transition
    pub signal_exit: bool,
}

impl View for HaltInfo {
    type V = HaltState;

    open spec fn view(&self) -> HaltState {
        HaltState {
            auto_pause: self.auto_pause,
            auto_stop: self.auto_stop,
            is_paused: self.is_paused,
            frames: self.output_frame_state@,
            stop_render_loop: self.stop_render_loop,
            list_paused: self.list_paused,
            user_paused: self.user_paused,
            signal_exit: self.signal_exit,
        }
    }
}

/// The state a fresh [`HaltInfo`] starts in.
pub open spec fn initial_halt(auto_pause: bool, auto_stop: bool) -> HaltState {
    HaltState {
        auto_pause,
        auto_stop,
        is_paused: 0,
        frames: Map::empty(),
        stop_render_loop: false,
        list_paused: false,
        user_paused: false,
        signal_exit: false,
    }
}

/// Whether the process should hand over to the holder once the render loop ends.
pub open spec fn hands_over(s: HaltState) -> bool {
    s.auto_stop && s.stop_render_loop && !s.signal_exit
}

impl HaltInfo {
    /// The frame flags hold finitely many outputs.
    pub open spec fn wf(&self) -> bool {
        self.output_frame_state.wf()
    }

    /// Fresh state: nothing paused, no outputs, no stop requested, no watch lists.
    pub fn new(auto_pause: bool, auto_stop: bool) -> (r: Self)
        ensures
            r@ == initial_halt(auto_pause, auto_stop),
            r.pauselist is None,
            r.stoplist is None,
            r.wf(),
    {
        HaltInfo {
            pauselist: None,
            stoplist: None,
            auto_pause,
            auto_stop,
            is_paused: 0,
            output_frame_state: OutputFrameState::new(),
            stop_render_loop: false,
            list_paused: false,
            user_paused: false,
            signal_exit: false,
        }
    }

    /// Check if the program should exec holder on exit
    ///
    /// Returns true if auto_stop is enabled and stop_render_loop was set
    /// (indicating the wallpaper was hidden and we should switch to holder)
    /// but NOT if exit was triggered by signal (SIGINT/SIGTERM)
    pub fn should_exec_holder(&self) -> (r: bool)
        ensures
            r == hands_over(self@),
    {
        self.auto_stop && self.stop_render_loop && !self.signal_exit
    }
}

impl Default for HaltInfo {
    fn default() -> (r: Self)
        ensures
            r@ == initial_halt(false, false),
            r.pauselist is None,
            r.stoplist is None,
            r.wf(),
    {
        Self::new(false, false)
    }
}

/// Deadman switch laws: after a reset no output counts as ready, and every
/// output counts as hidden exactly when there is one; a frame callback for a
/// known output makes it ready and ends "all hidden"; "all hidden" and
/// "some ready" exclude each other and, with at least one output, one of them
/// holds; with no outputs, "all hidden" never holds.
pub proof fn law_deadman_switch(flags: Map<u32, bool>, id: u32)
    requires
        flags.dom().finite(),
    ensures
        !some_ready(cleared(flags)),
        every_hidden(cleared(flags)) <==> flags.dom().len() > 0,
        flags.dom().contains(id) ==> some_ready(marked(flags, id)) && !every_hidden(marked(flags, id)),
        every_hidden(flags) ==> !some_ready(flags),
        flags.dom().len() > 0 && !some_ready(flags) ==> every_hidden(flags),
        flags.dom().len() == 0 ==> !every_hidden(flags),
{
    assert(cleared(flags).dom() =~= flags.dom());
    if flags.dom().contains(id) {
        assert(marked(flags, id)[id]);
    }
    if flags.dom().len() > 0 && !some_ready(flags) {
        assert forall|x: u32| flags.dom().contains(x) implies !#[trigger] flags[x] by {
            if flags[x] {
                assert(some_ready(flags));
            }
        }
    }
}

/// Adding an output and removing it again leaves the flags as they were,
/// when the output was not known before.
pub proof fn law_add_then_remove(flags: Map<u32, bool>, id: u32)
    requires
        !flags.dom().contains(id),
    ensures
        flags.insert(id, false).remove(id) == flags,
{
    assert(flags.insert(id, false).remove(id) =~= flags);
}

} // verus!
