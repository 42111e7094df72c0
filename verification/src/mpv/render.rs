//! When an output is drawn.
use vstd::prelude::*;

use crate::wayland::output::DisplayOutput;

verus! {

/// Check if a frame should be rendered for this output: it asked for a
/// redraw (the new frame itself is mpv's to announce).
pub fn should_render(output: &DisplayOutput) -> (r: bool)
    ensures
        r == output.redraw_needed,
{
    output.redraw_needed
}

/// The outputs a new mpv frame is drawn to: those with an EGL surface, in
/// order.
pub fn render_targets(outputs: &Vec<DisplayOutput>) -> (r: Vec<usize>)
    ensures
        forall|k: int| 0 <= k < r@.len() ==> r@[k] < outputs@.len() && outputs@[r@[k] as int].has_egl_surface,
        forall|k: int, l: int| 0 <= k < l < r@.len() ==> r@[k] < r@[l],
        forall|i: int|
            0 <= i < outputs@.len() && (#[trigger] outputs@[i]).has_egl_surface ==> r@.contains(i as usize),
{
    let mut out: Vec<usize> = Vec::new();
    let mut i: usize = 0;
    while i < outputs.len()
        invariant
            i <= outputs.len(),
            forall|k: int| 0 <= k < out@.len() ==> out@[k] < i && outputs@[out@[k] as int].has_egl_surface,
            forall|k: int, l: int| 0 <= k < l < out@.len() ==> out@[k] < out@[l],
            forall|j: int| 0 <= j < i && (#[trigger] outputs@[j]).has_egl_surface ==> out@.contains(j as usize),
        decreases outputs.len() - i,
    {
        if outputs[i].has_egl_surface {
            let ghost before = out@;
            out.push(i);
            proof {
                assert forall|j: int| 0 <= j < i + 1 && (#[trigger] outputs@[j]).has_egl_surface implies out@.contains(
                    j as usize,
                ) by {
                    if j < i {
                        assert(before.contains(j as usize));
                        let k = choose|k: int| 0 <= k < before.len() && before[k] == j as usize;
                        assert(out@[k] == j as usize);
                    } else {
                        assert(out@[before.len() as int] == i);
                    }
                }
            }
        }
        i = i + 1;
    }
    out
}

} // verus!
