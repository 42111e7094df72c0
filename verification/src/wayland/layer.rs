//! Finding the output behind a layer surface, and the size a configure means.
use vstd::prelude::*;

use super::output::DisplayOutput;

verus! {

/// The first position whose output's layer surface is `surface_id`.
pub open spec fn surface_position(outputs: Seq<DisplayOutput>, surface_id: u32) -> Option<int> {
    if exists|i: int| 0 <= i < outputs.len() && outputs[i].layer_surface_id == Some(surface_id) {
        Some(
            choose|i: int|
                0 <= i < outputs.len() && outputs[i].layer_surface_id == Some(surface_id) && forall|j: int|
                    0 <= j < i ==> (#[trigger] outputs[j]).layer_surface_id != Some(surface_id),
        )
    } else {
        None
    }
}

/// Find the output that owns a layer surface.
pub fn output_for_surface(outputs: &Vec<DisplayOutput>, surface_id: u32) -> (r: Option<usize>)
    ensures
        r matches Some(i) ==> surface_position(outputs@, surface_id) == Some(i as int) && i
            < outputs@.len(),
        r is None ==> surface_position(outputs@, surface_id) is None,
{
    let mut i: usize = 0;
    while i < outputs.len()
        invariant
            i <= outputs.len(),
            forall|j: int| 0 <= j < i ==> (#[trigger] outputs@[j]).layer_surface_id != Some(surface_id),
        decreases outputs.len() - i,
    {
        if outputs[i].layer_surface_id == Some(surface_id) {
            proof {
                let w = choose|k: int|
                    0 <= k < outputs@.len() && outputs@[k].layer_surface_id == Some(surface_id)
                        && forall|j: int| 0 <= j < k ==> (#[trigger] outputs@[j]).layer_surface_id != Some(surface_id);
                assert(outputs@[i as int].layer_surface_id == Some(surface_id));
                if w < i {
                    assert(outputs@[w].layer_surface_id != Some(surface_id));
                } else if w > i {
                    assert(outputs@[i as int].layer_surface_id != Some(surface_id));
                }
            }
            return Some(i);
        }
        i = i + 1;
    }
    None
}

/// The size of the output behind a layer surface, when it is known (both
/// dimensions non-zero).
pub open spec fn layer_output_size(outputs: Seq<DisplayOutput>, surface_id: u32) -> Option<(u32, u32)> {
    match surface_position(outputs, surface_id) {
        Some(i) => if outputs[i].width > 0 && outputs[i].height > 0 {
            Some((outputs[i].width, outputs[i].height))
        } else {
            None
        },
        None => None,
    }
}

/// Get output size for a layer surface
pub fn get_output_size_for_layer(outputs: &Vec<DisplayOutput>, surface_id: u32) -> (r: Option<(u32, u32)>)
    ensures
        r == layer_output_size(outputs@, surface_id),
{
    match output_for_surface(outputs, surface_id) {
        Some(i) => {
            let o = &outputs[i];
            if o.width > 0 && o.height > 0 {
                Some((o.width, o.height))
            } else {
                None
            }
        },
        None => None,
    }
}

/// The size a layer-surface configure means: its own size, or, when it
/// leaves a dimension at zero ("use the client's size"), the known size of
/// the output behind the surface; `None` when neither is available.
pub fn configured_size(outputs: &Vec<DisplayOutput>, surface_id: u32, new_size: (u32, u32)) -> (r: Option<(u32, u32)>)
    ensures
        r == (if new_size.0 == 0 || new_size.1 == 0 {
            layer_output_size(outputs@, surface_id)
        } else {
            Some(new_size)
        }),
{
    if new_size.0 == 0 || new_size.1 == 0 {
        get_output_size_for_layer(outputs, surface_id)
    } else {
        Some(new_size)
    }
}

/// The first position whose output has the given `wl_output` id.
pub fn output_position(outputs: &Vec<DisplayOutput>, output_id: u32) -> (r: Option<usize>)
    ensures
        r matches Some(i) ==> i < outputs@.len() && outputs@[i as int].output_id == output_id
            && forall|j: int| 0 <= j < i ==> (#[trigger] outputs@[j]).output_id != output_id,
        r is None ==> forall|j: int| 0 <= j < outputs@.len() ==> (#[trigger] outputs@[j]).output_id != output_id,
{
    let mut i: usize = 0;
    while i < outputs.len()
        invariant
            i <= outputs.len(),
            forall|j: int| 0 <= j < i ==> (#[trigger] outputs@[j]).output_id != output_id,
        decreases outputs.len() - i,
    {
        if outputs[i].output_id == output_id {
            return Some(i);
        }
        i = i + 1;
    }
    None
}

} // verus!
