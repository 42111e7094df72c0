//! Per-output surface geometry and redraw bookkeeping.
use vstd::prelude::*;

use super::state::OutputInfo;
use crate::error::{AppError, AppErrorView, Result};
use crate::text::own;

verus! {

/// Display output information; the Wayland and EGL handles that go with it
/// are held by the caller, which records here whether they exist.
pub struct DisplayOutput {
    /// Protocol id of the `wl_output`.
    pub output_id: u32,
    pub name: String,
    pub identifier: String,
    /// Protocol id of the layer surface's `wl_surface`, once created.
    pub layer_surface_id: Option<u32>,
    /// Whether an EGL window exists for the surface.
    pub has_egl_window: bool,
    /// Whether an EGL surface exists for the window.
    pub has_egl_surface: bool,
    // Dimensions
    pub width: u32,
    pub height: u32,
    pub scale: i32,
    // Frame sync
    pub redraw_needed: bool,
}

impl DisplayOutput {
    /// An output with nothing known yet: empty names, no surfaces, zero size, scale 1.
    pub fn new(output_id: u32) -> (r: Self)
        ensures
            r.output_id == output_id,
            r.name@.len() == 0,
            r.identifier@.len() == 0,
            r.layer_surface_id is None,
            !r.has_egl_window,
            !r.has_egl_surface,
            r.width == 0,
            r.height == 0,
            r.scale == 1,
            !r.redraw_needed,
    {
        proof {
            reveal_strlit("");
        }
        DisplayOutput {
            output_id,
            name: own(""),
            identifier: own(""),
            layer_surface_id: None,
            has_egl_window: false,
            has_egl_surface: false,
            width: 0,
            height: 0,
            scale: 1,
            redraw_needed: false,
        }
    }

    /// The output registered when the compositor announces it: filled from
    /// the output's information when it is already known (missing names are
    /// empty, a missing size is zero), else empty.
    pub fn from_info(output_id: u32, info: Option<&OutputInfo>) -> (r: Self)
        ensures
            r.output_id == output_id,
            r.layer_surface_id is None,
            !r.has_egl_window,
            !r.has_egl_surface,
            !r.redraw_needed,
            match info {
                Some(i) => {
                    &&& r.name@ == (match i.name {
                        Some(n) => n@,
                        None => Seq::<char>::empty(),
                    })
                    &&& r.identifier@ == (match i.description {
                        Some(d) => d@,
                        None => Seq::<char>::empty(),
                    })
                    &&& r.width == (match i.logical_size {
                        Some(wh) => wh.0 as u32,
                        None => 0u32,
                    })
                    &&& r.height == (match i.logical_size {
                        Some(wh) => wh.1 as u32,
                        None => 0u32,
                    })
                    &&& r.scale == i.scale_factor
                },
                None => r.name@.len() == 0 && r.identifier@.len() == 0 && r.width == 0 && r.height
                    == 0 && r.scale == 1,
            },
    {
        let mut out = DisplayOutput::new(output_id);
        match info {
            Some(i) => {
                out.name = match &i.name {
                    Some(n) => n.clone(),
                    None => own(""),
                };
                out.identifier = match &i.description {
                    Some(d) => d.clone(),
                    None => own(""),
                };
                match i.logical_size {
                    Some(wh) => {
                        out.width = wh.0 as u32;
                        out.height = wh.1 as u32;
                    },
                    None => {},
                }
                out.scale = i.scale_factor;
                proof {
                    reveal_strlit("");
                }
            },
            None => {},
        }
        out
    }

    /// Output info update (scale change, etc.): names and, when known, the
    /// size are taken over; a changed scale factor asks for a redraw.
    pub fn update_from_info(&mut self, info: &OutputInfo)
        ensures
            final(self).name@ == (match info.name {
                Some(n) => n@,
                None => Seq::<char>::empty(),
            }),
            final(self).identifier@ == (match info.description {
                Some(d) => d@,
                None => Seq::<char>::empty(),
            }),
            final(self).width == (match info.logical_size {
                Some(wh) => wh.0 as u32,
                None => old(self).width,
            }),
            final(self).height == (match info.logical_size {
                Some(wh) => wh.1 as u32,
                None => old(self).height,
            }),
            final(self).scale == info.scale_factor,
            final(self).redraw_needed == (old(self).redraw_needed || old(self).scale
                != info.scale_factor),
            final(self).output_id == old(self).output_id,
            final(self).layer_surface_id == old(self).layer_surface_id,
            final(self).has_egl_window == old(self).has_egl_window,
            final(self).has_egl_surface == old(self).has_egl_surface,
    {
        proof {
            reveal_strlit("");
        }
        self.name = match &info.name {
            Some(n) => n.clone(),
            None => own(""),
        };
        self.identifier = match &info.description {
            Some(d) => d.clone(),
            None => own(""),
        };
        match info.logical_size {
            Some(wh) => {
                self.width = wh.0 as u32;
                self.height = wh.1 as u32;
            },
            None => {},
        }
        let scale_changed = self.scale != info.scale_factor;
        self.scale = info.scale_factor;
        if scale_changed {
            self.redraw_needed = true;
        }
    }

    /// Resize the EGL window to match new dimensions
    ///
    /// Called when the layer surface is reconfigured (e.g., output resize,
    /// scale change). Only when an EGL window exists: the new size is taken
    /// and a redraw asked for, and the size to give the window is returned.
    pub fn resize_egl_window(&mut self, width: u32, height: u32) -> (r: Option<(i32, i32)>)
        ensures
            old(self).has_egl_window ==> r == Some((width as i32, height as i32))
                && final(self).width == width && final(self).height == height
                && final(self).redraw_needed,
            !old(self).has_egl_window ==> r is None && final(self).width == old(self).width
                && final(self).height == old(self).height && final(self).redraw_needed == old(
                self,
            ).redraw_needed,
            final(self).output_id == old(self).output_id,
            final(self).name == old(self).name,
            final(self).identifier == old(self).identifier,
            final(self).layer_surface_id == old(self).layer_surface_id,
            final(self).has_egl_window == old(self).has_egl_window,
            final(self).has_egl_surface == old(self).has_egl_surface,
            final(self).scale == old(self).scale,
    {
        if self.has_egl_window {
            let width_i32 = width as i32;
            let height_i32 = height as i32;
            self.width = width;
            self.height = height;
            self.redraw_needed = true;
            Some((width_i32, height_i32))
        } else {
            None
        }
    }

    /// A layer-surface configure with a (non-zero) size: a changed size with
    /// an EGL window resizes it; otherwise the size is taken and a redraw
    /// asked for. Returns the size to give the EGL window, if it is resized.
    pub fn apply_configure(&mut self, width: u32, height: u32) -> (r: Option<(i32, i32)>)
        ensures
            final(self).width == width,
            final(self).height == height,
            final(self).redraw_needed,
            r == (if (old(self).width != width || old(self).height != height) && old(
                self,
            ).has_egl_window {
                Some((width as i32, height as i32))
            } else {
                None
            }),
            final(self).output_id == old(self).output_id,
            final(self).name == old(self).name,
            final(self).identifier == old(self).identifier,
            final(self).layer_surface_id == old(self).layer_surface_id,
            final(self).has_egl_window == old(self).has_egl_window,
            final(self).has_egl_surface == old(self).has_egl_surface,
            final(self).scale == old(self).scale,
    {
        let size_changed = self.width != width || self.height != height;
        if size_changed && self.has_egl_window {
            self.resize_egl_window(width, height)
        } else {
            self.width = width;
            self.height = height;
            self.redraw_needed = true;
            None
        }
    }

    /// Start setting up EGL for the output: without a layer surface this is
    /// an error and nothing changes; otherwise the old EGL surface and
    /// window are dropped, and the size to create the new window with is
    /// returned when both dimensions fit in `i32` (else an error).
    pub fn setup_egl(&mut self, width: u32, height: u32) -> (r: Result<(i32, i32)>)
        ensures
            old(self).layer_surface_id is None ==> (r matches Err(e) && e@ == AppErrorView::EglInit(
                "Layer surface not available for EGL setup"@,
            )) && *final(self) == *old(self),
            old(self).layer_surface_id is Some ==> *final(self) == (DisplayOutput {
                has_egl_window: false,
                has_egl_surface: false,
                ..*old(self)
            }),
            old(self).layer_surface_id is Some && width > i32::MAX ==> (r matches Err(e) && e@
                == AppErrorView::EglInit("Width too large"@)),
            old(self).layer_surface_id is Some && width <= i32::MAX && height > i32::MAX ==> (
            r matches Err(e) && e@ == AppErrorView::EglInit("Height too large"@)),
            old(self).layer_surface_id is Some && width <= i32::MAX && height <= i32::MAX ==> r
                == Ok::<(i32, i32), AppError>((width as i32, height as i32)),
    {
        if self.layer_surface_id.is_none() {
            return Err(AppError::EglInit(own("Layer surface not available for EGL setup")));
        }
        self.has_egl_surface = false;
        self.has_egl_window = false;
        if width > 0x7fff_ffff {
            return Err(AppError::EglInit(own("Width too large")));
        }
        if height > 0x7fff_ffff {
            return Err(AppError::EglInit(own("Height too large")));
        }
        Ok((width as i32, height as i32))
    }

    /// Mark that we've rendered
    pub fn mark_rendered(&mut self)
        ensures
            *final(self) == (DisplayOutput { redraw_needed: false, ..*old(self) }),
    {
        self.redraw_needed = false;
    }
}

} // verus!
