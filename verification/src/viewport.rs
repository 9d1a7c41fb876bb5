//! Splitting the window into the simulation pane (upper half) and the
//! plot pane (lower half), and keeping each camera's viewport in step
//! with the window size.
use vstd::prelude::*;

verus! {

/// A rectangle of physical pixels: its top-left corner and its size.
#[derive(Clone, Copy, Debug, PartialEq, Eq, Structural)]
pub struct PixelRect {
    pub x: u32,
    pub y: u32,
    pub width: u32,
    pub height: u32,
}

/// The viewports of the two cameras.
#[derive(Clone, Copy, Debug, PartialEq, Eq, Structural)]
pub struct PaneLayout {
    /// Upper pane, seen by the simulation camera.
    pub simulation: PixelRect,
    /// Lower pane, seen by the plot camera.
    pub plot: PixelRect,
}

/// The layout for a window of `width` by `height` physical pixels: the upper
/// pane takes the rounded-down half of the height, the lower pane the rest.
pub open spec fn spec_pane_layout(width: u32, height: u32) -> PaneLayout {
    let half: u32 = (height / 2) as u32;
    PaneLayout {
        simulation: PixelRect { x: 0, y: 0, width: width, height: half },
        plot: PixelRect { x: 0, y: half, width: width, height: (height - half) as u32 },
    }
}

/// The layout of the two panes, or `None` for a window with no area (the
/// cameras are then left as they are).
pub fn pane_layout(width: u32, height: u32) -> (layout: Option<PaneLayout>)
    ensures
        layout == (if width == 0 || height == 0 {
            None
        } else {
            Some(spec_pane_layout(width, height))
        }),
{
    if width == 0 || height == 0 {
        return None;
    }
    let half: u32 = height / 2;
    Some(PaneLayout {
        simulation: PixelRect { x: 0, y: 0, width, height: half },
        plot: PixelRect { x: 0, y: half, width, height: height - half },
    })
}

/// A camera's viewport needs writing when it has none, or when its position
/// or size differs from the target.
pub open spec fn spec_needs_update(current: Option<PixelRect>, target: PixelRect) -> bool {
    match current {
        Some(v) => v != target,
        None => true,
    }
}

/// Whether the viewport `current` must be replaced by `target`.
pub fn viewport_needs_update(current: Option<PixelRect>, target: PixelRect) -> (needs: bool)
    ensures
        needs == spec_needs_update(current, target),
{
    match current {
        Some(v) => v.x != target.x || v.y != target.y || v.width != target.width
            || v.height != target.height,
        None => true,
    }
}

/// Brings one camera's viewport to `target`, writing it only when it
/// differs; returns whether it was written.
pub fn sync_viewport(viewport: &mut Option<PixelRect>, target: PixelRect) -> (written: bool)
    ensures
        written == spec_needs_update(*old(viewport), target),
        *final(viewport) == Some(target),
{
    let written = viewport_needs_update(*viewport, target);
    if written {
        *viewport = Some(target);
    }
    written
}

/// One frame of viewport maintenance for a window of `width` by `height`
/// physical pixels: both viewports are brought to the pane layout, unless
/// the window has no area, in which case nothing changes. Returns, for the
/// simulation camera and the plot camera, whether its viewport was written.
pub fn update_camera_viewports(
    width: u32,
    height: u32,
    simulation: &mut Option<PixelRect>,
    plot: &mut Option<PixelRect>,
) -> (written: (bool, bool))
    ensures
        width == 0 || height == 0 ==> {
            &&& *final(simulation) == *old(simulation)
            &&& *final(plot) == *old(plot)
            &&& written == (false, false)
        },
        width != 0 && height != 0 ==> {
            &&& *final(simulation) == Some(spec_pane_layout(width, height).simulation)
            &&& *final(plot) == Some(spec_pane_layout(width, height).plot)
            &&& written.0 == spec_needs_update(
                *old(simulation),
                spec_pane_layout(width, height).simulation,
            )
            &&& written.1 == spec_needs_update(*old(plot), spec_pane_layout(width, height).plot)
        },
{
    match pane_layout(width, height) {
        None => (false, false),
        Some(layout) => {
            let a = sync_viewport(simulation, layout.simulation);
            let b = sync_viewport(plot, layout.plot);
            (a, b)
        },
    }
}

/// A viewport is rewritten exactly when it is missing or when its position
/// or its size differs from the target in any coordinate; one that already
/// equals the target is left alone.
pub proof fn lemma_needs_update_exactly_on_change(current: Option<PixelRect>, target: PixelRect)
    ensures
        current is None ==> spec_needs_update(current, target),
        current matches Some(v) ==> (spec_needs_update(current, target) <==> (v.x != target.x
            || v.y != target.y || v.width != target.width || v.height != target.height)),
{
}

/// The two panes tile the window: both span its full width from the left
/// edge, the upper pane starts at the top, the lower pane starts where the
/// upper one ends, their heights add up to the window's height, and the
/// lower pane is at most one pixel taller than the upper one.
pub proof fn lemma_panes_tile_window(width: u32, height: u32)
    requires
        width > 0,
        height > 0,
    ensures
        ({
            let l = spec_pane_layout(width, height);
            &&& l.simulation.x == 0 && l.plot.x == 0
            &&& l.simulation.width == width && l.plot.width == width
            &&& l.simulation.y == 0
            &&& l.plot.y == l.simulation.y + l.simulation.height
            &&& l.simulation.height + l.plot.height == height
            &&& l.simulation.height <= l.plot.height <= l.simulation.height + 1
            &&& l.plot.height > 0
        }),
{
}

/// Once a frame has brought the viewports to the layout of a window, a
/// further frame with the same window size writes nothing and leaves both
/// viewports as they are.
pub proof fn lemma_update_is_idempotent(width: u32, height: u32)
    requires
        width > 0,
        height > 0,
    ensures
        ({
            let l = spec_pane_layout(width, height);
            &&& !spec_needs_update(Some(l.simulation), l.simulation)
            &&& !spec_needs_update(Some(l.plot), l.plot)
        }),
{
}

} // verus!
