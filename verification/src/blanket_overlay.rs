//! Options of the blanket overlay that a renderer draws into, with the
//! defaults the host mapping library expects.

use vstd::prelude::*;

use crate::frac::Frac;

verus! {

/// Options for a blanket overlay covering the visible map pane.
#[derive(Clone, Debug)]
pub struct BlanketOverlayOptions {
    /// How much to extend the clip area around the map view, as a share of
    /// its size.
    pub padding: Frac,
    /// Whether the overlay redraws continuously while the map moves.
    pub continuous: bool,
    /// The map pane the overlay is inserted into.
    pub pane: String,
    /// The attribution text of the overlay.
    pub attribution: String,
    /// Whether mouse events on the overlay bubble to the map.
    pub bubbling_mouse_events: bool,
}

impl Default for BlanketOverlayOptions {
    /// The host defaults: a tenth of padding, no continuous redraw, the
    /// overlay pane, a null attribution, and bubbling mouse events.
    fn default() -> (r: BlanketOverlayOptions)
        ensures
            r.padding == (Frac { num: 1, den: 10 }),
            r.continuous == false,
            r.pane@ == "overlayPane"@,
            r.attribution@ == "null"@,
            r.bubbling_mouse_events == true,
    {
        BlanketOverlayOptions {
            padding: Frac { num: 1, den: 10 },
            continuous: false,
            pane: "overlayPane".to_owned(),
            attribution: "null".to_owned(),
            bubbling_mouse_events: true,
        }
    }
}

} // verus!
