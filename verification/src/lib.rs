//! Value-gradient ("hotline") polyline overlay model.
//!
//! The crate models the data that a hotline map overlay is built from — a
//! color palette keyed by gradient breakpoints, a path of positions carrying
//! a numeric value each, the overlay option record derived from them — and
//! the lifecycle of the single overlay object that a component keeps attached
//! to a map. Quantities that the host mapping library takes as floating-point
//! numbers are carried here as exact integer ratios ([`frac::Frac`]), so that
//! every derivation (value normalization, gradient sampling, defaulting) has
//! a precise contract.

pub mod blanket_overlay;
pub mod browser;
pub mod frac;
pub mod hotline;
pub mod hotline_draw;
pub mod hotline_palette;
pub mod hotline_position;
pub mod overlay;

pub use blanket_overlay::BlanketOverlayOptions;
pub use browser::Browser;
pub use frac::Frac;
pub use hotline::{
    build_options, HotlineMax, HotlineMin, HotlineOptions, HotlineOutlineColor,
    HotlinePaletteStruct, HotlinePositions,
};
pub use hotline_draw::{get_rgb_for_value, hotline_color_stops};
pub use hotline_palette::{HotlinePalette, PaletteStop};
pub use hotline_position::{
    to_hotline_lat_lng_array, FlatPosition, HotlinePosition, HotlinePositionVec, LatLng,
};
pub use overlay::{OverlayAction, OverlayError, OverlayManager, OverlayState};
