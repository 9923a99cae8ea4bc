//! Overlay options: the prop wrappers a hot polyline component keeps, the
//! default substitution rules, and the option record handed to the host
//! overlay constructor.
//!
//! The effective options are resolved from the component props by fixed
//! rules: a missing or empty outline color token means `"black"`, a missing
//! max threshold means one, a missing min threshold means zero, and an
//! empty palette means the default four-stop table.

use vstd::prelude::*;

use crate::frac::{frac_lt, Frac};
use crate::hotline_palette::{
    bk_sorted, is_default_stops, lemma_insert_stop_split, spec_serialize, stops_wf,
    HotlinePalette, PaletteStop,
};
use crate::hotline_position::{to_hotline_lat_lng_array, HotlinePositionVec, LatLng};

verus! {

/// The positions prop of a hot polyline component.
pub struct HotlinePositions(pub HotlinePositionVec);

impl HotlinePositions {
    /// The flat coordinate array handed to the host overlay constructor.
    pub fn hotline_lat_lngs(&self) -> (r: Vec<LatLng>)
        ensures
            r@.len() == self.0.positions@.len(),
            forall|i: int|
                0 <= i < r@.len() ==> #[trigger] r@[i] == (LatLng {
                    lat: self.0.positions@[i].latlng.lat,
                    lng: self.0.positions@[i].latlng.lng,
                    alt: self.0.positions@[i].alt,
                }),
    {
        to_hotline_lat_lng_array(&self.0)
    }
}

/// The outline color prop of a hot polyline component.
pub struct HotlineOutlineColor(pub String);

impl HotlineOutlineColor {
    /// The effective outline color: the given token, or `"black"` where
    /// the token is empty.
    pub fn outline_color(&self) -> (r: String)
        ensures
            self.0@.len() == 0 ==> r@ == "black"@,
            self.0@.len() > 0 ==> r@ == self.0@,
    {
        if self.0.as_str().is_empty() {
            "black".to_owned()
        } else {
            self.0.clone()
        }
    }
}

/// The max threshold prop of a hot polyline component.
pub struct HotlineMax(pub Frac);

impl HotlineMax {
    /// The max breakpoint threshold for the overlay options.
    pub fn hotline_max(&self) -> (r: Frac)
        ensures
            r == self.0,
    {
        self.0
    }
}

/// The min threshold prop of a hot polyline component.
pub struct HotlineMin(pub Frac);

impl HotlineMin {
    /// The min breakpoint threshold for the overlay options.
    pub fn hotline_min(&self) -> (r: Frac)
        ensures
            r == self.0,
    {
        self.0
    }
}

/// The palette prop of a hot polyline component.
pub struct HotlinePaletteStruct(pub HotlinePalette);

/// Serializing the default stop table leaves it unchanged: its breakpoints
/// already ascend.
proof fn lemma_serialize_default(s: Seq<PaletteStop>)
    requires
        is_default_stops(s),
    ensures
        spec_serialize(s) == s,
{
    let s0 = s.take(0);
    let s1 = s.take(1);
    let s2 = s.take(2);
    let s3 = s.take(3);
    assert(s1.drop_last() =~= s0);
    assert(s1.last() == s[0]);
    assert(s2.drop_last() =~= s1);
    assert(s2.last() == s[1]);
    assert(s3.drop_last() =~= s2);
    assert(s3.last() == s[2]);
    assert(s.drop_last() =~= s3);
    assert(s.last() == s[3]);
    assert(spec_serialize(s0) == Seq::<PaletteStop>::empty());
    lemma_insert_stop_split(spec_serialize(s0), s[0], 0);
    assert(spec_serialize(s1) =~= s1);
    lemma_insert_stop_split(spec_serialize(s1), s[1], 1);
    assert(spec_serialize(s2) =~= s2);
    lemma_insert_stop_split(spec_serialize(s2), s[2], 2);
    assert(spec_serialize(s3) =~= s3);
    assert forall|k: int| 0 <= k < 3 implies frac_lt(
        #[trigger] spec_serialize(s3)[k].breakpoint,
        s[3].breakpoint,
    ) by {
        if k == 0 {
            assert(spec_serialize(s3)[0] == s[0]);
            assert(s[0].breakpoint.num * s[3].breakpoint.den == 0);
            assert(s[3].breakpoint.num * s[0].breakpoint.den == 1);
            assert(frac_lt(s[0].breakpoint, s[3].breakpoint));
        } else if k == 1 {
            assert(spec_serialize(s3)[1] == s[1]);
            assert(s[1].breakpoint.num * s[3].breakpoint.den == 33);
            assert(s[3].breakpoint.num * s[1].breakpoint.den == 100);
            assert(frac_lt(s[1].breakpoint, s[3].breakpoint));
        } else {
            assert(spec_serialize(s3)[2] == s[2]);
            assert(s[2].breakpoint.num * s[3].breakpoint.den == 67);
            assert(s[3].breakpoint.num * s[2].breakpoint.den == 100);
            assert(frac_lt(s[2].breakpoint, s[3].breakpoint));
        }
    }
    lemma_insert_stop_split(spec_serialize(s3), s[3], 3);
    assert(spec_serialize(s) =~= s);
}

impl HotlinePaletteStruct {
    /// The gradient stop table for the overlay options: this palette's
    /// stops in deterministic serialization order, or the default
    /// four-stop table where the palette is empty.
    pub fn hotline_palette(&self) -> (r: Vec<PaletteStop>)
        requires
            stops_wf(self.0.palette@),
        ensures
            self.0.palette@.len() > 0 ==> r@ == spec_serialize(self.0.palette@),
            self.0.palette@.len() == 0 ==> is_default_stops(r@),
            bk_sorted(r@),
    {
        if self.0.palette.len() > 0 {
            self.0.to_sorted_stops()
        } else {
            let d = HotlinePalette::default();
            let r = d.to_sorted_stops();
            proof {
                lemma_serialize_default(d.palette@);
            }
            r
        }
    }
}

/// The option record handed to the host overlay constructor: the gradient
/// stop table, the outline color, and the two breakpoint thresholds.
#[derive(Clone, Debug)]
pub struct HotlineOptions {
    /// Gradient stops, ascending by breakpoint.
    pub palette: Vec<PaletteStop>,
    /// Effective outline color token.
    pub outline_color: String,
    /// Max breakpoint threshold.
    pub max: Frac,
    /// Min breakpoint threshold.
    pub min: Frac,
}

impl HotlineOptions {
    /// Combine the resolved props into the option record: the palette
    /// serialized (the default table where empty), the outline color
    /// substitution rule applied, the thresholds passed through.
    pub fn new(
        palette: &HotlinePaletteStruct,
        outline_color: &HotlineOutlineColor,
        max: &HotlineMax,
        min: &HotlineMin,
    ) -> (r: HotlineOptions)
        requires
            stops_wf(palette.0.palette@),
        ensures
            palette.0.palette@.len() > 0 ==> r.palette@ == spec_serialize(palette.0.palette@),
            palette.0.palette@.len() == 0 ==> is_default_stops(r.palette@),
            bk_sorted(r.palette@),
            outline_color.0@.len() == 0 ==> r.outline_color@ == "black"@,
            outline_color.0@.len() > 0 ==> r.outline_color@ == outline_color.0@,
            r.max == max.0,
            r.min == min.0,
    {
        HotlineOptions {
            palette: palette.hotline_palette(),
            outline_color: outline_color.outline_color(),
            max: max.hotline_max(),
            min: min.hotline_min(),
        }
    }
}

/// Resolve the optional props of a hot polyline component and build the
/// overlay options: a missing outline color means `"black"`, a missing max
/// threshold one, a missing min threshold zero; an empty palette or an
/// empty color token fall back as in [`HotlineOptions::new`].
pub fn build_options(
    palette: HotlinePalette,
    outline_color: Option<String>,
    max: Option<Frac>,
    min: Option<Frac>,
) -> (r: HotlineOptions)
    requires
        stops_wf(palette.palette@),
    ensures
        palette.palette@.len() > 0 ==> r.palette@ == spec_serialize(palette.palette@),
        palette.palette@.len() == 0 ==> is_default_stops(r.palette@),
        bk_sorted(r.palette@),
        outline_color is None ==> r.outline_color@ == "black"@,
        outline_color matches Some(c) ==> (c@.len() == 0 ==> r.outline_color@ == "black"@) && (
        c@.len() > 0 ==> r.outline_color@ == c@),
        max is None ==> r.max == (Frac { num: 1, den: 1 }),
        max matches Some(mx) ==> r.max == mx,
        min is None ==> r.min == (Frac { num: 0, den: 1 }),
        min matches Some(mn) ==> r.min == mn,
{
    let oc = match outline_color {
        None => "black".to_owned(),
        Some(c) => c,
    };
    proof {
        reveal_strlit("black");
    }
    let pal = HotlinePaletteStruct(palette);
    let ocw = HotlineOutlineColor(oc);
    let mxw = HotlineMax(
        match max {
            None => Frac::one(),
            Some(m) => m,
        },
    );
    let mnw = HotlineMin(
        match min {
            None => Frac::zero(),
            Some(m) => m,
        },
    );
    HotlineOptions::new(&pal, &ocw, &mxw, &mnw)
}

} // verus!
