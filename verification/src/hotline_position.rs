//! Hotline position sequences: ordered (latitude, longitude, value)
//! triples describing the overlay path.
//!
//! The value of each position rides in the altitude slot of the coordinate,
//! as the host gradient plugin expects. A sequence can be built as given,
//! or with every value divided exactly by the greatest value of the
//! sequence, so that the greatest normalized value is one.

use vstd::prelude::*;

use crate::frac::{
    frac_eqv, frac_le, frac_lt, frac_one, lemma_bounded_mul, lemma_frac_le_lt_trans, Frac,
};

verus! {

/// A conventional latitude / longitude pair.
#[derive(Clone, Copy, Debug, PartialEq, Eq, Structural)]
pub struct FlatPosition {
    /// Latitude.
    pub lat: Frac,
    /// Longitude.
    pub lng: Frac,
}

/// One hotline position: a coordinate pair plus the value visualized along
/// the path at that point.
#[derive(Clone, Copy, Debug, PartialEq, Eq, Structural)]
pub struct HotlinePosition {
    /// The coordinate pair.
    pub latlng: FlatPosition,
    /// The value at this position, carried in the altitude slot.
    pub alt: Frac,
}

/// A coordinate triple in the flat shape the host mapping library takes:
/// latitude, longitude, and the value in the altitude slot.
#[derive(Clone, Copy, Debug, PartialEq, Eq, Structural)]
pub struct LatLng {
    /// Latitude.
    pub lat: Frac,
    /// Longitude.
    pub lng: Frac,
    /// The value in the altitude slot.
    pub alt: Frac,
}

/// An ordered sequence of hotline positions; the order defines the path.
#[derive(Clone, Debug)]
pub struct HotlinePositionVec {
    /// The positions.
    pub positions: Vec<HotlinePosition>,
}

/// The value component of each input triple.
pub open spec fn triple_vals(arr: Seq<(Frac, Frac, Frac)>) -> Seq<Frac> {
    arr.map_values(|t: (Frac, Frac, Frac)| t.2)
}

/// The index of the greatest value of `s`; among equals, the first.
pub open spec fn max_idx(s: Seq<Frac>) -> int
    recommends
        s.len() > 0,
    decreases s.len(),
{
    if s.len() <= 1 {
        0
    } else if frac_lt(s[max_idx(s.drop_last())], s.last()) {
        s.len() - 1
    } else {
        max_idx(s.drop_last())
    }
}

/// The greatest value of `s`: the divisor used by max-normalization.
pub open spec fn seq_max(s: Seq<Frac>) -> Frac
    recommends
        s.len() > 0,
{
    s[max_idx(s)]
}

/// The exact quotient `v / m`, written as the cross product of the two
/// ratios. Exact whenever both ratios are bounded (see `Frac::bounded`).
pub open spec fn value_over_max(v: Frac, m: Frac) -> Frac {
    Frac { num: (v.num * m.den) as i64, den: (v.den * m.num) as i64 }
}

/// `max_idx` lands inside the sequence, on a value no other value exceeds.
pub proof fn lemma_max_idx(s: Seq<Frac>)
    requires
        s.len() > 0,
        forall|i: int| 0 <= i < s.len() ==> (#[trigger] s[i]).wf(),
    ensures
        0 <= max_idx(s) < s.len(),
        forall|k: int| 0 <= k < s.len() ==> frac_le(#[trigger] s[k], s[max_idx(s)]),
    decreases s.len(),
{
    if s.len() <= 1 {
    } else {
        let pre = s.drop_last();
        assert forall|i: int| 0 <= i < pre.len() implies (#[trigger] pre[i]).wf() by {
            assert(pre[i] == s[i]);
        }
        lemma_max_idx(pre);
        let j = max_idx(pre);
        if frac_lt(s[j], s.last()) {
            assert forall|k: int| 0 <= k < s.len() implies frac_le(
                #[trigger] s[k],
                s[max_idx(s)],
            ) by {
                if k < s.len() - 1 {
                    assert(frac_le(pre[k], pre[j]));
                    lemma_frac_le_lt_trans(s[k], s[j], s.last());
                }
            }
        } else {
            assert forall|k: int| 0 <= k < s.len() implies frac_le(
                #[trigger] s[k],
                s[max_idx(s)],
            ) by {
                if k < s.len() - 1 {
                    assert(frac_le(pre[k], pre[j]));
                }
            }
        }
    }
}

impl HotlinePosition {
    /// A position from its latitude, longitude and value.
    pub fn new(lat: Frac, lng: Frac, alt: Frac) -> (r: HotlinePosition)
        ensures
            r == (HotlinePosition { latlng: FlatPosition { lat, lng }, alt }),
    {
        HotlinePosition { latlng: FlatPosition { lat, lng }, alt }
    }

    /// The latitude of this position.
    pub fn get_lat(&self) -> (r: Frac)
        ensures
            r == self.latlng.lat,
    {
        self.latlng.lat
    }

    /// The longitude of this position.
    pub fn get_lng(&self) -> (r: Frac)
        ensures
            r == self.latlng.lng,
    {
        self.latlng.lng
    }
}

impl HotlinePositionVec {
    /// Build the sequence with every value divided exactly by the greatest
    /// value of the sequence.
    ///
    /// Order and length are preserved, and coordinates pass through
    /// untouched. When the greatest value is positive, each value `v`
    /// becomes `v / max`, so the values top out at exactly one, attained at
    /// the position of the greatest value. When the sequence is empty the
    /// result is empty, and when no value is positive (where a quotient
    /// would be meaningless or flip signs) the values pass through
    /// unchanged.
    pub fn new(arr: &Vec<(Frac, Frac, Frac)>) -> (r: HotlinePositionVec)
        requires
            forall|i: int| 0 <= i < arr@.len() ==> (#[trigger] arr@[i].2).bounded(),
        ensures
            r.positions@.len() == arr@.len(),
            forall|i: int|
                0 <= i < arr@.len() ==> (#[trigger] r.positions@[i]).latlng.lat == arr@[i].0
                    && r.positions@[i].latlng.lng == arr@[i].1,
            forall|i: int| 0 <= i < arr@.len() ==> (#[trigger] r.positions@[i]).alt.wf(),
            arr@.len() > 0 && seq_max(triple_vals(arr@)).num > 0 ==> forall|i: int|
                0 <= i < arr@.len() ==> (#[trigger] r.positions@[i]).alt == value_over_max(
                    arr@[i].2,
                    seq_max(triple_vals(arr@)),
                ),
            arr@.len() > 0 && seq_max(triple_vals(arr@)).num <= 0 ==> forall|i: int|
                0 <= i < arr@.len() ==> (#[trigger] r.positions@[i]).alt == arr@[i].2,
            arr@.len() > 0 && seq_max(triple_vals(arr@)).num > 0 ==> forall|i: int|
                0 <= i < arr@.len() ==> frac_le((#[trigger] r.positions@[i]).alt, frac_one()),
            arr@.len() > 0 && seq_max(triple_vals(arr@)).num > 0 ==> exists|i: int|
                0 <= i < arr@.len() && frac_eqv((#[trigger] r.positions@[i]).alt, frac_one()),
    {
        let n = arr.len();
        let mut positions: Vec<HotlinePosition> = Vec::new();
        if n == 0 {
            return HotlinePositionVec { positions };
        }
        let ghost vals = triple_vals(arr@);
        let mut jm: usize = 0;
        let mut i: usize = 1;
        while i < n
            invariant
                1 <= i <= n,
                n == arr@.len(),
                jm < i,
                vals == triple_vals(arr@),
                forall|k: int| 0 <= k < arr@.len() ==> (#[trigger] arr@[k].2).bounded(),
                jm as int == max_idx(vals.take(i as int)),
            decreases n - i,
        {
            proof {
                assert(vals.take((i as int) + 1).drop_last() =~= vals.take(i as int));
                assert(vals.take((i as int) + 1).last() == arr@[i as int].2);
            }
            if arr[jm].2.lt(&arr[i].2) {
                jm = i;
            }
            i += 1;
        }
        proof {
            assert(vals.take(n as int) =~= vals);
            lemma_max_idx(vals);
        }
        let m = arr[jm].2;
        let mut k: usize = 0;
        while k < n
            invariant
                k <= n,
                n == arr@.len(),
                jm < n,
                vals == triple_vals(arr@),
                forall|t: int| 0 <= t < arr@.len() ==> (#[trigger] arr@[t].2).bounded(),
                m == seq_max(vals),
                m == arr@[jm as int].2,
                positions@.len() == k,
                forall|t: int|
                    0 <= t < k ==> (#[trigger] positions@[t]).latlng.lat == arr@[t].0
                        && positions@[t].latlng.lng == arr@[t].1,
                forall|t: int| 0 <= t < k ==> (#[trigger] positions@[t]).alt.wf(),
                m.num > 0 ==> forall|t: int|
                    0 <= t < k ==> (#[trigger] positions@[t]).alt == value_over_max(arr@[t].2, m),
                m.num <= 0 ==> forall|t: int|
                    0 <= t < k ==> (#[trigger] positions@[t]).alt == arr@[t].2,
            decreases n - k,
        {
            let v = arr[k].2;
            let alt = if m.num > 0 {
                proof {
                    lemma_bounded_mul(v.num as int, m.den as int);
                    lemma_bounded_mul(v.den as int, m.num as int);
                }
                Frac { num: v.num * m.den, den: v.den * m.num }
            } else {
                v
            };
            positions.push(
                HotlinePosition { latlng: FlatPosition { lat: arr[k].0, lng: arr[k].1 }, alt },
            );
            k += 1;
        }
        proof {
            if m.num > 0 {
                assert forall|t: int| 0 <= t < n implies frac_le(
                    (#[trigger] positions@[t]).alt,
                    frac_one(),
                ) by {
                    assert(frac_le(vals[t], m));
                    assert(vals[t] == arr@[t].2);
                    lemma_bounded_mul(arr@[t].2.num as int, m.den as int);
                    lemma_bounded_mul(arr@[t].2.den as int, m.num as int);
                    assert(m.num * vals[t].den == vals[t].den * m.num) by (nonlinear_arith);
                }
                assert(vals[jm as int] == m);
                lemma_bounded_mul(m.num as int, m.den as int);
                lemma_bounded_mul(m.den as int, m.num as int);
                assert(m.num * m.den == m.den * m.num) by (nonlinear_arith);
                assert(frac_eqv(positions@[jm as int].alt, frac_one()));
            }
        }
        HotlinePositionVec { positions }
    }

    /// Build the sequence exactly as given, with no normalization.
    ///
    /// Order and length are preserved; an empty input gives an empty
    /// sequence.
    pub fn new_raw(arr: &Vec<(Frac, Frac, Frac)>) -> (r: HotlinePositionVec)
        ensures
            r.positions@.len() == arr@.len(),
            forall|i: int|
                0 <= i < arr@.len() ==> #[trigger] r.positions@[i] == (HotlinePosition {
                    latlng: FlatPosition { lat: arr@[i].0, lng: arr@[i].1 },
                    alt: arr@[i].2,
                }),
    {
        let mut positions: Vec<HotlinePosition> = Vec::new();
        let mut i: usize = 0;
        while i < arr.len()
            invariant
                i <= arr@.len(),
                positions@.len() == i,
                forall|t: int|
                    0 <= t < i ==> #[trigger] positions@[t] == (HotlinePosition {
                        latlng: FlatPosition { lat: arr@[t].0, lng: arr@[t].1 },
                        alt: arr@[t].2,
                    }),
            decreases arr@.len() - i,
        {
            positions.push(
                HotlinePosition {
                    latlng: FlatPosition { lat: arr[i].0, lng: arr[i].1 },
                    alt: arr[i].2,
                },
            );
            i += 1;
        }
        HotlinePositionVec { positions }
    }
}

/// The flat coordinate array handed to the host overlay constructor: one
/// triple per position, in path order, the value in the altitude slot.
pub fn to_hotline_lat_lng_array(vals: &HotlinePositionVec) -> (r: Vec<LatLng>)
    ensures
        r@.len() == vals.positions@.len(),
        forall|i: int|
            0 <= i < r@.len() ==> #[trigger] r@[i] == (LatLng {
                lat: vals.positions@[i].latlng.lat,
                lng: vals.positions@[i].latlng.lng,
                alt: vals.positions@[i].alt,
            }),
{
    let mut r: Vec<LatLng> = Vec::new();
    let mut i: usize = 0;
    while i < vals.positions.len()
        invariant
            i <= vals.positions@.len(),
            r@.len() == i,
            forall|t: int|
                0 <= t < i ==> #[trigger] r@[t] == (LatLng {
                    lat: vals.positions@[t].latlng.lat,
                    lng: vals.positions@[t].latlng.lng,
                    alt: vals.positions@[t].alt,
                }),
        decreases vals.positions@.len() - i,
    {
        let p = &vals.positions[i];
        r.push(LatLng { lat: p.latlng.lat, lng: p.latlng.lng, alt: p.alt });
        i += 1;
    }
    r
}

} // verus!
