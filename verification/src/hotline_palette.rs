//! The hotline color palette: an ordered mapping from color token to
//! gradient breakpoint.
//!
//! A palette is built from a list of `(color, breakpoint)` pairs. Pairs may
//! repeat a color; the last written breakpoint wins, and each color keeps
//! the place of its first occurrence. Construction performs no validation of
//! the color token or of the breakpoint range and cannot fail.

use vstd::prelude::*;

use crate::frac::{
    frac_eqv, frac_lt, lemma_frac_eqv_lt_trans, lemma_frac_lt_trans, Frac,
};

verus! {

/// One gradient stop: a color token (a named color or a hex code) and the
/// breakpoint at which it applies.
#[derive(Clone, Debug)]
pub struct PaletteStop {
    /// Color token, e.g. `"green"` or `"#ffff00"`.
    pub color: String,
    /// Relative cutoff for this color.
    pub breakpoint: Frac,
}

/// Whether some stop in `s` carries the color `c`.
pub open spec fn has_color(s: Seq<PaletteStop>, c: Seq<char>) -> bool {
    exists|i: int| 0 <= i < s.len() && s[i].color@ == c
}

/// No two stops in `s` carry the same color.
pub open spec fn colors_unique(s: Seq<PaletteStop>) -> bool {
    forall|i: int, j: int|
        0 <= i < j < s.len() ==> s[i].color@ != s[j].color@
}

/// Every breakpoint in `s` is a well-formed ratio.
pub open spec fn stops_wf(s: Seq<PaletteStop>) -> bool {
    forall|i: int| 0 <= i < s.len() ==> (#[trigger] s[i].breakpoint).wf()
}

/// Write `(color, breakpoint)` into the stop list: replace the breakpoint
/// of the stop already carrying `color`, or append a new stop.
pub open spec fn upsert(s: Seq<PaletteStop>, color: String, breakpoint: Frac) -> Seq<PaletteStop> {
    if has_color(s, color@) {
        s.map(
            |i: int, st: PaletteStop|
                if st.color@ == color@ {
                    PaletteStop { color: st.color, breakpoint }
                } else {
                    st
                },
        )
    } else {
        s.push(PaletteStop { color, breakpoint })
    }
}

/// The stop list that a pair list builds: pairs are written front to back,
/// so on a repeated color the last breakpoint wins.
pub open spec fn palette_of_pairs(pairs: Seq<(String, Frac)>) -> Seq<PaletteStop>
    decreases pairs.len(),
{
    if pairs.len() == 0 {
        Seq::empty()
    } else {
        upsert(palette_of_pairs(pairs.drop_last()), pairs.last().0, pairs.last().1)
    }
}

/// `s` is exactly the default four-stop table:
/// green at 0, blue at 0.33, `#ffff00` at 0.67, red at 1.
pub open spec fn is_default_stops(s: Seq<PaletteStop>) -> bool {
    &&& s.len() == 4
    &&& s[0].color@ == "green"@ && s[0].breakpoint == (Frac { num: 0, den: 1 })
    &&& s[1].color@ == "blue"@ && s[1].breakpoint == (Frac { num: 33, den: 100 })
    &&& s[2].color@ == "#ffff00"@ && s[2].breakpoint == (Frac { num: 67, den: 100 })
    &&& s[3].color@ == "red"@ && s[3].breakpoint == (Frac { num: 1, den: 1 })
}

/// Mapping of colors to breakpoints, used as the gradient stop table of a
/// hotline overlay.
#[derive(Clone, Debug)]
pub struct HotlinePalette {
    /// The stops, one per color, in order of first insertion.
    pub palette: Vec<PaletteStop>,
}

impl HotlinePalette {
    /// Well-formed: colors are distinct and breakpoints are ratios with a
    /// positive denominator.
    pub open spec fn wf(self) -> bool {
        colors_unique(self.palette@) && stops_wf(self.palette@)
    }

    /// Build a palette from `(color, breakpoint)` pairs; on a repeated
    /// color the last breakpoint wins.
    pub fn new(pairs: &Vec<(String, Frac)>) -> (r: HotlinePalette)
        requires
            forall|i: int| 0 <= i < pairs@.len() ==> (#[trigger] pairs@[i].1).wf(),
        ensures
            r.palette@ == palette_of_pairs(pairs@),
            r.wf(),
    {
        let mut stops: Vec<PaletteStop> = Vec::new();
        let mut i: usize = 0;
        while i < pairs.len()
            invariant
                i <= pairs@.len(),
                forall|k: int| 0 <= k < pairs@.len() ==> (#[trigger] pairs@[k].1).wf(),
                stops@ == palette_of_pairs(pairs@.take(i as int)),
                colors_unique(stops@),
                stops_wf(stops@),
            decreases pairs@.len() - i,
        {
            let pair = &pairs[i];
            let n = stops.len();
            let mut j: usize = 0;
            let mut idx: usize = n;
            while j < n
                invariant
                    j <= n,
                    n == stops@.len(),
                    idx == n || idx < n,
                    idx == n ==> forall|k: int| 0 <= k < j ==> stops@[k].color@ != pair.0@,
                    idx < n ==> stops@[idx as int].color@ == pair.0@,
                decreases n - j,
            {
                if idx == n && stops[j].color == pair.0 {
                    idx = j;
                }
                j += 1;
            }
            let ghost prev = stops@;
            if idx < n {
                let kept = stops[idx].color.clone();
                stops.set(idx, PaletteStop { color: kept, breakpoint: pair.1 });
                proof {
                    assert(has_color(prev, pair.0@));
                    assert(stops@ =~= upsert(prev, pair.0, pair.1));
                }
            } else {
                stops.push(PaletteStop { color: pair.0.clone(), breakpoint: pair.1 });
                proof {
                    assert(!has_color(prev, pair.0@));
                    assert(stops@ =~= upsert(prev, pair.0, pair.1));
                }
            }
            proof {
                assert(pairs@.take(i + 1 as int).drop_last() =~= pairs@.take(i as int));
                assert(pairs@.take(i + 1 as int).last() == pairs@[i as int]);
            }
            i += 1;
        }
        proof {
            assert(pairs@.take(pairs@.len() as int) =~= pairs@);
        }
        HotlinePalette { palette: stops }
    }
}

/// Breakpoints strictly ascend along `s` (as rational values).
pub open spec fn bk_sorted(s: Seq<PaletteStop>) -> bool {
    forall|i: int, j: int|
        0 <= i < j < s.len() ==> frac_lt(s[i].breakpoint, s[j].breakpoint)
}

/// Insert `st` into the breakpoint-ordered stop list `s`: a stop whose
/// breakpoint equals `st`'s as a rational is replaced by `st`, otherwise
/// `st` goes in front of the first stop with a greater breakpoint.
pub open spec fn insert_stop(s: Seq<PaletteStop>, st: PaletteStop) -> Seq<PaletteStop>
    decreases s.len(),
{
    if s.len() == 0 {
        seq![st]
    } else if frac_lt(st.breakpoint, s[0].breakpoint) {
        seq![st] + s
    } else if frac_eqv(st.breakpoint, s[0].breakpoint) {
        seq![st] + s.skip(1)
    } else {
        seq![s[0]] + insert_stop(s.skip(1), st)
    }
}

/// The stop table in deterministic serialization order: the stops of `s`,
/// written front to back into a table ordered by ascending breakpoint, a
/// later stop replacing an earlier one with the same breakpoint value.
pub open spec fn spec_serialize(s: Seq<PaletteStop>) -> Seq<PaletteStop>
    decreases s.len(),
{
    if s.len() == 0 {
        Seq::empty()
    } else {
        insert_stop(spec_serialize(s.drop_last()), s.last())
    }
}

/// Every stop of `insert_stop(s, st)` is `st` or one of the stops of `s`.
proof fn lemma_insert_stop_elems(s: Seq<PaletteStop>, st: PaletteStop)
    ensures
        forall|k: int|
            0 <= k < insert_stop(s, st).len() ==> #[trigger] insert_stop(s, st)[k] == st
                || s.contains(insert_stop(s, st)[k]),
    decreases s.len(),
{
    let r = insert_stop(s, st);
    if s.len() == 0 {
    } else if frac_lt(st.breakpoint, s[0].breakpoint) {
        assert forall|k: int| 0 <= k < r.len() implies #[trigger] r[k] == st || s.contains(
            r[k],
        ) by {
            if k > 0 {
                assert(r[k] == s[k - 1]);
            }
        }
    } else if frac_eqv(st.breakpoint, s[0].breakpoint) {
        assert forall|k: int| 0 <= k < r.len() implies #[trigger] r[k] == st || s.contains(
            r[k],
        ) by {
            if k > 0 {
                assert(r[k] == s[k]);
            }
        }
    } else {
        lemma_insert_stop_elems(s.skip(1), st);
        let rr = insert_stop(s.skip(1), st);
        assert forall|k: int| 0 <= k < r.len() implies #[trigger] r[k] == st || s.contains(
            r[k],
        ) by {
            if k == 0 {
                assert(r[0] == s[0]);
                assert(s.contains(s[0]));
            } else {
                assert(r[k] == rr[k - 1]);
                if rr[k - 1] == st {
                } else {
                    let m = choose|m: int| 0 <= m < s.skip(1).len() && s.skip(1)[m] == rr[k - 1];
                    assert(s[m + 1] == rr[k - 1]);
                    assert(s.contains(s[m + 1]));
                }
            }
        }
    }
}

/// Inserting a well-formed stop into a strictly ordered, well-formed table
/// keeps the table strictly ordered and well-formed.
proof fn lemma_insert_stop_sorted(s: Seq<PaletteStop>, st: PaletteStop)
    requires
        bk_sorted(s),
        stops_wf(s),
        st.breakpoint.wf(),
    ensures
        bk_sorted(insert_stop(s, st)),
        stops_wf(insert_stop(s, st)),
    decreases s.len(),
{
    let r = insert_stop(s, st);
    if s.len() == 0 {
    } else if frac_lt(st.breakpoint, s[0].breakpoint) {
        assert forall|i: int, j: int| 0 <= i < j < r.len() implies frac_lt(
            r[i].breakpoint,
            r[j].breakpoint,
        ) by {
            if i == 0 {
                assert(r[j] == s[j - 1]);
                if j > 1 {
                    lemma_frac_lt_trans(st.breakpoint, s[0].breakpoint, s[j - 1].breakpoint);
                }
            } else {
                assert(r[i] == s[i - 1] && r[j] == s[j - 1]);
            }
        }
        assert forall|i: int| 0 <= i < r.len() implies (#[trigger] r[i].breakpoint).wf() by {
            if i > 0 {
                assert(r[i] == s[i - 1]);
            }
        }
    } else if frac_eqv(st.breakpoint, s[0].breakpoint) {
        assert forall|i: int, j: int| 0 <= i < j < r.len() implies frac_lt(
            r[i].breakpoint,
            r[j].breakpoint,
        ) by {
            if i == 0 {
                assert(r[j] == s[j]);
                lemma_frac_eqv_lt_trans(st.breakpoint, s[0].breakpoint, s[j].breakpoint);
            } else {
                assert(r[i] == s[i] && r[j] == s[j]);
            }
        }
        assert forall|i: int| 0 <= i < r.len() implies (#[trigger] r[i].breakpoint).wf() by {
            if i > 0 {
                assert(r[i] == s[i]);
            }
        }
    } else {
        let tail = s.skip(1);
        assert forall|i: int| 0 <= i < tail.len() implies (#[trigger] tail[i].breakpoint).wf() by {
            assert(tail[i] == s[i + 1]);
        }
        lemma_insert_stop_sorted(tail, st);
        lemma_insert_stop_elems(tail, st);
        let rr = insert_stop(tail, st);
        assert forall|i: int, j: int| 0 <= i < j < r.len() implies frac_lt(
            r[i].breakpoint,
            r[j].breakpoint,
        ) by {
            if i == 0 {
                assert(r[0] == s[0]);
                assert(r[j] == rr[j - 1]);
                if rr[j - 1] == st {
                    // neither below nor equal to s[0], so strictly above it
                    assert(frac_lt(s[0].breakpoint, st.breakpoint));
                } else {
                    let m = choose|m: int| 0 <= m < tail.len() && tail[m] == rr[j - 1];
                    assert(s[m + 1] == rr[j - 1]);
                }
            } else {
                assert(r[i] == rr[i - 1] && r[j] == rr[j - 1]);
            }
        }
        assert forall|i: int| 0 <= i < r.len() implies (#[trigger] r[i].breakpoint).wf() by {
            if i > 0 {
                assert(r[i] == rr[i - 1]);
            }
        }
    }
}

/// Where `insert_stop` places the new stop, characterized by the first
/// position `p` whose stop's breakpoint is not below `st`'s.
pub proof fn lemma_insert_stop_split(s: Seq<PaletteStop>, st: PaletteStop, p: int)
    requires
        0 <= p <= s.len(),
        forall|k: int| 0 <= k < p ==> frac_lt(#[trigger] s[k].breakpoint, st.breakpoint),
        p < s.len() ==> !frac_lt(s[p].breakpoint, st.breakpoint),
    ensures
        p < s.len() && frac_eqv(st.breakpoint, s[p].breakpoint) ==> insert_stop(s, st) == s.take(
            p,
        ) + seq![st] + s.skip(p + 1),
        !(p < s.len() && frac_eqv(st.breakpoint, s[p].breakpoint)) ==> insert_stop(s, st)
            == s.take(p) + seq![st] + s.skip(p),
    decreases p,
{
    if p == 0 {
        if s.len() == 0 {
            assert(insert_stop(s, st) =~= s.take(0) + seq![st] + s.skip(0));
        } else if frac_eqv(st.breakpoint, s[0].breakpoint) {
            assert(insert_stop(s, st) =~= s.take(0) + seq![st] + s.skip(1));
        } else {
            assert(frac_lt(st.breakpoint, s[0].breakpoint));
            assert(insert_stop(s, st) =~= s.take(0) + seq![st] + s.skip(0));
        }
    } else {
        let tail = s.skip(1);
        assert forall|k: int| 0 <= k < p - 1 implies frac_lt(
            #[trigger] tail[k].breakpoint,
            st.breakpoint,
        ) by {
            assert(tail[k] == s[k + 1]);
        }
        assert(p - 1 < tail.len() ==> tail[p - 1] == s[p]);
        lemma_insert_stop_split(tail, st, p - 1);
        assert(frac_lt(s[0].breakpoint, st.breakpoint));
        assert(insert_stop(s, st) == seq![s[0]] + insert_stop(tail, st));
        if p < s.len() && frac_eqv(st.breakpoint, s[p].breakpoint) {
            assert(insert_stop(s, st) =~= s.take(p) + seq![st] + s.skip(p + 1));
        } else {
            assert(insert_stop(s, st) =~= s.take(p) + seq![st] + s.skip(p));
        }
    }
}

/// Law: the deterministic serialization of a well-formed stop list is
/// strictly ordered by breakpoint, so the table it writes has one entry per
/// breakpoint value, in ascending order.
pub proof fn lemma_serialize_sorted(s: Seq<PaletteStop>)
    requires
        stops_wf(s),
    ensures
        bk_sorted(spec_serialize(s)),
        stops_wf(spec_serialize(s)),
    decreases s.len(),
{
    if s.len() > 0 {
        assert forall|i: int| 0 <= i < s.drop_last().len() implies (#[trigger] s.drop_last()[i]
            .breakpoint).wf() by {
            assert(s.drop_last()[i] == s[i]);
        }
        lemma_serialize_sorted(s.drop_last());
        lemma_insert_stop_sorted(spec_serialize(s.drop_last()), s.last());
    }
}

/// A copy of one stop.
fn clone_stop(st: &PaletteStop) -> (r: PaletteStop)
    ensures
        r == *st,
{
    PaletteStop { color: st.color.clone(), breakpoint: st.breakpoint }
}

/// Insert `st` into the breakpoint-ordered table `r`, replacing the entry
/// with the same breakpoint value if there is one.
fn insert_sorted(r: &mut Vec<PaletteStop>, st: PaletteStop)
    requires
        stops_wf(old(r)@),
        st.breakpoint.wf(),
    ensures
        final(r)@ == insert_stop(old(r)@, st),
{
    let n = r.len();
    let mut p: usize = 0;
    while p < n && r[p].breakpoint.lt(&st.breakpoint)
        invariant
            p <= n,
            n == r@.len(),
            r@ == old(r)@,
            stops_wf(r@),
            st.breakpoint.wf(),
            forall|k: int| 0 <= k < p ==> frac_lt(#[trigger] r@[k].breakpoint, st.breakpoint),
        decreases n - p,
    {
        p += 1;
    }
    let ghost s0 = r@;
    proof {
        lemma_insert_stop_split(s0, st, p as int);
    }
    if p < n && st.breakpoint.eqv(&r[p].breakpoint) {
        r.set(p, st);
        proof {
            assert(r@ =~= s0.take(p as int) + seq![st] + s0.skip(p as int + 1));
        }
    } else {
        r.insert(p, st);
        proof {
            assert(r@ =~= s0.take(p as int) + seq![st] + s0.skip(p as int));
        }
    }
}

impl HotlinePalette {
    /// The stop table of this palette in deterministic serialization order:
    /// ascending by breakpoint, a later stop replacing an earlier one with
    /// the same breakpoint value.
    pub fn to_sorted_stops(&self) -> (r: Vec<PaletteStop>)
        requires
            stops_wf(self.palette@),
        ensures
            r@ == spec_serialize(self.palette@),
            bk_sorted(r@),
    {
        let mut out: Vec<PaletteStop> = Vec::new();
        let mut i: usize = 0;
        while i < self.palette.len()
            invariant
                i <= self.palette@.len(),
                stops_wf(self.palette@),
                out@ == spec_serialize(self.palette@.take(i as int)),
                stops_wf(out@),
            decreases self.palette@.len() - i,
        {
            let st = clone_stop(&self.palette[i]);
            insert_sorted(&mut out, st);
            proof {
                let pre = self.palette@.take(i as int);
                assert forall|k: int| 0 <= k < pre.len() implies (#[trigger] pre[k]
                    .breakpoint).wf() by {
                    assert(pre[k] == self.palette@[k]);
                }
                lemma_serialize_sorted(pre);
                lemma_insert_stop_sorted(spec_serialize(pre), self.palette@[i as int]);
                assert(self.palette@.take((i as int) + 1).drop_last() =~= pre);
                assert(self.palette@.take((i as int) + 1).last() == self.palette@[i as int]);
            }
            i += 1;
        }
        proof {
            assert(self.palette@.take(self.palette@.len() as int) =~= self.palette@);
            lemma_serialize_sorted(self.palette@);
        }
        out
    }
}

impl Default for HotlinePalette {
    /// The default palette: the four fixed stops green at 0, blue at 0.33,
    /// `#ffff00` at 0.67, red at 1.
    fn default() -> (r: HotlinePalette)
        ensures
            is_default_stops(r.palette@),
            r.wf(),
    {
        let mut stops: Vec<PaletteStop> = Vec::new();
        stops.push(PaletteStop { color: "green".to_owned(), breakpoint: Frac { num: 0, den: 1 } });
        stops.push(PaletteStop { color: "blue".to_owned(), breakpoint: Frac { num: 33, den: 100 } });
        stops.push(
            PaletteStop { color: "#ffff00".to_owned(), breakpoint: Frac { num: 67, den: 100 } },
        );
        stops.push(PaletteStop { color: "red".to_owned(), breakpoint: Frac { num: 1, den: 1 } });
        proof {
            reveal_strlit("green");
            reveal_strlit("blue");
            reveal_strlit("#ffff00");
            reveal_strlit("red");
            assert(stops@.len() == 4);
            assert("green"@.len() == 5 && "blue"@.len() == 4 && "#ffff00"@.len() == 7
                && "red"@.len() == 3);
            assert forall|i: int, j: int| 0 <= i < j < stops@.len() implies stops@[i].color@
                != stops@[j].color@ by {
                assert(stops@[i].color@.len() != stops@[j].color@.len());
            }
        }
        HotlinePalette { palette: stops }
    }
}

} // verus!
