//! The band catalog: which frequencies are tuned together.
//!
//! A band is an identifier and a strictly ascending list of frequencies in
//! kHz. The catalog is modelled as a map from identifier to that list.

use crate::utils::systable::GroundStation;
use vstd::prelude::*;

verus! {

/// One band of the catalog.
#[derive(Debug, Clone)]
struct Band {
    id: u32,
    freqs: Vec<u16>,
}

/// The catalog of bands. Its view is the map from band identifier to the
/// band's frequencies.
#[derive(Debug, Clone)]
pub struct FrequencyBandMap {
    bands: Vec<Band>,
}

/// The catalog cannot be built: there is no frequency to group, or the
/// maximum span is zero.
#[derive(Debug, Clone, Copy, PartialEq, Eq, Structural)]
pub struct EmptyCatalog;

/// The identifier of the band that runs from `lo` to `hi`: the frequency
/// itself where the two are the same, else `lo` in the upper and `hi` in the
/// lower sixteen bits.
pub open spec fn spec_band_id(lo: u16, hi: u16) -> u32 {
    if lo == hi {
        lo as u32
    } else {
        (lo as u32 * 65536 + hi as u32) as u32
    }
}

/// Whether each element of `s` is below the next one.
pub open spec fn spec_ascending(s: Seq<u16>) -> bool {
    forall|i: int, j: int| 0 <= i < j < s.len() ==> s[i] < s[j]
}

/// Whether a band that starts at `lo` may hold `f`: the distance between
/// the two, in Hz, is at most nine tenths of `max_span`.
pub open spec fn spec_gap_fits(lo: u16, f: u16, max_span: u32) -> bool {
    (f as int - lo as int) * 10000 <= 9 * max_span as int
}

/// The identifier computed from a band's outer frequencies.
pub fn band_id(lo: u16, hi: u16) -> (id: u32)
    ensures
        id == spec_band_id(lo, hi),
{
    if lo == hi {
        lo as u32
    } else {
        lo as u32 * 65536 + hi as u32
    }
}

/// Two bands that do not overlap have different identifiers.
pub proof fn lemma_band_id_distinct(lo1: u16, hi1: u16, lo2: u16, hi2: u16)
    requires
        lo1 <= hi1,
        hi1 < lo2,
        lo2 <= hi2,
    ensures
        spec_band_id(lo1, hi1) != spec_band_id(lo2, hi2),
{
}

/// Whether some band of the catalog `m` holds `freq`.
pub open spec fn spec_has_freq(m: Map<u32, Seq<u16>>, freq: int) -> bool {
    exists|id: u32| #[trigger]
        m.dom().contains(id) && exists|k: int| 0 <= k < m[id].len() && #[trigger] m[id][k] as int == freq
}

/// The band of the catalog `m` that holds `freq`, if one does.
pub open spec fn spec_freq_to_band(m: Map<u32, Seq<u16>>, freq: int) -> Option<u32> {
    if spec_has_freq(m, freq) {
        Some(
            choose|id: u32| #[trigger]
                m.dom().contains(id) && exists|k: int|
                    0 <= k < m[id].len() && #[trigger] m[id][k] as int == freq,
        )
    } else {
        None
    }
}

impl FrequencyBandMap {
    /// The bands as they are stored: ascending, apart from each other, each
    /// named by its outer frequencies.
    pub closed spec fn wf(&self) -> bool {
        &&& self.bands.len() > 0
        &&& forall|i: int|
            0 <= i < self.bands.len() ==> {
                &&& (#[trigger] self.bands[i]).freqs.len() > 0
                &&& spec_ascending(self.bands[i].freqs@)
                &&& self.bands[i].id == spec_band_id(
                    self.bands[i].freqs@.first(),
                    self.bands[i].freqs@.last(),
                )
            }
        &&& forall|i: int, j: int|
            0 <= i < j < self.bands.len() ==> (#[trigger] self.bands[i]).freqs@.last() < (
            #[trigger] self.bands[j]).freqs@.first()
    }

    /// Where the band `id` is stored.
    closed spec fn position(&self, id: u32) -> int {
        choose|i: int| 0 <= i < self.bands.len() && self.bands[i].id == id
    }

    /// The map from band identifier to the band's frequencies.
    pub closed spec fn view(&self) -> Map<u32, Seq<u16>> {
        Map::new(
            |id: u32| exists|i: int| 0 <= i < self.bands.len() && self.bands[i].id == id,
            |id: u32| self.bands[self.position(id)].freqs@,
        )
    }

    /// Whether some band of the catalog holds `freq`.
    pub open spec fn spec_has_freq(&self, freq: int) -> bool {
        spec_has_freq(self@, freq)
    }

    /// The band that holds `freq`, if one does.
    pub open spec fn spec_freq_to_band(&self, freq: int) -> Option<u32> {
        spec_freq_to_band(self@, freq)
    }

    proof fn lemma_ids_distinct(&self, i: int, j: int)
        requires
            self.wf(),
            0 <= i < self.bands.len(),
            0 <= j < self.bands.len(),
            i != j,
        ensures
            self.bands[i].id != self.bands[j].id,
    {
        let a = self.bands[i];
        let b = self.bands[j];
        assert(a.freqs@.first() <= a.freqs@.last()) by {
            if a.freqs.len() > 1 {
                assert(a.freqs@[0] < a.freqs@[a.freqs.len() - 1]);
            }
        }
        assert(b.freqs@.first() <= b.freqs@.last()) by {
            if b.freqs.len() > 1 {
                assert(b.freqs@[0] < b.freqs@[b.freqs.len() - 1]);
            }
        }
        if i < j {
            lemma_band_id_distinct(
                a.freqs@.first(),
                a.freqs@.last(),
                b.freqs@.first(),
                b.freqs@.last(),
            );
        } else {
            lemma_band_id_distinct(
                b.freqs@.first(),
                b.freqs@.last(),
                a.freqs@.first(),
                a.freqs@.last(),
            );
        }
    }

    proof fn lemma_position(&self, i: int)
        requires
            self.wf(),
            0 <= i < self.bands.len(),
        ensures
            self@.dom().contains(self.bands[i].id),
            self.position(self.bands[i].id) == i,
            self@[self.bands[i].id] == self.bands[i].freqs@,
    {
        let id = self.bands[i].id;
        let p = self.position(id);
        if p != i {
            self.lemma_ids_distinct(i, p);
        }
    }

    proof fn lemma_in_domain(&self, id: u32)
        requires
            self.wf(),
            self@.dom().contains(id),
        ensures
            0 <= self.position(id) < self.bands.len(),
            self.bands[self.position(id)].id == id,
            self@[id] == self.bands[self.position(id)].freqs@,
    {
    }

    proof fn lemma_freq_in_one_band(&self, i: int, k: int, j: int, l: int)
        requires
            self.wf(),
            0 <= i < self.bands.len(),
            0 <= j < self.bands.len(),
            0 <= k < self.bands[i].freqs.len(),
            0 <= l < self.bands[j].freqs.len(),
            self.bands[i].freqs[k] == self.bands[j].freqs[l],
        ensures
            i == j,
    {
        let a = self.bands[i].freqs@;
        let b = self.bands[j].freqs@;
        assert(a[0] <= a[k] <= a[a.len() - 1]);
        assert(b[0] <= b[l] <= b[b.len() - 1]);
    }

    /// What holds of every catalog: each band has frequencies, they ascend
    /// and give the band its identifier, and no two bands share one.
    pub proof fn lemma_wf(&self)
        requires
            self.wf(),
        ensures
            self@.dom().finite(),
            self@.dom().len() > 0,
            forall|id: u32| #[trigger]
                self@.dom().contains(id) ==> {
                    &&& self@[id].len() > 0
                    &&& spec_ascending(self@[id])
                    &&& id == spec_band_id(self@[id].first(), self@[id].last())
                },
            forall|id1: u32, id2: u32, k1: int, k2: int|
                self@.dom().contains(id1) && self@.dom().contains(id2) && 0 <= k1 < self@[id1].len()
                    && 0 <= k2 < self@[id2].len() && #[trigger] self@[id1][k1] == #[trigger] self@[id2][k2]
                    ==> id1 == id2,
    {
        assert forall|id: u32| #[trigger] self@.dom().contains(id) implies {
            &&& self@[id].len() > 0
            &&& spec_ascending(self@[id])
            &&& id == spec_band_id(self@[id].first(), self@[id].last())
        } by {
            self.lemma_in_domain(id);
        }
        assert forall|id1: u32, id2: u32, k1: int, k2: int|
            self@.dom().contains(id1) && self@.dom().contains(id2) && 0 <= k1 < self@[id1].len()
                && 0 <= k2 < self@[id2].len() && #[trigger] self@[id1][k1] == #[trigger] self@[id2][k2] implies id1
            == id2 by {
            self.lemma_in_domain(id1);
            self.lemma_in_domain(id2);
            self.lemma_freq_in_one_band(self.position(id1), k1, self.position(id2), k2);
        }
        self.lemma_domain_len(self.bands.len() as int);
        assert(self@.dom() =~= self.ids_below(self.bands.len() as int));
    }

    /// The identifiers of the first `n` bands.
    closed spec fn ids_below(&self, n: int) -> Set<u32> {
        Set::new(|id: u32| exists|i: int| 0 <= i < n && i < self.bands.len() && self.bands[i].id == id)
    }

    /// A catalog with the same bands.
    pub fn duplicate(&self) -> (r: FrequencyBandMap)
        requires
            self.wf(),
        ensures
            r@ == self@,
            r.wf(),
    {
        let mut bands: Vec<Band> = Vec::new();
        let mut i: usize = 0;
        while i < self.bands.len()
            invariant
                i <= self.bands.len(),
                bands.len() == i,
                forall|j: int|
                    0 <= j < i ==> (#[trigger] bands[j]).id == self.bands[j].id && bands[j].freqs@
                        == self.bands[j].freqs@,
            decreases self.bands.len() - i,
        {
            let freqs = self.bands[i].freqs.clone();
            assert(freqs@ =~= self.bands[i as int].freqs@);
            bands.push(Band { id: self.bands[i].id, freqs });
            i += 1;
        }
        let r = FrequencyBandMap { bands };
        proof {
            assert(r.wf()) by {
                assert forall|k: int| 0 <= k < r.bands.len() implies {
                    &&& (#[trigger] r.bands[k]).freqs.len() > 0
                    &&& spec_ascending(r.bands[k].freqs@)
                    &&& r.bands[k].id == spec_band_id(
                        r.bands[k].freqs@.first(),
                        r.bands[k].freqs@.last(),
                    )
                } by {
                    assert(self.bands[k].freqs.len() > 0);
                }
                assert forall|a: int, b: int| 0 <= a < b < r.bands.len() implies (
                #[trigger] r.bands[a]).freqs@.last() < (#[trigger] r.bands[b]).freqs@.first() by {
                    assert(self.bands[a].freqs@.last() < self.bands[b].freqs@.first());
                }
            }
            assert forall|id: u32| r@.dom().contains(id) == self@.dom().contains(id) by {
                if r@.dom().contains(id) {
                    let k = choose|k: int| 0 <= k < r.bands.len() && r.bands[k].id == id;
                    assert(self.bands[k].id == id);
                }
                if self@.dom().contains(id) {
                    let k = choose|k: int| 0 <= k < self.bands.len() && self.bands[k].id == id;
                    assert(r.bands[k].id == id);
                }
            }
            assert forall|id: u32| r@.dom().contains(id) implies r@[id] == self@[id] by {
                r.lemma_in_domain(id);
                self.lemma_position(r.position(id));
            }
            assert(r@ =~= self@);
        }
        r
    }

    /// The number of bands.
    pub fn len(&self) -> (n: usize)
        requires
            self.wf(),
        ensures
            n == self@.dom().len(),
    {
        proof {
            self.lemma_domain_len(self.bands.len() as int);
            assert(self@.dom() =~= self.ids_below(self.bands.len() as int));
        }
        self.bands.len()
    }

    proof fn lemma_domain_len(&self, n: int)
        requires
            self.wf(),
            0 <= n <= self.bands.len(),
        ensures
            self.ids_below(n).finite(),
            self.ids_below(n).len() == n,
        decreases n,
    {
        if n == 0 {
            assert(self.ids_below(0) =~= Set::<u32>::empty());
        } else {
            self.lemma_domain_len(n - 1);
            assert(self.ids_below(n) =~= self.ids_below(n - 1).insert(self.bands[n - 1].id));
            let last_id = self.bands[n - 1].id;
            assert(!self.ids_below(n - 1).contains(last_id)) by {
                if self.ids_below(n - 1).contains(last_id) {
                    let i = choose|i: int|
                        0 <= i < n - 1 && i < self.bands.len() && self.bands[i].id == last_id;
                    self.lemma_ids_distinct(i, n - 1);
                }
            }
        }
    }

    /// The identifiers of the bands, ascending.
    pub fn keys(&self) -> (r: Vec<u32>)
        requires
            self.wf(),
        ensures
            spec_ascending_ids(r@),
            r.len() == self@.dom().len(),
            r.len() > 0,
            forall|id: u32| r@.contains(id) <==> self@.dom().contains(id),
    {
        let mut out: Vec<u32> = Vec::new();
        let mut i: usize = 0;
        proof {
            self.lemma_domain_len(0);
        }
        while i < self.bands.len()
            invariant
                self.wf(),
                i <= self.bands.len(),
                spec_ascending_ids(out@),
                out.len() == i,
                forall|id: u32| out@.contains(id) <==> self.ids_below(i as int).contains(id),
            decreases self.bands.len() - i,
        {
            let id = self.bands[i].id;
            let ghost before = out@;
            proof {
                self.lemma_domain_len(i as int);
                self.lemma_domain_len(i + 1);
                assert(self.ids_below(i + 1) =~= self.ids_below(i as int).insert(id));
                if self.ids_below(i as int).contains(id) {
                    let k = choose|k: int| 0 <= k < i && k < self.bands.len() && self.bands[k].id == id;
                    self.lemma_ids_distinct(k, i as int);
                }
                assert(!before.contains(id));
            }
            insert_ascending_id(&mut out, id);
            i += 1;
        }
        proof {
            self.lemma_domain_len(self.bands.len() as int);
            assert(self@.dom() =~= self.ids_below(self.bands.len() as int));
        }
        out
    }

    fn find(&self, id: u32) -> (r: Option<usize>)
        requires
            self.wf(),
        ensures
            r.is_some() == self@.dom().contains(id),
            r matches Some(i) ==> i < self.bands.len() && self.bands[i as int].id == id && self@[id]
                == self.bands[i as int].freqs@,
    {
        let mut i: usize = 0;
        while i < self.bands.len()
            invariant
                self.wf(),
                i <= self.bands.len(),
                forall|j: int| 0 <= j < i ==> self.bands[j].id != id,
            decreases self.bands.len() - i,
        {
            if self.bands[i].id == id {
                proof {
                    self.lemma_position(i as int);
                }
                return Some(i);
            }
            i += 1;
        }
        None
    }

    /// Whether the catalog has a band `id`.
    pub fn contains_key(&self, id: u32) -> (r: bool)
        requires
            self.wf(),
        ensures
            r == self@.dom().contains(id),
    {
        self.find(id).is_some()
    }

    /// The frequencies of band `id`.
    pub fn get(&self, id: u32) -> (r: Option<&Vec<u16>>)
        requires
            self.wf(),
        ensures
            r.is_some() == self@.dom().contains(id),
            r matches Some(freqs) ==> freqs@ == self@[id],
    {
        match self.find(id) {
            Some(i) => Some(&self.bands[i].freqs),
            None => None,
        }
    }

    /// The band that holds the frequency `freq`, given in kHz.
    pub fn freq_to_band(&self, freq: u32) -> (r: Option<u32>)
        requires
            self.wf(),
        ensures
            r == self.spec_freq_to_band(freq as int),
            r matches Some(id) ==> self@.dom().contains(id) && exists|k: int|
                0 <= k < self@[id].len() && #[trigger] self@[id][k] as int == freq,
    {
        let mut i: usize = 0;
        while i < self.bands.len()
            invariant
                self.wf(),
                i <= self.bands.len(),
                forall|j: int, k: int|
                    0 <= j < i && 0 <= k < self.bands[j].freqs.len() ==> #[trigger] self.bands[j].freqs[k] as int
                        != freq,
            decreases self.bands.len() - i,
        {
            let band = &self.bands[i];
            let mut k: usize = 0;
            while k < band.freqs.len()
                invariant
                    self.wf(),
                    i < self.bands.len(),
                    *band == self.bands[i as int],
                    k <= band.freqs.len(),
                    forall|l: int| 0 <= l < k ==> #[trigger] band.freqs[l] as int != freq,
                decreases band.freqs.len() - k,
            {
                if band.freqs[k] as u32 == freq {
                    proof {
                        self.lemma_position(i as int);
                        let id = band.id;
                        assert(self@[id][k as int] as int == freq);
                        assert(self.spec_has_freq(freq as int));
                        let other = self.spec_freq_to_band(freq as int)->0;
                        let l = choose|l: int|
                            0 <= l < self@[other].len() && #[trigger] self@[other][l] as int == freq;
                        self.lemma_wf();
                        assert(self@[other][l] == self@[id][k as int]);
                    }
                    return Some(band.id);
                }
                k += 1;
            }
            i += 1;
        }
        proof {
            if self.spec_has_freq(freq as int) {
                let id = choose|id: u32| #[trigger]
                    self@.dom().contains(id) && exists|k: int|
                        0 <= k < self@[id].len() && #[trigger] self@[id][k] as int == freq;
                let k = choose|k: int| 0 <= k < self@[id].len() && #[trigger] self@[id][k] as int == freq;
                self.lemma_in_domain(id);
                assert(self.bands[self.position(id)].freqs[k] as int == freq);
            }
        }
        None
    }
}


/// Whether some station of `stations` lists the frequency `f`.
pub open spec fn spec_station_freq(stations: Seq<GroundStation>, f: u16) -> bool {
    exists|i: int, j: int|
        0 <= i < stations.len() && 0 <= j < stations[i].frequencies.len()
            && #[trigger] stations[i].frequencies@[j] == f
}

/// Whether a catalog can be built: the maximum span is not zero and the
/// stations list at least one frequency.
pub open spec fn spec_can_build(stations: Seq<GroundStation>, max_span: u32) -> bool {
    max_span > 0 && exists|f: u16| spec_station_freq(stations, f)
}

/// Whether `f` is listed before the place `j` of station `i`.
spec fn spec_seen(stations: Seq<GroundStation>, i: int, j: int, f: u16) -> bool {
    exists|a: int, b: int|
        0 <= a < stations.len() && 0 <= b < stations[a].frequencies.len() && (a < i || (a == i && b
            < j)) && #[trigger] stations[a].frequencies@[b] == f
}

/// Whether `p` lies in the run of `len` places that begins at `start`.
spec fn spec_in_run(start: int, len: int, p: int) -> bool {
    start <= p < start + len
}

/// Whether the place `p` lies in one of the runs.
spec fn spec_covered(bands: Seq<Band>, starts: Seq<int>, p: int) -> bool {
    exists|i: int|
        0 <= i < bands.len() && #[trigger] spec_in_run(starts[i], bands[i].freqs.len() as int, p)
}

/// Whether `bands` cut the first `upto` places of `sorted` into runs, each
/// begun where the one before could hold no more.
spec fn spec_runs(
    bands: Seq<Band>,
    starts: Seq<int>,
    sorted: Seq<u16>,
    max_span: u32,
    upto: int,
) -> bool {
    &&& starts.len() == bands.len()
    &&& 0 <= upto <= sorted.len()
    &&& forall|i: int|
        0 <= i < bands.len() ==> {
            &&& 0 <= #[trigger] starts[i]
            &&& bands[i].freqs.len() > 0
            &&& starts[i] + bands[i].freqs.len() <= upto
            &&& bands[i].freqs@ == sorted.subrange(starts[i], starts[i] + bands[i].freqs.len())
            &&& bands[i].id == spec_band_id(bands[i].freqs@.first(), bands[i].freqs@.last())
            &&& spec_gap_fits(bands[i].freqs@.first(), bands[i].freqs@.last(), max_span)
            &&& (starts[i] + bands[i].freqs.len() < sorted.len() ==> !spec_gap_fits(
                bands[i].freqs@.first(),
                sorted[starts[i] + bands[i].freqs.len()],
                max_span,
            ))
        }
    &&& forall|i: int, j: int|
        0 <= i < j < bands.len() ==> #[trigger] starts[i] + bands[i].freqs.len() <= #[trigger] starts[j]
    &&& forall|p: int| 0 <= p < upto ==> #[trigger] spec_covered(bands, starts, p)
}

/// Puts `x` into the ascending list `v`, unless it is there already.
fn insert_ascending(v: &mut Vec<u16>, x: u16)
    requires
        spec_ascending(old(v)@),
    ensures
        spec_ascending(final(v)@),
        forall|f: u16| final(v)@.contains(f) <==> (old(v)@.contains(f) || f == x),
{
    let mut i: usize = 0;
    while i < v.len() && v[i] < x
        invariant
            i <= v.len(),
            v@ == old(v)@,
            forall|j: int| 0 <= j < i ==> v[j] < x,
        decreases v.len() - i,
    {
        i += 1;
    }
    if i < v.len() && v[i] == x {
        assert(v@.contains(x));
        return ;
    }
    let ghost before = v@;
    v.insert(i, x);
    proof {
        let after = v@;
        before.insert_ensures(i as int, x);
        assert forall|a: int, b: int| 0 <= a < b < after.len() implies after[a] < after[b] by {
            if b < i {
                assert(after[a] == before[a] && after[b] == before[b]);
            } else if b == i {
                assert(after[a] == before[a]);
            } else if a < i {
                assert(after[a] == before[a] && after[b] == before[b - 1]);
                if i < before.len() {
                    assert(before[i as int] <= before[b - 1]) by {
                        if i < b - 1 {
                            assert(before[i as int] < before[b - 1]);
                        }
                    }
                }
            } else if a == i {
                assert(after[b] == before[b - 1]);
                assert(before[i as int] <= before[b - 1]) by {
                    if i < b - 1 {
                        assert(before[i as int] < before[b - 1]);
                    }
                }
            } else {
                assert(after[a] == before[a - 1] && after[b] == before[b - 1]);
            }
        }
        assert forall|f: u16| after.contains(f) <==> (before.contains(f) || f == x) by {
            if after.contains(f) {
                let k = choose|k: int| 0 <= k < after.len() && after[k] == f;
                if k < i {
                    assert(before[k] == f);
                } else if k > i {
                    assert(before[k - 1] == f);
                }
            }
            if before.contains(f) {
                let k = choose|k: int| 0 <= k < before.len() && before[k] == f;
                if k < i {
                    assert(after[k] == f);
                } else {
                    assert(after[k + 1] == f);
                }
            }
            if f == x {
                assert(after[i as int] == f);
            }
        }
    }
}

/// Whether each identifier of `s` is below the next one.
pub open spec fn spec_ascending_ids(s: Seq<u32>) -> bool {
    forall|i: int, j: int| 0 <= i < j < s.len() ==> s[i] < s[j]
}

/// Puts the identifier `x` into the ascending list `v`, which does not hold
/// it.
fn insert_ascending_id(v: &mut Vec<u32>, x: u32)
    requires
        spec_ascending_ids(old(v)@),
        !old(v)@.contains(x),
    ensures
        spec_ascending_ids(final(v)@),
        final(v)@.len() == old(v)@.len() + 1,
        forall|f: u32| final(v)@.contains(f) <==> (old(v)@.contains(f) || f == x),
{
    let mut i: usize = 0;
    while i < v.len() && v[i] < x
        invariant
            i <= v.len(),
            v@ == old(v)@,
            forall|j: int| 0 <= j < i ==> v[j] < x,
        decreases v.len() - i,
    {
        i += 1;
    }
    let ghost before = v@;
    proof {
        if i < before.len() {
            assert(before.contains(before[i as int]));
        }
    }
    v.insert(i, x);
    proof {
        let after = v@;
        before.insert_ensures(i as int, x);
        assert forall|a: int, b: int| 0 <= a < b < after.len() implies after[a] < after[b] by {
            if b < i {
                assert(after[a] == before[a] && after[b] == before[b]);
            } else if b == i {
                assert(after[a] == before[a]);
            } else if a < i {
                assert(after[a] == before[a] && after[b] == before[b - 1]);
                if i < b - 1 {
                    assert(before[i as int] < before[b - 1]);
                }
            } else if a == i {
                assert(after[b] == before[b - 1]);
                if i < b - 1 {
                    assert(before[i as int] < before[b - 1]);
                }
            } else {
                assert(after[a] == before[a - 1] && after[b] == before[b - 1]);
            }
        }
        assert forall|f: u32| after.contains(f) <==> (before.contains(f) || f == x) by {
            if after.contains(f) {
                let k = choose|k: int| 0 <= k < after.len() && after[k] == f;
                if k < i {
                    assert(before[k] == f);
                } else if k > i {
                    assert(before[k - 1] == f);
                }
            }
            if before.contains(f) {
                let k = choose|k: int| 0 <= k < before.len() && before[k] == f;
                if k < i {
                    assert(after[k] == f);
                } else {
                    assert(after[k + 1] == f);
                }
            }
            if f == x {
                assert(after[i as int] == f);
            }
        }
    }
}

/// The frequencies that the stations list, ascending, each once.
fn collect_ascending(stations: &Vec<GroundStation>) -> (r: Vec<u16>)
    ensures
        spec_ascending(r@),
        forall|f: u16| r@.contains(f) <==> spec_station_freq(stations@, f),
{
    let mut out: Vec<u16> = Vec::new();
    let mut i: usize = 0;
    assert forall|f: u16| out@.contains(f) <==> spec_seen(stations@, 0, 0, f) by {}
    while i < stations.len()
        invariant
            i <= stations.len(),
            spec_ascending(out@),
            forall|f: u16| out@.contains(f) <==> spec_seen(stations@, i as int, 0, f),
        decreases stations.len() - i,
    {
        let freqs = &stations[i].frequencies;
        let mut j: usize = 0;
        while j < freqs.len()
            invariant
                i < stations.len(),
                *freqs == stations[i as int].frequencies,
                j <= freqs.len(),
                spec_ascending(out@),
                forall|f: u16| out@.contains(f) <==> spec_seen(stations@, i as int, j as int, f),
            decreases freqs.len() - j,
        {
            let x = freqs[j];
            let ghost before = out@;
            insert_ascending(&mut out, x);
            proof {
                assert forall|f: u16| out@.contains(f) <==> spec_seen(
                    stations@,
                    i as int,
                    j + 1,
                    f,
                ) by {
                    if spec_seen(stations@, i as int, j + 1, f) {
                        let (a, b) = choose|a: int, b: int|
                            0 <= a < stations@.len() && 0 <= b < stations@[a].frequencies.len() && (a
                                < i || (a == i && b < j + 1))
                                && #[trigger] stations@[a].frequencies@[b] == f;
                        if !(a == i && b == j) {
                            assert(spec_seen(stations@, i as int, j as int, f));
                        }
                    }
                    if before.contains(f) {
                        assert(spec_seen(stations@, i as int, j as int, f));
                        let (a, b) = choose|a: int, b: int|
                            0 <= a < stations@.len() && 0 <= b < stations@[a].frequencies.len() && (a
                                < i || (a == i && b < j))
                                && #[trigger] stations@[a].frequencies@[b] == f;
                        assert(stations@[a].frequencies@[b] == f);
                    }
                    if f == x {
                        assert(stations@[i as int].frequencies@[j as int] == f);
                    }
                }
            }
            j += 1;
        }
        proof {
            assert forall|f: u16| out@.contains(f) <==> spec_seen(stations@, i + 1, 0, f) by {
                if spec_seen(stations@, i + 1, 0, f) {
                    let (a, b) = choose|a: int, b: int|
                        0 <= a < stations@.len() && 0 <= b < stations@[a].frequencies.len() && (a < i
                            + 1 || (a == i + 1 && b < 0))
                            && #[trigger] stations@[a].frequencies@[b] == f;
                    assert(stations@[a].frequencies@[b] == f);
                    assert(spec_seen(stations@, i as int, j as int, f));
                }
                if spec_seen(stations@, i as int, j as int, f) {
                    let (a, b) = choose|a: int, b: int|
                        0 <= a < stations@.len() && 0 <= b < stations@[a].frequencies.len() && (a < i
                            || (a == i && b < j)) && #[trigger] stations@[a].frequencies@[b] == f;
                    assert(stations@[a].frequencies@[b] == f);
                }
            }
        }
        i += 1;
    }
    proof {
        assert forall|f: u16| out@.contains(f) <==> spec_station_freq(stations@, f) by {
            if spec_station_freq(stations@, f) {
                let (a, b) = choose|a: int, b: int|
                    0 <= a < stations@.len() && 0 <= b < stations@[a].frequencies.len()
                        && #[trigger] stations@[a].frequencies@[b] == f;
                assert(stations@[a].frequencies@[b] == f);
                assert(spec_seen(stations@, i as int, 0, f));
            }
            if spec_seen(stations@, i as int, 0, f) {
                let (a, b) = choose|a: int, b: int|
                    0 <= a < stations@.len() && 0 <= b < stations@[a].frequencies.len() && (a < i
                        || (a == i && b < 0)) && #[trigger] stations@[a].frequencies@[b] == f;
                assert(stations@[a].frequencies@[b] == f);
            }
        }
    }
    out
}

/// Whether a band that starts at `lo` may hold `f`.
fn gap_fits(lo: u16, f: u16, max_span: u32) -> (r: bool)
    requires
        lo <= f,
    ensures
        r == spec_gap_fits(lo, f, max_span),
{
    (f - lo) as u64 * 10000 <= 9 * (max_span as u64)
}

/// Cuts the ascending list `sorted` into bands: a band is closed when the
/// next frequency no longer fits behind its first one.
fn group(sorted: &Vec<u16>, max_span: u32) -> (r: (Vec<Band>, Ghost<Seq<int>>))
    requires
        spec_ascending(sorted@),
    ensures
        spec_runs(r.0@, r.1@, sorted@, max_span, sorted@.len() as int),
{
    let n = sorted.len();
    let mut bands: Vec<Band> = Vec::new();
    let ghost mut starts: Seq<int> = Seq::empty();
    if n == 0 {
        return (bands, Ghost(starts));
    }
    let mut cur: Vec<u16> = Vec::new();
    cur.push(sorted[0]);
    let ghost mut k0: int = 0;
    let mut k: usize = 1;
    assert(cur@ =~= sorted@.subrange(0, 1));
    while k < n
        invariant
            n == sorted.len(),
            spec_ascending(sorted@),
            0 <= k0 < k <= n,
            cur@ == sorted@.subrange(k0, k as int),
            spec_gap_fits(sorted[k0], sorted[k - 1], max_span),
            spec_runs(bands@, starts, sorted@, max_span, k0),
        decreases n - k,
    {
        let f = sorted[k];
        let lo = cur[0];
        assert(lo == sorted[k0]);
        assert(sorted[k0] < sorted[k as int]);
        if gap_fits(lo, f, max_span) {
            cur.push(f);
            assert(cur@ =~= sorted@.subrange(k0, k + 1));
        } else {
            let hi = cur[cur.len() - 1];
            let id = band_id(lo, hi);
            let ghost old_bands = bands@;
            let ghost old_starts = starts;
            bands.push(Band { id, freqs: cur });
            proof {
                starts = starts.push(k0);
                assert(bands@.drop_last() =~= old_bands);
                lemma_runs_push(old_bands, old_starts, sorted@, max_span, k0, k as int, bands@, starts);
            }
            cur = Vec::new();
            cur.push(f);
            proof {
                k0 = k as int;
            }
            assert(cur@ =~= sorted@.subrange(k0, k + 1));
        }
        k += 1;
    }
    let lo = cur[0];
    let hi = cur[cur.len() - 1];
    let id = band_id(lo, hi);
    let ghost old_bands = bands@;
    let ghost old_starts = starts;
    bands.push(Band { id, freqs: cur });
    proof {
        starts = starts.push(k0);
        assert(bands@.drop_last() =~= old_bands);
        lemma_runs_push(old_bands, old_starts, sorted@, max_span, k0, n as int, bands@, starts);
    }
    (bands, Ghost(starts))
}

/// Closing the run from `k0` to `k` as one more band keeps the runs.
proof fn lemma_runs_push(
    bands: Seq<Band>,
    starts: Seq<int>,
    sorted: Seq<u16>,
    max_span: u32,
    k0: int,
    k: int,
    new_bands: Seq<Band>,
    new_starts: Seq<int>,
)
    requires
        spec_runs(bands, starts, sorted, max_span, k0),
        0 <= k0 < k <= sorted.len(),
        new_bands.len() == bands.len() + 1,
        new_bands.drop_last() == bands,
        new_starts == starts.push(k0),
        new_bands.last().freqs@ == sorted.subrange(k0, k),
        new_bands.last().id == spec_band_id(sorted[k0], sorted[k - 1]),
        spec_gap_fits(sorted[k0], sorted[k - 1], max_span),
        k < sorted.len() ==> !spec_gap_fits(sorted[k0], sorted[k], max_span),
    ensures
        spec_runs(new_bands, new_starts, sorted, max_span, k),
{
    let m = bands.len() as int;
    assert forall|i: int| 0 <= i < new_bands.len() implies {
        &&& 0 <= #[trigger] new_starts[i]
        &&& new_bands[i].freqs.len() > 0
        &&& new_starts[i] + new_bands[i].freqs.len() <= k
        &&& new_bands[i].freqs@ == sorted.subrange(
            new_starts[i],
            new_starts[i] + new_bands[i].freqs.len(),
        )
        &&& new_bands[i].id == spec_band_id(new_bands[i].freqs@.first(), new_bands[i].freqs@.last())
        &&& spec_gap_fits(new_bands[i].freqs@.first(), new_bands[i].freqs@.last(), max_span)
        &&& (new_starts[i] + new_bands[i].freqs.len() < sorted.len() ==> !spec_gap_fits(
            new_bands[i].freqs@.first(),
            sorted[new_starts[i] + new_bands[i].freqs.len()],
            max_span,
        ))
    } by {
        if i < m {
            assert(new_bands[i] == bands[i]);
            assert(new_starts[i] == starts[i]);
        } else {
            assert(new_bands[i] == new_bands.last());
        }
    }
    assert forall|i: int, j: int| 0 <= i < j < new_bands.len() implies #[trigger] new_starts[i]
        + new_bands[i].freqs.len() <= #[trigger] new_starts[j] by {
        assert(new_bands[i] == bands[i]);
        assert(new_starts[i] == starts[i]);
        if j < m {
            assert(new_bands[j] == bands[j]);
            assert(new_starts[j] == starts[j]);
        }
    }
    assert forall|p: int| 0 <= p < k implies #[trigger] spec_covered(new_bands, new_starts, p) by {
        if p < k0 {
            assert(spec_covered(bands, starts, p));
            let i = choose|i: int|
                0 <= i < bands.len() && #[trigger] spec_in_run(
                    starts[i],
                    bands[i].freqs.len() as int,
                    p,
                );
            assert(new_bands[i] == bands[i]);
            assert(new_starts[i] == starts[i]);
            assert(spec_in_run(new_starts[i], new_bands[i].freqs.len() as int, p));
        } else {
            assert(spec_in_run(new_starts[m], new_bands[m].freqs.len() as int, p));
        }
    }
}

impl FrequencyBandMap {
    /// Whether the catalog groups the frequencies of `stations` for the
    /// maximum span `max_span`, in Hz: every band holds frequencies of the
    /// stations only, none further from the band's first one than nine
    /// tenths of the span; every frequency of a station stands in a band;
    /// and a band holds every frequency of a station that fits behind its
    /// first one.
    pub open spec fn spec_groups(&self, stations: Seq<GroundStation>, max_span: u32) -> bool {
        &&& forall|id: u32, k: int|
            self@.dom().contains(id) && 0 <= k < self@[id].len() ==> spec_station_freq(
                stations,
                #[trigger] self@[id][k],
            ) && spec_gap_fits(self@[id][0], self@[id][k], max_span)
        &&& forall|f: u16| #[trigger]
            spec_station_freq(stations, f) ==> self.spec_has_freq(f as int)
        &&& forall|id: u32, f: u16|
            #![trigger self@.dom().contains(id), spec_station_freq(stations, f)]
            self@.dom().contains(id) && spec_station_freq(stations, f) && self@[id][0] <= f
                && spec_gap_fits(self@[id][0], f, max_span) ==> self@[id].contains(f)
    }

    /// Groups the frequencies of `stations` into bands. The frequencies are
    /// taken in ascending order, each once; a new band begins with the first
    /// frequency that lies further from the first one of the band before
    /// than nine tenths of `max_span`.
    pub fn build(stations: &Vec<GroundStation>, max_span: u32) -> (r: Result<
        FrequencyBandMap,
        EmptyCatalog,
    >)
        ensures
            r.is_ok() == spec_can_build(stations@, max_span),
            r matches Ok(catalog) ==> catalog.wf() && catalog.spec_groups(stations@, max_span),
    {
        if max_span == 0 {
            return Err(EmptyCatalog);
        }
        let sorted = collect_ascending(stations);
        if sorted.len() == 0 {
            proof {
                if exists|f: u16| spec_station_freq(stations@, f) {
                    let f = choose|f: u16| spec_station_freq(stations@, f);
                    assert(sorted@.contains(f));
                }
            }
            return Err(EmptyCatalog);
        }
        let (bands, Ghost(starts)) = group(&sorted, max_span);
        let catalog = FrequencyBandMap { bands };
        proof {
            assert(sorted@.contains(sorted@[0]));
            catalog.lemma_built(starts, sorted@, stations@, max_span);
        }
        Ok(catalog)
    }

    proof fn lemma_built(
        &self,
        starts: Seq<int>,
        sorted: Seq<u16>,
        stations: Seq<GroundStation>,
        max_span: u32,
    )
        requires
            spec_ascending(sorted),
            sorted.len() > 0,
            spec_runs(self.bands@, starts, sorted, max_span, sorted.len() as int),
            forall|f: u16| sorted.contains(f) <==> spec_station_freq(stations, f),
        ensures
            self.wf(),
            self.spec_groups(stations, max_span),
    {
        self.lemma_runs_wf(starts, sorted, max_span);
        assert forall|id: u32, k: int|
            self@.dom().contains(id) && 0 <= k < self@[id].len() implies spec_station_freq(
            stations,
            #[trigger] self@[id][k],
        ) && spec_gap_fits(self@[id][0], self@[id][k], max_span) by {
            self.lemma_runs_member(starts, sorted, max_span, id, k);
        }
        assert forall|f: u16| #[trigger] spec_station_freq(stations, f) implies self.spec_has_freq(
            f as int,
        ) by {
            assert(sorted.contains(f));
            self.lemma_runs_cover(starts, sorted, max_span, f);
        }
        assert forall|id: u32, f: u16|
            #![trigger self@.dom().contains(id), spec_station_freq(stations, f)]
            self@.dom().contains(id) && spec_station_freq(stations, f) && self@[id][0] <= f
                && spec_gap_fits(self@[id][0], f, max_span) implies self@[id].contains(f) by {
            assert(sorted.contains(f));
            self.lemma_runs_window(starts, sorted, max_span, id, f);
        }
    }

    proof fn lemma_runs_wf(&self, starts: Seq<int>, sorted: Seq<u16>, max_span: u32)
        requires
            spec_ascending(sorted),
            sorted.len() > 0,
            spec_runs(self.bands@, starts, sorted, max_span, sorted.len() as int),
        ensures
            self.wf(),
    {
        let bands = self.bands@;
        assert(spec_covered(bands, starts, 0));
        assert forall|i: int| 0 <= i < bands.len() implies {
            &&& (#[trigger] bands[i]).freqs.len() > 0
            &&& spec_ascending(bands[i].freqs@)
            &&& bands[i].id == spec_band_id(bands[i].freqs@.first(), bands[i].freqs@.last())
        } by {
            assert(0 <= starts[i]);
        }
        assert forall|i: int, j: int| 0 <= i < j < bands.len() implies (#[trigger] bands[i]).freqs@.last()
            < (#[trigger] bands[j]).freqs@.first() by {
            assert(0 <= starts[i] && 0 <= starts[j]);
            assert(starts[i] + bands[i].freqs.len() <= starts[j]);
            assert(bands[i].freqs@.last() == sorted[starts[i] + bands[i].freqs.len() - 1]);
            assert(bands[j].freqs@.first() == sorted[starts[j]]);
        }
    }

    proof fn lemma_runs_member(
        &self,
        starts: Seq<int>,
        sorted: Seq<u16>,
        max_span: u32,
        id: u32,
        k: int,
    )
        requires
            self.wf(),
            spec_ascending(sorted),
            spec_runs(self.bands@, starts, sorted, max_span, sorted.len() as int),
            self@.dom().contains(id),
            0 <= k < self@[id].len(),
        ensures
            sorted.contains(self@[id][k]),
            spec_gap_fits(self@[id][0], self@[id][k], max_span),
    {
        self.lemma_in_domain(id);
        let i = self.position(id);
        assert(0 <= starts[i]);
        let run = self.bands[i].freqs@;
        assert(run[k] == sorted[starts[i] + k]);
        assert(run[k] <= run.last()) by {
            if k < run.len() - 1 {
                assert(run[k] < run[run.len() - 1]);
            }
        }
    }

    proof fn lemma_runs_cover(&self, starts: Seq<int>, sorted: Seq<u16>, max_span: u32, f: u16)
        requires
            self.wf(),
            spec_runs(self.bands@, starts, sorted, max_span, sorted.len() as int),
            sorted.contains(f),
        ensures
            self.spec_has_freq(f as int),
    {
        let bands = self.bands@;
        let p = choose|p: int| 0 <= p < sorted.len() && sorted[p] == f;
        assert(spec_covered(bands, starts, p));
        let i = choose|i: int|
            0 <= i < bands.len() && #[trigger] spec_in_run(starts[i], bands[i].freqs.len() as int, p);
        assert(0 <= starts[i]);
        self.lemma_position(i);
        let id = bands[i].id;
        assert(self@[id][p - starts[i]] as int == f as int);
    }

    proof fn lemma_runs_window(
        &self,
        starts: Seq<int>,
        sorted: Seq<u16>,
        max_span: u32,
        id: u32,
        f: u16,
    )
        requires
            self.wf(),
            spec_ascending(sorted),
            spec_runs(self.bands@, starts, sorted, max_span, sorted.len() as int),
            self@.dom().contains(id),
            sorted.contains(f),
            self@[id][0] <= f,
            spec_gap_fits(self@[id][0], f, max_span),
        ensures
            self@[id].contains(f),
    {
        self.lemma_in_domain(id);
        let i = self.position(id);
        assert(0 <= starts[i]);
        let run = self.bands[i].freqs@;
        let end = starts[i] + run.len();
        let p = choose|p: int| 0 <= p < sorted.len() && sorted[p] == f;
        assert(run[0] == sorted[starts[i]]);
        if p < starts[i] {
            assert(sorted[p] < sorted[starts[i]]);
        }
        if p >= end {
            assert(end < sorted.len());
            if p > end {
                assert(sorted[end] < sorted[p]);
            }
        }
        assert(run[p - starts[i]] == f);
    }

    /// No two bands of a built catalog share a frequency, and every
    /// frequency of a station belongs to exactly one band.
    pub proof fn lemma_partition(&self, stations: Seq<GroundStation>, max_span: u32)
        requires
            self.wf(),
            self.spec_groups(stations, max_span),
        ensures
            forall|id1: u32, id2: u32, f: u16|
                #![trigger self@[id1].contains(f), self@[id2].contains(f)]
                self@.dom().contains(id1) && self@.dom().contains(id2) && self@[id1].contains(f)
                    && self@[id2].contains(f) ==> id1 == id2,
            forall|f: u16| #[trigger]
                spec_station_freq(stations, f) ==> exists|id: u32| #[trigger]
                    self@.dom().contains(id) && self@[id].contains(f),
    {
        self.lemma_wf();
        assert forall|id1: u32, id2: u32, f: u16|
            #![trigger self@[id1].contains(f), self@[id2].contains(f)]
            self@.dom().contains(id1) && self@.dom().contains(id2) && self@[id1].contains(f)
                && self@[id2].contains(f) implies id1 == id2 by {
            let k1 = choose|k: int| 0 <= k < self@[id1].len() && self@[id1][k] == f;
            let k2 = choose|k: int| 0 <= k < self@[id2].len() && self@[id2][k] == f;
            assert(self@[id1][k1] == self@[id2][k2]);
        }
        assert forall|f: u16| #[trigger] spec_station_freq(stations, f) implies exists|id: u32| #[trigger]
            self@.dom().contains(id) && self@[id].contains(f) by {
            assert(self.spec_has_freq(f as int));
            let id = choose|id: u32| #[trigger]
                self@.dom().contains(id) && exists|k: int|
                    0 <= k < self@[id].len() && #[trigger] self@[id][k] as int == f as int;
            let k = choose|k: int| 0 <= k < self@[id].len() && #[trigger] self@[id][k] as int == f as int;
            assert(self@[id][k] == f);
        }
    }
}

} // verus!
