//! The chooser that goes from band to band: up, down, or by chance, and at
//! set times of the day to a preferred band.

use crate::args::{spec_get, Props};
use crate::bands::{spec_ascending_ids, FrequencyBandMap};
use crate::chooser::schedule::{
    insert_trigger, lemma_schedule_step, lemma_select_listed, spec_bands_known, spec_is_schedule,
    spec_sorted_triggers, spec_trigger_of, trigger_of,
};
use crate::chooser::{copy_freqs, ChooserError, ChooserPlugin};
use crate::clock::{read_clock, ClockReading};
use crate::hfdl::Frame;
use crate::random::random_below;
use crate::state::SharedState;
use crate::text::{parse_u32, parse_u64, spec_parse_unsigned, spec_split, spec_views, split, str_eq};
use crate::utils::{select_band, spec_select_band};
use vstd::prelude::*;

verus! {

/// The name under which the chooser is asked for.
pub const NAME: &'static str = "rotate";

/// The band to start on where nothing else names one.
pub const DEFAULT_BAND: u32 = 13;

/// How many of the last choices a choice by chance leaves out, where the
/// properties do not say.
pub const DEFAULT_IGNORE_LAST: usize = 8;

/// The property that names the band to begin with.
pub const KEY_START: &'static str = "start";

/// The property that says how many of the last choices a draw leaves out.
pub const KEY_IGNORE_LAST: &'static str = "ignore_last";

/// The property that says how the next band is found.
pub const KEY_TYPE: &'static str = "type";

/// The property that gives the schedule of preferred bands:
/// `HH:MM@band/HH:MM@band/...`.
pub const KEY_PREFER: &'static str = "prefer";

/// The value of `type` for a band by chance.
pub const TYPE_RANDOM: &'static str = "random";

/// The value of `type` for the next band down.
pub const TYPE_DEC: &'static str = "dec";

/// How the next band is found.
#[derive(Debug, Clone, Copy, PartialEq, Eq, Structural)]
pub enum Switcher {
    /// The next band up, and after the last the first.
    Inc,
    /// The next band down, and after the first the last.
    Dec,
    /// A band by chance, none of the last few.
    Random,
}

/// The rotating chooser. Its view is its whole state.
pub struct RotateChooserPlugin<'a> {
    bands: &'a FrequencyBandMap,
    switcher: Switcher,
    ignore_last: usize,
    band_keys: Vec<u32>,
    recently_used: Vec<usize>,
    init_band_idx: usize,
    band_idx: Option<usize>,
    last_prefer: Option<u32>,
    triggers: Vec<(u8, u8, u32)>,
}

/// The chooser's state. Bands are spoken of by their place in `keys`, the
/// identifiers of the catalog's bands in ascending order.
pub struct RotateView {
    pub bands: Map<u32, Seq<u16>>,
    pub switcher: Switcher,
    pub ignore_last: usize,
    pub keys: Seq<u32>,
    pub recently_used: Seq<usize>,
    pub init_idx: usize,
    pub band_idx: Option<usize>,
    pub last_prefer: Option<u32>,
    pub triggers: Seq<(u8, u8, u32)>,
}

/// Whether the state `v` is sound: the keys are the catalog's bands, and
/// every place that the state speaks of is one of the keys.
pub open spec fn spec_rotate_wf(v: RotateView) -> bool {
    &&& 0 < v.keys.len() <= usize::MAX
    &&& spec_ascending_ids(v.keys)
    &&& forall|id: u32| v.keys.contains(id) <==> v.bands.dom().contains(id)
    &&& v.init_idx < v.keys.len()
    &&& (v.band_idx matches Some(i) ==> i < v.keys.len())
    &&& forall|i: int| 0 <= i < v.recently_used.len() ==> v.recently_used[i] < v.keys.len()
    &&& v.recently_used.len() <= v.ignore_last
    &&& spec_sorted_triggers(v.triggers)
    &&& spec_bands_known(v.bands, v.triggers)
}

/// The place of the band `band` in `keys`; 0 where it has none.
pub open spec fn spec_index_or_zero(keys: Seq<u32>, band: u32) -> usize {
    if keys.contains(band) {
        (choose|i: int| 0 <= i < keys.len() && keys[i] == band) as usize
    } else {
        0
    }
}

/// Where `x` first stands in `s`; the length of `s` where it stands
/// nowhere.
pub open spec fn spec_first_pos(s: Seq<usize>, x: usize) -> int
    decreases s.len(),
{
    if s.len() == 0 {
        0
    } else if s[0] == x {
        0
    } else {
        1 + spec_first_pos(s.skip(1), x)
    }
}

/// `s` without the first `x` in it.
pub open spec fn spec_remove_first(s: Seq<usize>, x: usize) -> Seq<usize> {
    let k = spec_first_pos(s, x);
    if 0 <= k < s.len() {
        s.remove(k)
    } else {
        s
    }
}

/// The last choices after `idx` was chosen: `idx` behind those before, and
/// of all that no more than the last `ignore_last`.
pub open spec fn spec_remember(buffer: Seq<usize>, idx: usize, ignore_last: usize) -> Seq<usize> {
    let all = buffer.push(idx);
    if all.len() > ignore_last {
        all.skip(all.len() - ignore_last)
    } else {
        all
    }
}

/// The places below `n` that `buffer` does not hold, ascending.
pub open spec fn spec_free_below(n: nat, buffer: Seq<usize>) -> Seq<usize>
    decreases n,
{
    if n == 0 {
        Seq::empty()
    } else {
        let before = spec_free_below((n - 1) as nat, buffer);
        if buffer.contains((n - 1) as usize) {
            before
        } else {
            before.push((n - 1) as usize)
        }
    }
}

/// The last choices that are left out when a band is drawn among `n`: all
/// of `buffer` where that leaves a band to draw, else as many of its
/// latest as do.
pub open spec fn spec_window(buffer: Seq<usize>, n: nat) -> Seq<usize>
    decreases buffer.len(),
{
    if buffer.len() == 0 || spec_free_below(n, buffer).len() > 0 {
        buffer
    } else {
        spec_window(buffer.skip(1), n)
    }
}

/// Whether the schedule of preferred bands asks for a change at
/// `hour`:`minute`: it selects another band than the one it selected last.
pub open spec fn spec_prefer_pending(v: RotateView, hour: u8, minute: u8) -> bool {
    v.triggers.len() > 0 && spec_select_band(v.triggers, hour, minute) != v.last_prefer
}

/// The state after the schedule of preferred bands was looked at. Where it
/// asks for a change, the preferred band is where the next choice begins,
/// and is taken out of the last choices.
pub open spec fn spec_apply_preference(v: RotateView, hour: u8, minute: u8) -> RotateView {
    if spec_prefer_pending(v, hour, minute) {
        let band = spec_select_band(v.triggers, hour, minute).unwrap();
        let idx = spec_index_or_zero(v.keys, band);
        RotateView {
            last_prefer: Some(band),
            init_idx: idx,
            band_idx: None,
            recently_used: spec_remove_first(v.recently_used, idx),
            ..v
        }
    } else {
        v
    }
}

/// Whether the next choice is drawn by chance.
pub open spec fn spec_draws(v: RotateView) -> bool {
    v.band_idx.is_some() && v.switcher == Switcher::Random
}

/// The state before a choice at `hour`:`minute`: the schedule of preferred
/// bands was looked at, and where the choice is drawn by chance the last
/// choices leave a band to draw.
pub open spec fn spec_prepare(v: RotateView, hour: u8, minute: u8) -> RotateView {
    let p = spec_apply_preference(v, hour, minute);
    if spec_draws(p) {
        RotateView { recently_used: spec_window(p.recently_used, p.keys.len()), ..p }
    } else {
        p
    }
}

/// Among how many bands the next choice is drawn; 0 where it is not drawn.
pub open spec fn spec_draw_count(v: RotateView) -> nat {
    if spec_draws(v) {
        spec_free_below(v.keys.len(), v.recently_used).len()
    } else {
        0
    }
}

/// The state after a choice. The first choice, and the first after the
/// preferred band changed, is the band to begin with. After that the choice
/// goes one band up or down, round the ends, or it is the band at the place
/// `draw`, counted round, among those that the last choices do not hold.
pub open spec fn spec_advance(v: RotateView, draw: usize) -> RotateView {
    match v.band_idx {
        None => RotateView {
            band_idx: Some(v.init_idx),
            recently_used: spec_remember(v.recently_used, v.init_idx, v.ignore_last),
            ..v
        },
        Some(i) => match v.switcher {
            Switcher::Inc => RotateView {
                band_idx: Some(
                    if i + 1 >= v.keys.len() {
                        0
                    } else {
                        (i + 1) as usize
                    },
                ),
                ..v
            },
            Switcher::Dec => RotateView {
                band_idx: Some(
                    if i == 0 {
                        (v.keys.len() - 1) as usize
                    } else {
                        (i - 1) as usize
                    },
                ),
                ..v
            },
            Switcher::Random => {
                let free = spec_free_below(v.keys.len(), v.recently_used);
                let idx = free[draw as int % free.len() as int];
                RotateView {
                    band_idx: Some(idx),
                    recently_used: spec_remember(v.recently_used, idx, v.ignore_last),
                    ..v
                }
            },
        },
    }
}

/// Whether `r` is the frequencies of the band that is chosen in the state
/// `v`.
pub open spec fn spec_chosen(v: RotateView, r: Result<Vec<u16>, ChooserError>) -> bool {
    match v.band_idx {
        Some(idx) => idx < v.keys.len() && match r {
            Ok(freqs) => freqs@ == v.bands[v.keys[idx as int]],
            Err(_) => false,
        },
        None => false,
    }
}

/// The state after a choice at `hour`:`minute` with the draw `draw`.
pub open spec fn spec_choose(v: RotateView, hour: u8, minute: u8, draw: usize) -> RotateView {
    spec_advance(spec_prepare(v, hour, minute), draw)
}

/// The way of switching that the properties name: `random`, `dec`, and
/// for anything else going up.
pub open spec fn spec_switcher(props: Seq<(Seq<char>, Seq<char>)>) -> Switcher {
    match spec_get(props, KEY_TYPE@) {
        Some(t) => if t == TYPE_RANDOM@ {
            Switcher::Random
        } else if t == TYPE_DEC@ {
            Switcher::Dec
        } else {
            Switcher::Inc
        },
        None => Switcher::Inc,
    }
}

/// How many of the last choices a draw leaves out: what the property
/// `ignore_last` says, and `DEFAULT_IGNORE_LAST` where it is not given or is
/// no number.
pub open spec fn spec_ignore_last(props: Seq<(Seq<char>, Seq<char>)>) -> usize {
    match spec_get(props, KEY_IGNORE_LAST@) {
        Some(t) => match spec_parse_unsigned(t, usize::MAX as int) {
            Some(v) => v as usize,
            None => DEFAULT_IGNORE_LAST,
        },
        None => DEFAULT_IGNORE_LAST,
    }
}

/// The band that the property `start` names; `None` where it is not given
/// or is no number.
pub open spec fn spec_start(props: Seq<(Seq<char>, Seq<char>)>) -> Option<u32> {
    match spec_get(props, KEY_START@) {
        Some(t) => match spec_parse_unsigned(t, 0xffff_ffff) {
            Some(v) => Some(v as u32),
            None => None,
        },
        None => None,
    }
}

/// Whether the property `key` is given and is no number up to `max`.
pub open spec fn spec_bad_number(props: Seq<(Seq<char>, Seq<char>)>, key: Seq<char>, max: int) -> bool {
    match spec_get(props, key) {
        Some(t) => spec_parse_unsigned(t, max).is_none(),
        None => false,
    }
}

/// Why no chooser can be made for the catalog `catalog` with the properties
/// `props`: `start` or `ignore_last` is given and is no number, or `start`
/// names a band that the catalog does not have. `None` where one can be
/// made.
pub open spec fn spec_rotate_error(catalog: Map<u32, Seq<u16>>, props: Seq<(Seq<char>, Seq<char>)>) -> Option<
    ChooserError,
> {
    if spec_bad_number(props, KEY_START@, 0xffff_ffff) || spec_bad_number(
        props,
        KEY_IGNORE_LAST@,
        usize::MAX as int,
    ) {
        Some(ChooserError::InvalidNumber)
    } else {
        match spec_start(props) {
            Some(band) => if catalog.dom().contains(band) {
                None
            } else {
                Some(ChooserError::InvalidBand(band))
            },
            None => None,
        }
    }
}

/// The trigger that the stanza `HH:MM@band` gives.
pub open spec fn spec_stanza(catalog: Map<u32, Seq<u16>>, stanza: Seq<char>) -> Option<(u8, u8, u32)> {
    let parts = spec_split(stanza, '@');
    if parts.len() == 2 {
        spec_trigger_of(catalog, parts[0], parts[1])
    } else {
        None
    }
}

/// The triggers that the stanzas give, in their order.
pub open spec fn spec_stanzas(catalog: Map<u32, Seq<u16>>, stanzas: Seq<Seq<char>>) -> Seq<
    (u8, u8, u32),
>
    decreases stanzas.len(),
{
    if stanzas.len() == 0 {
        Seq::empty()
    } else {
        let before = spec_stanzas(catalog, stanzas.drop_last());
        match spec_stanza(catalog, stanzas.last()) {
            Some(t) => before.push(t),
            None => before,
        }
    }
}

/// The triggers that the property `prefer` gives: its stanzas stand
/// between slashes.
pub open spec fn spec_prefer(catalog: Map<u32, Seq<u16>>, props: Seq<(Seq<char>, Seq<char>)>) -> Seq<
    (u8, u8, u32),
> {
    match spec_get(props, KEY_PREFER@) {
        Some(text) => spec_stanzas(catalog, spec_split(text, '/')),
        None => Seq::empty(),
    }
}

/// The band to begin with: the one that `start` names; where `start` is
/// not given, the one that the schedule `triggers` selects at
/// `hour`:`minute`; and without a schedule `DEFAULT_BAND`.
pub open spec fn spec_first_band(
    start: Option<u32>,
    triggers: Seq<(u8, u8, u32)>,
    hour: u8,
    minute: u8,
) -> u32 {
    match start {
        Some(band) => band,
        None => if triggers.len() > 0 {
            spec_select_band(triggers, hour, minute).unwrap()
        } else {
            DEFAULT_BAND
        },
    }
}

/// Whether `v` is the state of a chooser made at `hour`:`minute` for the
/// catalog `catalog` with the properties `props`: nothing chosen yet, the
/// schedule of preferred bands that of the property `prefer`, and the band
/// to begin with as `spec_first_band` says. Only `DEFAULT_BAND` can be a
/// band that the catalog does not have: the chooser then begins with the
/// first of the keys.
pub open spec fn spec_rotate_made(
    v: RotateView,
    catalog: Map<u32, Seq<u16>>,
    props: Seq<(Seq<char>, Seq<char>)>,
    hour: u8,
    minute: u8,
) -> bool {
    &&& spec_rotate_wf(v)
    &&& v.bands == catalog
    &&& v.switcher == spec_switcher(props)
    &&& v.ignore_last == spec_ignore_last(props)
    &&& v.recently_used.len() == 0
    &&& v.band_idx.is_none()
    &&& spec_is_schedule(v.triggers, spec_prefer(catalog, props))
    &&& v.last_prefer == spec_select_band(v.triggers, hour, minute)
    &&& v.init_idx == spec_index_or_zero(
        v.keys,
        spec_first_band(spec_start(props), v.triggers, hour, minute),
    )
}

/// Whether `r` is what making a chooser at `hour`:`minute` gives, for the
/// catalog `catalog` with the properties `props`: the failure that
/// `spec_rotate_error` names, or else a chooser in the state that
/// `spec_rotate_made` describes.
pub open spec fn spec_rotate_new(
    r: Result<RotateView, ChooserError>,
    catalog: Map<u32, Seq<u16>>,
    props: Seq<(Seq<char>, Seq<char>)>,
    hour: u8,
    minute: u8,
) -> bool {
    match spec_rotate_error(catalog, props) {
        Some(e) => r == Err::<RotateView, ChooserError>(e),
        None => match r {
            Ok(v) => spec_rotate_made(v, catalog, props, hour, minute),
            Err(_) => false,
        },
    }
}

/// The chooser of `r` by its view.
pub open spec fn spec_viewed(r: Result<RotateChooserPlugin, ChooserError>) -> Result<
    RotateView,
    ChooserError,
> {
    match r {
        Ok(c) => Ok(c@),
        Err(e) => Err(e),
    }
}

/// `spec_first_pos` is the least place that holds `x`.
proof fn lemma_first_pos(s: Seq<usize>, x: usize, k: int)
    requires
        0 <= k <= s.len(),
        forall|j: int| 0 <= j < k ==> s[j] != x,
        k == s.len() || s[k] == x,
    ensures
        spec_first_pos(s, x) == k,
    decreases s.len(),
{
    if s.len() > 0 && k > 0 {
        let t = s.skip(1);
        assert forall|j: int| 0 <= j < k - 1 implies t[j] != x by {
            assert(t[j] == s[j + 1]);
        }
        lemma_first_pos(t, x, k - 1);
    }
}

/// The places that are free below `n` are below `n`, are not in the
/// buffer, and are all such places.
pub proof fn lemma_free_below(n: nat, buffer: Seq<usize>)
    ensures
        forall|i: usize|
            #![trigger spec_free_below(n, buffer).contains(i)]
            spec_free_below(n, buffer).contains(i) <==> (i < n && !buffer.contains(i)),
        spec_free_below(n, buffer).len() <= n,
    decreases n,
{
    if n > 0 {
        let m = (n - 1) as nat;
        lemma_free_below(m, buffer);
        let before = spec_free_below(m, buffer);
        let out = spec_free_below(n, buffer);
        assert forall|i: usize| #![trigger spec_free_below(n, buffer).contains(i)]
            out.contains(i) <==> (i < n && !buffer.contains(i)) by {
            if out.contains(i) {
                let k = choose|k: int| 0 <= k < out.len() && out[k] == i;
                if k < before.len() {
                    assert(before[k] == i);
                    assert(before.contains(i));
                }
            }
            if i < n && !buffer.contains(i) {
                if i < m {
                    assert(before.contains(i));
                    let k = choose|k: int| 0 <= k < before.len() && before[k] == i;
                    assert(out[k] == i);
                } else {
                    assert(out[out.len() - 1] == i);
                }
            }
        }
    }
}

/// With at least one band there is one to draw once the window is cut.
pub proof fn lemma_window(buffer: Seq<usize>, n: nat)
    requires
        n > 0,
    ensures
        spec_free_below(n, spec_window(buffer, n)).len() > 0,
        spec_window(buffer, n).len() <= buffer.len(),
        forall|i: int|
            0 <= i < spec_window(buffer, n).len() ==> buffer.contains(
                #[trigger] spec_window(buffer, n)[i],
            ),
        spec_free_below(n, buffer).len() > 0 ==> spec_window(buffer, n) == buffer,
    decreases buffer.len(),
{
    if buffer.len() == 0 {
        lemma_free_below(n, buffer);
        assert(spec_free_below(n, buffer).contains(0usize));
    } else if spec_free_below(n, buffer).len() > 0 {
    } else {
        let rest = buffer.skip(1);
        lemma_window(rest, n);
        assert forall|i: int| 0 <= i < spec_window(buffer, n).len() implies buffer.contains(
            #[trigger] spec_window(buffer, n)[i],
        ) by {
            let x = spec_window(rest, n)[i];
            assert(rest.contains(x));
            let k = choose|k: int| 0 <= k < rest.len() && rest[k] == x;
            assert(buffer[k + 1] == x);
        }
    }
}

/// A band that is drawn by chance is none of the last choices that are
/// left out; these are all the last choices where the catalog has more
/// bands than that.
pub proof fn lemma_draw_avoids(v: RotateView, draw: usize)
    requires
        spec_rotate_wf(v),
        spec_draws(v),
    ensures
        spec_advance(
            RotateView { recently_used: spec_window(v.recently_used, v.keys.len()), ..v },
            draw,
        ).band_idx matches Some(idx) && idx < v.keys.len() && !spec_window(
            v.recently_used,
            v.keys.len(),
        ).contains(idx),
        v.recently_used.len() < v.keys.len() ==> spec_window(v.recently_used, v.keys.len())
            == v.recently_used,
{
    let n = v.keys.len();
    let window = spec_window(v.recently_used, n);
    lemma_window(v.recently_used, n);
    lemma_free_below(n, window);
    let free = spec_free_below(n, window);
    let k = draw as int % free.len() as int;
    assert(free.contains(free[k]));
    if v.recently_used.len() < n {
        lemma_some_free(n, v.recently_used);
    }
}

/// Going up, and with no schedule of preferred bands, the chooser begins
/// with the band to begin with and then takes the bands one after the
/// other, the first one again after the last.
pub proof fn lemma_inc_cycles(v: RotateView, hour: u8, minute: u8, draw: usize)
    requires
        spec_rotate_wf(v),
        v.switcher == Switcher::Inc,
        v.triggers.len() == 0,
    ensures
        spec_choose(v, hour, minute, draw).band_idx == Some(
            match v.band_idx {
                None => v.init_idx,
                Some(i) => ((i + 1) % v.keys.len() as int) as usize,
            },
        ),
        spec_choose(v, hour, minute, draw).keys == v.keys,
        spec_choose(v, hour, minute, draw).switcher == v.switcher,
        spec_choose(v, hour, minute, draw).triggers == v.triggers,
{
    match v.band_idx {
        Some(i) => {
            let n = v.keys.len() as int;
            if i + 1 >= n {
                assert((i + 1) % n == 0) by (nonlinear_arith)
                    requires
                        i + 1 == n,
                        n > 0,
                ;
            } else {
                assert((i + 1) % n == i + 1) by (nonlinear_arith)
                    requires
                        0 <= i + 1 < n,
                ;
            }
        },
        None => {},
    }
}

/// A buffer with fewer entries than there are places leaves one free.
pub proof fn lemma_some_free(n: nat, buffer: Seq<usize>)
    requires
        buffer.len() < n <= usize::MAX,
    ensures
        spec_free_below(n, buffer).len() > 0,
{
    lemma_free_below(n, buffer);
    if spec_free_below(n, buffer).len() == 0 {
        assert forall|i: usize| i < n implies buffer.contains(i) by {
            if !buffer.contains(i) {
                assert(spec_free_below(n, buffer).contains(i));
            }
        }
        lemma_pigeons(n, buffer);
    }
}

/// A sequence that holds every place below `n` has at least `n` entries.
proof fn lemma_pigeons(n: nat, buffer: Seq<usize>)
    requires
        forall|i: usize| i < n ==> buffer.contains(i),
        n <= usize::MAX,
    ensures
        buffer.len() >= n,
    decreases n,
{
    if n > 0 {
        let last = (n - 1) as usize;
        assert(buffer.contains(last));
        let k = choose|k: int| 0 <= k < buffer.len() && buffer[k] == last;
        let rest = buffer.remove(k);
        assert forall|i: usize| i < n - 1 implies rest.contains(i) by {
            assert(buffer.contains(i));
            let j = choose|j: int| 0 <= j < buffer.len() && buffer[j] == i;
            if j < k {
                assert(rest[j] == i);
            } else {
                assert(rest[j - 1] == i);
            }
        }
        lemma_pigeons((n - 1) as nat, rest);
    }
}

/// The place of the band `band` in the ascending `keys`; 0 where it has
/// none.
fn index_or_zero(keys: &Vec<u32>, band: u32) -> (r: usize)
    requires
        spec_ascending_ids(keys@),
    ensures
        r == spec_index_or_zero(keys@, band),
        keys.len() > 0 ==> r < keys.len(),
{
    let mut i: usize = 0;
    while i < keys.len()
        invariant
            spec_ascending_ids(keys@),
            i <= keys.len(),
            forall|j: int| 0 <= j < i ==> keys[j] != band,
        decreases keys.len() - i,
    {
        if keys[i] == band {
            proof {
                assert(keys@[i as int] == band);
                assert(keys@.contains(band));
                let c = choose|c: int| 0 <= c < keys@.len() && keys@[c] == band;
                if c > i {
                    assert(keys@[i as int] < keys@[c]);
                }
            }
            return i;
        }
        i += 1;
    }
    0
}

/// The places below `n` that `buffer` does not hold.
fn free_below(n: usize, buffer: &Vec<usize>) -> (r: Vec<usize>)
    ensures
        r@ == spec_free_below(n as nat, buffer@),
{
    let mut out: Vec<usize> = Vec::new();
    let mut i: usize = 0;
    while i < n
        invariant
            i <= n,
            out@ == spec_free_below(i as nat, buffer@),
        decreases n - i,
    {
        let mut held = false;
        let mut k: usize = 0;
        while k < buffer.len()
            invariant
                k <= buffer.len(),
                held == exists|j: int| 0 <= j < k && buffer[j] == i,
            decreases buffer.len() - k,
        {
            if buffer[k] == i {
                held = true;
            }
            k += 1;
        }
        if !held {
            out.push(i);
        }
        i += 1;
    }
    out
}

impl<'a> View for RotateChooserPlugin<'a> {
    type V = RotateView;

    closed spec fn view(&self) -> RotateView {
        RotateView {
            bands: self.bands@,
            switcher: self.switcher,
            ignore_last: self.ignore_last,
            keys: self.band_keys@,
            recently_used: self.recently_used@,
            init_idx: self.init_band_idx,
            band_idx: self.band_idx,
            last_prefer: self.last_prefer,
            triggers: self.triggers@,
        }
    }
}

impl<'a> RotateChooserPlugin<'a> {
    /// The triggers that the text `prefer` gives, sorted by time.
    fn prefer_triggers(bands: &FrequencyBandMap, prefer: &str) -> (r: Vec<(u8, u8, u32)>)
        requires
            bands.wf(),
        ensures
            spec_is_schedule(r@, spec_stanzas(bands@, spec_split(prefer@, '/'))),
            spec_bands_known(bands@, r@),
    {
        let stanzas = split(prefer, '/');
        let ghost all = spec_split(prefer@, '/');
        let mut triggers: Vec<(u8, u8, u32)> = Vec::new();
        let mut i: usize = 0;
        assert(all.take(0) =~= Seq::empty());
        while i < stanzas.len()
            invariant
                bands.wf(),
                i <= stanzas.len(),
                spec_views(stanzas@) == all,
                spec_is_schedule(triggers@, spec_stanzas(bands@, all.take(i as int))),
                spec_bands_known(bands@, triggers@),
            decreases stanzas.len() - i,
        {
            let stanza = stanzas[i].as_str();
            proof {
                assert(all.take(i + 1).drop_last() == all.take(i as int));
                assert(spec_views(stanzas@)[i as int] == stanza@);
                assert(all.take(i + 1).last() == stanza@);
            }
            let parts = split(stanza, '@');
            if parts.len() == 2 {
                assert(spec_views(parts@)[0] == parts[0]@);
                assert(spec_views(parts@)[1] == parts[1]@);
                match trigger_of(bands, parts[0].as_str(), parts[1].as_str()) {
                    Some(t) => {
                        let ghost before = triggers@;
                        insert_trigger(&mut triggers, t);
                        proof {
                            lemma_schedule_step(
                                before,
                                triggers@,
                                spec_stanzas(bands@, all.take(i as int)),
                                t,
                            );
                            assert forall|k: int| 0 <= k < triggers@.len() implies bands@.dom().contains(
                                (#[trigger] triggers@[k]).2,
                            ) by {
                                assert(triggers@.contains(triggers@[k]));
                                if before.contains(triggers@[k]) {
                                    let l = choose|l: int|
                                        0 <= l < before.len() && before[l] == triggers@[k];
                                    assert(bands@.dom().contains(before[l].2));
                                }
                            }
                        }
                    },
                    None => {},
                }
            }
            i += 1;
        }
        assert(all.take(stanzas.len() as int) == all);
        triggers
    }

    /// The chooser for the catalog `bands` with the properties `props`,
    /// made at the time `clock`. Fails where `start` or `ignore_last` is
    /// given and is no number, and where `start` names a band that the
    /// catalog does not have.
    pub fn new_at(bands: &'a FrequencyBandMap, props: &Props, clock: &ClockReading) -> (r: Result<
        Self,
        ChooserError,
    >)
        requires
            bands.wf(),
        ensures
            r matches Ok(c) ==> c.wf(),
            spec_rotate_new(spec_viewed(r), bands@, props@, clock.hour, clock.minute),
    {
        let start: Option<u32> = match props.get(KEY_START) {
            Some(t) => match parse_u32(t) {
                Some(v) => Some(v),
                None => {
                    return Err(ChooserError::InvalidNumber);
                },
            },
            None => None,
        };
        let ignore_last: usize = match props.get(KEY_IGNORE_LAST) {
            Some(t) => match parse_u64(t) {
                Some(v) => if v <= usize::MAX as u64 {
                    v as usize
                } else {
                    return Err(ChooserError::InvalidNumber);
                },
                None => {
                    return Err(ChooserError::InvalidNumber);
                },
            },
            None => DEFAULT_IGNORE_LAST,
        };
        match start {
            Some(band) => {
                if !bands.contains_key(band) {
                    return Err(ChooserError::InvalidBand(band));
                }
            },
            None => {},
        }
        let band_keys = bands.keys();
        let switcher = match props.get(KEY_TYPE) {
            Some(t) => if str_eq(t, TYPE_RANDOM) {
                Switcher::Random
            } else if str_eq(t, TYPE_DEC) {
                Switcher::Dec
            } else {
                Switcher::Inc
            },
            None => Switcher::Inc,
        };
        let triggers = match props.get(KEY_PREFER) {
            Some(text) => RotateChooserPlugin::prefer_triggers(bands, text),
            None => Vec::new(),
        };
        let mut last_prefer: Option<u32> = None;
        if triggers.len() > 0 {
            proof {
                lemma_select_listed(triggers@, clock.hour, clock.minute);
            }
            last_prefer = select_band(&triggers, clock.hour, clock.minute);
        }
        let first: u32 = match start {
            Some(band) => band,
            None => match last_prefer {
                Some(band) => band,
                None => DEFAULT_BAND,
            },
        };
        let init_band_idx = index_or_zero(&band_keys, first);
        Ok(
            RotateChooserPlugin {
                bands,
                switcher,
                ignore_last,
                band_keys,
                recently_used: Vec::new(),
                init_band_idx,
                band_idx: None,
                last_prefer,
                triggers,
            },
        )
    }

    /// The chooser for the catalog `bands` with the properties `props`,
    /// made at the time the clock shows.
    pub fn new(bands: &'a FrequencyBandMap, props: &Props) -> (r: Result<Self, ChooserError>)
        requires
            bands.wf(),
        ensures
            r matches Ok(c) ==> c.wf(),
            exists|hour: u8, minute: u8|
                hour < 24 && minute < 60 && #[trigger] spec_rotate_new(
                    spec_viewed(r),
                    bands@,
                    props@,
                    hour,
                    minute,
                ),
    {
        let clock = read_clock();
        RotateChooserPlugin::new_at(bands, props, &clock)
    }

    /// What holds of every chooser: its state is sound, as
    /// `spec_rotate_wf` says.
    pub proof fn lemma_wf(&self)
        requires
            self.wf(),
        ensures
            spec_rotate_wf(self@),
    {
    }

    /// Looks at the schedule of preferred bands at the time `clock`, and
    /// returns whether it asks for a change.
    pub fn determine_preferred_band_change_at(&mut self, clock: &ClockReading) -> (r: bool)
        requires
            old(self).wf(),
        ensures
            final(self).wf(),
            r == spec_prefer_pending(old(self)@, clock.hour, clock.minute),
            final(self)@ == spec_apply_preference(old(self)@, clock.hour, clock.minute),
    {
        if self.triggers.len() == 0 {
            return false;
        }
        proof {
            lemma_select_listed(self.triggers@, clock.hour, clock.minute);
        }
        let band = match select_band(&self.triggers, clock.hour, clock.minute) {
            Some(band) => band,
            None => {
                return false;
            },
        };
        let differs = match self.last_prefer {
            Some(last) => last != band,
            None => true,
        };
        if !differs {
            return false;
        }
        self.last_prefer = Some(band);
        self.init_band_idx = index_or_zero(&self.band_keys, band);
        self.band_idx = None;
        let idx = self.init_band_idx;
        let mut i: usize = 0;
        while i < self.recently_used.len() && self.recently_used[i] != idx
            invariant
                i <= self.recently_used.len(),
                forall|j: int| 0 <= j < i ==> self.recently_used[j] != idx,
            decreases self.recently_used.len() - i,
        {
            i += 1;
        }
        let ghost before = self.recently_used@;
        proof {
            lemma_first_pos(before, idx, i as int);
        }
        if i < self.recently_used.len() {
            self.recently_used.remove(i);
            proof {
                before.remove_ensures(i as int);
                assert forall|j: int| 0 <= j < self.recently_used@.len() implies self.recently_used@[j]
                    < self.band_keys@.len() by {
                    if j < i {
                        assert(self.recently_used@[j] == before[j]);
                    } else {
                        assert(self.recently_used@[j] == before[j + 1]);
                    }
                }
            }
        }
        true
    }

    /// Looks at the schedule of preferred bands at the time the clock
    /// shows, and returns whether it asks for a change.
    fn determine_preferred_band_change(&mut self) -> (r: bool)
        requires
            old(self).wf(),
        ensures
            final(self).wf(),
            exists|hour: u8, minute: u8|
                {
                    &&& hour < 24 && minute < 60
                    &&& r == spec_prefer_pending(old(self)@, hour, minute)
                    &&& final(self)@ == #[trigger] spec_apply_preference(old(self)@, hour, minute)
                },
    {
        let clock = read_clock();
        self.determine_preferred_band_change_at(&clock)
    }

    /// Makes ready for a choice at the time `clock`, and returns among how
    /// many bands the choice is drawn: 0 where it is not drawn by chance.
    pub(crate) fn prepare(&mut self, clock: &ClockReading) -> (count: usize)
        requires
            old(self).wf(),
        ensures
            final(self).wf(),
            final(self)@ == spec_prepare(old(self)@, clock.hour, clock.minute),
            count == spec_draw_count(final(self)@),
            spec_draws(final(self)@) ==> count > 0,
    {
        self.determine_preferred_band_change_at(clock);
        let draws = self.band_idx.is_some() && self.switcher == Switcher::Random;
        if !draws {
            return 0;
        }
        let n = self.band_keys.len();
        let ghost start = self.recently_used@;
        let mut free = free_below(n, &self.recently_used);
        while free.len() == 0 && self.recently_used.len() > 0
            invariant
                self.wf(),
                n == self.band_keys.len(),
                self@ == (RotateView {
                    recently_used: self.recently_used@,
                    ..spec_apply_preference(old(self)@, clock.hour, clock.minute)
                }),
                free@ == spec_free_below(n as nat, self.recently_used@),
                spec_window(start, n as nat) == spec_window(self.recently_used@, n as nat),
            decreases self.recently_used.len(),
        {
            let ghost before = self.recently_used@;
            self.recently_used.remove(0);
            proof {
                before.remove_ensures(0);
                assert(self.recently_used@ =~= before.skip(1));
            }
            free = free_below(n, &self.recently_used);
        }
        proof {
            lemma_window(self.recently_used@, n as nat);
        }
        free.len()
    }

    /// Makes the choice, with the draw `draw` where it is drawn by chance.
    pub(crate) fn advance(&mut self, draw: usize) -> (r: Result<Vec<u16>, ChooserError>)
        requires
            old(self).wf(),
            spec_draws(old(self)@) ==> spec_draw_count(old(self)@) > 0,
        ensures
            final(self).wf(),
            final(self)@ == spec_advance(old(self)@, draw),
            spec_chosen(final(self)@, r),
    {
        let n = self.band_keys.len();
        let next: usize = match self.band_idx {
            None => {
                let idx = self.init_band_idx;
                self.remember(idx);
                idx
            },
            Some(i) => match self.switcher {
                Switcher::Inc => if i + 1 >= n {
                    0
                } else {
                    i + 1
                },
                Switcher::Dec => if i == 0 {
                    n - 1
                } else {
                    i - 1
                },
                Switcher::Random => {
                    let free = free_below(n, &self.recently_used);
                    let idx = free[draw % free.len()];
                    proof {
                        lemma_free_below(n as nat, self.recently_used@);
                        assert(free@.contains(idx));
                    }
                    self.remember(idx);
                    idx
                },
            },
        };
        self.band_idx = Some(next);
        let band = self.band_keys[next];
        assert(self.band_keys@.contains(band));
        match self.bands.get(band) {
            Some(freqs) => Ok(copy_freqs(freqs)),
            None => Err(ChooserError::InvalidBand(band)),
        }
    }

    /// Takes `idx` into the last choices.
    fn remember(&mut self, idx: usize)
        requires
            old(self).wf(),
            idx < old(self)@.keys.len(),
        ensures
            final(self).wf(),
            final(self)@ == (RotateView {
                recently_used: spec_remember(old(self)@.recently_used, idx, old(self)@.ignore_last),
                ..old(self)@
            }),
    {
        let ghost before = self.recently_used@;
        self.recently_used.push(idx);
        let ghost all = self.recently_used@;
        let mut cut: usize = 0;
        let total = self.recently_used.len();
        assert(all.len() == total);
        assert(all.skip(0) == all);
        while self.recently_used.len() > self.ignore_last
            invariant
                self@ == (RotateView { recently_used: self.recently_used@, ..old(self)@ }),
                self.bands.wf(),
                spec_rotate_wf(RotateView { recently_used: Seq::empty(), ..old(self)@ }),
                cut <= all.len() <= usize::MAX,
                cut > 0 ==> self.recently_used@.len() >= self.ignore_last,
                self.recently_used@ == all.skip(cut as int),
                forall|j: int| 0 <= j < all.len() ==> all[j] < self.band_keys@.len(),
            decreases self.recently_used.len(),
        {
            let ghost cur = self.recently_used@;
            self.recently_used.remove(0);
            proof {
                cur.remove_ensures(0);
                assert(self.recently_used@ =~= all.skip(cut + 1));
            }
            cut += 1;
        }
        proof {
            assert(all == old(self)@.recently_used.push(idx));
            if all.len() > self.ignore_last {
                assert(cut == all.len() - self.ignore_last);
            } else {
                assert(all.skip(0) == all);
            }
        }
    }

    /// Chooses at the time `clock` with the draw `draw`: where the choice
    /// is drawn by chance, it is the band at the place `draw`, counted
    /// round, among those that may be drawn.
    pub fn choose_band_from(&mut self, clock: &ClockReading, draw: usize) -> (r: Result<
        Vec<u16>,
        ChooserError,
    >)
        requires
            old(self).wf(),
        ensures
            final(self).wf(),
            final(self)@ == spec_choose(old(self)@, clock.hour, clock.minute, draw),
            spec_chosen(final(self)@, r),
    {
        self.prepare(clock);
        self.advance(draw)
    }

    /// Looks at the schedule of preferred bands at the time `clock`, and
    /// asks for a change in any case.
    pub fn on_timeout_at(&mut self, clock: &ClockReading) -> (r: bool)
        requires
            old(self).wf(),
        ensures
            final(self).wf(),
            r,
            final(self)@ == spec_apply_preference(old(self)@, clock.hour, clock.minute),
    {
        self.determine_preferred_band_change_at(clock);
        true
    }
}

impl<'a> ChooserPlugin for RotateChooserPlugin<'a> {
    closed spec fn wf(&self) -> bool {
        self.bands.wf() && spec_rotate_wf(self@)
    }

    /// Chooses at the time the clock shows, with a draw by chance.
    fn choose_band(&mut self, store: &SharedState) -> (r: Result<Vec<u16>, ChooserError>)
        ensures
            exists|hour: u8, minute: u8, draw: usize|
                hour < 24 && minute < 60 && final(self)@ == #[trigger] spec_choose(
                    old(self)@,
                    hour,
                    minute,
                    draw,
                ),
            spec_chosen(final(self)@, r),
    {
        let clock = read_clock();
        let count = self.prepare(&clock);
        let draw = if count > 0 {
            random_below(count)
        } else {
            0
        };
        let r = self.advance(draw);
        assert(self@ == spec_choose(old(self)@, clock.hour, clock.minute, draw));
        r
    }

    /// Asks for a change where the schedule of preferred bands does.
    fn on_recv_frame(&mut self, frame: &Frame) -> (r: bool)
        ensures
            exists|hour: u8, minute: u8|
                {
                    &&& hour < 24 && minute < 60
                    &&& r == spec_prefer_pending(old(self)@, hour, minute)
                    &&& final(self)@ == #[trigger] spec_apply_preference(old(self)@, hour, minute)
                },
    {
        self.determine_preferred_band_change()
    }

    /// Looks at the schedule of preferred bands, and asks for a change in
    /// any case.
    fn on_timeout(&mut self) -> (r: bool)
        ensures
            r,
            exists|hour: u8, minute: u8|
                hour < 24 && minute < 60 && final(self)@ == #[trigger] spec_apply_preference(
                    old(self)@,
                    hour,
                    minute,
                ),
    {
        self.determine_preferred_band_change();
        true
    }
}

} // verus!
