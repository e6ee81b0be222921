//! The week-statistics engine.
//!
//! Stores one `(online, max)` sample per second of observation, evicts
//! entries older than ten days, and summarizes the retained history into
//! eight per-day buckets (seven full local calendar days plus "today so
//! far").

use vstd::prelude::*;

verus! {

/// Seconds in one day.
pub const SECONDS_PER_DAY: i64 = 86400;

/// Seconds in the ten-day retention window.
pub const RETENTION_SECONDS: i64 = 864000;

/// A ping history entry: the player counts observed at one moment.
#[derive(Debug, Clone, Copy, PartialEq, Eq, Structural)]
pub struct HistoryEntry {
    /// The number of players online at this time.
    pub online: i64,
    /// The max number of players allowed online at this time.
    pub max: i64,
}

impl HistoryEntry {
    /// Update this history entry with new data.
    pub fn update(&mut self, current_online: i64, current_max: i64)
        ensures
            final(self).online == current_online,
            final(self).max == current_max,
    {
        self.online = current_online;
        self.max = current_max;
    }
}

/// A history is well formed when its timestamps are strictly increasing,
/// so it is an ordered mapping from unix second to entry.
pub open spec fn wf_history(s: Seq<(i64, HistoryEntry)>) -> bool {
    forall|i: int, j: int| 0 <= i < j < s.len() ==> s[i].0 < s[j].0
}

/// Whether the history holds an entry for the given timestamp.
pub open spec fn spec_contains_key(s: Seq<(i64, HistoryEntry)>, ts: i64) -> bool {
    exists|i: int| 0 <= i < s.len() && s[i].0 == ts
}

/// The entry the history holds at the given timestamp, if any.
pub open spec fn spec_lookup(s: Seq<(i64, HistoryEntry)>, ts: i64) -> Option<HistoryEntry>
    decreases s.len(),
{
    if s.len() == 0 {
        None
    } else if s[0].0 == ts {
        Some(s[0].1)
    } else {
        spec_lookup(s.drop_first(), ts)
    }
}

/// The predicate an entry must meet to survive eviction at time `now_ts`:
/// it is no older than the retention window.
pub open spec fn keep_pred(now_ts: i64) -> spec_fn((i64, HistoryEntry)) -> bool {
    |e: (i64, HistoryEntry)| e.0 >= now_ts - RETENTION_SECONDS
}

/// The history after evicting everything older than ten days before
/// `now_ts`.
pub open spec fn spec_evict(s: Seq<(i64, HistoryEntry)>, now_ts: i64) -> Seq<(i64, HistoryEntry)> {
    s.filter(keep_pred(now_ts))
}

/// The history after storing `e` at timestamp `ts`: inserted in key order,
/// overwriting an entry already at `ts`.
pub open spec fn spec_upsert(s: Seq<(i64, HistoryEntry)>, ts: i64, e: HistoryEntry) -> Seq<
    (i64, HistoryEntry),
>
    decreases s.len(),
{
    if s.len() == 0 {
        seq![(ts, e)]
    } else if s[0].0 < ts {
        seq![s[0]] + spec_upsert(s.drop_first(), ts, e)
    } else if s[0].0 == ts {
        seq![(ts, e)] + s.drop_first()
    } else {
        seq![(ts, e)] + s
    }
}

/// The eviction invariant: after trimming at `now_ts`, no stored entry is
/// older than the ten-day retention window.
pub proof fn lemma_eviction_invariant(s: Seq<(i64, HistoryEntry)>, now_ts: i64)
    ensures
        forall|i: int|
            0 <= i < spec_evict(s, now_ts).len() ==> #[trigger] spec_evict(s, now_ts)[i].0
                >= now_ts - RETENTION_SECONDS,
{
    assert forall|i: int|
        0 <= i < spec_evict(s, now_ts).len() implies #[trigger] spec_evict(s, now_ts)[i].0
        >= now_ts - RETENTION_SECONDS by {
        s.lemma_filter_pred(keep_pred(now_ts), i);
        assert(keep_pred(now_ts)(spec_evict(s, now_ts)[i]));
    }
}

/// Ingestion is an upsert on the timestamp-keyed mapping: afterwards the
/// ingested second holds exactly the new observation, and every other
/// second holds what it held before — a same-second write overwrites.
pub proof fn lemma_upsert_is_overwrite(
    s: Seq<(i64, HistoryEntry)>,
    ts: i64,
    e: HistoryEntry,
    k: i64,
)
    requires
        wf_history(s),
    ensures
        spec_lookup(spec_upsert(s, ts, e), k) == if k == ts {
            Some(e)
        } else {
            spec_lookup(s, k)
        },
    decreases s.len(),
{
    let up = spec_upsert(s, ts, e);
    if s.len() == 0 {
        assert(up =~= seq![(ts, e)]);
        assert(up.drop_first() =~= Seq::<(i64, HistoryEntry)>::empty());
        if k == ts {
            assert(spec_lookup(up, k) == Some(e));
        } else {
            assert(spec_lookup(up, k) is None);
            assert(spec_lookup(s, k) is None);
        }
    } else if s[0].0 < ts {
        let tail = s.drop_first();
        assert(wf_history(tail));
        lemma_upsert_is_overwrite(tail, ts, e, k);
        assert(up[0] == s[0]);
        assert(up.drop_first() =~= spec_upsert(tail, ts, e));
        if k == s[0].0 {
            assert(k != ts);
            assert(spec_lookup(up, k) == Some(s[0].1));
            assert(spec_lookup(s, k) == Some(s[0].1));
        } else {
            assert(spec_lookup(up, k) == spec_lookup(spec_upsert(tail, ts, e), k));
            assert(spec_lookup(s, k) == spec_lookup(tail, k));
        }
    } else if s[0].0 == ts {
        assert(up[0] == (ts, e));
        assert(up.drop_first() =~= s.drop_first());
        if k == ts {
            assert(spec_lookup(up, k) == Some(e));
        } else {
            assert(spec_lookup(up, k) == spec_lookup(s.drop_first(), k));
            assert(spec_lookup(s, k) == spec_lookup(s.drop_first(), k));
        }
    } else {
        assert(up[0] == (ts, e));
        assert(up.drop_first() =~= s);
        if k == ts {
            assert(spec_lookup(up, k) == Some(e));
        } else {
            assert(spec_lookup(up, k) == spec_lookup(s, k));
        }
    }
}

/// A record step stores the observation: after evicting and ingesting at
/// `now_ts`, the history holds exactly the observed counts at `now_ts`,
/// and at every other second what survived eviction.
pub proof fn lemma_record_stores_observation(
    h: Seq<(i64, HistoryEntry)>,
    now_ts: i64,
    online: i64,
    max: i64,
    k: i64,
)
    requires
        wf_history(h),
    ensures
        spec_lookup(spec_updated_history(h, now_ts, online, max), k) == if k == now_ts {
            Some(HistoryEntry { online, max })
        } else {
            spec_lookup(spec_evict(h, now_ts), k)
        },
{
    lemma_filter_keeps_wf(h, now_ts);
    lemma_upsert_is_overwrite(spec_evict(h, now_ts), now_ts, HistoryEntry { online, max }, k);
}

/// Stats representing some range of time.
#[derive(Debug, Clone, Copy, PartialEq, Eq, Structural)]
pub struct RangeStats {
    /// The average number of players online during this period.
    pub average_online: i64,
    /// The peak number of online players during this period.
    pub peak_online: i64,
    /// The peak max allowed online players during this period.
    pub peak_max: i64,
}

impl Default for RangeStats {
    /// All-zero stats, as reported for an empty range.
    fn default() -> (r: Self)
        ensures
            r.average_online == 0,
            r.peak_online == 0,
            r.peak_max == 0,
    {
        RangeStats { average_online: 0, peak_online: 0, peak_max: 0 }
    }
}

/// Rolling statistics over the last eight local calendar days.
#[derive(Debug, Clone, Copy, PartialEq, Eq)]
pub struct WeekStats {
    /// Stats for the last eight days: seven full days, oldest first, then
    /// "today so far".
    pub daily_stats: [RangeStats; 8],
    /// The peak number of online players across all eight buckets.
    pub peak_online: i64,
    /// The peak max allowed online players across all eight buckets.
    pub peak_max: i64,
}

/// The predicate selecting entries of the half-open range `[lo, hi)`, or of
/// the closed range `[lo, hi]` when `include_end` is set.
pub open spec fn in_range_pred(lo: int, hi: int, include_end: bool) -> spec_fn(
    (i64, HistoryEntry),
) -> bool {
    |e: (i64, HistoryEntry)| lo <= e.0 && (e.0 < hi || (include_end && e.0 == hi))
}

/// The entries of `s` that fall within the range, in order.
pub open spec fn spec_selected(
    s: Seq<(i64, HistoryEntry)>,
    lo: int,
    hi: int,
    include_end: bool,
) -> Seq<(i64, HistoryEntry)> {
    s.filter(in_range_pred(lo, hi, include_end))
}

/// The sum of the online counts of all entries.
pub open spec fn spec_sum_online(s: Seq<(i64, HistoryEntry)>) -> int
    decreases s.len(),
{
    if s.len() == 0 {
        0
    } else {
        spec_sum_online(s.drop_last()) + s.last().1.online
    }
}

/// The largest online count of any entry, or zero if none is larger.
pub open spec fn spec_peak_online(s: Seq<(i64, HistoryEntry)>) -> int
    decreases s.len(),
{
    if s.len() == 0 {
        0
    } else {
        let p = spec_peak_online(s.drop_last());
        if s.last().1.online > p {
            s.last().1.online as int
        } else {
            p
        }
    }
}

/// The largest max count of any entry, or zero if none is larger.
pub open spec fn spec_peak_max(s: Seq<(i64, HistoryEntry)>) -> int
    decreases s.len(),
{
    if s.len() == 0 {
        0
    } else {
        let p = spec_peak_max(s.drop_last());
        if s.last().1.max > p {
            s.last().1.max as int
        } else {
            p
        }
    }
}

/// The average online count: the floor of sum over count, or zero for an
/// empty selection.
pub open spec fn spec_average_online(s: Seq<(i64, HistoryEntry)>) -> int {
    if s.len() == 0 {
        0
    } else {
        spec_sum_online(s) / s.len() as int
    }
}

/// Whether `r` reports exactly the statistics of the entries of `s` that
/// fall within the given range.
pub open spec fn rs_matches(
    s: Seq<(i64, HistoryEntry)>,
    r: RangeStats,
    lo: int,
    hi: int,
    include_end: bool,
) -> bool {
    let sel = spec_selected(s, lo, hi, include_end);
    &&& r.average_online == spec_average_online(sel)
    &&& r.peak_online == spec_peak_online(sel)
    &&& r.peak_max == spec_peak_max(sel)
}

/// Whether `rs` reports the statistics of bucket `i` of the week summary:
/// buckets 0 to 6 are the seven full local days before today's local
/// midnight, oldest first; bucket 7 is midnight through `now` inclusive.
pub open spec fn week_bucket_matches(
    s: Seq<(i64, HistoryEntry)>,
    rs: RangeStats,
    now: int,
    sfm: int,
    i: int,
) -> bool {
    let midnight = now - sfm;
    if i < 7 {
        rs_matches(s, rs, midnight - (7 - i) * SECONDS_PER_DAY, midnight - (6 - i)
            * SECONDS_PER_DAY, false)
    } else {
        rs_matches(s, rs, midnight, now, true)
    }
}

/// Whether `w` is the week summary of history `h` at time `now` with
/// `sfm` seconds elapsed since the local midnight: each of the eight
/// buckets reports its range, and the overall peaks are the largest among
/// the buckets.
pub open spec fn week_stats_matches(
    h: Seq<(i64, HistoryEntry)>,
    w: WeekStats,
    now: int,
    sfm: int,
) -> bool {
    &&& forall|i: int| 0 <= i < 8 ==> week_bucket_matches(h, #[trigger] w.daily_stats@[i], now, sfm, i)
    &&& w.peak_online == spec_stats_peak_online(w.daily_stats@)
    &&& w.peak_max == spec_stats_peak_max(w.daily_stats@)
}

/// The largest `peak_online` among the given stats, or zero if none is
/// larger; every per-range peak is itself at least zero, so this is their
/// maximum.
pub open spec fn spec_stats_peak_online(s: Seq<RangeStats>) -> int
    decreases s.len(),
{
    if s.len() == 0 {
        0
    } else {
        let p = spec_stats_peak_online(s.drop_last());
        if s.last().peak_online > p {
            s.last().peak_online as int
        } else {
            p
        }
    }
}

/// The largest `peak_max` among the given stats, or zero if none is larger.
pub open spec fn spec_stats_peak_max(s: Seq<RangeStats>) -> int
    decreases s.len(),
{
    if s.len() == 0 {
        0
    } else {
        let p = spec_stats_peak_max(s.drop_last());
        if s.last().peak_max > p {
            s.last().peak_max as int
        } else {
            p
        }
    }
}

/// Floor division, also for a negative dividend.
fn floor_div(total: i128, cnt: i128) -> (q: i128)
    requires
        cnt > 0,
        total > i128::MIN,
    ensures
        q == total as int / cnt as int,
{
    let neg = total < 0;
    let mag: u128 = if neg {
        (-total) as u128
    } else {
        total as u128
    };
    let c: u128 = cnt as u128;
    let d = mag / c;
    let m = mag % c;
    proof {
        vstd::arithmetic::div_mod::lemma_fundamental_div_mod(mag as int, c as int);
    }
    if neg {
        if m == 0 {
            proof {
                assert(total as int == (-(d as int)) * (c as int) + 0) by (nonlinear_arith)
                    requires
                        total as int == -(mag as int),
                        mag as int == (c as int) * (d as int) + (m as int),
                        m == 0,
                ;
                vstd::arithmetic::div_mod::lemma_fundamental_div_mod_converse(
                    total as int,
                    cnt as int,
                    -(d as int),
                    0,
                );
            }
            -(d as i128)
        } else {
            proof {
                assert(total as int == ((-(d as int)) - 1) * (c as int) + ((c as int) - (m as int)))
                    by (nonlinear_arith)
                    requires
                        total as int == -(mag as int),
                        mag as int == (c as int) * (d as int) + (m as int),
                ;
                vstd::arithmetic::div_mod::lemma_fundamental_div_mod_converse(
                    total as int,
                    cnt as int,
                    -(d as int) - 1,
                    (c - m) as int,
                );
            }
            -(d as i128) - 1
        }
    } else {
        proof {
            assert(total as int == (d as int) * (cnt as int) + (m as int)) by (nonlinear_arith)
                requires
                    total as int == mag as int,
                    mag as int == (c as int) * (d as int) + (m as int),
                    c == cnt,
            ;
            vstd::arithmetic::div_mod::lemma_fundamental_div_mod_converse(
                total as int,
                cnt as int,
                d as int,
                m as int,
            );
        }
        d as i128
    }
}

/// The durable per-server ping history, ordered by timestamp.
pub struct PingStatsOnDisk {
    history: Vec<(i64, HistoryEntry)>,
}

impl View for PingStatsOnDisk {
    type V = Seq<(i64, HistoryEntry)>;

    closed spec fn view(&self) -> Seq<(i64, HistoryEntry)> {
        self.history@
    }
}

impl Default for PingStatsOnDisk {
    /// An empty history.
    fn default() -> (r: Self)
        ensures
            r@ == Seq::<(i64, HistoryEntry)>::empty(),
    {
        PingStatsOnDisk { history: Vec::new() }
    }
}

impl PingStatsOnDisk {
    /// The number of stored entries.
    pub fn len(&self) -> (r: usize)
        ensures
            r == self@.len(),
    {
        self.history.len()
    }

    /// Whether an entry is stored at the given timestamp.
    pub fn contains_key(&self, ts: i64) -> (r: bool)
        ensures
            r == spec_contains_key(self@, ts),
    {
        let mut i: usize = 0;
        while i < self.history.len()
            invariant
                0 <= i <= self@.len(),
                self@ == self.history@,
                forall|k: int| 0 <= k < i ==> self@[k].0 != ts,
            decreases self@.len() - i,
        {
            if self.history[i].0 == ts {
                return true;
            }
            i = i + 1;
        }
        false
    }

    /// The entry stored at the given timestamp, if any.
    pub fn get(&self, ts: i64) -> (r: Option<HistoryEntry>)
        ensures
            r == spec_lookup(self@, ts),
    {
        let mut i: usize = 0;
        proof {
            assert(self@.skip(0) =~= self@);
        }
        while i < self.history.len()
            invariant
                0 <= i <= self@.len(),
                self@ == self.history@,
                spec_lookup(self@, ts) == spec_lookup(self@.skip(i as int), ts),
            decreases self@.len() - i,
        {
            proof {
                assert(self@.skip(i as int)[0] == self@[i as int]);
                assert(self@.skip(i as int).drop_first() =~= self@.skip(i + 1int));
            }
            if self.history[i].0 == ts {
                return Some(self.history[i].1);
            }
            i = i + 1;
        }
        proof {
            assert(self@.skip(i as int).len() == 0);
        }
        None
    }

    /// Trim outdated entries from the stored ping history.
    ///
    /// An entry older than ten days before `now_ts` is outdated; everything
    /// else is kept, in order.
    pub fn trim_outdated(&mut self, now_ts: i64)
        requires
            wf_history(old(self)@),
        ensures
            final(self)@ == spec_evict(old(self)@, now_ts),
            wf_history(final(self)@),
    {
        let ghost orig = self@;
        let mut kept: Vec<(i64, HistoryEntry)> = Vec::new();
        let mut i: usize = 0;
        proof {
            reveal(Seq::filter);
            assert(orig.subrange(0, 0).filter(keep_pred(now_ts)) =~= kept@);
        }
        while i < self.history.len()
            invariant
                0 <= i <= orig.len(),
                self@ == orig,
                self@ == self.history@,
                kept@ == orig.subrange(0, i as int).filter(keep_pred(now_ts)),
            decreases orig.len() - i,
        {
            let e = self.history[i];
            let keep = if now_ts >= i64::MIN + RETENTION_SECONDS {
                e.0 >= now_ts - RETENTION_SECONDS
            } else {
                true
            };
            proof {
                reveal(Seq::filter);
                let prefix = orig.subrange(0, i as int);
                let prefix1 = orig.subrange(0, i + 1int);
                assert(prefix1.drop_last() =~= prefix);
                assert(prefix1.last() == orig[i as int]);
                assert(keep == keep_pred(now_ts)(e));
            }
            if keep {
                kept.push(e);
            }
            i = i + 1;
        }
        proof {
            assert(orig.subrange(0, orig.len() as int) =~= orig);
            lemma_filter_keeps_wf(orig, now_ts);
        }
        self.history = kept;
    }

    /// Incorporate the given ping data into the stored entries: the entry
    /// at `now_ts` is created or overwritten with the observed counts.
    pub fn add_data(&mut self, now_ts: i64, current_online: i64, current_max: i64)
        requires
            wf_history(old(self)@),
        ensures
            final(self)@ == spec_upsert(
                old(self)@,
                now_ts,
                HistoryEntry { online: current_online, max: current_max },
            ),
            wf_history(final(self)@),
    {
        let entry = HistoryEntry { online: current_online, max: current_max };
        let ghost orig = self@;
        // Find the first position whose key is not below `now_ts`.
        let mut pos: usize = 0;
        while pos < self.history.len() && self.history[pos].0 < now_ts
            invariant
                0 <= pos <= orig.len(),
                self@ == orig,
                self@ == self.history@,
                forall|k: int| 0 <= k < pos ==> orig[k].0 < now_ts,
            decreases orig.len() - pos,
        {
            pos = pos + 1;
        }
        if pos < self.history.len() && self.history[pos].0 == now_ts {
            let mut e = self.history.remove(pos);
            e.1.update(current_online, current_max);
            self.history.insert(pos, e);
            proof {
                lemma_upsert_at_position(orig, now_ts, entry, pos as int);
                assert(self.history@ =~= orig.subrange(0, pos as int) + seq![(now_ts, entry)]
                    + orig.subrange(pos + 1int, orig.len() as int));
                lemma_upsert_keeps_wf(orig, now_ts, entry);
            }
        } else {
            self.history.insert(pos, (now_ts, entry));
            proof {
                lemma_upsert_at_position(orig, now_ts, entry, pos as int);
                assert(self.history@ =~= orig.subrange(0, pos as int) + seq![(now_ts, entry)]
                    + orig.subrange(pos as int, orig.len() as int));
                lemma_upsert_keeps_wf(orig, now_ts, entry);
            }
        }
    }
}

impl PingStatsOnDisk {
    /// Return `RangeStats` built from data within the given timestamp
    /// range: `[lo, hi)`, or `[lo, hi]` when `include_end` is set.
    pub fn range_stats(&self, lo: i64, hi: i64, include_end: bool) -> (r: RangeStats)
        ensures
            rs_matches(self@, r, lo as int, hi as int, include_end),
    {
        let ghost pred = in_range_pred(lo as int, hi as int, include_end);
        let mut num_entries: usize = 0;
        let mut total_online: i128 = 0;
        let mut peak_online: i64 = 0;
        let mut peak_max: i64 = 0;
        let mut i: usize = 0;
        proof {
            reveal(Seq::filter);
            assert(self@.subrange(0, 0).filter(pred) =~= Seq::<(i64, HistoryEntry)>::empty());
        }
        while i < self.history.len()
            invariant
                0 <= i <= self@.len(),
                self@ == self.history@,
                pred == in_range_pred(lo as int, hi as int, include_end),
                num_entries == self@.subrange(0, i as int).filter(pred).len(),
                num_entries <= i,
                total_online == spec_sum_online(self@.subrange(0, i as int).filter(pred)),
                -(num_entries as int) * 0x8000_0000_0000_0000 <= total_online as int,
                total_online as int <= (num_entries as int) * 0x7fff_ffff_ffff_ffff,
                peak_online == spec_peak_online(self@.subrange(0, i as int).filter(pred)),
                peak_max == spec_peak_max(self@.subrange(0, i as int).filter(pred)),
            decreases self@.len() - i,
        {
            let e = self.history[i];
            let selected = lo <= e.0 && (e.0 < hi || (include_end && e.0 == hi));
            proof {
                reveal(Seq::filter);
                let prefix = self@.subrange(0, i as int);
                let prefix1 = self@.subrange(0, i + 1int);
                assert(prefix1.drop_last() =~= prefix);
                assert(prefix1.last() == self@[i as int]);
                assert(selected == pred(e));
                if selected {
                    assert(prefix1.filter(pred) == prefix.filter(pred).push(e));
                    assert(prefix1.filter(pred).drop_last() =~= prefix.filter(pred));
                }
            }
            if selected {
                num_entries = num_entries + 1;
                total_online = total_online + (e.1.online as i128);
                if e.1.online > peak_online {
                    peak_online = e.1.online;
                }
                if e.1.max > peak_max {
                    peak_max = e.1.max;
                }
            }
            i = i + 1;
        }
        proof {
            assert(self@.subrange(0, self@.len() as int) =~= self@);
        }
        let average_online: i64 = if num_entries == 0 {
            0
        } else {
            let q = floor_div(total_online, num_entries as i128);
            proof {
                let n = num_entries as int;
                let t = total_online as int;
                vstd::arithmetic::div_mod::lemma_div_is_ordered(
                    n * (-0x8000_0000_0000_0000),
                    t,
                    n,
                );
                vstd::arithmetic::div_mod::lemma_div_is_ordered(t, n * 0x7fff_ffff_ffff_ffff, n);
                vstd::arithmetic::div_mod::lemma_div_multiples_vanish_fancy(
                    -0x8000_0000_0000_0000,
                    0,
                    n,
                );
                vstd::arithmetic::div_mod::lemma_div_multiples_vanish_fancy(
                    0x7fff_ffff_ffff_ffff,
                    0,
                    n,
                );
            }
            q as i64
        };
        RangeStats { average_online, peak_online, peak_max }
    }

    /// Build `WeekStats` from the current state of the data.
    ///
    /// `now_timestamp` is the current unix second and
    /// `seconds_from_midnight` the seconds elapsed since the local
    /// midnight, which fixes the local day boundaries.
    pub fn week_stats(&self, now_timestamp: i64, seconds_from_midnight: i64) -> (r: WeekStats)
        requires
            0 <= seconds_from_midnight < SECONDS_PER_DAY,
            now_timestamp >= i64::MIN + 8 * SECONDS_PER_DAY,
        ensures
            week_stats_matches(self@, r, now_timestamp as int, seconds_from_midnight as int),
    {
        let today_midnight = now_timestamp - seconds_from_midnight;
        let daily_stats: [RangeStats; 8] = [
            self.range_stats(
                today_midnight - 7 * SECONDS_PER_DAY,
                today_midnight - 6 * SECONDS_PER_DAY,
                false,
            ),
            self.range_stats(
                today_midnight - 6 * SECONDS_PER_DAY,
                today_midnight - 5 * SECONDS_PER_DAY,
                false,
            ),
            self.range_stats(
                today_midnight - 5 * SECONDS_PER_DAY,
                today_midnight - 4 * SECONDS_PER_DAY,
                false,
            ),
            self.range_stats(
                today_midnight - 4 * SECONDS_PER_DAY,
                today_midnight - 3 * SECONDS_PER_DAY,
                false,
            ),
            self.range_stats(
                today_midnight - 3 * SECONDS_PER_DAY,
                today_midnight - 2 * SECONDS_PER_DAY,
                false,
            ),
            self.range_stats(
                today_midnight - 2 * SECONDS_PER_DAY,
                today_midnight - 1 * SECONDS_PER_DAY,
                false,
            ),
            self.range_stats(today_midnight - 1 * SECONDS_PER_DAY, today_midnight, false),
            self.range_stats(today_midnight, now_timestamp, true),
        ];
        let mut peak_online: i64 = 0;
        let mut peak_max: i64 = 0;
        let mut i: usize = 0;
        proof {
            assert(daily_stats@.subrange(0, 0) =~= Seq::<RangeStats>::empty());
        }
        while i < 8
            invariant
                0 <= i <= 8,
                daily_stats@.len() == 8,
                peak_online == spec_stats_peak_online(daily_stats@.subrange(0, i as int)),
                peak_max == spec_stats_peak_max(daily_stats@.subrange(0, i as int)),
            decreases 8 - i,
        {
            proof {
                let prefix = daily_stats@.subrange(0, i as int);
                let prefix1 = daily_stats@.subrange(0, i + 1int);
                assert(prefix1.drop_last() =~= prefix);
                assert(prefix1.last() == daily_stats@[i as int]);
            }
            let d = daily_stats[i];
            if d.peak_online > peak_online {
                peak_online = d.peak_online;
            }
            if d.peak_max > peak_max {
                peak_max = d.peak_max;
            }
            i = i + 1;
        }
        proof {
            assert(daily_stats@.subrange(0, 8) =~= daily_stats@);
        }
        WeekStats { daily_stats, peak_online, peak_max }
    }
}

/// The magic bytes opening a serialized history record.
pub open spec fn spec_history_magic() -> Seq<u8> {
    seq![77u8, 67u8, 87u8, 49u8]
}

/// The 24-byte serialization of one history entry: timestamp, online and
/// max, each as a two's-complement little-endian word.
pub open spec fn spec_encode_entry(e: (i64, HistoryEntry)) -> Seq<u8> {
    vstd::bytes::spec_u64_to_le_bytes(e.0 as u64) + vstd::bytes::spec_u64_to_le_bytes(
        e.1.online as u64,
    ) + vstd::bytes::spec_u64_to_le_bytes(e.1.max as u64)
}

/// The concatenated serializations of all entries, in order.
pub open spec fn spec_encode_entries(s: Seq<(i64, HistoryEntry)>) -> Seq<u8>
    decreases s.len(),
{
    if s.len() == 0 {
        Seq::empty()
    } else {
        spec_encode_entries(s.drop_last()) + spec_encode_entry(s.last())
    }
}

/// The full serialization of a history: magic bytes, then the entries.
pub open spec fn spec_encode_history(s: Seq<(i64, HistoryEntry)>) -> Seq<u8> {
    spec_history_magic() + spec_encode_entries(s)
}

/// Parse a run of 24-byte entry records; `None` when the length is not a
/// multiple of the record size.
pub open spec fn spec_decode_entries(b: Seq<u8>) -> Option<Seq<(i64, HistoryEntry)>>
    decreases b.len(),
{
    if b.len() == 0 {
        Some(Seq::empty())
    } else if b.len() < 24 {
        None
    } else {
        let ts = vstd::bytes::spec_u64_from_le_bytes(b.subrange(0, 8)) as i64;
        let online = vstd::bytes::spec_u64_from_le_bytes(b.subrange(8, 16)) as i64;
        let max = vstd::bytes::spec_u64_from_le_bytes(b.subrange(16, 24)) as i64;
        match spec_decode_entries(b.skip(24)) {
            None => None,
            Some(rest) => Some(seq![(ts, HistoryEntry { online, max })] + rest),
        }
    }
}

/// Parse a full history record: the magic bytes must open it, the entries
/// must parse, and their timestamps must be strictly increasing; anything
/// else is treated as corrupt.
pub open spec fn spec_decode_history(b: Seq<u8>) -> Option<Seq<(i64, HistoryEntry)>> {
    if b.len() < 4 || b.subrange(0, 4) != spec_history_magic() {
        None
    } else {
        match spec_decode_entries(b.skip(4)) {
            None => None,
            Some(s) => if wf_history(s) {
                Some(s)
            } else {
                None
            },
        }
    }
}

/// The history a stored file stands for: an absent or corrupt file is an
/// empty history.
pub open spec fn spec_stored_history(stored: Option<Vec<u8>>) -> Seq<(i64, HistoryEntry)> {
    match stored {
        None => Seq::empty(),
        Some(b) => match spec_decode_history(b@) {
            None => Seq::empty(),
            Some(h) => h,
        },
    }
}

/// The history after one `record` step at `now_ts`: evict, then upsert the
/// new observation.
pub open spec fn spec_updated_history(
    h: Seq<(i64, HistoryEntry)>,
    now_ts: i64,
    online: i64,
    max: i64,
) -> Seq<(i64, HistoryEntry)> {
    spec_upsert(spec_evict(h, now_ts), now_ts, HistoryEntry { online, max })
}

/// Casting a signed word through its unsigned form is lossless.
proof fn lemma_i64_u64_roundtrip(x: i64)
    ensures
        (x as u64) as i64 == x,
{
    assert((x as u64) as i64 == x) by (bit_vector);
}

/// `spec_encode_entries` also decomposes from the front.
proof fn lemma_encode_entries_front(s: Seq<(i64, HistoryEntry)>)
    requires
        s.len() > 0,
    ensures
        spec_encode_entries(s) == spec_encode_entry(s[0]) + spec_encode_entries(s.drop_first()),
    decreases s.len(),
{
    if s.len() == 1 {
        assert(s.drop_last() =~= Seq::empty());
        assert(s.drop_first() =~= Seq::empty());
        assert(spec_encode_entries(s) =~= spec_encode_entry(s[0]) + spec_encode_entries(
            s.drop_first(),
        ));
    } else {
        lemma_encode_entries_front(s.drop_last());
        assert(s.drop_last().drop_first() =~= s.drop_first().drop_last());
        assert(s.drop_last()[0] == s[0]);
        assert(s.drop_first().last() == s.last());
        assert(spec_encode_entries(s) == spec_encode_entries(s.drop_last()) + spec_encode_entry(
            s.last(),
        ));
        assert(spec_encode_entries(s.drop_first()) == spec_encode_entries(
            s.drop_first().drop_last(),
        ) + spec_encode_entry(s.drop_first().last()));
        assert(spec_encode_entries(s) =~= spec_encode_entry(s[0]) + spec_encode_entries(
            s.drop_first(),
        ));
    }
}

/// Decoding inverts encoding, entry run by entry run.
proof fn lemma_decode_encode_entries(s: Seq<(i64, HistoryEntry)>)
    ensures
        spec_decode_entries(spec_encode_entries(s)) == Some(s),
    decreases s.len(),
{
    vstd::bytes::lemma_auto_spec_u64_to_from_le_bytes();
    if s.len() == 0 {
    } else {
        lemma_encode_entries_front(s);
        let b = spec_encode_entries(s);
        let e = s[0];
        let eb = spec_encode_entry(e);
        assert(eb.len() == 24);
        assert(b =~= eb + spec_encode_entries(s.drop_first()));
        assert(b.len() >= 24);
        assert(b.subrange(0, 8) =~= vstd::bytes::spec_u64_to_le_bytes(e.0 as u64));
        assert(b.subrange(8, 16) =~= vstd::bytes::spec_u64_to_le_bytes(e.1.online as u64));
        assert(b.subrange(16, 24) =~= vstd::bytes::spec_u64_to_le_bytes(e.1.max as u64));
        assert(b.skip(24) =~= spec_encode_entries(s.drop_first()));
        lemma_i64_u64_roundtrip(e.0);
        lemma_i64_u64_roundtrip(e.1.online);
        lemma_i64_u64_roundtrip(e.1.max);
        lemma_decode_encode_entries(s.drop_first());
        assert(seq![(e.0, HistoryEntry { online: e.1.online, max: e.1.max })] + s.drop_first()
            =~= s);
    }
}

/// The history codec round-trips losslessly: decoding an encoded
/// well-formed history yields exactly that history.
pub proof fn lemma_history_round_trip(s: Seq<(i64, HistoryEntry)>)
    requires
        wf_history(s),
    ensures
        spec_decode_history(spec_encode_history(s)) == Some(s),
{
    let b = spec_encode_history(s);
    assert(b.subrange(0, 4) =~= spec_history_magic());
    assert(b.skip(4) =~= spec_encode_entries(s));
    lemma_decode_encode_entries(s);
}

/// Strictly increasing adjacent keys make the whole history well formed.
proof fn lemma_adjacent_implies_wf(s: Seq<(i64, HistoryEntry)>)
    requires
        forall|k: int| 1 <= k < s.len() ==> #[trigger] s[k].0 > s[k - 1].0,
    ensures
        wf_history(s),
{
    assert forall|i: int, j: int| 0 <= i < j < s.len() implies s[i].0 < s[j].0 by {
        lemma_key_chain(s, i, j);
    }
}

/// Transitivity of the adjacent ordering, walked out pair by pair.
proof fn lemma_key_chain(s: Seq<(i64, HistoryEntry)>, i: int, j: int)
    requires
        forall|k: int| 1 <= k < s.len() ==> #[trigger] s[k].0 > s[k - 1].0,
        0 <= i < j < s.len(),
    ensures
        s[i].0 < s[j].0,
    decreases j - i,
{
    if j > i + 1 {
        lemma_key_chain(s, i, j - 1);
    }
}

impl PingStatsOnDisk {
    /// Serialize the history for durable storage.
    pub fn to_bytes(&self) -> (r: Vec<u8>)
        ensures
            r@ == spec_encode_history(self@),
    {
        let mut out: Vec<u8> = Vec::new();
        out.push(77);
        out.push(67);
        out.push(87);
        out.push(49);
        proof {
            assert(out@ =~= spec_history_magic());
            assert(self@.subrange(0, 0) =~= Seq::empty());
            assert(out@ =~= spec_history_magic() + spec_encode_entries(self@.subrange(0, 0)));
        }
        let mut i: usize = 0;
        while i < self.history.len()
            invariant
                0 <= i <= self@.len(),
                self@ == self.history@,
                out@ == spec_history_magic() + spec_encode_entries(self@.subrange(0, i as int)),
            decreases self@.len() - i,
        {
            let e = self.history[i];
            let mut ts_bytes = vstd::bytes::u64_to_le_bytes(e.0 as u64);
            let mut online_bytes = vstd::bytes::u64_to_le_bytes(e.1.online as u64);
            let mut max_bytes = vstd::bytes::u64_to_le_bytes(e.1.max as u64);
            out.append(&mut ts_bytes);
            out.append(&mut online_bytes);
            out.append(&mut max_bytes);
            proof {
                let prefix = self@.subrange(0, i as int);
                let prefix1 = self@.subrange(0, i + 1int);
                assert(prefix1.drop_last() =~= prefix);
                assert(prefix1.last() == e);
                assert(out@ =~= spec_history_magic() + spec_encode_entries(prefix1));
            }
            i = i + 1;
        }
        proof {
            assert(self@.subrange(0, self@.len() as int) =~= self@);
        }
        out
    }

    /// Deserialize a stored history record; `None` when the bytes are not
    /// a valid record.
    #[verifier::rlimit(80)]
    pub fn from_bytes(bytes: &Vec<u8>) -> (r: Option<PingStatsOnDisk>)
        ensures
            r is Some <==> spec_decode_history(bytes@) is Some,
            r matches Some(p) ==> spec_decode_history(bytes@) == Some(p@) && wf_history(p@),
    {
        if bytes.len() < 4 || bytes[0] != 77 || bytes[1] != 67 || bytes[2] != 87 || bytes[3] != 49 {
            proof {
                if bytes@.len() >= 4 {
                    assert(bytes@.subrange(0, 4) != spec_history_magic()) by {
                        if bytes@.subrange(0, 4) == spec_history_magic() {
                            assert(bytes@.subrange(0, 4)[0] == 77u8);
                            assert(bytes@.subrange(0, 4)[1] == 67u8);
                            assert(bytes@.subrange(0, 4)[2] == 87u8);
                            assert(bytes@.subrange(0, 4)[3] == 49u8);
                        }
                    }
                }
            }
            return None;
        }
        proof {
            assert(bytes@.subrange(0, 4) =~= spec_history_magic());
        }
        let mut entries: Vec<(i64, HistoryEntry)> = Vec::new();
        let mut off: usize = 4;
        proof {
            assert(bytes@.skip(4) =~= bytes@.skip(off as int));
        }
        while bytes.len() - off >= 24
            invariant
                4 <= off <= bytes@.len(),
                bytes@.subrange(0, 4) == spec_history_magic(),
                spec_decode_entries(bytes@.skip(4)) == match spec_decode_entries(
                    bytes@.skip(off as int),
                ) {
                    None => None::<Seq<(i64, HistoryEntry)>>,
                    Some(rest) => Some(entries@ + rest),
                },
            decreases bytes@.len() - off,
        {
            let ts = vstd::bytes::u64_from_le_bytes(
                vstd::slice::slice_subrange(bytes.as_slice(), off, off + 8),
            ) as i64;
            let online = vstd::bytes::u64_from_le_bytes(
                vstd::slice::slice_subrange(bytes.as_slice(), off + 8, off + 16),
            ) as i64;
            let max = vstd::bytes::u64_from_le_bytes(
                vstd::slice::slice_subrange(bytes.as_slice(), off + 16, off + 24),
            ) as i64;
            proof {
                let rem = bytes@.skip(off as int);
                assert(rem.len() >= 24);
                assert(rem.subrange(0, 8) =~= bytes@.subrange(off as int, off + 8int));
                assert(rem.subrange(8, 16) =~= bytes@.subrange(off + 8int, off + 16int));
                assert(rem.subrange(16, 24) =~= bytes@.subrange(off + 16int, off + 24int));
                assert(rem.skip(24) =~= bytes@.skip(off + 24int));
            }
            let entry = (ts, HistoryEntry { online, max });
            let ghost old_entries = entries@;
            entries.push(entry);
            proof {
                match spec_decode_entries(bytes@.skip(off + 24int)) {
                    Some(rest) => {
                        assert(old_entries + (seq![entry] + rest) =~= entries@ + rest);
                    },
                    None => {},
                }
            }
            off = off + 24;
        }
        if off != bytes.len() {
            // Trailing bytes that are not a whole record: corrupt.
            proof {
                let rem = bytes@.skip(off as int);
                assert(0 < rem.len() < 24);
            }
            return None;
        }
        proof {
            assert(bytes@.skip(off as int) =~= Seq::empty());
            assert(entries@ + Seq::<(i64, HistoryEntry)>::empty() =~= entries@);
        }
        // The timestamps must be strictly increasing.
        let mut k: usize = 1;
        while k < entries.len()
            invariant
                1 <= k <= entries@.len() || entries@.len() == 0,
                forall|m: int| 1 <= m < k ==> #[trigger] entries@[m].0 > entries@[m - 1].0,
                bytes@.len() >= 4,
                bytes@.subrange(0, 4) == spec_history_magic(),
                spec_decode_entries(bytes@.skip(4)) == Some(entries@),
            decreases entries@.len() - k,
        {
            if entries[k - 1].0 >= entries[k].0 {
                proof {
                    assert(!wf_history(entries@)) by {
                        if wf_history(entries@) {
                            assert(entries@[k - 1].0 < entries@[k as int].0);
                        }
                    }
                }
                return None;
            }
            k = k + 1;
        }
        proof {
            lemma_adjacent_implies_wf(entries@);
        }
        Some(PingStatsOnDisk { history: entries })
    }
}

/// Ingest one observation into the stored history and summarize it.
///
/// The stored bytes are decoded (an absent or corrupt record counts as an
/// empty history), entries older than the retention window are evicted,
/// the observation is stored at `now_timestamp`, and the result is the
/// week summary of the updated history together with the bytes to persist.
pub fn determine_week_stats(
    stored: Option<Vec<u8>>,
    current_online: i64,
    current_max: i64,
    now_timestamp: i64,
    seconds_from_midnight: i64,
) -> (r: (WeekStats, Vec<u8>))
    requires
        0 <= seconds_from_midnight < SECONDS_PER_DAY,
        now_timestamp >= i64::MIN + 8 * SECONDS_PER_DAY,
    ensures
        ({
            let h = spec_updated_history(
                spec_stored_history(stored),
                now_timestamp,
                current_online,
                current_max,
            );
            &&& r.1@ == spec_encode_history(h)
            &&& week_stats_matches(h, r.0, now_timestamp as int, seconds_from_midnight as int)
        }),
{
    let mut data: PingStatsOnDisk = match stored {
        None => PingStatsOnDisk::default(),
        Some(ref bytes) => match PingStatsOnDisk::from_bytes(bytes) {
            None => PingStatsOnDisk::default(),
            Some(parsed) => parsed,
        },
    };
    proof {
        assert(wf_history(Seq::<(i64, HistoryEntry)>::empty()));
        assert(data@ == spec_stored_history(stored));
    }
    data.trim_outdated(now_timestamp);
    data.add_data(now_timestamp, current_online, current_max);
    let week = data.week_stats(now_timestamp, seconds_from_midnight);
    let bytes = data.to_bytes();
    (week, bytes)
}

/// Filtering cannot raise the keys: if every key of `s` is below `b`, the
/// same holds after filtering.
proof fn lemma_filter_key_bound(
    s: Seq<(i64, HistoryEntry)>,
    pred: spec_fn((i64, HistoryEntry)) -> bool,
    b: i64,
)
    requires
        forall|i: int| 0 <= i < s.len() ==> s[i].0 < b,
    ensures
        forall|i: int| 0 <= i < s.filter(pred).len() ==> s.filter(pred)[i].0 < b,
    decreases s.len(),
{
    reveal(Seq::filter);
    if s.len() > 0 {
        lemma_filter_key_bound(s.drop_last(), pred, b);
        let f = s.filter(pred);
        let fp = s.drop_last().filter(pred);
        assert forall|i: int| 0 <= i < f.len() implies f[i].0 < b by {
            if pred(s.last()) {
                assert(f == fp.push(s.last()));
                if i < fp.len() {
                    assert(f[i] == fp[i]);
                } else {
                    assert(f[i] == s.last());
                }
            } else {
                assert(f == fp);
            }
        }
    }
}

/// Eviction keeps the history well formed: filtering preserves the strict
/// ordering of timestamps.
proof fn lemma_filter_keeps_wf(s: Seq<(i64, HistoryEntry)>, now_ts: i64)
    requires
        wf_history(s),
    ensures
        wf_history(spec_evict(s, now_ts)),
    decreases s.len(),
{
    reveal(Seq::filter);
    if s.len() > 0 {
        assert(wf_history(s.drop_last()));
        lemma_filter_keeps_wf(s.drop_last(), now_ts);
        lemma_filter_key_bound(s.drop_last(), keep_pred(now_ts), s.last().0);
    }
}

/// What `spec_upsert` yields on a well-formed history, positionally: when
/// everything before `pos` has a smaller key and everything from `pos` on
/// does not, the new entry lands exactly at `pos`.
proof fn lemma_upsert_at_position(
    s: Seq<(i64, HistoryEntry)>,
    ts: i64,
    e: HistoryEntry,
    pos: int,
)
    requires
        wf_history(s),
        0 <= pos <= s.len(),
        forall|k: int| 0 <= k < pos ==> s[k].0 < ts,
        pos < s.len() ==> s[pos].0 >= ts,
    ensures
        pos < s.len() && s[pos].0 == ts ==> spec_upsert(s, ts, e) =~= s.subrange(0, pos) + seq![
            (ts, e),
        ] + s.subrange(pos + 1, s.len() as int),
        !(pos < s.len() && s[pos].0 == ts) ==> spec_upsert(s, ts, e) =~= s.subrange(0, pos)
            + seq![(ts, e)] + s.subrange(pos, s.len() as int),
    decreases s.len(),
{
    if s.len() == 0 {
    } else if s[0].0 < ts {
        let tail = s.drop_first();
        assert(wf_history(tail));
        lemma_upsert_at_position(tail, ts, e, pos - 1);
        assert(s.subrange(0, pos) =~= seq![s[0]] + tail.subrange(0, pos - 1));
        if pos < s.len() && s[pos].0 == ts {
            assert(s.subrange(pos + 1, s.len() as int) =~= tail.subrange(pos, tail.len() as int));
        } else {
            assert(s.subrange(pos, s.len() as int) =~= tail.subrange(pos - 1, tail.len() as int));
        }
    } else {
        // `s[0].0 >= ts`, so `pos == 0` and the recursion bottoms out here.
        assert(pos == 0);
    }
}

/// Upserting keeps the history well formed.
proof fn lemma_upsert_keeps_wf(s: Seq<(i64, HistoryEntry)>, ts: i64, e: HistoryEntry)
    requires
        wf_history(s),
    ensures
        wf_history(spec_upsert(s, ts, e)),
    decreases s.len(),
{
    if s.len() == 0 {
    } else if s[0].0 < ts {
        let tail = s.drop_first();
        assert(wf_history(tail));
        lemma_upsert_keeps_wf(tail, ts, e);
        let up = spec_upsert(tail, ts, e);
        // Every key in the upserted tail is a tail key or `ts`, hence above
        // `s[0].0`.
        lemma_upsert_keys(tail, ts, e);
        assert(wf_history(seq![s[0]] + up));
    } else {
    }
}

/// Every key of an upserted history is an original key or the new one.
proof fn lemma_upsert_keys(s: Seq<(i64, HistoryEntry)>, ts: i64, e: HistoryEntry)
    ensures
        forall|i: int|
            0 <= i < spec_upsert(s, ts, e).len() ==> #[trigger] spec_upsert(s, ts, e)[i].0 == ts
                || spec_contains_key(s, spec_upsert(s, ts, e)[i].0),
    decreases s.len(),
{
    if s.len() == 0 {
    } else {
        lemma_upsert_keys(s.drop_first(), ts, e);
        assert forall|i: int| 0 <= i < spec_upsert(s, ts, e).len() implies #[trigger] spec_upsert(
            s,
            ts,
            e,
        )[i].0 == ts || spec_contains_key(s, spec_upsert(s, ts, e)[i].0) by {
            let up = spec_upsert(s, ts, e);
            let tail = s.drop_first();
            if s[0].0 < ts {
                if i == 0 {
                    assert(up[0] == s[0]);
                    assert(spec_contains_key(s, s[0].0));
                } else {
                    let tup = spec_upsert(tail, ts, e);
                    assert(up[i] == tup[i - 1]);
                    if tup[i - 1].0 != ts {
                        assert(spec_contains_key(tail, tup[i - 1].0));
                        let j = choose|j: int| 0 <= j < tail.len() && tail[j].0 == tup[i - 1].0;
                        assert(s[j + 1].0 == tup[i - 1].0);
                    }
                }
            } else if s[0].0 == ts {
                if i > 0 {
                    assert(up[i] == tail[i - 1]);
                    assert(s[i] == tail[i - 1]);
                }
            } else {
                if i > 0 {
                    assert(up[i] == s[i - 1]);
                }
            }
        }
    }
}

} // verus!
