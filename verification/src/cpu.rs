//! Accounting of `/proc/stat`: per-line counters, the load between two
//! samples, and the scan of a whole snapshot for the aggregate and per-core
//! loads.

use vstd::prelude::*;
use crate::text::{
    has_prefix, lines, lines_of, parse_in_range, parse_u64, same_text, split_whitespace, starts_with,
    views, words_of,
};

verus! {

/// The value of the `i`-th word of a `/proc/stat` line read as `u64`; zero
/// where the word is missing or is not a `u64`.
pub open spec fn stat_field(w: Seq<Seq<char>>, i: int) -> u64 {
    if 0 <= i < w.len() && parse_in_range(w[i], false, 0, u64::MAX as int) is Some {
        parse_in_range(w[i], false, 0, u64::MAX as int)->0 as u64
    } else {
        0
    }
}

/// `a + b` capped at `u64::MAX`.
pub open spec fn sat_add(a: int, b: int) -> int {
    if a + b > u64::MAX {
        u64::MAX as int
    } else {
        a + b
    }
}

/// The jiffies counters of one `cpu` line of `/proc/stat`.
#[derive(Clone, Copy)]
pub struct ProcStatValues {
    pub user: u64,
    pub nice: u64,
    pub system: u64,
    pub idle: u64,
    pub iowait: u64,
    pub irq: u64,
    pub softirq: u64,
    pub steal: u64,
    pub guest: u64,
    pub guest_nice: u64,
}

impl ProcStatValues {
    /// The counters in the order in which the line lists them.
    pub open spec fn fields(self) -> Seq<u64> {
        seq![
            self.user,
            self.nice,
            self.system,
            self.idle,
            self.iowait,
            self.irq,
            self.softirq,
            self.steal,
            self.guest,
            self.guest_nice,
        ]
    }

    /// Sum of all counters.
    pub open spec fn sum(self) -> int {
        self.user + self.nice + self.system + self.idle + self.iowait + self.irq + self.softirq
            + self.steal + self.guest + self.guest_nice
    }

    /// The counters of a line whose words are `w`: the first word names the
    /// line and the next ten are the counters.
    pub open spec fn from_words(w: Seq<Seq<char>>) -> ProcStatValues {
        ProcStatValues {
            user: stat_field(w, 1),
            nice: stat_field(w, 2),
            system: stat_field(w, 3),
            idle: stat_field(w, 4),
            iowait: stat_field(w, 5),
            irq: stat_field(w, 6),
            softirq: stat_field(w, 7),
            steal: stat_field(w, 8),
            guest: stat_field(w, 9),
            guest_nice: stat_field(w, 10),
        }
    }

    /// Parses a `cpu` line: `None` for a line without words; otherwise the
    /// ten counters after the first word, each zero where it is missing or
    /// unreadable.
    pub fn from_line(line: &str) -> (r: Option<Self>)
        ensures
            r is Some <==> words_of(line@).len() > 0,
            r is Some ==> r->0 == Self::from_words(words_of(line@)),
    {
        let words = split_whitespace(line);
        if words.len() == 0 {
            return None;
        }
        Some(
            ProcStatValues {
                user: field_at(&words, 1),
                nice: field_at(&words, 2),
                system: field_at(&words, 3),
                idle: field_at(&words, 4),
                iowait: field_at(&words, 5),
                irq: field_at(&words, 6),
                softirq: field_at(&words, 7),
                steal: field_at(&words, 8),
                guest: field_at(&words, 9),
                guest_nice: field_at(&words, 10),
            },
        )
    }

    /// Idle jiffies: `idle + iowait`, saturating.
    pub fn get_idle_time(&self) -> (r: u64)
        ensures
            r == sat_add(self.idle as int, self.iowait as int),
    {
        self.idle.saturating_add(self.iowait)
    }

    /// All jiffies: the sum of the ten counters, saturating at `u64::MAX`.
    pub fn get_total_time(&self) -> (r: u64)
        ensures
            r as int == if self.sum() > u64::MAX {
                u64::MAX as int
            } else {
                self.sum()
            },
    {
        self.user.saturating_add(self.nice).saturating_add(self.system).saturating_add(
            self.idle,
        ).saturating_add(self.iowait).saturating_add(self.irq).saturating_add(
            self.softirq,
        ).saturating_add(self.steal).saturating_add(self.guest).saturating_add(self.guest_nice)
    }
}

fn field_at(words: &Vec<&str>, i: usize) -> (r: u64)
    ensures
        r == stat_field(views(words@), i as int),
{
    if i < words.len() {
        match parse_u64(words[i]) {
            Some(v) => v,
            None => 0,
        }
    } else {
        0
    }
}

/// The idle time of a sample never exceeds its total time.
pub proof fn lemma_idle_within_total(s: ProcStatValues)
    ensures
        sat_add(s.idle as int, s.iowait as int) <= (if s.sum() > u64::MAX {
            u64::MAX as int
        } else {
            s.sum()
        }),
{
}


/// The counters of a CPU at its previous sample.
#[derive(Clone, Copy)]
pub struct CpuDeltaState {
    pub last_total: u64,
    pub last_idle: u64,
}

impl CpuDeltaState {
    /// The state of a CPU not sampled yet.
    pub open spec fn zero() -> CpuDeltaState {
        CpuDeltaState { last_total: 0, last_idle: 0 }
    }
}

impl Default for CpuDeltaState {
    fn default() -> (r: Self)
        ensures
            r == CpuDeltaState::zero(),
    {
        CpuDeltaState { last_total: 0, last_idle: 0 }
    }
}

/// The jiffies that passed between two samples and the idle part of them.
/// The load they give is `1 - idle_delta / total_delta` clamped to `0..=1`,
/// and zero where `total_delta` is zero.
#[derive(Clone, Copy)]
pub struct LoadSample {
    pub idle_delta: u64,
    pub total_delta: u64,
}

impl LoadSample {
    /// The load as the fraction `busy() / span()`.
    pub open spec fn busy(self) -> int {
        if self.total_delta == 0 || self.idle_delta >= self.total_delta {
            0
        } else {
            self.total_delta - self.idle_delta
        }
    }

    /// The denominator of the load fraction; never zero.
    pub open spec fn span(self) -> int {
        if self.total_delta == 0 {
            1
        } else {
            self.total_delta as int
        }
    }

    /// Whether this load is strictly higher than `other`.
    pub open spec fn above(self, other: LoadSample) -> bool {
        self.busy() * other.span() > other.busy() * self.span()
    }

    /// A load of zero.
    pub open spec fn none() -> LoadSample {
        LoadSample { idle_delta: 0, total_delta: 0 }
    }

    /// Whether this load is strictly higher than `other`, compared exactly.
    pub fn is_above(&self, other: &LoadSample) -> (r: bool)
        ensures
            r == self.above(*other),
    {
        let b1: u64 = if self.total_delta == 0 || self.idle_delta >= self.total_delta {
            0
        } else {
            self.total_delta - self.idle_delta
        };
        let s1: u64 = if self.total_delta == 0 {
            1
        } else {
            self.total_delta
        };
        let b2: u64 = if other.total_delta == 0 || other.idle_delta >= other.total_delta {
            0
        } else {
            other.total_delta - other.idle_delta
        };
        let s2: u64 = if other.total_delta == 0 {
            1
        } else {
            other.total_delta
        };
        assert((b1 as u128) * (s2 as u128) <= u128::MAX) by (nonlinear_arith)
            requires
                b1 <= u64::MAX,
                s2 <= u64::MAX,
        ;
        assert((b2 as u128) * (s1 as u128) <= u128::MAX) by (nonlinear_arith)
            requires
                b2 <= u64::MAX,
                s1 <= u64::MAX,
        ;
        (b1 as u128) * (s2 as u128) > (b2 as u128) * (s1 as u128)
    }
}

/// The load since the previous sample `last` and the state to keep for the
/// next one; the first sample of a CPU (a previous total of zero) gives zero.
pub open spec fn load_between(cur: ProcStatValues, last: CpuDeltaState) -> (
    LoadSample,
    CpuDeltaState,
) {
    let total = if cur.sum() > u64::MAX {
        u64::MAX
    } else {
        cur.sum() as u64
    };
    let idle = sat_add(cur.idle as int, cur.iowait as int) as u64;
    let next = CpuDeltaState { last_total: total, last_idle: idle };
    if last.last_total == 0 {
        (LoadSample::none(), next)
    } else {
        (
            LoadSample {
                idle_delta: if idle >= last.last_idle {
                    (idle - last.last_idle) as u64
                } else {
                    0
                },
                total_delta: if total >= last.last_total {
                    (total - last.last_total) as u64
                } else {
                    0
                },
            },
            next,
        )
    }
}

/// The load between the previous sample `last_state` and `current_stat`,
/// with the state to keep for the next sample.
pub fn calculate_load(current_stat: &ProcStatValues, last_state: &CpuDeltaState) -> (r: (
    LoadSample,
    CpuDeltaState,
))
    ensures
        r == load_between(*current_stat, *last_state),
        r.1.last_total as int == if current_stat.sum() > u64::MAX {
            u64::MAX as int
        } else {
            current_stat.sum()
        },
        r.1.last_idle as int == sat_add(current_stat.idle as int, current_stat.iowait as int),
{
    let current_total = current_stat.get_total_time();
    let current_idle = current_stat.get_idle_time();
    let new_state = CpuDeltaState { last_total: current_total, last_idle: current_idle };
    if last_state.last_total == 0 {
        return (LoadSample { idle_delta: 0, total_delta: 0 }, new_state);
    }
    let total_delta = current_total.saturating_sub(last_state.last_total);
    let idle_delta = current_idle.saturating_sub(last_state.last_idle);
    (LoadSample { idle_delta, total_delta }, new_state)
}


/// A load lies between zero and one, and the first sample of a CPU (no
/// previous total) reports zero.
pub proof fn lemma_load_fraction(cur: ProcStatValues, last: CpuDeltaState)
    ensures
        0 <= load_between(cur, last).0.busy() <= load_between(cur, last).0.span(),
        load_between(cur, last).0.span() > 0,
        last.last_total == 0 ==> load_between(cur, last).0.busy() == 0,
{
}

/// Total jiffies of a sample, saturating at `u64::MAX`.
pub open spec fn total_of(s: ProcStatValues) -> int {
    if s.sum() > u64::MAX {
        u64::MAX as int
    } else {
        s.sum()
    }
}

/// Idle jiffies of a sample, saturating at `u64::MAX`.
pub open spec fn idle_of(s: ProcStatValues) -> int {
    sat_add(s.idle as int, s.iowait as int)
}

/// `a - b`, floored at zero.
pub open spec fn floor_sub(a: int, b: int) -> int {
    if a >= b {
        a - b
    } else {
        0
    }
}

/// Whatever the previous state, the state kept after a sample holds that
/// sample's own total and idle counters.
pub proof fn lemma_kept_state_is_current(cur: ProcStatValues, last: CpuDeltaState)
    ensures
        load_between(cur, last).1.last_total as int == total_of(cur),
        load_between(cur, last).1.last_idle as int == idle_of(cur),
{
}

/// Two successive samples `a` then `b` (with `a` not the first, zero-total
/// sample): the load of `b` counts the idle and total jiffies that passed
/// between `a` and `b`.
pub proof fn lemma_successive_samples(a: ProcStatValues, b: ProcStatValues, x: CpuDeltaState)
    requires
        total_of(a) != 0,
    ensures
        ({
            let s = load_between(a, x).1;
            let l = load_between(b, s).0;
            &&& l.idle_delta as int == floor_sub(idle_of(b), idle_of(a))
            &&& l.total_delta as int == floor_sub(total_of(b), total_of(a))
        }),
{
}

/// The per-core states of an association list, as a map from core name.
pub open spec fn core_map(s: Seq<(String, CpuDeltaState)>) -> Map<Seq<char>, CpuDeltaState>
    decreases s.len(),
{
    if s.len() == 0 {
        Map::empty()
    } else {
        core_map(s.drop_last()).insert(s.last().0@, s.last().1)
    }
}

/// No core name occurs twice.
pub open spec fn names_unique(s: Seq<(String, CpuDeltaState)>) -> bool {
    forall|i: int, j: int| 0 <= i < j < s.len() ==> s[i].0@ != s[j].0@
}

proof fn lemma_core_map_lookup(s: Seq<(String, CpuDeltaState)>, k: int)
    requires
        names_unique(s),
        0 <= k < s.len(),
    ensures
        core_map(s).dom().contains(s[k].0@),
        core_map(s)[s[k].0@] == s[k].1,
    decreases s.len(),
{
    if k < s.len() - 1 {
        lemma_core_map_lookup(s.drop_last(), k);
    }
}

proof fn lemma_core_map_absent(s: Seq<(String, CpuDeltaState)>, name: Seq<char>)
    requires
        forall|k: int| 0 <= k < s.len() ==> s[k].0@ != name,
    ensures
        !core_map(s).dom().contains(name),
    decreases s.len(),
{
    if s.len() > 0 {
        lemma_core_map_absent(s.drop_last(), name);
    }
}

proof fn lemma_core_map_update(s: Seq<(String, CpuDeltaState)>, k: int, x: CpuDeltaState)
    requires
        names_unique(s),
        0 <= k < s.len(),
    ensures
        core_map(s.update(k, (s[k].0, x))) == core_map(s).insert(s[k].0@, x),
    decreases s.len(),
{
    let t = s.update(k, (s[k].0, x));
    if k == s.len() - 1 {
        assert(t.drop_last() =~= s.drop_last());
        assert(core_map(t) =~= core_map(s).insert(s[k].0@, x));
    } else {
        assert(t.drop_last() =~= s.drop_last().update(k, (s[k].0, x)));
        lemma_core_map_update(s.drop_last(), k, x);
        assert(s[k].0@ != s.last().0@);
        assert(core_map(t) =~= core_map(s).insert(s[k].0@, x));
    }
}

/// What a scan of a `/proc/stat` snapshot has gathered so far.
pub struct ScanState {
    pub agg: CpuDeltaState,
    pub cores: Map<Seq<char>, CpuDeltaState>,
    pub agg_load: LoadSample,
    pub max_core: LoadSample,
    pub found_agg: bool,
}

/// One line of the scan: the aggregate `cpu ` line updates the aggregate
/// state and load, a `cpuN` line the state of that core and the highest core
/// load; other lines change nothing.
pub open spec fn scan_line(st: ScanState, line: Seq<char>) -> ScanState {
    let w = words_of(line);
    if has_prefix(line, "cpu "@) {
        if w.len() > 0 {
            let r = load_between(ProcStatValues::from_words(w), st.agg);
            ScanState { agg: r.1, agg_load: r.0, found_agg: true, ..st }
        } else {
            st
        }
    } else if has_prefix(line, "cpu"@) {
        if w.len() > 0 {
            let last = if st.cores.dom().contains(w[0]) {
                st.cores[w[0]]
            } else {
                CpuDeltaState::zero()
            };
            let r = load_between(ProcStatValues::from_words(w), last);
            ScanState {
                cores: st.cores.insert(w[0], r.1),
                max_core: if r.0.above(st.max_core) {
                    r.0
                } else {
                    st.max_core
                },
                ..st
            }
        } else {
            st
        }
    } else {
        st
    }
}

/// Whether the scan stops at `line`: the `intr` line ends the CPU section.
pub open spec fn ends_scan(line: Seq<char>) -> bool {
    !has_prefix(line, "cpu "@) && !has_prefix(line, "cpu"@) && has_prefix(line, "intr"@)
}

/// The scan of `lines` from state `st`, up to the first line that ends it.
pub open spec fn scan_lines(st: ScanState, lines: Seq<Seq<char>>) -> ScanState
    decreases lines.len(),
{
    if lines.len() == 0 || ends_scan(lines[0]) {
        st
    } else {
        scan_lines(scan_line(st, lines[0]), lines.drop_first())
    }
}

/// Load `a` is at most load `b`.
pub open spec fn load_le(a: LoadSample, b: LoadSample) -> bool {
    a.busy() * b.span() <= b.busy() * a.span()
}

/// Whether `line` is a per-core line of `/proc/stat` (`cpuN ...`).
pub open spec fn is_core_line(line: Seq<char>) -> bool {
    !has_prefix(line, "cpu "@) && has_prefix(line, "cpu"@) && words_of(line).len() > 0
}

/// The load of the core that the per-core `line` names, given the states
/// gathered so far: from its previous state, or from nothing where it was
/// not seen yet.
pub open spec fn core_line_load(st: ScanState, line: Seq<char>) -> LoadSample {
    let w = words_of(line);
    let last = if st.cores.dom().contains(w[0]) {
        st.cores[w[0]]
    } else {
        CpuDeltaState::zero()
    };
    load_between(ProcStatValues::from_words(w), last).0
}

/// Whether the scan reaches line `k`: no line up to it ends the scan.
pub open spec fn scanned(lines: Seq<Seq<char>>, k: int) -> bool {
    forall|j: int| 0 <= j <= k ==> !ends_scan(#[trigger] lines[j])
}

proof fn lemma_load_le_trans(a: LoadSample, b: LoadSample, c: LoadSample)
    requires
        load_le(a, b),
        load_le(b, c),
    ensures
        load_le(a, c),
{
    let (ab, asp, bb, bsp, cb, csp) = (a.busy(), a.span(), b.busy(), b.span(), c.busy(), c.span());
    assert(ab * csp <= cb * asp) by (nonlinear_arith)
        requires
            ab * bsp <= bb * asp,
            bb * csp <= cb * bsp,
            ab >= 0,
            bb >= 0,
            cb >= 0,
            asp > 0,
            bsp > 0,
            csp > 0,
    {
        assert(ab * bsp * csp <= bb * asp * csp);
        assert(bb * csp * asp <= cb * bsp * asp);
        assert(bsp * (ab * csp) <= bsp * (cb * asp));
    }
}

/// The highest core load of a scan is the highest load among the per-core
/// lines it reaches: no such line has a higher load, the highest load never
/// drops below where it started, and it is either where it started or the
/// load of one of those lines.
pub proof fn lemma_max_core_load(st: ScanState, lines: Seq<Seq<char>>)
    ensures
        ({
            let fin = scan_lines(st, lines);
            &&& load_le(st.max_core, fin.max_core)
            &&& forall|k: int|
                0 <= k < lines.len() && scanned(lines, k) && is_core_line(lines[k]) ==> load_le(
                    #[trigger] core_line_load(scan_lines(st, lines.take(k)), lines[k]),
                    fin.max_core,
                )
            &&& fin.max_core == st.max_core || exists|k: int|
                0 <= k < lines.len() && scanned(lines, k) && is_core_line(lines[k])
                    && fin.max_core == #[trigger] core_line_load(
                    scan_lines(st, lines.take(k)),
                    lines[k],
                )
        }),
    decreases lines.len(),
{
    let fin = scan_lines(st, lines);
    if lines.len() == 0 || ends_scan(lines[0]) {
        assert forall|k: int|
            0 <= k < lines.len() && scanned(lines, k) && is_core_line(lines[k]) implies load_le(
            #[trigger] core_line_load(scan_lines(st, lines.take(k)), lines[k]),
            fin.max_core,
        ) by {
            assert(!ends_scan(lines[0]));
        }
    } else {
        let l0 = lines[0];
        let st1 = scan_line(st, l0);
        let rest = lines.drop_first();
        lemma_max_core_load(st1, rest);
        assert(scan_lines(st, lines.take(0)) == st) by {
            assert(lines.take(0) =~= Seq::<Seq<char>>::empty());
        }
        let r0 = core_line_load(st, l0);
        if is_core_line(l0) {
            assert(st1.max_core == if r0.above(st.max_core) {
                r0
            } else {
                st.max_core
            });
        } else {
            assert(st1.max_core == st.max_core);
        }
        assert(load_le(st.max_core, st1.max_core));
        lemma_load_le_trans(st.max_core, st1.max_core, fin.max_core);
        assert forall|k: int|
            0 <= k < lines.len() && scanned(lines, k) && is_core_line(lines[k]) implies load_le(
            #[trigger] core_line_load(scan_lines(st, lines.take(k)), lines[k]),
            fin.max_core,
        ) by {
            if k == 0 {
                assert(load_le(r0, st1.max_core));
                lemma_load_le_trans(r0, st1.max_core, fin.max_core);
            } else {
                assert(lines.take(k).drop_first() =~= rest.take(k - 1));
                assert(lines.take(k)[0] == l0);
                assert(scan_lines(st, lines.take(k)) == scan_lines(st1, rest.take(k - 1)));
                assert(rest[k - 1] == lines[k]);
                assert forall|j: int| 0 <= j <= k - 1 implies !ends_scan(#[trigger] rest[j]) by {
                    assert(rest[j] == lines[j + 1]);
                    assert(!ends_scan(lines[j + 1]));
                }
                assert(scanned(rest, k - 1));
                assert(core_line_load(scan_lines(st1, rest.take(k - 1)), rest[k - 1])
                    == core_line_load(scan_lines(st, lines.take(k)), lines[k]));
            }
        }
        if fin.max_core != st.max_core {
            assert(scanned(lines, 0));
            if fin.max_core == st1.max_core {
                assert(is_core_line(l0) && st1.max_core == r0);
                assert(fin.max_core == core_line_load(scan_lines(st, lines.take(0)), lines[0]));
            } else {
                let k1 = choose|k: int|
                    0 <= k < rest.len() && scanned(rest, k) && is_core_line(rest[k])
                        && fin.max_core == #[trigger] core_line_load(
                        scan_lines(st1, rest.take(k)),
                        rest[k],
                    );
                let k = k1 + 1;
                assert(lines.take(k).drop_first() =~= rest.take(k1));
                assert(lines.take(k)[0] == l0);
                assert(scan_lines(st, lines.take(k)) == scan_lines(st1, rest.take(k1)));
                assert(rest[k1] == lines[k]);
                assert forall|j: int| 0 <= j <= k implies !ends_scan(#[trigger] lines[j]) by {
                    if j > 0 {
                        assert(lines[j] == rest[j - 1]);
                    }
                }
                assert(fin.max_core == core_line_load(scan_lines(st, lines.take(k)), lines[k]));
            }
        }
    }
}

/// The aggregate load and the highest per-core load of one snapshot.
#[derive(Clone, Copy)]
pub struct StatLoads {
    pub cpu_load: LoadSample,
    pub core_load_max: LoadSample,
}

/// The counters of the previous `/proc/stat` snapshot, for the aggregate and
/// for each core by name, and the time of the last sample.
pub struct CpuLoadTracker {
    pub agg_delta_state: CpuDeltaState,
    pub core_delta_states: Vec<(String, CpuDeltaState)>,
    pub last_sample_time: u64,
}

impl CpuLoadTracker {
    /// Each core name has one state.
    pub open spec fn wf(self) -> bool {
        names_unique(self.core_delta_states@)
    }

    /// The per-core states by core name.
    pub open spec fn cores(self) -> Map<Seq<char>, CpuDeltaState> {
        core_map(self.core_delta_states@)
    }

    /// The scan state that a new snapshot starts from.
    pub open spec fn scan_start(self) -> ScanState {
        ScanState {
            agg: self.agg_delta_state,
            cores: self.cores(),
            agg_load: LoadSample::none(),
            max_core: LoadSample::none(),
            found_agg: false,
        }
    }

    /// A tracker that has seen no sample.
    pub fn new() -> (r: Self)
        ensures
            r.wf(),
            r.agg_delta_state == CpuDeltaState::zero(),
            r.cores() == Map::<Seq<char>, CpuDeltaState>::empty(),
            r.last_sample_time == 0,
    {
        CpuLoadTracker {
            agg_delta_state: CpuDeltaState { last_total: 0, last_idle: 0 },
            core_delta_states: Vec::new(),
            last_sample_time: 0,
        }
    }

    /// Whether a new sample is due at `now`: at least a second after the
    /// last one. A due sample becomes the last one.
    pub fn begin_sample(&mut self, now: u64) -> (due: bool)
        ensures
            due == (now >= old(self).last_sample_time + 1),
            final(self).last_sample_time == if due {
                now
            } else {
                old(self).last_sample_time
            },
            final(self).agg_delta_state == old(self).agg_delta_state,
            final(self).cores() == old(self).cores(),
            final(self).wf() == old(self).wf(),
    {
        if now.saturating_sub(self.last_sample_time) < 1 {
            return false;
        }
        self.last_sample_time = now;
        true
    }

    fn find_core(&self, name: &str) -> (r: Option<usize>)
        requires
            self.wf(),
        ensures
            match r {
                Some(k) => k < self.core_delta_states@.len() && self.core_delta_states@[k as int].0@
                    == name@,
                None => forall|k: int|
                    0 <= k < self.core_delta_states@.len()
                        ==> self.core_delta_states@[k].0@ != name@,
            },
    {
        let n = self.core_delta_states.len();
        let mut k: usize = 0;
        while k < n
            invariant
                n == self.core_delta_states@.len(),
                k <= n,
                forall|q: int| 0 <= q < k ==> self.core_delta_states@[q].0@ != name@,
            decreases n - k,
        {
            if same_text(self.core_delta_states[k].0.as_str(), name) {
                return Some(k);
            }
            k = k + 1;
        }
        None
    }

    /// Scans a `/proc/stat` snapshot up to its `intr` line: updates the
    /// aggregate and per-core states and returns the aggregate load and the
    /// highest core load, or `None` where no aggregate `cpu ` line occurs
    /// (the per-core states are updated either way).
    pub fn read_and_parse_stats(&mut self, content: &str) -> (r: Option<StatLoads>)
        requires
            old(self).wf(),
        ensures
            final(self).wf(),
            ({
                let fin = scan_lines(old(self).scan_start(), lines_of(content@));
                &&& final(self).agg_delta_state == fin.agg
                &&& final(self).cores() == fin.cores
                &&& final(self).last_sample_time == old(self).last_sample_time
                &&& r == if fin.found_agg {
                    Some(StatLoads { cpu_load: fin.agg_load, core_load_max: fin.max_core })
                } else {
                    None::<StatLoads>
                }
            }),
            r matches Some(loads) ==> {
                let all = lines_of(content@);
                let st = old(self).scan_start();
                &&& forall|k: int|
                    0 <= k < all.len() && scanned(all, k) && is_core_line(all[k]) ==> load_le(
                        #[trigger] core_line_load(scan_lines(st, all.take(k)), all[k]),
                        loads.core_load_max,
                    )
                &&& loads.core_load_max == LoadSample::none() || exists|k: int|
                    0 <= k < all.len() && scanned(all, k) && is_core_line(all[k])
                        && loads.core_load_max == #[trigger] core_line_load(
                        scan_lines(st, all.take(k)),
                        all[k],
                    )
            },
    {
        proof {
            lemma_max_core_load(self.scan_start(), lines_of(content@));
        }
        let ls = lines(content);
        let ghost all = lines_of(content@);
        let ghost start = self.scan_start();
        let mut agg_load = LoadSample { idle_delta: 0, total_delta: 0 };
        let mut max_core = LoadSample { idle_delta: 0, total_delta: 0 };
        let mut found_agg = false;
        let n = ls.len();
        let mut k: usize = 0;
        assert(all.skip(0) =~= all);
        while k < n
            invariant
                views(ls@) == all,
                n == ls@.len(),
                k <= n,
                self.wf(),
                self.last_sample_time == old(self).last_sample_time,
                scan_lines(start, all) == scan_lines(
                    ScanState {
                        agg: self.agg_delta_state,
                        cores: self.cores(),
                        agg_load,
                        max_core,
                        found_agg,
                    },
                    all.skip(k as int),
                ),
            ensures
                self.wf(),
                self.last_sample_time == old(self).last_sample_time,
                scan_lines(start, all) == (ScanState {
                    agg: self.agg_delta_state,
                    cores: self.cores(),
                    agg_load,
                    max_core,
                    found_agg,
                }),
            decreases n - k,
        {
            let line = ls[k];
            let ghost st = ScanState {
                agg: self.agg_delta_state,
                cores: self.cores(),
                agg_load,
                max_core,
                found_agg,
            };
            assert(all.skip(k as int)[0] == line@);
            assert(all.skip(k as int).drop_first() =~= all.skip(k + 1));
            if starts_with(line, "cpu ") {
                match ProcStatValues::from_line(line) {
                    Some(current_stat) => {
                        let (load, new_state) = calculate_load(
                            &current_stat,
                            &self.agg_delta_state,
                        );
                        self.agg_delta_state = new_state;
                        agg_load = load;
                        found_agg = true;
                    },
                    None => {},
                }
            } else if starts_with(line, "cpu") {
                let words = split_whitespace(line);
                if words.len() > 0 {
                    let core_id = words[0];
                    let current_stat = ProcStatValues::from_line(line).unwrap();
                    let ghost before = self.core_delta_states@;
                    match self.find_core(core_id) {
                        Some(idx) => {
                            let last_state = self.core_delta_states[idx].1;
                            proof {
                                lemma_core_map_lookup(before, idx as int);
                            }
                            let (load, new_state) = calculate_load(&current_stat, &last_state);
                            let name = self.core_delta_states[idx].0.clone();
                            self.core_delta_states.set(idx, (name, new_state));
                            proof {
                                lemma_core_map_update(before, idx as int, new_state);
                                assert(self.core_delta_states@ =~= before.update(
                                    idx as int,
                                    (before[idx as int].0, new_state),
                                ));
                            }
                            if load.is_above(&max_core) {
                                max_core = load;
                            }
                        },
                        None => {
                            proof {
                                lemma_core_map_absent(before, core_id@);
                            }
                            let zero = CpuDeltaState { last_total: 0, last_idle: 0 };
                            let (load, new_state) = calculate_load(&current_stat, &zero);
                            let name = core_id.to_string();
                            self.core_delta_states.push((name, new_state));
                            proof {
                                assert(self.core_delta_states@.drop_last() =~= before);
                            }
                            if load.is_above(&max_core) {
                                max_core = load;
                            }
                        },
                    }
                }
            } else if starts_with(line, "intr") {
                assert(ends_scan(all.skip(k as int)[0]));
                break;
            }
            k = k + 1;
        }
        if !found_agg {
            return None;
        }
        Some(StatLoads { cpu_load: agg_load, core_load_max: max_core })
    }
}

} // verus!
