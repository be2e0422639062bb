//! Thermal zones of the SoC: their readings, which of them belong to the
//! CPU, the hottest CPU zone, and the alarm on a sustained gradient between
//! the CPU and the battery.

use vstd::prelude::*;
use crate::constants::{DEFAULT_GRADIENT_ALERT_THRESHOLD, GRADIENT_HIGH_SUSTAINED_SECS};
use crate::text::{
    contains, has_infix, lowercase_of, opt_view, parse_i32, parse_in_range, to_lowercase, trim,
    trimmed,
};
use crate::utils::get_int_property;

verus! {

/// Highest reading (millidegrees Celsius) that a zone can report; above it
/// the reading is taken as invalid.
pub const MAX_VALID_ZONE_TEMP: i32 = 200000;

/// The temperature a zone's `temp` node gives: the `i32` it holds where that
/// is at most [`MAX_VALID_ZONE_TEMP`]; `None` where the node was not read.
pub open spec fn zone_reading(contents: Option<Seq<char>>) -> Option<i32> {
    let p = parse_in_range(trimmed(contents->0), true, i32::MIN as int, i32::MAX as int);
    if contents is Some && p is Some && p->0 <= MAX_VALID_ZONE_TEMP {
        Some(p->0 as i32)
    } else {
        None
    }
}

/// A thermal zone of `/sys/class/thermal`.
pub struct ThermalZone {
    pub path: String,
    pub zone_type: String,
    pub last_temp: Option<i32>,
}

/// The zone `z` after a read that gave `r`: a valid reading becomes its
/// last temperature.
pub open spec fn zone_after(z: ThermalZone, r: Option<i32>) -> ThermalZone {
    if r is Some {
        ThermalZone { last_temp: r, ..z }
    } else {
        z
    }
}

impl ThermalZone {
    /// Reads the zone from the contents of its `temp` node (`None` where the
    /// read failed); a valid reading is also kept as the last temperature.
    pub fn read_temp(&mut self, contents: Option<&str>) -> (r: Option<i32>)
        ensures
            r == zone_reading(opt_view(contents)),
            *final(self) == zone_after(*old(self), r),
    {
        if let Some(temp_str) = contents {
            if let Some(temp) = parse_i32(trim(temp_str)) {
                if temp > MAX_VALID_ZONE_TEMP {
                    return None;
                }
                self.last_temp = Some(temp);
                return Some(temp);
            }
        }
        None
    }
}

/// A zone's last temperature only ever holds a valid reading: reading a
/// zone whose last temperature is valid leaves it valid.
pub proof fn lemma_last_temp_valid(z: ThermalZone, contents: Option<Seq<char>>)
    requires
        z.last_temp matches Some(t) ==> t <= MAX_VALID_ZONE_TEMP,
    ensures
        zone_after(z, zone_reading(contents)).last_temp matches Some(t) ==> t
            <= MAX_VALID_ZONE_TEMP,
{
}

/// Whether a zone of type `t` belongs to the CPU, SoC or GPU.
pub open spec fn is_cpu_zone_type(t: Seq<char>) -> bool {
    let l = lowercase_of(t);
    has_infix(l, "cpu"@) || has_infix(l, "soc"@) || has_infix(l, "gpu"@)
}

/// The indices below `n` of the zones whose types are CPU types, ascending.
pub open spec fn cpu_indices(zones: Seq<ThermalZone>, n: int) -> Seq<usize>
    decreases n,
{
    if n <= 0 {
        seq![]
    } else if is_cpu_zone_type(zones[n - 1].zone_type@) {
        cpu_indices(zones, n - 1).push((n - 1) as usize)
    } else {
        cpu_indices(zones, n - 1)
    }
}

/// The indices of the CPU, SoC and GPU zones among `zones`, ascending.
pub fn cpu_zone_indices(zones: &Vec<ThermalZone>) -> (r: Vec<usize>)
    ensures
        r@ == cpu_indices(zones@, zones@.len() as int),
{
    let mut r: Vec<usize> = Vec::new();
    let n = zones.len();
    let mut i: usize = 0;
    while i < n
        invariant
            n == zones@.len(),
            i <= n,
            r@ == cpu_indices(zones@, i as int),
        decreases n - i,
    {
        let lower = to_lowercase(zones[i].zone_type.as_str());
        if contains(lower.as_str(), "cpu") || contains(lower.as_str(), "soc") || contains(
            lower.as_str(),
            "gpu",
        ) {
            r.push(i);
        }
        i = i + 1;
    }
    r
}

/// The larger of two optional readings.
pub open spec fn max_reading(a: Option<i32>, b: Option<i32>) -> Option<i32> {
    if a is None {
        b
    } else if b is None {
        a
    } else if a->0 >= b->0 {
        a
    } else {
        b
    }
}

/// The text of an optional string.
pub open spec fn opt_string_view(o: Option<String>) -> Option<Seq<char>> {
    match o {
        Some(s) => Some(s@),
        None => None,
    }
}

/// The zones and the hottest reading after reading the first `k` CPU zones,
/// the `j`-th of them from `contents[j]`; an index without a zone is passed.
pub open spec fn read_cpu_zones(
    zones: Seq<ThermalZone>,
    indices: Seq<usize>,
    contents: Seq<Option<String>>,
    k: int,
) -> (Seq<ThermalZone>, Option<i32>)
    decreases k,
{
    if k <= 0 {
        (zones, None)
    } else {
        let (z, m) = read_cpu_zones(zones, indices, contents, k - 1);
        let i = indices[k - 1] as int;
        if i < z.len() {
            let r = zone_reading(opt_string_view(contents[k - 1]));
            (z.update(i, zone_after(z[i], r)), max_reading(m, r))
        } else {
            (z, m)
        }
    }
}

/// Whether the `j`-th CPU zone read gives a valid reading: its index names
/// a zone and its contents hold a valid temperature.
pub open spec fn valid_cpu_reading(
    zones: Seq<ThermalZone>,
    indices: Seq<usize>,
    contents: Seq<Option<String>>,
    j: int,
) -> bool {
    (indices[j] as int) < zones.len() && zone_reading(opt_string_view(contents[j])) is Some
}

/// The hottest reading over the first `k` CPU zones: `None` exactly when
/// none of them gives a valid reading; otherwise one of the valid readings,
/// and at least every valid reading. Reading zones never changes how many
/// zones there are.
pub proof fn lemma_hottest_reading(
    zones: Seq<ThermalZone>,
    indices: Seq<usize>,
    contents: Seq<Option<String>>,
    k: int,
)
    requires
        0 <= k <= indices.len(),
        k <= contents.len(),
    ensures
        ({
            let (z, m) = read_cpu_zones(zones, indices, contents, k);
            &&& z.len() == zones.len()
            &&& m is None <==> (forall|j: int|
                0 <= j < k ==> !valid_cpu_reading(zones, indices, contents, j))
            &&& m is Some ==> exists|j: int|
                0 <= j < k && valid_cpu_reading(zones, indices, contents, j) && zone_reading(
                    opt_string_view(#[trigger] contents[j]),
                ) == m
            &&& forall|j: int|
                0 <= j < k && valid_cpu_reading(zones, indices, contents, j) ==> zone_reading(
                    opt_string_view(#[trigger] contents[j]),
                )->0 <= m->0
        }),
    decreases k,
{
    if k > 0 {
        lemma_hottest_reading(zones, indices, contents, k - 1);
        let (z, m) = read_cpu_zones(zones, indices, contents, k - 1);
        let r = zone_reading(opt_string_view(contents[k - 1]));
        let (z2, m2) = read_cpu_zones(zones, indices, contents, k);
        if (indices[k - 1] as int) < z.len() && r is Some {
            assert(valid_cpu_reading(zones, indices, contents, k - 1));
            if m is Some {
                let j0 = choose|j: int|
                    0 <= j < k - 1 && valid_cpu_reading(zones, indices, contents, j)
                        && zone_reading(opt_string_view(#[trigger] contents[j])) == m;
                if m->0 >= r->0 {
                    assert(zone_reading(opt_string_view(contents[j0])) == m2);
                } else {
                    assert(zone_reading(opt_string_view(contents[k - 1])) == m2);
                }
            } else {
                assert(zone_reading(opt_string_view(contents[k - 1])) == m2);
            }
        } else {
            assert(!valid_cpu_reading(zones, indices, contents, k - 1));
            if m is Some {
                let j0 = choose|j: int|
                    0 <= j < k - 1 && valid_cpu_reading(zones, indices, contents, j)
                        && zone_reading(opt_string_view(#[trigger] contents[j])) == m;
                assert(zone_reading(opt_string_view(contents[j0])) == m2);
            }
        }
    }
}

/// The zones of the SoC, which of them are CPU zones, and the state of the
/// alarm on a high CPU-to-battery gradient.
pub struct ThermalFusion {
    pub zones: Vec<ThermalZone>,
    pub cpu_zone_indices: Vec<usize>,
    pub gradient_alert_threshold: i32,
    pub high_gradient_start_time: Option<u64>,
}

impl ThermalFusion {
    /// Fusion over `zones`, with the alert threshold from the text of its
    /// property (`threshold_property`, empty where unset).
    pub fn new(zones: Vec<ThermalZone>, threshold_property: &str) -> (r: Self)
        ensures
            r.zones@ == zones@,
            r.cpu_zone_indices@ == cpu_indices(zones@, zones@.len() as int),
            r.gradient_alert_threshold == (if threshold_property@.len() == 0 {
                DEFAULT_GRADIENT_ALERT_THRESHOLD
            } else {
                match parse_in_range(threshold_property@, true, i32::MIN as int, i32::MAX as int) {
                    Some(v) => v as i32,
                    None => DEFAULT_GRADIENT_ALERT_THRESHOLD,
                }
            }),
            r.high_gradient_start_time is None,
    {
        let cpu_zone_indices = cpu_zone_indices(&zones);
        let gradient_alert_threshold = get_int_property(
            threshold_property,
            DEFAULT_GRADIENT_ALERT_THRESHOLD,
        );
        ThermalFusion {
            zones,
            cpu_zone_indices,
            gradient_alert_threshold,
            high_gradient_start_time: None,
        }
    }

    /// Reads every CPU zone, the `k`-th from `contents[k]` (the contents of
    /// its `temp` node, `None` where the read failed), and returns the
    /// hottest valid reading.
    pub fn get_max_cpu_temp(&mut self, contents: &Vec<Option<String>>) -> (r: Option<i32>)
        requires
            contents@.len() == old(self).cpu_zone_indices@.len(),
        ensures
            ({
                let (z, m) = read_cpu_zones(
                    old(self).zones@,
                    old(self).cpu_zone_indices@,
                    contents@,
                    contents@.len() as int,
                );
                &&& final(self).zones@ == z
                &&& r == m
            }),
            final(self).cpu_zone_indices@ == old(self).cpu_zone_indices@,
            final(self).gradient_alert_threshold == old(self).gradient_alert_threshold,
            final(self).high_gradient_start_time == old(self).high_gradient_start_time,
            r is None <==> (forall|j: int|
                0 <= j < contents@.len() ==> !valid_cpu_reading(
                    old(self).zones@,
                    old(self).cpu_zone_indices@,
                    contents@,
                    j,
                )),
            r is Some ==> exists|j: int|
                0 <= j < contents@.len() && valid_cpu_reading(
                    old(self).zones@,
                    old(self).cpu_zone_indices@,
                    contents@,
                    j,
                ) && zone_reading(opt_string_view(#[trigger] contents@[j])) == r,
            forall|j: int|
                0 <= j < contents@.len() && valid_cpu_reading(
                    old(self).zones@,
                    old(self).cpu_zone_indices@,
                    contents@,
                    j,
                ) ==> zone_reading(opt_string_view(#[trigger] contents@[j]))->0 <= r->0,
    {
        proof {
            lemma_hottest_reading(
                self.zones@,
                self.cpu_zone_indices@,
                contents@,
                contents@.len() as int,
            );
        }
        let n = self.cpu_zone_indices.len();
        let mut best: Option<i32> = None;
        let mut k: usize = 0;
        while k < n
            invariant
                n == self.cpu_zone_indices@.len(),
                n == contents@.len(),
                k <= n,
                self.cpu_zone_indices@ == old(self).cpu_zone_indices@,
                self.gradient_alert_threshold == old(self).gradient_alert_threshold,
                self.high_gradient_start_time == old(self).high_gradient_start_time,
                (self.zones@, best) == read_cpu_zones(
                    old(self).zones@,
                    old(self).cpu_zone_indices@,
                    contents@,
                    k as int,
                ),
            decreases n - k,
        {
            let i = self.cpu_zone_indices[k];
            if i < self.zones.len() {
                let c: Option<&str> = match &contents[k] {
                    Some(s) => Some(s.as_str()),
                    None => None,
                };
                let ghost before = self.zones@;
                let reading = self.zones[i].read_temp(c);
                assert(self.zones@ =~= before.update(i as int, zone_after(before[i as int], reading)));
                best = match (best, reading) {
                    (None, x) => x,
                    (Some(b), None) => Some(b),
                    (Some(b), Some(t)) => if b >= t {
                        Some(b)
                    } else {
                        Some(t)
                    },
                };
            }
            k = k + 1;
        }
        best
    }

    /// Advances the gradient alarm at time `now`, given whether the
    /// averaged gradient is above the alert threshold. While it stays above,
    /// the alarm fires once it has been above for more than
    /// [`GRADIENT_HIGH_SUSTAINED_SECS`], and the wait starts over at each
    /// firing; a gradient at or below the threshold clears the wait.
    pub fn gradient_alarm_step(&mut self, above_threshold: bool, now: u64) -> (alert: bool)
        ensures
            alert == (above_threshold && old(self).high_gradient_start_time is Some
                && now > old(self).high_gradient_start_time->0 + GRADIENT_HIGH_SUSTAINED_SECS),
            final(self).high_gradient_start_time == if !above_threshold {
                None
            } else if old(self).high_gradient_start_time is None || alert {
                Some(now)
            } else {
                old(self).high_gradient_start_time
            },
            final(self).zones@ == old(self).zones@,
            final(self).cpu_zone_indices@ == old(self).cpu_zone_indices@,
            final(self).gradient_alert_threshold == old(self).gradient_alert_threshold,
    {
        if above_threshold {
            match self.high_gradient_start_time {
                Some(start_time) => {
                    if now.saturating_sub(start_time) > GRADIENT_HIGH_SUSTAINED_SECS {
                        self.high_gradient_start_time = Some(now);
                        return true;
                    }
                    false
                },
                None => {
                    self.high_gradient_start_time = Some(now);
                    false
                },
            }
        } else {
            self.high_gradient_start_time = None;
            false
        }
    }
}

} // verus!
