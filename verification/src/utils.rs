//! System-property values, the temperature filter and bounded history
//! windows.

use std::collections::VecDeque;
use vstd::prelude::*;
use crate::constants::{ANOMALY_TEMP_JUMP_THRESHOLD, BATTERY_TEMP_PATH};
use crate::text::{parse_i32, parse_in_range, same_text};

verus! {

/// The value a property read yields: `value` where the property is set to a
/// non-empty text, else `default` (an unset property reads as empty).
pub open spec fn property_value(value: Seq<char>, default: Seq<char>) -> Seq<char> {
    if value.len() == 0 {
        default
    } else {
        value
    }
}

/// The value of a system property whose stored text is `value` (empty when
/// it is unset), falling back to `default`.
pub fn get_system_property<'a>(value: &'a str, default: &'a str) -> (r: &'a str)
    ensures
        r@ == property_value(value@, default@),
{
    if value.is_empty() {
        default
    } else {
        value
    }
}

/// The path of the battery temperature node: the thermal-path property's
/// value `value`, or the battery's own node where it is unset.
pub fn get_thermal_path(value: &str) -> (r: String)
    ensures
        r@ == property_value(value@, BATTERY_TEMP_PATH@),
{
    get_system_property(value, BATTERY_TEMP_PATH).to_string()
}

/// A boolean property whose stored text is `value`: `true` for the texts
/// `true` and `1`, `false` for any other set value, `default` where unset.
pub fn get_bool_property(value: &str, default: bool) -> (r: bool)
    ensures
        r == if value@.len() == 0 {
            default
        } else {
            value@ == "true"@ || value@ == "1"@
        },
{
    let val = get_system_property(value, if default { "true" } else { "false" });
    let r = same_text(val, "true") || same_text(val, "1");
    proof {
        reveal_strlit("true");
        reveal_strlit("false");
        reveal_strlit("1");
        assert("false"@.len() == 5 && "true"@.len() == 4 && "1"@.len() == 1);
    }
    r
}

/// An integer property whose stored text is `value`: the `i32` it spells,
/// or `default` where it is unset or spells no `i32`.
pub fn get_int_property(value: &str, default: i32) -> (r: i32)
    ensures
        r == if value@.len() == 0 {
            default
        } else {
            match parse_in_range(value@, true, i32::MIN as int, i32::MAX as int) {
                Some(v) => v as i32,
                None => default,
            }
        },
{
    if value.is_empty() {
        return default;
    }
    match parse_i32(value) {
        Some(v) => v,
        None => default,
    }
}


/// The window `w` after `x` joins it with room for `cap` items: where it is
/// full, its oldest item leaves first.
pub open spec fn push_window<T>(w: Seq<T>, cap: nat, x: T) -> Seq<T> {
    if w.len() >= cap && w.len() > 0 {
        w.drop_first().push(x)
    } else {
        w.push(x)
    }
}

/// The window `w` after each of `xs` joins it in turn.
pub open spec fn push_all<T>(w: Seq<T>, cap: nat, xs: Seq<T>) -> Seq<T>
    decreases xs.len(),
{
    if xs.len() == 0 {
        w
    } else {
        push_window(push_all(w, cap, xs.drop_last()), cap, xs.last())
    }
}

/// The last `min(s.len(), k)` items of `s`.
pub open spec fn latest<T>(s: Seq<T>, k: nat) -> Seq<T> {
    if s.len() <= k {
        s
    } else {
        s.subrange(s.len() - k, s.len() as int)
    }
}

/// Appends `x` to the window `w` that holds at most `cap` items, dropping
/// the oldest item where the window is full.
pub fn push_bounded<T>(w: &mut VecDeque<T>, cap: usize, x: T)
    ensures
        final(w)@ == push_window(old(w)@, cap as nat, x),
{
    if w.len() >= cap {
        w.pop_front();
    }
    w.push_back(x);
}

/// A window of at most `cap` items (`cap` at least one) keeps exactly the
/// latest `cap` of all items that went into it.
pub proof fn lemma_window_keeps_latest<T>(w: Seq<T>, cap: nat, xs: Seq<T>)
    requires
        cap >= 1,
        w.len() <= cap,
    ensures
        push_all(w, cap, xs) == latest(w + xs, cap),
        push_all(w, cap, xs).len() <= cap,
    decreases xs.len(),
{
    if xs.len() == 0 {
        assert(w + xs =~= w);
    } else {
        let prev = xs.drop_last();
        lemma_window_keeps_latest(w, cap, prev);
        let p = push_all(w, cap, prev);
        let all = w + xs;
        assert(all =~= (w + prev).push(xs.last()));
        if p.len() >= cap && p.len() > 0 {
            assert(p.drop_first().push(xs.last()) =~= latest(all, cap));
        } else {
            assert(p.push(xs.last()) =~= latest(all, cap));
        }
    }
}

/// A short history of temperature readings (tenths of a degree Celsius).
pub struct TemperatureFilter {
    pub values: VecDeque<i32>,
    pub window_size: usize,
}

impl TemperatureFilter {
    /// An empty filter that keeps the latest `window_size` readings.
    pub fn new(window_size: usize) -> (r: Self)
        ensures
            r.values@ == Seq::<i32>::empty(),
            r.window_size == window_size,
    {
        TemperatureFilter { values: VecDeque::with_capacity(window_size), window_size }
    }

    /// Adds a reading; where the window is full the oldest reading leaves.
    pub fn add(&mut self, temp: i32)
        ensures
            final(self).values@ == push_window(old(self).values@, old(self).window_size as nat, temp),
            final(self).window_size == old(self).window_size,
    {
        push_bounded(&mut self.values, self.window_size, temp);
    }

    /// Whether `new_temp` jumps by more than the anomaly threshold from the
    /// latest reading; never for an empty filter.
    pub fn detect_anomaly(&self, new_temp: i32) -> (r: bool)
        requires
            self.values@.len() > 0 ==> i32::MIN < new_temp - self.values@.last() <= i32::MAX,
        ensures
            r == (self.values@.len() > 0 && {
                let d = new_temp - self.values@.last();
                d > ANOMALY_TEMP_JUMP_THRESHOLD || -d > ANOMALY_TEMP_JUMP_THRESHOLD
            }),
    {
        let n = self.values.len();
        if n == 0 {
            return false;
        }
        let last = self.values[n - 1];
        let d = new_temp - last;
        let a = if d < 0 {
            -d
        } else {
            d
        };
        a > ANOMALY_TEMP_JUMP_THRESHOLD
    }
}

} // verus!
