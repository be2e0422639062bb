//! Charger, screen and battery-current state, read from the power-supply and
//! display nodes of sysfs.

use vstd::prelude::*;
use crate::text::{
    contains, has_infix, lowercase_of, opt_view, parse_i32, parse_i64, parse_in_range, same_text,
    to_lowercase, trim, trimmed,
};

verus! {

/// What powers the device besides its battery.
#[derive(Debug, Clone, Copy, PartialEq, Eq, Structural)]
pub enum ChargerState {
    /// No charger (the state named `None` by the power-supply nodes).
    Disconnected,
    USB,
    AC,
    Wireless,
}

/// Whether the display is lit.
#[derive(Debug, Clone, Copy, PartialEq, Eq, Structural)]
pub enum ScreenState {
    Off,
    On,
}

/// The charger that a power-supply `type` node names, if any: a dedicated or
/// power-delivery USB port counts as AC, any other USB type as USB.
pub open spec fn supply_type_kind(status: Seq<char>) -> Option<ChargerState> {
    let l = lowercase_of(trimmed(status));
    if has_infix(l, "usb_dcp"@) || has_infix(l, "usb_pd"@) {
        Some(ChargerState::AC)
    } else if has_infix(l, "usb"@) {
        Some(ChargerState::USB)
    } else {
        None
    }
}

/// Whether a node was read and holds `1` (whitespace aside).
pub open spec fn reads_one(o: Option<Seq<char>>) -> bool {
    o is Some && trimmed(o->0) == "1"@
}

/// The charger state from the charger `type` node, the USB `type` node, the
/// wireless `online` node and the AC `online` node, consulted in that order;
/// `None` for a node that could not be read.
pub open spec fn charger_state(
    charger_type: Option<Seq<char>>,
    usb_type: Option<Seq<char>>,
    wireless_online: Option<Seq<char>>,
    ac_online: Option<Seq<char>>,
) -> ChargerState {
    if charger_type is Some && supply_type_kind(charger_type->0) is Some {
        supply_type_kind(charger_type->0)->0
    } else if usb_type is Some && supply_type_kind(usb_type->0) is Some {
        supply_type_kind(usb_type->0)->0
    } else if reads_one(wireless_online) {
        ChargerState::Wireless
    } else if reads_one(ac_online) {
        ChargerState::AC
    } else {
        ChargerState::Disconnected
    }
}

/// The screen state that a brightness node gives: lit for a positive
/// brightness; `None` where the node was not read or holds no `i32`.
pub open spec fn brightness_screen(o: Option<Seq<char>>) -> Option<ScreenState> {
    if o is Some && parse_in_range(trimmed(o->0), true, i32::MIN as int, i32::MAX as int) is Some {
        if parse_in_range(trimmed(o->0), true, i32::MIN as int, i32::MAX as int)->0 > 0 {
            Some(ScreenState::On)
        } else {
            Some(ScreenState::Off)
        }
    } else {
        None
    }
}

/// The screen state from the LCD backlight brightness, the panel backlight
/// brightness and the framebuffer blank node, consulted in that order; lit
/// where none of them tells.
pub open spec fn screen_state(
    lcd_brightness: Option<Seq<char>>,
    panel_brightness: Option<Seq<char>>,
    fb_blank: Option<Seq<char>>,
) -> ScreenState {
    if brightness_screen(lcd_brightness) is Some {
        brightness_screen(lcd_brightness)->0
    } else if brightness_screen(panel_brightness) is Some {
        brightness_screen(panel_brightness)->0
    } else if fb_blank is Some {
        if trimmed(fb_blank->0) == "1"@ {
            ScreenState::Off
        } else {
            ScreenState::On
        }
    } else {
        ScreenState::On
    }
}

fn type_kind(status: &str) -> (r: Option<ChargerState>)
    ensures
        r == supply_type_kind(status@),
{
    let lower = to_lowercase(trim(status));
    if contains(lower.as_str(), "usb_dcp") || contains(lower.as_str(), "usb_pd") {
        Some(ChargerState::AC)
    } else if contains(lower.as_str(), "usb") {
        Some(ChargerState::USB)
    } else {
        None
    }
}

fn is_one(o: Option<&str>) -> (r: bool)
    ensures
        r == reads_one(opt_view(o)),
{
    match o {
        Some(s) => same_text(trim(s), "1"),
        None => false,
    }
}

/// The charger state from the contents of the charger `type`, USB `type`,
/// wireless `online` and AC `online` nodes (`None` where a read failed).
pub fn detect_charger(
    charger_type: Option<&str>,
    usb_type: Option<&str>,
    wireless_online: Option<&str>,
    ac_online: Option<&str>,
) -> (r: ChargerState)
    ensures
        r == charger_state(
            opt_view(charger_type),
            opt_view(usb_type),
            opt_view(wireless_online),
            opt_view(ac_online),
        ),
{
    if let Some(status) = charger_type {
        if let Some(kind) = type_kind(status) {
            return kind;
        }
    }
    if let Some(status) = usb_type {
        if let Some(kind) = type_kind(status) {
            return kind;
        }
    }
    if is_one(wireless_online) {
        return ChargerState::Wireless;
    }
    if is_one(ac_online) {
        return ChargerState::AC;
    }
    ChargerState::Disconnected
}

fn brightness(o: Option<&str>) -> (r: Option<ScreenState>)
    ensures
        r == brightness_screen(opt_view(o)),
{
    match o {
        Some(s) => match parse_i32(trim(s)) {
            Some(b) => if b > 0 {
                Some(ScreenState::On)
            } else {
                Some(ScreenState::Off)
            },
            None => None,
        },
        None => None,
    }
}

/// The screen state from the contents of the LCD backlight brightness, the
/// panel backlight brightness and the framebuffer blank nodes (`None` where
/// a read failed).
pub fn detect_screen(
    lcd_brightness: Option<&str>,
    panel_brightness: Option<&str>,
    fb_blank: Option<&str>,
) -> (r: ScreenState)
    ensures
        r == screen_state(opt_view(lcd_brightness), opt_view(panel_brightness), opt_view(fb_blank)),
{
    if let Some(state) = brightness(lcd_brightness) {
        return state;
    }
    if let Some(state) = brightness(panel_brightness) {
        return state;
    }
    if let Some(blank) = fb_blank {
        return if same_text(trim(blank), "1") {
            ScreenState::Off
        } else {
            ScreenState::On
        };
    }
    ScreenState::On
}

/// Whether the battery charges, and the magnitude of its current in µA.
#[derive(Debug, Clone, Copy, PartialEq, Eq, Structural)]
pub struct PowerReading {
    pub is_charging: bool,
    pub current_abs_ua: u64,
}

/// The battery's `current_now` in µA as its node reads, if it reads as an
/// `i64`.
pub open spec fn current_ua(current_now: Seq<char>) -> Option<int> {
    parse_in_range(trimmed(current_now), true, i64::MIN as int, i64::MAX as int)
}

/// The power reading from the battery `current_now` node and, where that
/// node could not be read, the charger `online` node: a positive current
/// means charging; an unreadable current reads as neither charging nor
/// drawing; without the current node, an online charger means charging.
pub open spec fn power_reading(
    current_now: Option<Seq<char>>,
    charger_online: Option<Seq<char>>,
) -> PowerReading {
    match current_now {
        Some(c) => match current_ua(c) {
            Some(v) => PowerReading {
                is_charging: v > 0,
                current_abs_ua: (if v < 0 {
                    -v
                } else {
                    v
                }) as u64,
            },
            None => PowerReading { is_charging: false, current_abs_ua: 0 },
        },
        None => PowerReading { is_charging: reads_one(charger_online), current_abs_ua: 0 },
    }
}

/// The power reading from the contents of the battery `current_now` node
/// and of the charger `online` node (`None` where a read failed).
pub fn read_power_state(current_now: Option<&str>, charger_online: Option<&str>) -> (r:
    PowerReading)
    requires
        current_now matches Some(c) ==> current_ua(c@) != Some(i64::MIN as int),
    ensures
        r == power_reading(opt_view(current_now), opt_view(charger_online)),
{
    match current_now {
        Some(c) => match parse_i64(trim(c)) {
            Some(v) => {
                let mag: u64 = if v < 0 {
                    (0 - v) as u64
                } else {
                    v as u64
                };
                PowerReading { is_charging: v > 0, current_abs_ua: mag }
            },
            None => PowerReading { is_charging: false, current_abs_ua: 0 },
        },
        None => PowerReading { is_charging: is_one(charger_online), current_abs_ua: 0 },
    }
}

/// Charger detection, stated on the texts: a charger `type` text whose
/// trimmed, lowercased form names a dedicated or power-delivery USB port
/// gives AC, and any other USB type gives USB; where that node gives no USB
/// kind, the USB `type` node is read by the same rule; then an online
/// wireless charger, then an online AC supply; otherwise no charger.
pub proof fn lemma_charger_rules(
    charger_type: Option<Seq<char>>,
    usb_type: Option<Seq<char>>,
    wireless_online: Option<Seq<char>>,
    ac_online: Option<Seq<char>>,
)
    ensures
        ({
            let r = charger_state(charger_type, usb_type, wireless_online, ac_online);
            let lc = lowercase_of(trimmed(charger_type->0));
            let lu = lowercase_of(trimmed(usb_type->0));
            let c_pd = charger_type is Some && (has_infix(lc, "usb_dcp"@) || has_infix(lc, "usb_pd"@));
            let c_usb = charger_type is Some && has_infix(lc, "usb"@);
            let u_pd = usb_type is Some && (has_infix(lu, "usb_dcp"@) || has_infix(lu, "usb_pd"@));
            let u_usb = usb_type is Some && has_infix(lu, "usb"@);
            let w_on = wireless_online is Some && trimmed(wireless_online->0) == "1"@;
            let a_on = ac_online is Some && trimmed(ac_online->0) == "1"@;
            &&& c_pd ==> r == ChargerState::AC
            &&& (!c_pd && c_usb) ==> r == ChargerState::USB
            &&& (!c_pd && !c_usb && u_pd) ==> r == ChargerState::AC
            &&& (!c_pd && !c_usb && !u_pd && u_usb) ==> r == ChargerState::USB
            &&& (!c_pd && !c_usb && !u_pd && !u_usb && w_on) ==> r == ChargerState::Wireless
            &&& (!c_pd && !c_usb && !u_pd && !u_usb && !w_on && a_on) ==> r == ChargerState::AC
            &&& (!c_pd && !c_usb && !u_pd && !u_usb && !w_on && !a_on) ==> r
                == ChargerState::Disconnected
        }),
{
}

/// Screen detection, stated on the texts: the first brightness node (LCD,
/// then panel) that holds an `i32` `b` decides, lit exactly when `b > 0`;
/// without one, a blank event of `1` means off and any other blank text on;
/// with nothing readable the screen counts as on.
pub proof fn lemma_screen_rules(
    lcd_brightness: Option<Seq<char>>,
    panel_brightness: Option<Seq<char>>,
    fb_blank: Option<Seq<char>>,
)
    ensures
        ({
            let r = screen_state(lcd_brightness, panel_brightness, fb_blank);
            let pl = parse_in_range(trimmed(lcd_brightness->0), true, i32::MIN as int, i32::MAX as int);
            let pp = parse_in_range(trimmed(panel_brightness->0), true, i32::MIN as int, i32::MAX as int);
            let l_ok = lcd_brightness is Some && pl is Some;
            let p_ok = panel_brightness is Some && pp is Some;
            &&& l_ok ==> (r == ScreenState::On <==> pl->0 > 0)
            &&& (!l_ok && p_ok) ==> (r == ScreenState::On <==> pp->0 > 0)
            &&& (!l_ok && !p_ok && fb_blank is Some) ==> (r == ScreenState::Off <==> trimmed(
                fb_blank->0,
            ) == "1"@)
            &&& (!l_ok && !p_ok && fb_blank is None) ==> r == ScreenState::On
        }),
{
}

} // verus!
