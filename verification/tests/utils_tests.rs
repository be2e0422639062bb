use std::collections::VecDeque;
use rianixia_thermalcore::constants::BATTERY_TEMP_PATH;
use rianixia_thermalcore::utils::{
    get_bool_property, get_int_property, get_system_property, get_thermal_path, push_bounded,
    TemperatureFilter,
};

#[test]
fn unset_properties_give_defaults() {
    assert_eq!(get_system_property("", "dflt"), "dflt");
    assert_eq!(get_system_property("v", "dflt"), "v");
    assert!(get_bool_property("", true));
    assert!(!get_bool_property("", false));
    assert_eq!(get_int_property("", 250), 250);
    assert_eq!(get_thermal_path(""), BATTERY_TEMP_PATH);
    assert_eq!(get_thermal_path("/sys/x/temp"), "/sys/x/temp");
}

#[test]
fn bool_property_values() {
    assert!(get_bool_property("true", false));
    assert!(get_bool_property("1", false));
    assert!(!get_bool_property("yes", true));
    assert!(!get_bool_property("false", true));
}

#[test]
fn int_property_values() {
    assert_eq!(get_int_property("120", 250), 120);
    assert_eq!(get_int_property("-5", 250), -5);
    assert_eq!(get_int_property("abc", 250), 250);
    assert_eq!(get_int_property(" 12", 250), 250);
}

#[test]
fn filter_keeps_latest_readings() {
    let mut f = TemperatureFilter::new(3);
    for t in [1, 2, 3, 4, 5] {
        f.add(t);
    }
    assert_eq!(f.values, VecDeque::from(vec![3, 4, 5]));
    assert_eq!(f.window_size, 3);
}

#[test]
fn zero_sized_filter_keeps_one() {
    let mut f = TemperatureFilter::new(0);
    f.add(7);
    f.add(8);
    assert_eq!(f.values, VecDeque::from(vec![8]));
}

#[test]
fn anomaly_detection() {
    let mut f = TemperatureFilter::new(5);
    assert!(!f.detect_anomaly(1000));
    f.add(350);
    assert!(!f.detect_anomaly(450));
    assert!(f.detect_anomaly(451));
    assert!(f.detect_anomaly(249));
    assert!(!f.detect_anomaly(250));
}

#[test]
fn bounded_push() {
    let mut w: VecDeque<(f32, f32)> = VecDeque::new();
    for i in 0..25 {
        push_bounded(&mut w, 20, (i as f32, 0.0));
    }
    assert_eq!(w.len(), 20);
    assert_eq!(w.front().unwrap().0, 5.0);
}
