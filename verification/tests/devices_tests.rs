use rianixia_thermalcore::context::{
    detect_charger, detect_screen, read_power_state, ChargerState, PowerReading, ScreenState,
};
use rianixia_thermalcore::cooling::{
    after_write_attempt, is_acceptable_type, load_device_info, state_already_set, WriteStep,
};
use rianixia_thermalcore::dvfsrc::DvfsrcActuator;
use rianixia_thermalcore::thermal_zones::{cpu_zone_indices, ThermalFusion, ThermalZone};

fn zone(t: &str) -> ThermalZone {
    ThermalZone { path: format!("/sys/class/thermal/{}", t), zone_type: t.to_string(), last_temp: None }
}

#[test]
fn charger_detection_order() {
    assert_eq!(detect_charger(Some("USB_DCP\n"), None, None, None), ChargerState::AC);
    assert_eq!(detect_charger(Some("USB_PD"), None, None, None), ChargerState::AC);
    assert_eq!(detect_charger(Some("usb\n"), None, Some("1"), None), ChargerState::USB);
    assert_eq!(detect_charger(Some("Unknown"), Some("USB"), None, None), ChargerState::USB);
    assert_eq!(detect_charger(None, None, Some(" 1\n"), Some("1")), ChargerState::Wireless);
    assert_eq!(detect_charger(None, None, Some("0"), Some("1")), ChargerState::AC);
    assert_eq!(detect_charger(None, None, None, None), ChargerState::Disconnected);
}

#[test]
fn screen_detection_order() {
    assert_eq!(detect_screen(Some("0\n"), Some("100"), None), ScreenState::Off);
    assert_eq!(detect_screen(Some("bad"), Some("100"), None), ScreenState::On);
    assert_eq!(detect_screen(None, None, Some("1")), ScreenState::Off);
    assert_eq!(detect_screen(None, None, Some("0")), ScreenState::On);
    assert_eq!(detect_screen(None, None, None), ScreenState::On);
}

#[test]
fn power_readings() {
    assert_eq!(read_power_state(Some("1500000\n"), None), PowerReading { is_charging: true, current_abs_ua: 1500000 });
    assert_eq!(read_power_state(Some("-250000"), Some("1")), PowerReading { is_charging: false, current_abs_ua: 250000 });
    assert_eq!(read_power_state(Some("n/a"), Some("1")), PowerReading { is_charging: false, current_abs_ua: 0 });
    assert_eq!(read_power_state(None, Some("1\n")), PowerReading { is_charging: true, current_abs_ua: 0 });
    assert_eq!(read_power_state(None, None), PowerReading { is_charging: false, current_abs_ua: 0 });
}

#[test]
fn cooling_types() {
    assert!(is_acceptable_type("Thermal-CPUFreq-0"));
    assert!(is_acceptable_type("mtk-gpu"));
    assert!(!is_acceptable_type("cpu-backlight"));
    assert!(!is_acceptable_type("battery"));
    assert!(!is_acceptable_type("CAM-cpu"));
}

#[test]
fn cooling_device_info() {
    let info = load_device_info(Some("thermal-cpufreq-0\n"), Some(" 15\n")).unwrap();
    assert_eq!(info.device_type, "thermal-cpufreq-0");
    assert_eq!(info.max_state, 15);
    assert!(load_device_info(Some("backlight"), Some("15")).is_none());
    assert!(load_device_info(Some("cpu"), Some("x")).is_none());
    assert!(load_device_info(None, Some("1")).is_none());
    assert!(state_already_set(Some("4\n"), 4));
    assert!(!state_already_set(Some("3"), 4));
    assert!(!state_already_set(None, 0));
}

#[test]
fn write_retries() {
    assert_eq!(after_write_attempt(0, false), WriteStep::Retry);
    assert_eq!(after_write_attempt(1, false), WriteStep::Retry);
    assert_eq!(after_write_attempt(2, false), WriteStep::Fail);
    assert_eq!(after_write_attempt(2, true), WriteStep::Done);
}

#[test]
fn dvfsrc_requests() {
    let off = DvfsrcActuator::new(false, Some("24"));
    assert!(!off.available);
    let empty = DvfsrcActuator::new(true, Some("0\n"));
    assert!(!empty.available);
    let mut d = DvfsrcActuator::new(true, Some("24\n"));
    assert!(d.available);
    assert_eq!(d.opp_count, 24);
    assert_eq!(d.cap_opp(30), 23);
    assert!(d.needs_write(5));
    d.record_write(5);
    assert!(!d.needs_write(5));
    assert!(d.needs_write(6));
}

#[test]
fn zone_readings() {
    let mut z = zone("cpu-0");
    assert_eq!(z.read_temp(Some("45000\n")), Some(45000));
    assert_eq!(z.last_temp, Some(45000));
    assert_eq!(z.read_temp(Some("250000")), None);
    assert_eq!(z.read_temp(None), None);
    assert_eq!(z.last_temp, Some(45000));
}

#[test]
fn cpu_zones_and_hottest() {
    let zones = vec![zone("battery"), zone("CPU-big"), zone("soc_max"), zone("gpu0"), zone("skin")];
    assert_eq!(cpu_zone_indices(&zones), vec![1, 2, 3]);
    let mut f = ThermalFusion::new(zones, "");
    assert_eq!(f.gradient_alert_threshold, 250);
    let hottest = f.get_max_cpu_temp(&vec![Some("50000".to_string()), None, Some("61000\n".to_string())]);
    assert_eq!(hottest, Some(61000));
    assert_eq!(f.zones[1].last_temp, Some(50000));
    assert_eq!(f.zones[2].last_temp, None);
    assert_eq!(f.zones[3].last_temp, Some(61000));
}

#[test]
fn gradient_alarm() {
    let mut f = ThermalFusion::new(vec![], "300");
    assert_eq!(f.gradient_alert_threshold, 300);
    assert!(!f.gradient_alarm_step(true, 100));
    assert!(!f.gradient_alarm_step(true, 130));
    assert!(f.gradient_alarm_step(true, 131));
    assert_eq!(f.high_gradient_start_time, Some(131));
    assert!(!f.gradient_alarm_step(false, 200));
    assert_eq!(f.high_gradient_start_time, None);
}
