use rianixia_thermalcore::android_ffi::{check_bool_property, should_log, ANDROID_LOG_DEBUG, ANDROID_LOG_INFO};
use rianixia_thermalcore::constants::{TARGET_TEMP_BOOST, TARGET_TEMP_IDLE, TARGET_TEMP_SUSTAINED};
use rianixia_thermalcore::learning::{OperationalMode, TargetSelector};
use rianixia_thermalcore::monitor::{
    after_poll, after_watch, initial_mode, mitigation_change, read_temperature, LoopClock,
    MitigationChange, RunMode, WatchEvent,
};
use rianixia_thermalcore::state::{MitigationTier, ThermalState};

#[test]
fn targets_by_mode() {
    let mut s = TargetSelector::new();
    assert_eq!(s.determine_target(300, false, false), TARGET_TEMP_IDLE);
    assert_eq!(s.current_mode, OperationalMode::Idle);
    assert_eq!(s.determine_target(300, true, true), TARGET_TEMP_BOOST);
    assert_eq!(s.current_mode, OperationalMode::Boost);
    assert_eq!(s.determine_target(420, false, true), TARGET_TEMP_SUSTAINED);
    assert_eq!(s.current_mode, OperationalMode::Sustained);
    assert_eq!(s.last_target, TARGET_TEMP_SUSTAINED);
}

#[test]
fn critical_temperature_forces_cool_down() {
    let mut s = TargetSelector::new();
    s.determine_target(300, true, true);
    assert_eq!(s.determine_target(480, true, true), TARGET_TEMP_IDLE);
    assert_eq!(s.current_mode, OperationalMode::Critical);
    assert_eq!(s.last_target, TARGET_TEMP_BOOST);
}

#[test]
fn loop_clock_schedules_saves_and_logs() {
    let mut c = LoopClock::new(100);
    let p = c.tick(100);
    assert_eq!(p.dt_secs, 1);
    assert!(!p.save);
    assert!(p.log);
    let p = c.tick(105);
    assert_eq!(p.dt_secs, 5);
    assert!(!p.log);
    let mut saves = 0;
    for t in 106..154 {
        if c.tick(t).save {
            saves += 1;
        }
    }
    assert_eq!(saves, 1);
    assert_eq!(c.events_since_last_save, 0);
    let p = c.tick(153 + 600);
    assert!(p.save);
}

#[test]
fn mitigation_transitions() {
    assert_eq!(mitigation_change(true, false), MitigationChange::Start);
    assert_eq!(mitigation_change(false, true), MitigationChange::End);
    assert_eq!(mitigation_change(true, true), MitigationChange::Keep);
    assert_eq!(mitigation_change(false, false), MitigationChange::Keep);
}

#[test]
fn run_mode_transitions() {
    assert_eq!(initial_mode(true), RunMode::Inotify);
    assert_eq!(initial_mode(false), RunMode::Poll);
    assert_eq!(after_watch(WatchEvent::Timeout), (RunMode::Inotify, true));
    assert_eq!(after_watch(WatchEvent::Ready { has_events: false }), (RunMode::Inotify, false));
    assert_eq!(after_watch(WatchEvent::Failed), (RunMode::Poll, false));
    assert_eq!(after_poll(true), RunMode::Inotify);
    assert_eq!(after_poll(false), RunMode::Poll);
}

#[test]
fn battery_temperature_text() {
    assert_eq!(read_temperature("356\n"), Some(356));
    assert_eq!(read_temperature("-12"), Some(-12));
    assert_eq!(read_temperature("hot"), None);
}

#[test]
fn logging_switches() {
    assert!(check_bool_property("true", false));
    assert!(!check_bool_property("false", true));
    assert!(check_bool_property("", true));
    assert!(!check_bool_property("1", false));
    assert!(!should_log(false, ANDROID_LOG_DEBUG));
    assert!(should_log(true, ANDROID_LOG_DEBUG));
    assert!(should_log(false, ANDROID_LOG_INFO));
}

#[test]
fn state_enums() {
    assert!(MitigationTier::Off < MitigationTier::Emergency);
    assert_ne!(ThermalState::Normal, ThermalState::Critical);
}
