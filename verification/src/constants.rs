//! Integer settings of the governor: temperatures in tenths of a degree
//! Celsius, times in seconds, window sizes in samples.

use vstd::prelude::*;

verus! {

pub const PROP_BIGDATA_PATH: &'static str = "persist.sys.rianixia.thermalcore-bigdata.path";
pub const DEFAULT_DATA_PATH: &'static str = "/data/vendor/rianixia_thermal_data";
pub const LEARNING_DATA_FILENAME: &'static str = "learning.dat";

pub const TARGET_TEMP_IDLE: i32 = 360;
pub const TARGET_TEMP_SUSTAINED: i32 = 400;
pub const TARGET_TEMP_BOOST: i32 = 440;
pub const TARGET_TEMP_CRITICAL: i32 = 480;

pub const HISTORY_WINDOW: usize = 200;
pub const CPU_LOAD_WINDOW: usize = 10;
pub const BATTERY_TEMP_PATH: &'static str = "/sys/class/power_supply/battery/temp";
pub const SAVE_INTERVAL_EVENTS: usize = 50;
pub const SAVE_INTERVAL_SECS: u64 = 600;

pub const SYS_PROP_PATH: &'static str = "persist.sys.rianixia.thermal_path";
pub const PROP_LEARNING_ENABLED: &'static str = "persist.sys.rianixia.learning_enabled";
pub const PROP_THRESHOLD_FLOOR: &'static str = "persist.sys.rianixia.threshold_floor";
pub const PROP_AUDIT_LOGS_ENABLED: &'static str = "persist.sys.rianixia.thermal-auditlogs";
pub const PROP_GRADIENT_ALERT_THRESHOLD: &'static str = "persist.sys.rianixia.thermalcore.gradient_alert";

pub const COMFORT_MAX: i32 = 380;
pub const ADAPTIVE_MAX: i32 = 420;
pub const CRITICAL_THRESHOLD: i32 = 460;
pub const SAFE_TEMP: i32 = 350;
pub const ABSOLUTE_THRESHOLD_FLOOR: i32 = 360;
pub const DAILY_DOWNWARD_ADJUSTMENT_LIMIT: i32 = 30;
pub const SUSTAINED_TIME_SECS: u64 = 180;
pub const RECOVERY_STABLE_HOURS: u64 = 4;
pub const TEMPORAL_WINDOW_SECS: u64 = 600;
pub const THRESHOLD_ADJ_GUARD_SECS: u64 = 900;
pub const STATE_DOWNGRADE_GUARD_SECS: u64 = 120;
pub const LOG_RATE_LIMIT_NORMAL_SECS: u64 = 15;
pub const PREDICTION_HORIZON_SECS: u64 = 45;
pub const PREDICTION_MIN_SAMPLES: usize = 5;
pub const ANOMALY_TEMP_JUMP_THRESHOLD: i32 = 100;
pub const GRADIENT_HIGH_SUSTAINED_SECS: u64 = 30;
pub const DEFAULT_GRADIENT_ALERT_THRESHOLD: i32 = 250;
pub const POLICY_MITIGATION_RATE_LIMIT_SECS: u64 = 2;

} // verus!
