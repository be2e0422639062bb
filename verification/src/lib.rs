//! Decision logic of the Rianixia thermal governor: text handling for the
//! sysfs and procfs files it reads, CPU load accounting, thermal targets and
//! the scheduling of its control loop.

pub mod text;
pub mod cpu;
pub mod constants;
pub mod utils;
pub mod state;
pub mod learning;
pub mod context;
pub mod thermal_zones;
pub mod cooling;
pub mod dvfsrc;
pub mod monitor;
pub mod android_ffi;
