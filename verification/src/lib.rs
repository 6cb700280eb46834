//! Verified core of an industrial IoT telemetry simulator: configuration
//! validation, sensor identity expansion, scheduling, anomaly lifecycles and
//! the calendar and waveform bookkeeping behind the scenario signals.

pub mod airlock;
pub mod anomaly;
pub mod config;
pub mod electrical;
pub mod injection;
pub mod export;
pub mod lifecycle;
pub mod plan;
pub mod rack;
pub mod schedule;
pub mod text;
pub mod time;
pub mod validation;
pub mod waveform;
pub mod weather;
