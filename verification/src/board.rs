//! Board support: pin assignment, the on-chip temperature sensor and the
//! state of the simple devices (pulse outputs, indicators, tamper
//! switches). The drivers that touch the hardware are in the application.

pub mod adc;
pub mod devices;
pub mod pins;
pub mod setup;
