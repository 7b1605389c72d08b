//! The rules of a hardware gauge: fan safety, sensor selection and decoding.
//!
//! Everything here is computation on plain values. Reading hardware, talking to
//! drivers and showing the result is left to the program around the library.

pub mod adl;
pub mod bytes;
pub mod components;
pub mod fan_bank;
pub mod fan_laws;
pub mod layout;
pub mod metrics;
pub mod monitor;
pub mod monitor_laws;
pub mod nt_scan;
pub mod search;
pub mod sensors;
pub mod sequences;
pub mod settings;
pub mod single;
pub mod text;
pub mod web;
pub mod wmi;
