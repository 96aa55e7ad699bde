//! Brightness update expressions and the engine that resolves them against a
//! device's current and maximum brightness.

pub mod device;
pub mod enums;
pub mod structs;
pub mod utils;
