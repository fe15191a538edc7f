//! Display topology resolution and DDC/CI power control.
//!
//! The library reconciles three independent OS display enumerations — the
//! legacy device directory, the extended display-configuration targets, and
//! the GDI physical-monitor records — into one ordered list of addressable
//! monitors, and encodes/decodes the DDC/CI power-mode feature for them.
//! All OS calls happen outside the library; it works on the plain values
//! those calls produce.

pub mod monitors;
pub mod power;
pub mod wide;
