//! The DDC/CI power-mode feature: codes and codec.
//!
//! A monitor's power mode is read and written through the single-byte VCP
//! feature 0xD6. Replies map 0x01 to On and 0x00 or 0x05 to Off; any other
//! reply is an unrecognized-power-mode error. Writes issue 0x01 for On and
//! 0x05 for Off.

use vstd::prelude::*;

verus! {

/// VCP feature code of the power-mode register.
pub const VCP_POWER_MODE: u8 = 0xd6;

/// Raw reply meaning "no signal / off" on some monitors.
pub const VCP_POWER_MODE_NONE: u32 = 0x00;

/// Raw value for the On mode.
pub const VCP_POWER_MODE_ON: u32 = 0x01;

/// Raw value for the Off mode.
pub const VCP_POWER_MODE_OFF: u32 = 0x05;

#[derive(Copy, Clone, Debug, PartialEq, Eq, Structural)]
pub enum PowerMode {
    On,
    Off,
}

/// Everything a power or correlation operation can fail with.
#[derive(Copy, Clone, Debug, PartialEq, Eq, Structural)]
pub enum MonitorError {
    /// A feature-read replied with a raw value outside the power-mode codes.
    UnrecognizedPowerMode(u32),
    /// The OS reported failure for a feature-write.
    PowerModeWriteFailed,
}

/// The decoding of a raw power-mode reply.
pub open spec fn vcp_decode(value: u32) -> Result<PowerMode, MonitorError> {
    if value == VCP_POWER_MODE_ON {
        Result::Ok(PowerMode::On)
    } else if value == VCP_POWER_MODE_NONE || value == VCP_POWER_MODE_OFF {
        Result::Ok(PowerMode::Off)
    } else {
        Result::Err(MonitorError::UnrecognizedPowerMode(value))
    }
}

/// The raw value a feature-write must issue to request a mode.
pub open spec fn vcp_encode(mode: PowerMode) -> u32 {
    match mode {
        PowerMode::On => VCP_POWER_MODE_ON,
        PowerMode::Off => VCP_POWER_MODE_OFF,
    }
}

/// Whether a raw reply decodes to a power mode at all.
pub open spec fn recognized_power_reply(value: u32) -> bool {
    vcp_decode(value) is Ok
}

impl PowerMode {
    /// Decodes a raw power-mode reply; a value outside the known codes is
    /// an error, never a panic.
    pub fn from_vcp_code(value: u32) -> (r: Result<PowerMode, MonitorError>)
        ensures
            r == vcp_decode(value),
    {
        if value == VCP_POWER_MODE_ON {
            Result::Ok(PowerMode::On)
        } else if value == VCP_POWER_MODE_NONE || value == VCP_POWER_MODE_OFF {
            Result::Ok(PowerMode::Off)
        } else {
            Result::Err(MonitorError::UnrecognizedPowerMode(value))
        }
    }

    /// The raw value written to request this mode.
    pub fn vcp_code(&self) -> (r: u32)
        ensures
            r == vcp_encode(*self),
    {
        match self {
            PowerMode::On => VCP_POWER_MODE_ON,
            PowerMode::Off => VCP_POWER_MODE_OFF,
        }
    }
}

/// Maps the boolean success flag the OS returns for a feature-write to a
/// result: a false flag is a write failure, never swallowed.
pub fn power_write_result(ok: bool) -> (r: Result<(), MonitorError>)
    ensures
        ok ==> r == Result::<(), MonitorError>::Ok(()),
        !ok ==> r == Result::<(), MonitorError>::Err(MonitorError::PowerModeWriteFailed),
{
    if ok {
        Result::Ok(())
    } else {
        Result::Err(MonitorError::PowerModeWriteFailed)
    }
}

} // verus!
