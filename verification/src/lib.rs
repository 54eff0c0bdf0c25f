//! Core logic for reading and setting display brightness as a canonical
//! 0-100 percentage across two platform shapes: a single kernel backlight
//! scale with a privileged bus-mediated setter, and a set of physical
//! monitors each controlled either by the firmware IOCTL protocol
//! (internal panels) or by DDC/CI (external monitors).
//!
//! Raw platform calls happen outside this crate; the logic here works on
//! the plain values those calls produce and consume.

use vstd::prelude::*;

pub mod backlight;
pub mod discover;
pub mod monitor;

verus! {

use crate::backlight::BacklightError;
use crate::monitor::SysError;

/// The platform failure behind a public error, kept for diagnostics.
#[derive(Debug, Clone, PartialEq, Eq)]
pub enum Cause {
    /// A failure of the multi-monitor platform.
    Monitor(SysError),
    /// A failure of the kernel backlight platform.
    Backlight(BacklightError),
    /// A failure reported by the system bus during a privileged set call.
    Bus { message: String },
}

/// The public error kinds. Every platform failure maps to exactly one of
/// these; none is surfaced directly.
#[derive(Debug, Clone, PartialEq, Eq)]
pub enum Error {
    /// Listing devices failed before any device could be reported.
    ListingDevicesFailed { source: Cause },
    /// Querying information of the named device failed.
    GettingDeviceInfoFailed { device: String, source: Cause },
    /// Setting brightness of the named device failed.
    SettingBrightnessFailed { device: String, source: Cause },
}

/// The exact public kind each multi-monitor platform failure maps to:
/// enumeration and correlation failures surface as listing failures,
/// query failures carry the device name, set failures likewise.
pub open spec fn error_maps_sys(e: SysError, r: Error) -> bool {
    match e {
        SysError::EnumDisplayMonitorsFailed { .. } => r == Error::ListingDevicesFailed {
            source: Cause::Monitor(e),
        },
        SysError::GetDisplayConfigBufferSizesFailed { .. } => r == Error::ListingDevicesFailed {
            source: Cause::Monitor(e),
        },
        SysError::QueryDisplayConfigFailed { .. } => r == Error::ListingDevicesFailed {
            source: Cause::Monitor(e),
        },
        SysError::DisplayConfigGetDeviceInfoFailed { .. } => r == Error::ListingDevicesFailed {
            source: Cause::Monitor(e),
        },
        SysError::GetMonitorInfoFailed { .. } => r == Error::ListingDevicesFailed {
            source: Cause::Monitor(e),
        },
        SysError::GetPhysicalMonitorsFailed { .. } => r == Error::ListingDevicesFailed {
            source: Cause::Monitor(e),
        },
        SysError::EnumerationMismatch => r == Error::ListingDevicesFailed {
            source: Cause::Monitor(e),
        },
        SysError::DeviceInfoMissing => r == Error::ListingDevicesFailed {
            source: Cause::Monitor(e),
        },
        SysError::OpeningMonitorDeviceInterfaceHandleFailed { .. } => r
            == Error::ListingDevicesFailed { source: Cause::Monitor(e) },
        SysError::IoctlQuerySupportedBrightnessFailed { device_name, .. } => r matches
            Error::GettingDeviceInfoFailed { device, source } && device@ == device_name@
            && source == Cause::Monitor(e),
        SysError::IoctlQueryDisplayBrightnessFailed { device_name, .. } => r matches
            Error::GettingDeviceInfoFailed { device, source } && device@ == device_name@
            && source == Cause::Monitor(e),
        SysError::IoctlQueryDisplayBrightnessUnexpectedResponse { device_name } => r matches
            Error::GettingDeviceInfoFailed { device, source } && device@ == device_name@
            && source == Cause::Monitor(e),
        SysError::GettingMonitorBrightnessFailed { device_name, .. } => r matches
            Error::GettingDeviceInfoFailed { device, source } && device@ == device_name@
            && source == Cause::Monitor(e),
        SysError::DdcciInvalidBrightnessRange { device_name } => r matches
            Error::GettingDeviceInfoFailed { device, source } && device@ == device_name@
            && source == Cause::Monitor(e),
        SysError::IoctlSetBrightnessFailed { device_name, .. } => r matches
            Error::SettingBrightnessFailed { device, source } && device@ == device_name@
            && source == Cause::Monitor(e),
        SysError::SettingBrightnessFailed { device_name, .. } => r matches
            Error::SettingBrightnessFailed { device, source } && device@ == device_name@
            && source == Cause::Monitor(e),
    }
}

/// Maps a multi-monitor platform failure to its public kind, attaching
/// the device name where the failure is device-scoped and keeping the
/// original failure as the cause. The mapping is total and deterministic.
pub fn error_from_sys(e: SysError) -> (r: Error)
    ensures
        error_maps_sys(e, r),
{
    match &e {
        SysError::EnumDisplayMonitorsFailed { .. } => Error::ListingDevicesFailed {
            source: Cause::Monitor(e),
        },
        SysError::GetDisplayConfigBufferSizesFailed { .. } => Error::ListingDevicesFailed {
            source: Cause::Monitor(e),
        },
        SysError::QueryDisplayConfigFailed { .. } => Error::ListingDevicesFailed {
            source: Cause::Monitor(e),
        },
        SysError::DisplayConfigGetDeviceInfoFailed { .. } => Error::ListingDevicesFailed {
            source: Cause::Monitor(e),
        },
        SysError::GetMonitorInfoFailed { .. } => Error::ListingDevicesFailed {
            source: Cause::Monitor(e),
        },
        SysError::GetPhysicalMonitorsFailed { .. } => Error::ListingDevicesFailed {
            source: Cause::Monitor(e),
        },
        SysError::EnumerationMismatch => Error::ListingDevicesFailed {
            source: Cause::Monitor(e),
        },
        SysError::DeviceInfoMissing => Error::ListingDevicesFailed {
            source: Cause::Monitor(e),
        },
        SysError::OpeningMonitorDeviceInterfaceHandleFailed { .. } => Error::ListingDevicesFailed {
            source: Cause::Monitor(e),
        },
        SysError::IoctlQuerySupportedBrightnessFailed { device_name, .. } => {
            let device = device_name.clone();
            Error::GettingDeviceInfoFailed { device, source: Cause::Monitor(e) }
        },
        SysError::IoctlQueryDisplayBrightnessFailed { device_name, .. } => {
            let device = device_name.clone();
            Error::GettingDeviceInfoFailed { device, source: Cause::Monitor(e) }
        },
        SysError::IoctlQueryDisplayBrightnessUnexpectedResponse { device_name } => {
            let device = device_name.clone();
            Error::GettingDeviceInfoFailed { device, source: Cause::Monitor(e) }
        },
        SysError::GettingMonitorBrightnessFailed { device_name, .. } => {
            let device = device_name.clone();
            Error::GettingDeviceInfoFailed { device, source: Cause::Monitor(e) }
        },
        SysError::DdcciInvalidBrightnessRange { device_name } => {
            let device = device_name.clone();
            Error::GettingDeviceInfoFailed { device, source: Cause::Monitor(e) }
        },
        SysError::IoctlSetBrightnessFailed { device_name, .. } => {
            let device = device_name.clone();
            Error::SettingBrightnessFailed { device, source: Cause::Monitor(e) }
        },
        SysError::SettingBrightnessFailed { device_name, .. } => {
            let device = device_name.clone();
            Error::SettingBrightnessFailed { device, source: Cause::Monitor(e) }
        },
    }
}

/// The exact public kind each kernel backlight failure maps to.
pub open spec fn error_maps_backlight(e: BacklightError, r: Error) -> bool {
    match e {
        BacklightError::ReadingBacklightDirFailed { .. } => r == Error::ListingDevicesFailed {
            source: Cause::Backlight(e),
        },
        BacklightError::ReadingBacklightInfoFailed { device, .. } => r matches
            Error::GettingDeviceInfoFailed { device: d, source } && d@ == device@
            && source == Cause::Backlight(e),
        BacklightError::ParsingBacklightInfoFailed { device } => r matches
            Error::GettingDeviceInfoFailed { device: d, source } && d@ == device@
            && source == Cause::Backlight(e),
        BacklightError::WritingBrightnessFailed { device, .. } => r matches
            Error::SettingBrightnessFailed { device: d, source } && d@ == device@
            && source == Cause::Backlight(e),
    }
}

/// Maps a kernel backlight failure to its public kind, attaching the
/// device name where the failure is device-scoped and keeping the
/// original failure as the cause. The mapping is total and deterministic.
pub fn error_from_backlight(e: BacklightError) -> (r: Error)
    ensures
        error_maps_backlight(e, r),
{
    match &e {
        BacklightError::ReadingBacklightDirFailed { .. } => Error::ListingDevicesFailed {
            source: Cause::Backlight(e),
        },
        BacklightError::ReadingBacklightInfoFailed { device, .. } => {
            let d = device.clone();
            Error::GettingDeviceInfoFailed { device: d, source: Cause::Backlight(e) }
        },
        BacklightError::ParsingBacklightInfoFailed { device } => {
            let d = device.clone();
            Error::GettingDeviceInfoFailed { device: d, source: Cause::Backlight(e) }
        },
        BacklightError::WritingBrightnessFailed { device, .. } => {
            let d = device.clone();
            Error::SettingBrightnessFailed { device: d, source: Cause::Backlight(e) }
        },
    }
}

} // verus!
