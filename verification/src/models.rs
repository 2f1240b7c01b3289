//! What a device reports about itself, its connection and its configuration.

use crate::text::{chars_of, same_chars};
use vstd::prelude::*;

verus! {

/// Identity of the device, as its information reply gives it. A field that
/// the reply does not carry is empty.
#[derive(Debug, PartialEq, Eq)]
pub struct DeviceInfo {
    pub manufacturer: String,
    pub model: String,
    pub version: String,
    pub imei: String,
    pub capabilities: String,
}

/// State of the data connection, for IPv4 and IPv6: the state code and the
/// error code of each, as the device wrote them.
#[derive(Debug, PartialEq, Eq)]
pub struct ConnectionStatus {
    pub ipv4_stat: String,
    pub ipv4_err: String,
    pub ipv6_stat: String,
    pub ipv6_err: String,
}

/// Settings of the device's PCIe LAN side and of automatic dialling.
#[derive(Debug, Clone, Copy, PartialEq, Eq)]
pub struct ConfigInfo {
    /// 1: 1 Gbps, 2: 2.5 Gbps.
    pub pcie_lan_mode: i32,
    pub pcie_pm_enabled: bool,
    pub auto_dial_enabled: bool,
    /// 0: modem, 1: host over USB, 2: host over the PHY.
    pub dial_mode: i32,
}

/// The model that this library's queries are written for.
pub const SUPPORTED_MODEL: &'static str = "MT5700M-CN";

impl DeviceInfo {
    /// Whether the device is of the supported model.
    pub fn is_supported(&self) -> (r: bool)
        ensures
            r == (self.model@ == SUPPORTED_MODEL@),
    {
        same_chars(chars_of(self.model.as_str()).as_slice(), chars_of(SUPPORTED_MODEL).as_slice())
    }
}

impl ConfigInfo {
    /// The speed that a LAN mode stands for.
    pub open spec fn spec_lan_speed(mode: i32) -> Seq<char> {
        if mode == 1 {
            "1Gbps"@
        } else if mode == 2 {
            "2.5Gbps"@
        } else {
            "unknown"@
        }
    }

    /// The side that dials in a dial mode.
    pub open spec fn spec_dial_mode_name(mode: i32) -> Seq<char> {
        if mode == 0 {
            "modem"@
        } else if mode == 1 {
            "host (usb)"@
        } else if mode == 2 {
            "host (phy)"@
        } else {
            "unknown"@
        }
    }

    /// The speed of the PCIe LAN side, in words.
    pub fn lan_speed(&self) -> (r: &'static str)
        ensures
            r@ == Self::spec_lan_speed(self.pcie_lan_mode),
    {
        if self.pcie_lan_mode == 1 {
            "1Gbps"
        } else if self.pcie_lan_mode == 2 {
            "2.5Gbps"
        } else {
            "unknown"
        }
    }

    /// The side that dials, in words.
    pub fn dial_mode_name(&self) -> (r: &'static str)
        ensures
            r@ == Self::spec_dial_mode_name(self.dial_mode),
    {
        if self.dial_mode == 0 {
            "modem"
        } else if self.dial_mode == 1 {
            "host (usb)"
        } else if self.dial_mode == 2 {
            "host (phy)"
        } else {
            "unknown"
        }
    }
}

} // verus!
