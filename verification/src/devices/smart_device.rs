//! Common behaviour of smart devices: the status and power-state
//! enumerations, their rendering as text, and the device sum type that
//! rooms store.

use vstd::prelude::*;

use crate::devices::socket::SmartSocket;
use crate::devices::thermometer::SmartThermometer;

verus! {

/// Power states a device can be switched between.
#[derive(Clone, Copy, PartialEq, Eq, Structural, Debug)]
pub enum SmartDevicePowerState {
    /// The device is switched on.
    Enabled,
    /// The device is switched off.
    Disabled,
}

/// Fault codes a device can be stuck in.
#[derive(Clone, Copy, PartialEq, Eq, Structural, Debug)]
pub enum SmartDeviceErrorCode {
    /// Too much current is drawn.
    Overcurrent,
    /// The supply voltage is too high.
    Overvoltage,
    /// The device is too hot.
    Overheat,
    /// The device is too cold.
    Underheat,
}

/// The status of a device: it is either in a power state or in a
/// malfunction state, never both.
#[derive(Clone, Copy, PartialEq, Eq, Structural, Debug)]
pub enum SmartDeviceStatus {
    /// The device works and is switched on or off.
    PowerState(SmartDevicePowerState),
    /// The device is stuck with a fault code.
    Malfunction(SmartDeviceErrorCode),
}

/// The text a power state is rendered as.
pub open spec fn power_state_text(s: SmartDevicePowerState) -> Seq<char> {
    match s {
        SmartDevicePowerState::Enabled => "Enabled."@,
        SmartDevicePowerState::Disabled => "Disabled."@,
    }
}

/// The text a fault code is rendered as.
pub open spec fn error_code_text(e: SmartDeviceErrorCode) -> Seq<char> {
    match e {
        SmartDeviceErrorCode::Overcurrent => "Overcurrent error."@,
        SmartDeviceErrorCode::Overvoltage => "Overvoltage error."@,
        SmartDeviceErrorCode::Overheat => "Overheat error."@,
        SmartDeviceErrorCode::Underheat => "Underheat error."@,
    }
}

/// The text a status is rendered as.
pub open spec fn status_text(s: SmartDeviceStatus) -> Seq<char> {
    match s {
        SmartDeviceStatus::PowerState(p) => power_state_text(p),
        SmartDeviceStatus::Malfunction(e) => error_code_text(e),
    }
}

/// How one `set_power_state` request changes a status: a working device
/// takes the requested power state, a malfunctioning one keeps its fault.
pub open spec fn status_transition(
    st: SmartDeviceStatus,
    state: SmartDevicePowerState,
) -> SmartDeviceStatus {
    match st {
        SmartDeviceStatus::PowerState(_) => SmartDeviceStatus::PowerState(state),
        SmartDeviceStatus::Malfunction(_) => st,
    }
}

/// What one `set_power_state` request returns for a device in status `st`.
pub open spec fn status_transition_result(
    st: SmartDeviceStatus,
    state: SmartDevicePowerState,
) -> Result<(), SmartDeviceErrorCode> {
    match st {
        SmartDeviceStatus::PowerState(_) => Ok(()),
        SmartDeviceStatus::Malfunction(e) => Err(e),
    }
}

/// The status after a whole sequence of `set_power_state` requests.
pub open spec fn status_after(
    st: SmartDeviceStatus,
    requests: Seq<SmartDevicePowerState>,
) -> SmartDeviceStatus
    decreases requests.len(),
{
    if requests.len() == 0 {
        st
    } else {
        status_after(status_transition(st, requests[0]), requests.drop_first())
    }
}

/// Law: once a device's status is a malfunction, any sequence of
/// `set_power_state` requests leaves the status unchanged, and each
/// single request returns exactly the stored fault code.
pub proof fn lemma_malfunction_is_permanent(
    e: SmartDeviceErrorCode,
    requests: Seq<SmartDevicePowerState>,
)
    ensures
        status_after(SmartDeviceStatus::Malfunction(e), requests)
            == SmartDeviceStatus::Malfunction(e),
        forall|state: SmartDevicePowerState|
            status_transition_result(SmartDeviceStatus::Malfunction(e), state) == Result::<
                (),
                SmartDeviceErrorCode,
            >::Err(e),
    decreases requests.len(),
{
    if requests.len() > 0 {
        lemma_malfunction_is_permanent(e, requests.drop_first());
    }
}

impl SmartDeviceStatus {
    /// The status rendered as human-readable text.
    pub fn text(&self) -> (r: String)
        ensures
            r@ == status_text(*self),
    {
        match self {
            SmartDeviceStatus::PowerState(SmartDevicePowerState::Enabled) => "Enabled.".to_owned(),
            SmartDeviceStatus::PowerState(SmartDevicePowerState::Disabled) => {
                "Disabled.".to_owned()
            },
            SmartDeviceStatus::Malfunction(SmartDeviceErrorCode::Overcurrent) => {
                "Overcurrent error.".to_owned()
            },
            SmartDeviceStatus::Malfunction(SmartDeviceErrorCode::Overvoltage) => {
                "Overvoltage error.".to_owned()
            },
            SmartDeviceStatus::Malfunction(SmartDeviceErrorCode::Overheat) => {
                "Overheat error.".to_owned()
            },
            SmartDeviceStatus::Malfunction(SmartDeviceErrorCode::Underheat) => {
                "Underheat error.".to_owned()
            },
        }
    }
}

/// A smart device of any supported kind. Rooms store devices through
/// this sum type and dispatch the shared capability set over it.
pub enum SmartDevice {
    /// A smart socket.
    Socket(SmartSocket),
    /// A smart thermometer.
    Thermometer(SmartThermometer),
}

impl SmartDevice {
    /// The device's name.
    pub open spec fn spec_name(&self) -> Seq<char> {
        match self {
            SmartDevice::Socket(s) => s.name@,
            SmartDevice::Thermometer(t) => t.name@,
        }
    }

    /// The device's current status.
    pub open spec fn spec_status(&self) -> SmartDeviceStatus {
        match self {
            SmartDevice::Socket(s) => s.spec_status(),
            SmartDevice::Thermometer(t) => t.spec_status(),
        }
    }

    /// The device's text report.
    pub open spec fn spec_text_report(&self) -> Seq<char> {
        match self {
            SmartDevice::Socket(s) => s.spec_text_report(),
            SmartDevice::Thermometer(t) => t.spec_text_report(),
        }
    }

    /// The device's name.
    pub fn get_name(&self) -> (r: &str)
        ensures
            r@ == self.spec_name(),
    {
        match self {
            SmartDevice::Socket(s) => s.get_name(),
            SmartDevice::Thermometer(t) => t.get_name(),
        }
    }

    /// A copy of the device's current status.
    pub fn get_device_status(&self) -> (r: SmartDeviceStatus)
        ensures
            r == self.spec_status(),
    {
        match self {
            SmartDevice::Socket(s) => s.get_device_status(),
            SmartDevice::Thermometer(t) => t.get_device_status(),
        }
    }

    /// Requests the power state `state`. A working device takes it; a
    /// malfunctioning device refuses and returns its fault code, with
    /// nothing about the device changed.
    pub fn set_power_state(&mut self, state: SmartDevicePowerState) -> (r: Result<
        (),
        SmartDeviceErrorCode,
    >)
        ensures
            final(self).spec_name() == old(self).spec_name(),
            final(self).spec_status() == status_transition(old(self).spec_status(), state),
            r == status_transition_result(old(self).spec_status(), state),
            old(self).spec_status() is Malfunction ==> *final(self) == *old(self),
    {
        match self {
            SmartDevice::Socket(s) => s.set_power_state(state),
            SmartDevice::Thermometer(t) => t.set_power_state(state),
        }
    }

    /// The device's report rendered as human-readable text.
    pub fn get_text_report(&self) -> (r: String)
        ensures
            r@ == self.spec_text_report(),
    {
        match self {
            SmartDevice::Socket(s) => s.get_text_report(),
            SmartDevice::Thermometer(t) => t.get_text_report(),
        }
    }
}

} // verus!
