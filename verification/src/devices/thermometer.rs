//! The smart thermometer: a device that measures the ambient
//! temperature and reports it.

use vstd::prelude::*;
use vstd::string::StringExecFns;

use crate::devices::smart_device::{
    status_text, status_transition, status_transition_result, SmartDeviceErrorCode,
    SmartDevicePowerState, SmartDeviceStatus,
};
use crate::text::{dec_int_of, i64_to_string};

verus! {

/// A smart thermometer. It is created switched off, reading zero
/// degrees, and a fault code can only be stored by a collaborator
/// outside this crate's scope.
pub struct SmartThermometer {
    /// The user-chosen alias of the thermometer.
    pub name: String,
    /// The ambient temperature, in degrees Celsius.
    pub temperature: i64,
    /// The working status of the thermometer.
    pub status: SmartDeviceStatus,
}

impl SmartThermometer {
    /// The thermometer's current status.
    pub open spec fn spec_status(&self) -> SmartDeviceStatus {
        self.status
    }

    /// The measured temperature, in degrees Celsius.
    pub open spec fn spec_temperature(&self) -> i64 {
        self.temperature
    }

    /// The thermometer's text report.
    pub open spec fn spec_text_report(&self) -> Seq<char> {
        "Current temperature is "@ + dec_int_of(self.spec_temperature() as int) + ", status: "@
            + status_text(self.spec_status()) + "\n"@
    }

    /// Creates a thermometer named `name`, switched off and reading
    /// zero degrees.
    pub fn new(name: &str) -> (r: Self)
        ensures
            r.name@ == name@,
            r.spec_temperature() == 0,
            r.spec_status() == SmartDeviceStatus::PowerState(SmartDevicePowerState::Disabled),
    {
        SmartThermometer {
            name: name.to_owned(),
            temperature: 0,
            status: SmartDeviceStatus::PowerState(SmartDevicePowerState::Disabled),
        }
    }

    /// The thermometer's name.
    pub fn get_name(&self) -> (r: &str)
        ensures
            r@ == self.name@,
    {
        self.name.as_str()
    }

    /// Requests the power state `state`. A working thermometer takes
    /// it; a malfunctioning one refuses, returns its fault code, and
    /// stays unchanged.
    pub fn set_power_state(&mut self, state: SmartDevicePowerState) -> (r: Result<
        (),
        SmartDeviceErrorCode,
    >)
        ensures
            final(self).name == old(self).name,
            final(self).spec_temperature() == old(self).spec_temperature(),
            final(self).spec_status() == status_transition(old(self).spec_status(), state),
            r == status_transition_result(old(self).spec_status(), state),
            old(self).spec_status() is Malfunction ==> *final(self) == *old(self),
    {
        match self.status {
            SmartDeviceStatus::PowerState(_) => {
                self.status = SmartDeviceStatus::PowerState(state);
                Ok(())
            },
            SmartDeviceStatus::Malfunction(e) => Err(e),
        }
    }

    /// A copy of the thermometer's current status.
    pub fn get_device_status(&self) -> (r: SmartDeviceStatus)
        ensures
            r == self.spec_status(),
    {
        self.status
    }

    /// The thermometer's report rendered as human-readable text.
    pub fn get_text_report(&self) -> (r: String)
        ensures
            r@ == self.spec_text_report(),
    {
        let mut r = "Current temperature is ".to_owned();
        r.append(i64_to_string(self.temperature).as_str());
        r.append(", status: ");
        r.append(self.status.text().as_str());
        r.append("\n");
        r
    }
}

} // verus!
