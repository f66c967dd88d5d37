//! The smart socket: a device that switches the appliances plugged
//! into it on and off and reports the power they draw.

use vstd::prelude::*;
use vstd::string::StringExecFns;

use crate::devices::smart_device::{
    status_text, status_transition, status_transition_result, SmartDeviceErrorCode,
    SmartDevicePowerState, SmartDeviceStatus,
};
use crate::text::{dec_of, u64_to_string};

verus! {

/// A smart socket. It is created switched off, drawing no power, and a
/// fault code can only be stored by a collaborator outside this crate's
/// scope.
pub struct SmartSocket {
    /// The user-chosen alias of the socket.
    pub name: String,
    /// The power, in watts, drawn by the appliances plugged in.
    pub power_consumption: u64,
    /// The working status of the socket.
    pub status: SmartDeviceStatus,
}

impl SmartSocket {
    /// The socket's current status.
    pub open spec fn spec_status(&self) -> SmartDeviceStatus {
        self.status
    }

    /// The power currently drawn, in watts.
    pub open spec fn spec_power_consumption(&self) -> u64 {
        self.power_consumption
    }

    /// The socket's text report.
    pub open spec fn spec_text_report(&self) -> Seq<char> {
        "Current power consumption is "@ + dec_of(self.spec_power_consumption() as nat)
            + ", status: "@ + status_text(self.spec_status()) + " \n"@
    }

    /// Creates a socket named `name`, switched off and drawing no power.
    pub fn new(name: &str) -> (r: Self)
        ensures
            r.name@ == name@,
            r.spec_power_consumption() == 0,
            r.spec_status() == SmartDeviceStatus::PowerState(SmartDevicePowerState::Disabled),
    {
        SmartSocket {
            name: name.to_owned(),
            power_consumption: 0,
            status: SmartDeviceStatus::PowerState(SmartDevicePowerState::Disabled),
        }
    }

    /// The socket's name.
    pub fn get_name(&self) -> (r: &str)
        ensures
            r@ == self.name@,
    {
        self.name.as_str()
    }

    /// Requests the power state `state`. A working socket takes it; a
    /// malfunctioning one refuses, returns its fault code, and stays
    /// unchanged.
    pub fn set_power_state(&mut self, state: SmartDevicePowerState) -> (r: Result<
        (),
        SmartDeviceErrorCode,
    >)
        ensures
            final(self).name == old(self).name,
            final(self).spec_power_consumption() == old(self).spec_power_consumption(),
            final(self).spec_status() == status_transition(old(self).spec_status(), state),
            r == status_transition_result(old(self).spec_status(), state),
            old(self).spec_status() is Malfunction ==> *final(self) == *old(self),
    {
        match self.status {
            SmartDeviceStatus::PowerState(_) => {
                self.status = SmartDeviceStatus::PowerState(state);
                Ok(())
            },
            SmartDeviceStatus::Malfunction(e) => Err(e),
        }
    }

    /// A copy of the socket's current status.
    pub fn get_device_status(&self) -> (r: SmartDeviceStatus)
        ensures
            r == self.spec_status(),
    {
        self.status
    }

    /// The socket's report rendered as human-readable text.
    pub fn get_text_report(&self) -> (r: String)
        ensures
            r@ == self.spec_text_report(),
    {
        let mut r = "Current power consumption is ".to_owned();
        r.append(u64_to_string(self.power_consumption).as_str());
        r.append(", status: ");
        r.append(self.status.text().as_str());
        r.append(" \n");
        r
    }
}

} // verus!
