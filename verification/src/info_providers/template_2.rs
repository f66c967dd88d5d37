//! A report form covering the state of two thermometers and one smart
//! socket with given names.

use vstd::prelude::*;
use vstd::string::StringExecFns;

use crate::devices::socket::SmartSocket;
use crate::devices::thermometer::SmartThermometer;
use crate::info_providers::template_1::located_line;
use crate::info_providers::{SmartDeviceInfoProvider, SmartDeviceRegistrationState};
use crate::smart_house::{model_device_in_room, SmartHouse};

verus! {

/// A report form naming two thermometers and one socket of interest.
/// It adjudicates membership queries by delegating to the house
/// itself.
pub struct MixedDevicesReport {
    thermometer_instance_1: String,
    thermometer_instance_2: String,
    smart_socket_1: String,
}

impl MixedDevicesReport {
    /// Creates a report form covering the two given thermometers and
    /// the given socket.
    pub fn new(
        thermo_1: &SmartThermometer,
        thermo_2: &SmartThermometer,
        socket_1: &SmartSocket,
    ) -> (r: Self)
        ensures
            r.wanted_names() == seq![thermo_1.name@, thermo_2.name@, socket_1.name@],
    {
        let r = MixedDevicesReport {
            thermometer_instance_1: thermo_1.get_name().to_owned(),
            thermometer_instance_2: thermo_2.get_name().to_owned(),
            smart_socket_1: socket_1.get_name().to_owned(),
        };
        proof {
            assert(r.wanted_names() =~= seq![thermo_1.name@, thermo_2.name@, socket_1.name@]);
        }
        r
    }
}

impl SmartDeviceInfoProvider for MixedDevicesReport {
    closed spec fn wanted_names(&self) -> Seq<Seq<char>> {
        seq![
            self.thermometer_instance_1@,
            self.thermometer_instance_2@,
            self.smart_socket_1@,
        ]
    }

    open spec fn locates(
        &self,
        house: SmartHouse,
        room_name: Seq<char>,
        device_name: Seq<char>,
    ) -> bool {
        model_device_in_room(house.model(), room_name, device_name)
    }

    open spec fn located_text(&self, room_name: Seq<char>, device_name: Seq<char>) -> Seq<char> {
        located_line(room_name, device_name)
    }

    fn get_device_status_info(
        &self,
        smart_house_instance: &SmartHouse,
        room_name: &str,
        device_name: &str,
    ) -> (r: SmartDeviceRegistrationState) {
        if smart_house_instance.is_device_presented_in_room(room_name, device_name) {
            let mut text = device_name.to_owned();
            text.append(" is located in ");
            text.append(room_name);
            text.append("\n");
            SmartDeviceRegistrationState::Registered(text)
        } else {
            SmartDeviceRegistrationState::NotFound("Not found!".to_owned())
        }
    }

    fn get_device_names(&self) -> (r: Vec<String>) {
        let mut r: Vec<String> = Vec::new();
        r.push(self.thermometer_instance_1.clone());
        r.push(self.thermometer_instance_2.clone());
        r.push(self.smart_socket_1.clone());
        proof {
            assert(r.deep_view() =~= self.wanted_names());
        }
        r
    }
}

} // verus!
