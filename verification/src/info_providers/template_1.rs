//! A report form covering the state of two smart sockets with given
//! names.

use vstd::prelude::*;
use vstd::string::StringExecFns;

use crate::devices::socket::SmartSocket;
use crate::info_providers::{SmartDeviceInfoProvider, SmartDeviceRegistrationState};
use crate::smart_house::{model_device_in_room, SmartHouse};

verus! {

/// The line this form emits for a located device.
pub open spec fn located_line(room_name: Seq<char>, device_name: Seq<char>) -> Seq<char> {
    device_name + " is located in "@ + room_name + "\n"@
}

/// A report form naming two smart sockets of interest. It adjudicates
/// membership queries by delegating to the house itself.
pub struct SocketReport {
    most_wanted_socket_1: String,
    most_wanted_socket_2: String,
}

impl SocketReport {
    /// Creates a report form covering the two given sockets.
    pub fn new(socket_1: &SmartSocket, socket_2: &SmartSocket) -> (r: Self)
        ensures
            r.wanted_names() == seq![socket_1.name@, socket_2.name@],
    {
        let r = SocketReport {
            most_wanted_socket_1: socket_1.get_name().to_owned(),
            most_wanted_socket_2: socket_2.get_name().to_owned(),
        };
        proof {
            assert(r.wanted_names() =~= seq![socket_1.name@, socket_2.name@]);
        }
        r
    }
}

impl SmartDeviceInfoProvider for SocketReport {
    closed spec fn wanted_names(&self) -> Seq<Seq<char>> {
        seq![self.most_wanted_socket_1@, self.most_wanted_socket_2@]
    }

    open spec fn locates(
        &self,
        house: SmartHouse,
        room_name: Seq<char>,
        device_name: Seq<char>,
    ) -> bool {
        model_device_in_room(house.model(), room_name, device_name)
    }

    open spec fn located_text(&self, room_name: Seq<char>, device_name: Seq<char>) -> Seq<char> {
        located_line(room_name, device_name)
    }

    fn get_device_status_info(
        &self,
        smart_house_instance: &SmartHouse,
        room_name: &str,
        device_name: &str,
    ) -> (r: SmartDeviceRegistrationState) {
        if smart_house_instance.is_device_presented_in_room(room_name, device_name) {
            let mut text = device_name.to_owned();
            text.append(" is located in ");
            text.append(room_name);
            text.append("\n");
            SmartDeviceRegistrationState::Registered(text)
        } else {
            SmartDeviceRegistrationState::NotFound("Not found!".to_owned())
        }
    }

    fn get_device_names(&self) -> (r: Vec<String>) {
        let mut r: Vec<String> = Vec::new();
        r.push(self.most_wanted_socket_1.clone());
        r.push(self.most_wanted_socket_2.clone());
        proof {
            assert(r.deep_view() =~= self.wanted_names());
        }
        r
    }
}

} // verus!
