//! Info providers: caller-supplied collaborators that name the
//! devices a report should cover and adjudicate, per room, whether a
//! device is registered there.

use vstd::prelude::*;

use crate::smart_house::SmartHouse;

pub mod template_1;
pub mod template_2;

verus! {

/// How a provider answers one membership query.
pub enum SmartDeviceRegistrationState {
    /// The device is registered in the queried room; the text is the
    /// report line to emit.
    Registered(String),
    /// The device is not registered in the queried room; the text is
    /// explanatory only and never reaches the report.
    NotFound(String),
}

/// A provider of device information for a report: it lists the device
/// names of interest and answers, for one house and one room, whether
/// a device of interest is registered there.
pub trait SmartDeviceInfoProvider {
    /// The device names the provider wants reported on, in order.
    spec fn wanted_names(&self) -> Seq<Seq<char>>;

    /// Whether the provider locates the device named `device_name` in
    /// the room named `room_name` of `house`.
    spec fn locates(&self, house: SmartHouse, room_name: Seq<char>, device_name: Seq<char>) -> bool;

    /// The text the provider emits for a located device.
    spec fn located_text(&self, room_name: Seq<char>, device_name: Seq<char>) -> Seq<char>;

    /// Answers whether the device named `device_name` is registered in
    /// the room named `room_name` of `smart_house_instance`, with the
    /// text to emit when it is.
    fn get_device_status_info(
        &self,
        smart_house_instance: &SmartHouse,
        room_name: &str,
        device_name: &str,
    ) -> (r: SmartDeviceRegistrationState)
        requires
            smart_house_instance.wf(),
        ensures
            (r is Registered) == self.locates(*smart_house_instance, room_name@, device_name@),
            r matches SmartDeviceRegistrationState::Registered(x) ==> x@ == self.located_text(
                room_name@,
                device_name@,
            ),
    ;

    /// The device names the provider wants reported on.
    fn get_device_names(&self) -> (r: Vec<String>)
        ensures
            r.deep_view() == self.wanted_names(),
    ;
}

} // verus!
