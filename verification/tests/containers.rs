use iot_crate::containers::ErrorReason;
use iot_crate::house::House;
use iot_crate::room::Room;
use iot_crate::smart_device::SmartDevice;
use iot_crate::socket::SmartSocket;
use iot_crate::thermometer::SmartThermometer;

#[test]
fn house_fills_to_room_limit_then_refuses() {
    let mut house = House::new("H", 3);
    for i in 0..3 {
        let added = house.create_new_empty_room(&format!("Room_{}", i), 2);
        assert!(added.is_ok(), "room {} must be added", i);
    }
    let refused = house.create_new_empty_room("Room_3", 2);
    assert_eq!(refused.unwrap_err(), ErrorReason::ItemLimitExceeded);
}

#[test]
fn duplicate_room_keeps_existing_devices() {
    let mut house = House::new("H", 3);
    let mut original_room = Room::new("Room_0", 2);
    original_room
        .add_device(SmartDevice::Socket(SmartSocket::new("Kept_Socket")))
        .unwrap();
    house.add_room(original_room).unwrap();

    let mut occupied = Room::new("Room_0", 2);
    occupied
        .add_device(SmartDevice::Socket(SmartSocket::new("Socket_1")))
        .unwrap();
    let refused = house.add_room(occupied);
    assert_eq!(refused.unwrap_err(), ErrorReason::ItemAlreadyPresented);

    let kept = house.get_room("Room_0").expect("room must stay");
    assert_eq!(kept.get_device_list(), vec!["Kept_Socket".to_string()]);
}

#[test]
fn room_fills_to_device_limit_then_refuses_and_remove_makes_space() {
    let mut room = Room::new("R", 3);
    for i in 0..3 {
        let added = room.add_device(SmartDevice::Socket(SmartSocket::new(&format!(
            "Socket_{}",
            i
        ))));
        assert!(added.is_ok(), "device {} must be added", i);
    }
    let refused = room.add_device(SmartDevice::Socket(SmartSocket::new("Socket_3")));
    assert_eq!(refused.unwrap_err(), ErrorReason::ItemLimitExceeded);

    room.remove_device("Socket_1").unwrap();
    let duplicate = room.add_device(SmartDevice::Thermometer(SmartThermometer::new("Socket_0")));
    assert_eq!(duplicate.unwrap_err(), ErrorReason::ItemAlreadyPresented);

    let readded = room.add_device(SmartDevice::Socket(SmartSocket::new("Socket_3")));
    assert!(readded.is_ok());
}

#[test]
fn add_then_get_returns_the_same_name() {
    let mut room = Room::new("R", 4);
    let device = SmartDevice::Thermometer(SmartThermometer::new("Thermometer_9"));
    let wanted_name = device.get_name().to_string();
    room.add_device(device).unwrap();

    let found = room.get_device("Thermometer_9").expect("device must be found");
    assert_eq!(found.get_name(), wanted_name);
}

#[test]
fn devices_can_be_added_to_a_registered_room() {
    let mut house = House::new("H", 2);
    house.create_new_empty_room("Bedroom", 2).unwrap();

    let added = house
        .add_device_to_room("Bedroom", SmartDevice::Socket(SmartSocket::new("Socket3")))
        .unwrap();
    assert_eq!(added, "Device Socket3 has been registered in room Bedroom");

    let missing = house.add_device_to_room("Nowhere", SmartDevice::Socket(SmartSocket::new("S")));
    assert_eq!(missing.unwrap_err(), ErrorReason::ItemDoesntExist);

    let room = house.get_room("Bedroom").expect("room must be registered");
    assert_eq!(room.get_device_list(), vec!["Socket3".to_string()]);
}

#[test]
fn removal_of_missing_items_fails() {
    let mut room = Room::new("R", 2);
    assert_eq!(
        room.remove_device("Nothing").unwrap_err(),
        ErrorReason::ItemDoesntExist
    );
    assert!(room.get_device("Nothing").is_none());

    let mut house = House::new("H", 2);
    assert_eq!(
        house.remove_room_by_name("Nowhere").unwrap_err(),
        ErrorReason::ItemDoesntExist
    );
    assert!(house.get_room("Nowhere").is_none());
}

#[test]
fn empty_containers_list_empty_sequences() {
    let room = Room::new("R", 2);
    assert_eq!(room.get_device_list(), Vec::<String>::new());

    let house = House::new("H", 2);
    assert_eq!(house.get_room_list(), Vec::<String>::new());
}

#[test]
fn confirmation_texts_are_exact() {
    let mut house = House::new("H", 2);
    let mut room = Room::new("Room_0", 2);

    let added_device = room
        .add_device(SmartDevice::Socket(SmartSocket::new("Socket_1")))
        .unwrap();
    assert_eq!(
        added_device,
        "Device Socket_1 has been registered in room Room_0"
    );

    let removed_device = room.remove_device("Socket_1").unwrap();
    assert_eq!(
        removed_device,
        "Device Socket_1 has been removed from room Room_0"
    );

    let added_room = house.add_room(room).unwrap();
    assert_eq!(added_room, "Room Room_0 has been registered in house H");

    let removed_room = house.remove_room_by_name("Room_0").unwrap();
    assert_eq!(removed_room, "Room Room_0 has been removed from house H");
}

#[test]
fn house_self_report_texts() {
    let house = House::new("H", 2);
    assert_eq!(
        house.create_report(),
        "Smart house instance: H.\n\nThere are no registered rooms and devices.\n"
    );

    let mut house = House::new("H", 2);
    house.create_new_empty_room("Room_0", 2).unwrap();
    assert_eq!(
        house.create_report(),
        "Smart house instance: H.\n Room: Room_0\n There are no devices in this room"
    );

    let mut room = Room::new("Room_1", 2);
    room.add_device(SmartDevice::Socket(SmartSocket::new("Socket_1")))
        .unwrap();
    house.add_room(room).unwrap();
    assert_eq!(
        house.create_report(),
        "Smart house instance: H.\n Room: Room_0\n There are no devices in this room \
         Room: Room_1\n Device: Socket_1:  Current power consumption is 0, status: Disabled. \n \n"
    );
}
