use iot_crate::smart_house::{ErrorReason, SmartHouse, SmartHouseManagementStatus};

#[test]
fn house_io_test() -> () {
    let mut my_house = SmartHouse::new("CountryHouse");

    let is_room_added = match my_house.add_room("LivingRoom") {
        SmartHouseManagementStatus::OperationSucceded => true,
        _ => false,
    };

    assert_eq!(is_room_added, true, "Room must be added!");

    let is_device_linked = match my_house.link_device_with_room("LivingRoom", "SmartSocket_1") {
        SmartHouseManagementStatus::OperationSucceded => true,
        _ => false,
    };

    assert_eq!(is_device_linked, true, "Device must be linked!");

    let is_device_unlinked = match my_house.unlink_device_from_room("LivingRoom", "SmartSocket_1")
    {
        SmartHouseManagementStatus::OperationSucceded => true,
        _ => false,
    };

    assert_eq!(is_device_unlinked, true, "Device must be unlinked!");

    let is_room_deleted = match my_house.delete_room("LivingRoom") {
        SmartHouseManagementStatus::OperationSucceded => true,
        _ => false,
    };

    assert_eq!(is_room_deleted, true, "Room must be deleted!");
}

#[test]
fn house_overflow_test() -> () {
    let mut my_house = SmartHouse::new("CountryHouse");

    for i in 0..=4 {
        let is_room_added = match my_house.add_room(&format!("LivingRoom_{}", i)) {
            SmartHouseManagementStatus::OperationSucceded => true,
            _ => false,
        };

        assert_eq!(
            is_room_added, true,
            "Room must be added! Corrupted index is:{}",
            i
        );
    }

    let is_adding_failed = match my_house.add_room("LivingRoom_5") {
        SmartHouseManagementStatus::OperationFailed(ErrorReason::RoomLimitExceeded) => true,
        _ => false,
    };

    assert_eq!(is_adding_failed, true, "Room must not be added! ");

    for i in 0..=9 {
        let is_device_linked = match my_house
            .link_device_with_room("LivingRoom_0", &format!("SmartSocket_{}", i))
        {
            SmartHouseManagementStatus::OperationSucceded => true,
            _ => false,
        };

        assert_ne!(
            is_device_linked, false,
            "Device must be linked! Corrupted index is:{}",
            i
        );
    }

    let is_adding_failed = match my_house.link_device_with_room("LivingRoom_0", "SmartSocket_10")
    {
        SmartHouseManagementStatus::OperationFailed(ErrorReason::DeviceLimitExceeded) => true,
        _ => false,
    };

    assert_eq!(is_adding_failed, true, "Device must not be linked!");
}

#[test]
fn house_similar_name_test() {
    let mut my_house = SmartHouse::new("CountryHouse");

    let is_room_added = match my_house.add_room("LivingRoom") {
        SmartHouseManagementStatus::OperationSucceded => true,
        _ => false,
    };
    assert_eq!(is_room_added, true, "Room must be added!");

    let is_room_added = match my_house.add_room("LivingRoom") {
        SmartHouseManagementStatus::OperationSucceded => true,
        _ => false,
    };
    assert_eq!(is_room_added, false, "Room must not be added!");

    let is_device_linked = match my_house.link_device_with_room("LivingRoom", "SmartSocket_1") {
        SmartHouseManagementStatus::OperationSucceded => true,
        _ => false,
    };
    assert_eq!(is_device_linked, true, "Device must be linked!");

    let is_device_linked = match my_house.link_device_with_room("LivingRoom", "SmartSocket_1") {
        SmartHouseManagementStatus::OperationFailed(ErrorReason::DeviceAlreadyPresented) => true,
        _ => false,
    };

    assert_eq!(is_device_linked, true, "Device must not be linked!");
}

#[test]
fn device_lookup_in_missing_room_is_false() {
    let mut my_house = SmartHouse::new("CountryHouse");
    assert!(!my_house.is_device_presented_in_room("Nowhere", "SmartSocket_1"));

    my_house.add_room("LivingRoom");
    my_house.link_device_with_room("LivingRoom", "SmartSocket_1");
    assert!(!my_house.is_device_presented_in_room("Nowhere", "SmartSocket_1"));
    assert!(!my_house.is_device_presented_in_room("Bedroom", "AnyDeviceAtAll"));
    assert!(my_house.is_device_presented_in_room("LivingRoom", "SmartSocket_1"));
    assert!(!my_house.is_device_presented_in_room("LivingRoom", "SmartSocket_2"));
}

#[test]
fn management_error_variants() {
    let mut my_house = SmartHouse::new("CountryHouse");

    let missing_room_deletion = my_house.delete_room("Nowhere");
    assert!(matches!(
        missing_room_deletion,
        SmartHouseManagementStatus::OperationFailed(ErrorReason::RoomDoesntExist)
    ));

    let missing_room_link = my_house.link_device_with_room("Nowhere", "SmartSocket_1");
    assert!(matches!(
        missing_room_link,
        SmartHouseManagementStatus::OperationFailed(ErrorReason::RoomDoesntExist)
    ));

    let missing_room_unlink = my_house.unlink_device_from_room("Nowhere", "SmartSocket_1");
    assert!(matches!(
        missing_room_unlink,
        SmartHouseManagementStatus::OperationFailed(ErrorReason::RoomDoesntExist)
    ));

    my_house.add_room("LivingRoom");
    let missing_device_unlink = my_house.unlink_device_from_room("LivingRoom", "SmartSocket_1");
    assert!(matches!(
        missing_device_unlink,
        SmartHouseManagementStatus::OperationFailed(ErrorReason::DeviceDoesntExist)
    ));

    assert!(my_house.is_room_already_exist("LivingRoom"));
    assert!(!my_house.is_room_already_exist("Nowhere"));
}

#[test]
fn unlink_makes_space_again() {
    let mut my_house = SmartHouse::new("CountryHouse");
    my_house.add_room("LivingRoom");
    for i in 0..=9 {
        let linked = match my_house
            .link_device_with_room("LivingRoom", &format!("SmartSocket_{}", i))
        {
            SmartHouseManagementStatus::OperationSucceded => true,
            _ => false,
        };
        assert!(linked);
    }
    let refused = my_house.link_device_with_room("LivingRoom", "SmartSocket_10");
    assert!(matches!(
        refused,
        SmartHouseManagementStatus::OperationFailed(ErrorReason::DeviceLimitExceeded)
    ));

    let unlinked = my_house.unlink_device_from_room("LivingRoom", "SmartSocket_3");
    assert!(matches!(
        unlinked,
        SmartHouseManagementStatus::OperationSucceded
    ));

    let relinked = my_house.link_device_with_room("LivingRoom", "SmartSocket_10");
    assert!(matches!(
        relinked,
        SmartHouseManagementStatus::OperationSucceded
    ));
}

#[test]
fn smart_house_status_texts() {
    let mut my_house = SmartHouse::new("CountryHouse");
    assert_eq!(
        my_house.get_smart_house_status(),
        "В доме CountryHouse не зарегистрировано ни одной комнаты!\n"
    );

    my_house.add_room("LivingRoom");
    assert_eq!(
        my_house.get_smart_house_status(),
        "С комнатой LivingRoom не связано ни одно устройство!\n"
    );

    my_house.link_device_with_room("LivingRoom", "SmartSocket_1");
    my_house.link_device_with_room("LivingRoom", "SmartSocket_2");
    my_house.add_room("Bedroom");
    assert_eq!(
        my_house.get_smart_house_status(),
        "К комнате LivingRoom привязаны устройства: SmartSocket_1, SmartSocket_2\n\
         С комнатой Bedroom не связано ни одно устройство!\n"
    );
}
