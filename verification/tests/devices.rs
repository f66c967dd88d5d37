use iot_crate::smart_device::{
    SmartDevice, SmartDeviceErrorCode, SmartDevicePowerState, SmartDeviceStatus,
};
use iot_crate::socket::SmartSocket;
use iot_crate::thermometer::SmartThermometer;

#[test]
fn socket_stupid_test() {
    let mut my_socket = SmartSocket::new("Socket_1");

    let is_device_in_normal_state = my_socket
        .set_power_state(SmartDevicePowerState::Enabled)
        .is_ok();

    assert!(
        is_device_in_normal_state,
        "Device must be in an enabled state!"
    );

    let is_device_enabled = matches!(
        my_socket.get_device_status(),
        SmartDeviceStatus::PowerState(SmartDevicePowerState::Enabled)
    );

    assert!(is_device_enabled, "Device must be in an enabled state!");
}

#[test]
fn thermometer_stupid_test() {
    let mut my_thermo_1 = SmartThermometer::new("Thermometer_1");

    let is_device_in_normal_state = my_thermo_1
        .set_power_state(SmartDevicePowerState::Enabled)
        .is_ok();

    assert!(
        is_device_in_normal_state,
        "Device must be in an enabled state!"
    );

    let is_device_enabled = matches!(
        my_thermo_1.get_device_status(),
        SmartDeviceStatus::PowerState(SmartDevicePowerState::Enabled)
    );

    assert!(is_device_enabled, "Device must be in an enabled state!");
}

#[test]
fn socket_defaults_and_text_report() {
    let my_socket = SmartSocket::new("Socket_1");
    assert_eq!(my_socket.get_name(), "Socket_1");
    assert!(matches!(
        my_socket.get_device_status(),
        SmartDeviceStatus::PowerState(SmartDevicePowerState::Disabled)
    ));
    assert_eq!(
        my_socket.get_text_report(),
        "Current power consumption is 0, status: Disabled. \n"
    );
}

#[test]
fn thermometer_defaults_and_text_report() {
    let my_thermo = SmartThermometer::new("Thermometer_1");
    assert_eq!(my_thermo.get_name(), "Thermometer_1");
    assert_eq!(
        my_thermo.get_text_report(),
        "Current temperature is 0, status: Disabled.\n"
    );
}

#[test]
fn status_texts() {
    assert_eq!(
        SmartDeviceStatus::PowerState(SmartDevicePowerState::Enabled).text(),
        "Enabled."
    );
    assert_eq!(
        SmartDeviceStatus::PowerState(SmartDevicePowerState::Disabled).text(),
        "Disabled."
    );
    assert_eq!(
        SmartDeviceStatus::Malfunction(SmartDeviceErrorCode::Overcurrent).text(),
        "Overcurrent error."
    );
    assert_eq!(
        SmartDeviceStatus::Malfunction(SmartDeviceErrorCode::Overvoltage).text(),
        "Overvoltage error."
    );
    assert_eq!(
        SmartDeviceStatus::Malfunction(SmartDeviceErrorCode::Overheat).text(),
        "Overheat error."
    );
    assert_eq!(
        SmartDeviceStatus::Malfunction(SmartDeviceErrorCode::Underheat).text(),
        "Underheat error."
    );
}

#[test]
fn malfunction_refuses_power_state_changes() {
    let mut faulty = SmartSocket {
        name: "Socket_F".to_string(),
        power_consumption: 0,
        status: SmartDeviceStatus::Malfunction(SmartDeviceErrorCode::Overheat),
    };

    let refused = faulty.set_power_state(SmartDevicePowerState::Enabled);
    assert_eq!(refused, Err(SmartDeviceErrorCode::Overheat));
    assert_eq!(
        faulty.get_device_status(),
        SmartDeviceStatus::Malfunction(SmartDeviceErrorCode::Overheat)
    );

    let refused_again = faulty.set_power_state(SmartDevicePowerState::Disabled);
    assert_eq!(refused_again, Err(SmartDeviceErrorCode::Overheat));
    assert_eq!(
        faulty.get_device_status(),
        SmartDeviceStatus::Malfunction(SmartDeviceErrorCode::Overheat)
    );
}

#[test]
fn malfunction_sticks_through_the_device_sum_type() {
    let mut faulty = SmartDevice::Thermometer(SmartThermometer {
        name: "Thermometer_F".to_string(),
        temperature: -7,
        status: SmartDeviceStatus::Malfunction(SmartDeviceErrorCode::Underheat),
    });

    assert_eq!(
        faulty.set_power_state(SmartDevicePowerState::Enabled),
        Err(SmartDeviceErrorCode::Underheat)
    );
    assert!(matches!(
        faulty.get_device_status(),
        SmartDeviceStatus::Malfunction(SmartDeviceErrorCode::Underheat)
    ));
    assert_eq!(
        faulty.get_text_report(),
        "Current temperature is -7, status: Underheat error.\n"
    );
}
