use sbootil::framing::ProtocolError;
use sbootil::usb::{select_interface, EndpointInfo, InterfaceInfo, UsbEndpointPair};

fn setting(number: u8, setting: u8, class_code: u8, endpoints: &[(u8, bool)]) -> InterfaceInfo {
    InterfaceInfo {
        number,
        setting,
        class_code,
        endpoints: endpoints
            .iter()
            .map(|&(address, is_in)| EndpointInfo { address, is_in })
            .collect(),
    }
}

#[test]
fn first_data_interface_wins() {
    let interfaces = vec![
        setting(0, 0, 0x02, &[(0x83, true)]),
        setting(1, 0, 0x0a, &[(0x81, true), (0x02, false), (0x03, false)]),
        setting(1, 1, 0x0a, &[(0x02, false), (0x81, true)]),
        setting(2, 0, 0x0a, &[(0x84, true), (0x05, false)]),
    ];
    assert_eq!(
        select_interface(&interfaces),
        Ok(UsbEndpointPair { interface: 1, setting: 1, endpoint_in: 0x81, endpoint_out: 0x02 })
    );
}

#[test]
fn two_endpoints_of_one_direction_do_not_match() {
    let interfaces = vec![setting(0, 0, 0x0a, &[(0x81, true), (0x82, true)])];
    assert_eq!(select_interface(&interfaces), Err(ProtocolError::NoMatchingInterface));
}

#[test]
fn no_interface_is_a_configuration_error() {
    assert_eq!(select_interface(&vec![]), Err(ProtocolError::NoMatchingInterface));
    let interfaces = vec![setting(0, 0, 0x02, &[(0x81, true), (0x02, false)])];
    assert_eq!(select_interface(&interfaces), Err(ProtocolError::NoMatchingInterface));
}
