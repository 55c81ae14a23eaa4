//! Finding the data interface of the device among the interfaces of its USB
//! configuration.
use crate::framing::ProtocolError;
use vstd::prelude::*;

verus! {

/// Interface class of the device's data interface (CDC data).
pub const DATA_CLASS: u8 = 0x0a;

/// An endpoint of an interface setting.
#[derive(Debug, Clone, Copy, PartialEq, Eq, Structural)]
pub struct EndpointInfo {
    pub address: u8,
    /// Device to host.
    pub is_in: bool,
}

/// One alternate setting of one interface, as the configuration describes it.
#[derive(Debug)]
pub struct InterfaceInfo {
    pub number: u8,
    pub setting: u8,
    pub class_code: u8,
    pub endpoints: Vec<EndpointInfo>,
}

/// The interface setting and the two bulk endpoints that carry the protocol.
#[derive(Debug, Clone, Copy, PartialEq, Eq, Structural)]
pub struct UsbEndpointPair {
    pub interface: u8,
    pub setting: u8,
    pub endpoint_in: u8,
    pub endpoint_out: u8,
}

/// A setting of the data class with exactly two endpoints, one in each
/// direction.
pub open spec fn is_data_interface(d: InterfaceInfo) -> bool {
    &&& d.class_code == DATA_CLASS
    &&& d.endpoints@.len() == 2
    &&& d.endpoints@[0].is_in != d.endpoints@[1].is_in
}

/// The endpoint pair of a data interface setting.
pub open spec fn pair_of(d: InterfaceInfo) -> UsbEndpointPair {
    let (e_in, e_out) = if d.endpoints@[0].is_in {
        (d.endpoints@[0], d.endpoints@[1])
    } else {
        (d.endpoints@[1], d.endpoints@[0])
    };
    UsbEndpointPair {
        interface: d.number,
        setting: d.setting,
        endpoint_in: e_in.address,
        endpoint_out: e_out.address,
    }
}

/// The endpoint pair of the first data interface setting, in the order given.
pub fn select_interface(interfaces: &Vec<InterfaceInfo>) -> (r: Result<
    UsbEndpointPair,
    ProtocolError,
>)
    ensures
        r is Err ==> r == Err::<UsbEndpointPair, ProtocolError>(
            ProtocolError::NoMatchingInterface,
        ),
        r is Err <==> forall|i: int|
            0 <= i < interfaces@.len() ==> !is_data_interface(#[trigger] interfaces@[i]),
        r matches Ok(p) ==> exists|i: int|
            0 <= i < interfaces@.len() && is_data_interface(#[trigger] interfaces@[i]) && (forall|
                j: int,
            |
                0 <= j < i ==> !is_data_interface(#[trigger] interfaces@[j])) && p == pair_of(
                interfaces@[i],
            ),
{
    let mut i: usize = 0;
    while i < interfaces.len()
        invariant
            i <= interfaces@.len(),
            forall|j: int| 0 <= j < i ==> !is_data_interface(#[trigger] interfaces@[j]),
        decreases interfaces@.len() - i,
    {
        let d = &interfaces[i];
        if d.class_code == DATA_CLASS && d.endpoints.len() == 2 && d.endpoints[0].is_in
            != d.endpoints[1].is_in {
            let (e_in, e_out) = if d.endpoints[0].is_in {
                (d.endpoints[0], d.endpoints[1])
            } else {
                (d.endpoints[1], d.endpoints[0])
            };
            let p = UsbEndpointPair {
                interface: d.number,
                setting: d.setting,
                endpoint_in: e_in.address,
                endpoint_out: e_out.address,
            };
            assert(is_data_interface(interfaces@[i as int]));
            return Ok(p);
        }
        i = i + 1;
    }
    Err(ProtocolError::NoMatchingInterface)
}

} // verus!
