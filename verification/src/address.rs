//! The endpoint of an accepted connection.

use vstd::prelude::*;

verus! {

/// An immutable snapshot of a resolved socket endpoint: the textual form of
/// its IP address and its port.
#[derive(Debug, PartialEq, Eq)]
pub struct SocketAddress {
    ip: String,
    port: u16,
}

/// What a [`SocketAddress`] holds.
pub ghost struct AddressModel {
    pub ip: Seq<char>,
    pub port: u16,
}

impl View for SocketAddress {
    type V = AddressModel;

    closed spec fn view(&self) -> AddressModel {
        AddressModel { ip: self.ip@, port: self.port }
    }
}

impl SocketAddress {
    /// Records an endpoint from the textual form of its IP address and its port.
    pub fn new(ip: String, port: u16) -> (address: SocketAddress)
        ensures
            address@ == (AddressModel { ip: ip@, port }),
    {
        SocketAddress { ip, port }
    }

    /// The textual form of the IP address.
    pub fn ip(&self) -> (text: String)
        ensures
            text@ == self@.ip,
    {
        self.ip.clone()
    }

    /// The port.
    pub fn port(&self) -> (port: u16)
        ensures
            port == self@.port,
    {
        self.port
    }
}

} // verus!
