//! Helper constants and functions for creating multicast addresses
use no_std_net::{Ipv4Addr, SocketAddr, SocketAddrV4};
use vstd::prelude::*;

verus! {

/// The IPv4 socket address with the four octets of `ip` and the port `port`
pub uninterp spec fn v4_socket_addr(ip: Seq<u8>, port: u16) -> SocketAddr;

/// `SocketAddr::V4(SocketAddrV4::new(Ipv4Addr::new(a, b, c, d), port))`:
/// constructors of `no_std_net` that only store their arguments; the address
/// is named here, not stated.
#[verifier::external_body]
fn v4_addr(a: u8, b: u8, c: u8, d: u8, port: u16) -> (r: SocketAddr)
    ensures
        r == v4_socket_addr(seq![a, b, c, d], port),
{
    SocketAddr::V4(SocketAddrV4::new(Ipv4Addr::new(a, b, c, d), port))
}

/// The octets of the IPv4 "All CoAP devices" multicast address, 224.0.1.187.
///
/// If using multicast to discover devices, it's recommended that you use
/// this address with a port specific to your application.
pub const ALL_COAP_DEVICES_IP: [u8; 4] = [224, 0, 1, 187];

/// The "All CoAP devices" multicast address ([`ALL_COAP_DEVICES_IP`]) with a
/// port
///
/// If using multicast to discover devices, it's recommended that you use
/// this address with a port specific to your application.
pub fn all_coap_devices(port: u16) -> (r: SocketAddr)
    ensures
        r == v4_socket_addr(ALL_COAP_DEVICES_IP@, port),
{
    let ip = ALL_COAP_DEVICES_IP;
    assert(ip@ =~= seq![224u8, 0u8, 1u8, 187u8]);
    assert(seq![ip[0], ip[1], ip[2], ip[3]] =~= ip@);
    v4_addr(ip[0], ip[1], ip[2], ip[3], port)
}

} // verus!
