//! Transparent redirection of a process's outbound TCP connections through a
//! chain of SOCKS5 proxies: the decisions of the interposed `connect`, `read`
//! and `write`, the per-descriptor byte bridge, and the plan of the proxy chain.

use vstd::prelude::*;

pub mod address;
pub mod channel;
pub mod connection;
pub mod connection_listener;
pub mod proxychains;
pub mod shim;

use crate::address::{byte_value, ip_value, packed, port_value, signed_byte, unpacked, Endpoint, Ipv4};

verus! {

/// Reads a signed byte as the unsigned byte with the same bit pattern.
pub fn i8_to_u8(n: i8) -> (r: u8)
    ensures
        r as int == byte_value(n),
{
    if n == -128i8 {
        128
    } else if n >= 0i8 {
        n as u8
    } else {
        let magnitude: i8 = -n;
        (256 - magnitude as u16) as u8
    }
}

/// Writes an unsigned byte as the signed byte with the same bit pattern.
pub fn u8_to_i8(v: u8) -> (r: i8)
    ensures
        r == signed_byte(v as int),
        byte_value(r) == v as int,
{
    if v < 128 {
        v as i8
    } else {
        (v as i16 - 256) as i8
    }
}

/// Port number from its two bytes in network order.
pub fn port(left_byte: i8, right_byte: i8) -> (p: u16)
    ensures
        p as int == port_value(left_byte, right_byte),
{
    let high: u16 = i8_to_u8(left_byte) as u16;
    let low: u16 = i8_to_u8(right_byte) as u16;
    assert(high << 8 == high * 256) by (bit_vector)
        requires
            high < 256,
    ;
    (high << 8) + low
}

/// IPv4 address from its four octets, taken from the front of `input`.
pub fn ip(input: &[i8]) -> (addr: Ipv4)
    requires
        input@.len() >= 4,
    ensures
        addr == ip_value(input@),
{
    Ipv4 {
        a: i8_to_u8(input[0]),
        b: i8_to_u8(input[1]),
        c: i8_to_u8(input[2]),
        d: i8_to_u8(input[3]),
    }
}

/// The endpoint named by the raw payload of a socket address.
pub fn unpack(sa_data: &[i8; 14]) -> (endpoint: Endpoint)
    ensures
        endpoint == unpacked(sa_data@),
{
    let octets = vstd::slice::slice_subrange(sa_data.as_slice(), 2, 6);
    Endpoint { ip: ip(octets), port: port(sa_data[0], sa_data[1]) }
}

/// The raw payload of a socket address that names `endpoint`.
pub fn pack(endpoint: Endpoint) -> (sa_data: [i8; 14])
    ensures
        sa_data@ == packed(endpoint),
{
    let high: u8 = (endpoint.port / 256) as u8;
    let low: u8 = (endpoint.port % 256) as u8;
    let sa_data: [i8; 14] = [
        u8_to_i8(high),
        u8_to_i8(low),
        u8_to_i8(endpoint.ip.a),
        u8_to_i8(endpoint.ip.b),
        u8_to_i8(endpoint.ip.c),
        u8_to_i8(endpoint.ip.d),
        0,
        0,
        0,
        0,
        0,
        0,
        0,
        0,
    ];
    assert(sa_data@ =~= packed(endpoint));
    sa_data
}

} // verus!
