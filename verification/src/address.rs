//! IPv4 endpoints and the raw socket-address payload they are read from.
//!
//! The payload is the 14-byte `sa_data` of a `sockaddr`: two bytes of port in
//! network order, four address octets, and eight bytes of padding. The bytes
//! arrive signed, as the C type has them.

use vstd::prelude::*;

verus! {

/// Length of the raw socket-address payload.
pub const SA_DATA_LEN: usize = 14;

/// An IPv4 address, by its four octets in the order they are written.
#[derive(Clone, Copy, Debug, PartialEq, Eq, Hash, Structural)]
pub struct Ipv4 {
    pub a: u8,
    pub b: u8,
    pub c: u8,
    pub d: u8,
}

/// An IPv4 address and a TCP port.
#[derive(Clone, Copy, Debug, PartialEq, Eq, Hash, Structural)]
pub struct Endpoint {
    pub ip: Ipv4,
    pub port: u16,
}

/// The value of a signed byte read as an unsigned one (two's complement).
pub open spec fn byte_value(n: i8) -> int {
    if n >= 0 {
        n as int
    } else {
        n as int + 256
    }
}

/// The signed byte with the same bit pattern as the unsigned byte `v`.
pub open spec fn signed_byte(v: int) -> i8 {
    if v < 128 {
        v as i8
    } else {
        (v - 256) as i8
    }
}

/// The port held in two bytes in network order: the first is the high byte.
pub open spec fn port_value(left_byte: i8, right_byte: i8) -> int {
    byte_value(left_byte) * 256 + byte_value(right_byte)
}

/// The address whose octets are the first four bytes of `input`.
pub open spec fn ip_value(input: Seq<i8>) -> Ipv4 {
    Ipv4 {
        a: byte_value(input[0]) as u8,
        b: byte_value(input[1]) as u8,
        c: byte_value(input[2]) as u8,
        d: byte_value(input[3]) as u8,
    }
}

/// The endpoint that a raw payload names: port from bytes 0 and 1, address from
/// bytes 2 to 5. The padding is not looked at.
pub open spec fn unpacked(sa_data: Seq<i8>) -> Endpoint {
    Endpoint {
        ip: ip_value(sa_data.subrange(2, 6)),
        port: port_value(sa_data[0], sa_data[1]) as u16,
    }
}

/// The raw payload of an endpoint, with zero padding.
pub open spec fn packed(endpoint: Endpoint) -> Seq<i8> {
    seq![
        signed_byte(endpoint.port as int / 256),
        signed_byte(endpoint.port as int % 256),
        signed_byte(endpoint.ip.a as int),
        signed_byte(endpoint.ip.b as int),
        signed_byte(endpoint.ip.c as int),
        signed_byte(endpoint.ip.d as int),
        0i8,
        0i8,
        0i8,
        0i8,
        0i8,
        0i8,
        0i8,
        0i8,
    ]
}

/// Reading a signed byte as unsigned undoes `signed_byte`.
pub proof fn lemma_signed_byte_value(v: int)
    requires
        0 <= v < 256,
    ensures
        byte_value(signed_byte(v)) == v,
{
}

/// Packing an endpoint into the raw payload and reading it back gives the
/// endpoint again.
pub proof fn lemma_pack_unpack(endpoint: Endpoint)
    ensures
        packed(endpoint).len() == SA_DATA_LEN,
        unpacked(packed(endpoint)) == endpoint,
{
    let raw = packed(endpoint);
    let port = endpoint.port as int;
    lemma_signed_byte_value(port / 256);
    lemma_signed_byte_value(port % 256);
    lemma_signed_byte_value(endpoint.ip.a as int);
    lemma_signed_byte_value(endpoint.ip.b as int);
    lemma_signed_byte_value(endpoint.ip.c as int);
    lemma_signed_byte_value(endpoint.ip.d as int);
    assert(raw.subrange(2, 6) =~= seq![raw[2], raw[3], raw[4], raw[5]]);
    assert(port_value(raw[0], raw[1]) == port);
}

} // verus!
