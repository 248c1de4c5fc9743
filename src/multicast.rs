use vstd::prelude::*;
use vstd::string::StringSliceAdditionalSpecFns;
use vstd::utf8::{decode_utf8, encode_utf8_decode_utf8, valid_utf8};

use crate::PosePublisherError;

verus! {

/// An IPv4 address and a UDP port.
#[derive(Clone, Copy, Debug, PartialEq, Eq)]
pub struct Endpoint {
    pub ip: [u8; 4],
    pub port: u16,
}

/// Lowest first octet of an IPv4 multicast group.
pub const MULTICAST_FIRST_OCTET_MIN: u8 = 224;

/// Highest first octet of an IPv4 multicast group.
pub const MULTICAST_FIRST_OCTET_MAX: u8 = 239;

/// Largest datagram the transport reads, in bytes.
pub const MAX_DATAGRAM_BYTES: usize = 65000;

/// Whether `ip` lies in 224.0.0.0 to 239.255.255.255.
pub open spec fn is_multicast_ip(ip: [u8; 4]) -> bool {
    MULTICAST_FIRST_OCTET_MIN <= ip@[0] <= MULTICAST_FIRST_OCTET_MAX
}

impl Endpoint {
    pub fn new(ip: [u8; 4], port: u16) -> (r: Endpoint)
        ensures
            r == (Endpoint { ip, port }),
    {
        Endpoint { ip, port }
    }

    pub fn is_multicast(&self) -> (r: bool)
        ensures
            r == is_multicast_ip(self.ip),
    {
        let first = self.ip[0];
        MULTICAST_FIRST_OCTET_MIN <= first && first <= MULTICAST_FIRST_OCTET_MAX
    }
}

/// Where a transport's socket goes: the local address it binds and the
/// group it joins and sends to.
#[derive(Clone, Copy, Debug, PartialEq, Eq)]
pub struct Binding {
    /// Every interface, on the group's port.
    pub local: Endpoint,
    pub group: Endpoint,
}

/// The binding of a transport for `multicast_address`, decided before any
/// socket is opened: refused when the address is not a multicast group,
/// else the wildcard address on the group's port, joined to the group.
pub fn bind_multicast(multicast_address: Endpoint) -> (r: Result<Binding, PosePublisherError>)
    ensures
        r is Ok <==> is_multicast_ip(multicast_address.ip),
        r is Err ==> r == Err::<Binding, PosePublisherError>(
            PosePublisherError::AddressNotMulticast(multicast_address),
        ),
        r is Ok ==> r->Ok_0.group == multicast_address && r->Ok_0.local.port == multicast_address.port
            && r->Ok_0.local.ip@ == seq![0u8, 0u8, 0u8, 0u8],
{
    if !multicast_address.is_multicast() {
        return Err(PosePublisherError::AddressNotMulticast(multicast_address));
    }
    let local = Endpoint { ip: [0, 0, 0, 0], port: multicast_address.port };
    proof {
        assert(local.ip@ =~= seq![0u8, 0u8, 0u8, 0u8]);
    }
    Ok(Binding { local, group: multicast_address })
}

/// Relies on `std::str::from_utf8`: it accepts exactly the well-formed UTF-8
/// byte strings, and the text it returns is made of those bytes.
#[verifier::external_body]
fn utf8_text(bytes: &[u8]) -> (r: Option<&str>)
    ensures
        r is Some <==> valid_utf8(bytes@),
        r is Some ==> r->Some_0.spec_bytes() == bytes@,
{
    std::str::from_utf8(bytes).ok()
}

/// The bytes of a datagram that the transport reads: at most the first
/// `MAX_DATAGRAM_BYTES`.
pub open spec fn readable_part(datagram: Seq<u8>) -> Seq<u8> {
    if datagram.len() <= MAX_DATAGRAM_BYTES {
        datagram
    } else {
        datagram.subrange(0, MAX_DATAGRAM_BYTES as int)
    }
}

/// The text carried by a received datagram: the UTF-8 decoding of its
/// readable part, or `StringConversionError` when that is not well-formed.
pub fn payload_text(datagram: &[u8]) -> (r: Result<String, PosePublisherError>)
    ensures
        r is Ok <==> valid_utf8(readable_part(datagram@)),
        r is Ok ==> r->Ok_0@ == decode_utf8(readable_part(datagram@)),
        r is Err ==> r == Err::<String, PosePublisherError>(PosePublisherError::StringConversionError),
{
    let readable = if datagram.len() <= MAX_DATAGRAM_BYTES {
        datagram
    } else {
        datagram.split_at(MAX_DATAGRAM_BYTES).0
    };
    proof {
        assert(readable@ =~= readable_part(datagram@));
    }
    match utf8_text(readable) {
        Some(text) => {
            proof {
                encode_utf8_decode_utf8(text@);
            }
            Ok(text.to_owned())
        },
        None => Err(PosePublisherError::StringConversionError),
    }
}

} // verus!
