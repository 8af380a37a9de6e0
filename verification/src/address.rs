//! Network addresses: IPv4 socket addresses, and which interface a server binds to.

use vstd::prelude::*;

verus! {

/// The loopback interface, used by clients by default and by servers that are not public facing.
pub const LOCAL_ADDRESS: [u8; 4] = [127, 0, 0, 1];

/// The unspecified address, which binds a public facing server to every interface.
pub const GLOBAL_ADDRESS: [u8; 4] = [0, 0, 0, 0];

/// An IPv4 socket address: the four octets of the host and a port.
#[derive(Clone, Copy, Debug)]
pub struct SocketAddress {
    pub ip: [u8; 4],
    pub port: u16,
}

impl PartialEq for SocketAddress {
    fn eq(&self, other: &Self) -> (r: bool) {
        proof {
            broadcast use vstd::array::group_array_axioms;
            assert(self.ip[0] == other.ip[0] && self.ip[1] == other.ip[1] && self.ip[2]
                == other.ip[2] && self.ip[3] == other.ip[3] ==> self.ip =~= other.ip);
        }
        self.ip[0] == other.ip[0] && self.ip[1] == other.ip[1] && self.ip[2] == other.ip[2]
            && self.ip[3] == other.ip[3] && self.port == other.port
    }
}

impl Eq for SocketAddress {}

impl vstd::std_specs::cmp::PartialEqSpecImpl for SocketAddress {
    open spec fn obeys_eq_spec() -> bool {
        true
    }

    open spec fn eq_spec(&self, other: &Self) -> bool {
        *self == *other
    }
}

/// Where a server listens on `port`: every interface when it is public facing,
/// the loopback interface otherwise.
pub fn bind_address(public_facing: bool, port: u16) -> (addr: SocketAddress)
    ensures
        addr.ip == (if public_facing { GLOBAL_ADDRESS } else { LOCAL_ADDRESS }),
        addr.port == port,
{
    let ip = if public_facing { GLOBAL_ADDRESS } else { LOCAL_ADDRESS };
    SocketAddress { ip, port }
}

} // verus!
