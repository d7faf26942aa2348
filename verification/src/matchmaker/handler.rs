use vstd::prelude::*;
use crate::matchmaker::HostServer;
use crate::util::bytes::le_u32;

verus! {

/// The number of an IPv4 address whose octets are `octets`, as the machine
/// (little-endian) lays four bytes out: the first octet is the lowest byte.
pub fn convert_ip(octets: [u8; 4]) -> (r: u32)
    ensures
        r == le_u32(octets@),
{
    let b0 = octets[0] as u32;
    let b1 = octets[1] as u32;
    let b2 = octets[2] as u32;
    let b3 = octets[3] as u32;
    b0 + b1 * 0x100 + b2 * 0x1_0000 + b3 * 0x100_0000
}

/// The server that hosts games: 127.0.0.1, port 22023.
pub fn handle_host() -> (r: HostServer)
    ensures
        r.ip == le_u32(seq![127u8, 0u8, 0u8, 1u8]),
        r.port == 22023,
{
    let ip = convert_ip([127, 0, 0, 1]);
    proof {
        assert([127u8, 0u8, 0u8, 1u8]@ =~= seq![127u8, 0u8, 0u8, 1u8]);
    }
    HostServer { ip, port: 22023 }
}

} // verus!
