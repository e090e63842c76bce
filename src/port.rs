use vstd::prelude::*;

verus! {

/// Splits a TCP port into the two bytes that a `227` passive-mode reply
/// carries: the high byte first, then the low byte.
pub fn get_ftp_port_pair(port: u16) -> (r: (u8, u8))
    ensures
        r.0 as int * 256 + r.1 as int == port as int,
        r.0 as int == port as int / 256,
        r.1 as int == port as int % 256,
{
    let first_part: u16 = port / 256;
    let second_part: u16 = port - first_part * 256;
    (first_part as u8, second_part as u8)
}

} // verus!
