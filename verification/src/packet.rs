//! IP-frame inspection: the destination address of a frame, and the 4-byte
//! packet-info header that some platforms' TUN drivers put in front of each
//! frame.

use vstd::prelude::*;
use crate::encoding::be_val;

verus! {

/// Length of the platform packet-info header.
pub const PI_HEADER_LEN: usize = 4;

/// The destination address of an IP frame, with its family: bytes 16..20 of
/// an IPv4 header, bytes 24..40 of an IPv6 header, decided by the version
/// nibble. Anything else carries no destination.
pub open spec fn spec_dest_of(p: Seq<u8>) -> Option<(u128, bool)> {
    if p.len() >= 20 && p[0] / 16 == 4 {
        Some((be_val(p.subrange(16, 20)) as u128, true))
    } else if p.len() >= 40 && p[0] / 16 == 6 {
        Some((be_val(p.subrange(24, 40)) as u128, false))
    } else {
        None
    }
}

/// Reads the destination address out of one IP frame.
pub fn dest_of_packet(p: &Vec<u8>) -> (r: Option<(u128, bool)>)
    ensures
        r == spec_dest_of(p@),
{
    let n = p.len();
    if n == 0 {
        return None;
    }
    let version = p[0] / 16;
    if version == 4 && n >= 20 {
        proof {
            crate::encoding::lemma_be_val_bounds(p@.subrange(16, 20));
            vstd::arithmetic::power2::lemma2_to64();
        }
        let addr = crate::encoding::u_from_be_bytes(p, 16, 4);
        Some((addr, true))
    } else if version == 6 && n >= 40 {
        proof {
            crate::encoding::lemma_be_val_bounds(p@.subrange(24, 40));
            crate::encoding::lemma_pow2_128();
        }
        let addr = crate::encoding::u_from_be_bytes(p, 24, 16);
        Some((addr, false))
    } else {
        None
    }
}

/// The packet-info header for the given address-family value.
pub open spec fn spec_pi_header(af: u8) -> Seq<u8> {
    seq![0u8, 0u8, 0u8, af]
}

/// Picks the address-family byte a frame needs in its packet-info header:
/// `af4` for IPv4, `af6` for IPv6 (the values are the platform's), nothing
/// for a frame of no known family.
pub fn pi_family_value(p: &Vec<u8>, af4: u8, af6: u8) -> (r: Option<u8>)
    ensures
        p@.len() >= 1 && p@[0] / 16 == 4 ==> r == Some(af4),
        p@.len() >= 1 && p@[0] / 16 == 6 ==> r == Some(af6),
        p@.len() == 0 || (p@[0] / 16 != 4 && p@[0] / 16 != 6) ==> r is None,
{
    if p.len() == 0 {
        return None;
    }
    let version = p[0] / 16;
    if version == 4 {
        Some(af4)
    } else if version == 6 {
        Some(af6)
    } else {
        None
    }
}

/// Prepends a packet-info header to a frame.
pub fn prepend_packet_info(af: u8, data: &Vec<u8>) -> (r: Vec<u8>)
    ensures
        r@ == spec_pi_header(af) + data@,
{
    let mut r: Vec<u8> = Vec::new();
    r.push(0u8);
    r.push(0u8);
    r.push(0u8);
    r.push(af);
    let n = data.len();
    let mut i: usize = 0;
    while i < n
        invariant
            i <= n,
            n == data@.len(),
            r@ == spec_pi_header(af) + data@.subrange(0, i as int),
        decreases n - i,
    {
        r.push(data[i]);
        i = i + 1;
        proof {
            assert(r@ =~= spec_pi_header(af) + data@.subrange(0, i as int));
        }
    }
    proof {
        assert(r@ =~= spec_pi_header(af) + data@);
    }
    r
}

/// Strips the packet-info header off a frame; a frame too short to carry
/// one is not a frame at all.
pub fn strip_packet_info(data: &Vec<u8>) -> (r: Option<Vec<u8>>)
    ensures
        data@.len() >= PI_HEADER_LEN as int ==> (r matches Some(rest) && rest@ == data@.subrange(
            PI_HEADER_LEN as int,
            data@.len() as int,
        )),
        data@.len() < PI_HEADER_LEN as int ==> r is None,
{
    let n = data.len();
    if n < PI_HEADER_LEN {
        return None;
    }
    let mut rest: Vec<u8> = Vec::new();
    let mut i: usize = PI_HEADER_LEN;
    while i < n
        invariant
            PI_HEADER_LEN <= i <= n,
            n == data@.len(),
            rest@ == data@.subrange(PI_HEADER_LEN as int, i as int),
        decreases n - i,
    {
        rest.push(data[i]);
        i = i + 1;
        proof {
            assert(rest@ =~= data@.subrange(PI_HEADER_LEN as int, i as int));
        }
    }
    Some(rest)
}

/// Stripping the packet-info header off a frame it was prepended to yields
/// the original frame, byte for byte.
pub proof fn lemma_packet_info_round_trip(af: u8, d: Seq<u8>)
    ensures
        (spec_pi_header(af) + d).subrange(PI_HEADER_LEN as int, (spec_pi_header(af) + d).len() as int)
            == d,
{
    assert((spec_pi_header(af) + d).subrange(
        PI_HEADER_LEN as int,
        (spec_pi_header(af) + d).len() as int,
    ) =~= d);
}

} // verus!
