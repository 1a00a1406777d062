//! The byte form of the IPv4 socket addresses of the TCP transport: the
//! four octets of the address, then the port, most significant byte first.

use crate::network::error::Error;
use byteorder::{BigEndian, ReadBytesExt, WriteBytesExt};
use vstd::prelude::*;
use vstd::slice::slice_subrange;

verus! {

/// The two bytes of a port, most significant first.
pub open spec fn be16(n: u16) -> Seq<u8> {
    seq![(n / 256) as u8, (n % 256) as u8]
}

/// `WriteBytesExt::write_u16::<BigEndian>` of `byteorder` on a vector: it
/// writes the two bytes of `n`, most significant first, with `write_all`,
/// which on a vector appends them and does not fail.
#[verifier::external_body]
fn write_u16_be(buf: &mut Vec<u8>, n: u16) -> (r: core::result::Result<(), String>)
    ensures
        r is Ok,
        final(buf)@ == old(buf)@ + be16(n),
{
    buf.write_u16::<BigEndian>(n).map_err(|e| e.to_string())
}

/// `ReadBytesExt::read_u16::<BigEndian>` of `byteorder` on a slice: the
/// number of its first two bytes, most significant first; it fails, as
/// `read_exact` on a slice does, where the slice holds fewer.
#[verifier::external_body]
fn read_u16_be(buf: &[u8]) -> (r: core::result::Result<u16, String>)
    ensures
        match r {
            Ok(n) => buf@.len() >= 2 && n == buf@[0] * 256 + buf@[1],
            Err(_) => buf@.len() < 2,
        },
{
    let mut reader: &[u8] = buf;
    reader.read_u16::<BigEndian>().map_err(|e| e.to_string())
}

/// `address_to_bytes` converts an IPv4 socket address, its octets and
/// its port, to bytes.
pub fn address_to_bytes(ip: [u8; 4], port: u16) -> (r: Result<Vec<u8>, Error>)
    ensures
        r matches Ok(b) && b@ == ip@ + be16(port),
{
    let mut buf: Vec<u8> = Vec::new();
    let mut i: usize = 0;
    while i < 4
        invariant
            i <= 4,
            buf@ == ip@.take(i as int),
        decreases 4 - i,
    {
        buf.push(ip[i]);
        i += 1;
        assert(buf@ =~= ip@.take(i as int));
    }
    assert(ip@.take(4) =~= ip@);
    match write_u16_be(&mut buf, port) {
        Ok(()) => Ok(buf),
        Err(msg) => Err(Error::IO { msg }),
    }
}

/// `address_from_bytes` returns the IPv4 socket address, its octets and
/// its port, of the first six bytes; `IO` where there are fewer.
pub fn address_from_bytes(buf: &[u8]) -> (r: Result<([u8; 4], u16), Error>)
    ensures
        match r {
            Ok((ip, port)) => buf@.len() >= 6 && ip@ == buf@.take(4) && port == buf@[4] * 256 + buf@[5],
            Err(e) => buf@.len() < 6 && e is IO,
        },
{
    if buf.len() < 4 {
        return Err(Error::IO { msg: String::from_str("failed to fill whole buffer") });
    }
    let ip: [u8; 4] = [buf[0], buf[1], buf[2], buf[3]];
    let rest = slice_subrange(buf, 4, buf.len());
    match read_u16_be(rest) {
        Ok(port) => {
            assert(ip@ =~= buf@.take(4));
            Ok((ip, port))
        },
        Err(msg) => Err(Error::IO { msg }),
    }
}


/// Reading back the bytes of an address gives the address: its octets and
/// its port.
pub proof fn lemma_address_roundtrip(ip: [u8; 4], port: u16)
    ensures
        (ip@ + be16(port)).len() == 6,
        (ip@ + be16(port)).take(4) == ip@,
        (ip@ + be16(port))[4] * 256 + (ip@ + be16(port))[5] == port,
{
    let b = ip@ + be16(port);
    assert(b.take(4) =~= ip@);
    assert(b[4] == (port / 256) as u8);
    assert(b[5] == (port % 256) as u8);
}

} // verus!
