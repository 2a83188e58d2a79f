//! Network protocol helpers: ARP, DHCP, ICMPv6 neighbor discovery, SNMP.

pub mod arp;
pub mod dhcp;
pub mod icmpv6;
pub mod snmp;

use vstd::prelude::*;

verus! {

#[verifier::external_type_specification]
#[verifier::external_body]
pub struct ExIoError(std::io::Error);

/// Errors produced by the protocol helpers.
#[derive(Debug)]
pub enum NetProtoError {
    /// A packet could not be read; the text says why.
    Parse(String),
    /// A network interface could not be used.
    Interface(String),
    /// An I/O failure.
    Io(std::io::Error),
}

/// A parse error carrying the given message.
pub open spec fn is_parse_error(e: NetProtoError, msg: Seq<char>) -> bool {
    e matches NetProtoError::Parse(m) && m@ == msg
}

/// Copies `len` bytes of `buf` starting at `from`.
pub fn slice_bytes(buf: &[u8], from: usize, len: usize) -> (r: Vec<u8>)
    requires
        from + len <= buf.len(),
    ensures
        r@ == buf@.subrange(from as int, from + len),
{
    let mut v: Vec<u8> = Vec::new();
    let mut i: usize = 0;
    while i < len
        invariant
            i <= len,
            from + len <= buf.len(),
            v@ == buf@.subrange(from as int, from + i),
        decreases len - i,
    {
        v.push(buf[from + i]);
        i = i + 1;
        assert(v@ =~= buf@.subrange(from as int, from + i));
    }
    v
}

/// Appends bytes to a buffer.
pub fn extend_bytes(dst: &mut Vec<u8>, src: &[u8])
    ensures
        final(dst)@ == old(dst)@ + src@,
{
    let ghost start = dst@;
    let mut i: usize = 0;
    while i < src.len()
        invariant
            i <= src@.len(),
            dst@ == start + src@.subrange(0, i as int),
        decreases src@.len() - i,
    {
        dst.push(src[i]);
        i = i + 1;
        assert(dst@ =~= start + src@.subrange(0, i as int));
    }
    assert(src@.subrange(0, src@.len() as int) =~= src@);
}

} // verus!
