use vstd::prelude::*;
use vstd::string::StringSliceAdditionalSpecFns;

use crate::keys::utf8;

verus! {

/// Big-endian eight-byte encoding of a 64-bit number.
pub open spec fn be64(n: u64) -> Seq<u8> {
    seq![
        (n / 0x100000000000000) as u8,
        (n / 0x1000000000000 % 256) as u8,
        (n / 0x10000000000 % 256) as u8,
        (n / 0x100000000 % 256) as u8,
        (n / 0x1000000 % 256) as u8,
        (n / 0x10000 % 256) as u8,
        (n / 0x100 % 256) as u8,
        (n % 256) as u8,
    ]
}

/// A byte string framed by its big-endian length.
pub open spec fn framed(b: Seq<u8>) -> Seq<u8> {
    be64(b.len() as u64) + b
}

/// Appends the big-endian encoding of a number.
pub fn push_number(out: &mut Vec<u8>, n: u64)
    ensures
        final(out)@ == old(out)@ + be64(n),
{
    out.push((n / 0x100000000000000) as u8);
    out.push((n / 0x1000000000000 % 256) as u8);
    out.push((n / 0x10000000000 % 256) as u8);
    out.push((n / 0x100000000 % 256) as u8);
    out.push((n / 0x1000000 % 256) as u8);
    out.push((n / 0x10000 % 256) as u8);
    out.push((n / 0x100 % 256) as u8);
    out.push((n % 256) as u8);
    assert(out@ =~= old(out)@ + be64(n));
}

/// Appends raw bytes.
pub fn push_raw(out: &mut Vec<u8>, bytes: &[u8])
    ensures
        final(out)@ == old(out)@ + bytes@,
{
    let ghost start = out@;
    let mut i: usize = 0;
    while i < bytes.len()
        invariant
            i <= bytes@.len(),
            out@ == start + bytes@.take(i as int),
        decreases bytes@.len() - i,
    {
        out.push(bytes[i]);
        i += 1;
        assert(out@ =~= start + bytes@.take(i as int));
    }
    assert(bytes@.take(bytes@.len() as int) =~= bytes@);
}

/// Appends a length-framed byte string.
pub fn push_framed(out: &mut Vec<u8>, bytes: &[u8])
    ensures
        final(out)@ == old(out)@ + framed(bytes@),
{
    push_number(out, bytes.len() as u64);
    push_raw(out, bytes);
    assert(out@ =~= old(out)@ + framed(bytes@));
}

/// A string framed by the length of its UTF-8 bytes.
pub open spec fn text_frame(s: Seq<char>) -> Seq<u8> {
    framed(utf8(s))
}

/// A (namespace, value) key: the framed namespace text, then the framed value bytes.
pub open spec fn opaque_frame(k: (Seq<char>, Seq<u8>)) -> Seq<u8> {
    text_frame(k.0) + framed(k.1)
}

/// Appends a framed string.
pub fn push_text(out: &mut Vec<u8>, s: &String)
    ensures
        final(out)@ == old(out)@ + text_frame(s@),
{
    push_framed(out, s.as_str().as_bytes());
}

/// Appends a framed (namespace, value) key.
pub fn push_opaque(out: &mut Vec<u8>, namespace: &String, value: &Vec<u8>)
    ensures
        final(out)@ == old(out)@ + opaque_frame((namespace@, value@)),
{
    push_text(out, namespace);
    push_framed(out, value.as_slice());
    assert(out@ =~= old(out)@ + opaque_frame((namespace@, value@)));
}

} // verus!
