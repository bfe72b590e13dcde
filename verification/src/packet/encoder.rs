//! Serializes a packet to wire bytes: the canonical request line, one
//! `key: value` line per header in insertion order, then a blank line,
//! every line ending in CRLF.

use vstd::prelude::*;
use vstd::utf8::encode_utf8;

use crate::packet::{Packet, SpecPacket};

verus! {

/// The wire bytes of one header: `key: value` followed by CRLF, the key in
/// its stored casing.
pub open spec fn header_line_bytes(k: Seq<char>, v: Seq<char>) -> Seq<u8> {
    encode_utf8(k) + seq![58u8, 32u8] + encode_utf8(v) + seq![13u8, 10u8]
}

/// The wire bytes of a header sequence, in order.
pub open spec fn headers_bytes(hs: Seq<(Seq<char>, Seq<char>)>) -> Seq<u8>
    decreases hs.len(),
{
    if hs.len() == 0 {
        seq![]
    } else {
        headers_bytes(hs.drop_last()) + header_line_bytes(hs.last().0, hs.last().1)
    }
}

/// `headers_bytes` peeled from the front instead of the back.
pub proof fn lemma_headers_bytes_first(hs: Seq<(Seq<char>, Seq<char>)>)
    requires
        hs.len() > 0,
    ensures
        headers_bytes(hs) == header_line_bytes(hs[0].0, hs[0].1) + headers_bytes(hs.drop_first()),
    decreases hs.len(),
{
    if hs.len() == 1 {
        assert(hs.drop_last() =~= Seq::<(Seq<char>, Seq<char>)>::empty());
        assert(hs.drop_first() =~= Seq::<(Seq<char>, Seq<char>)>::empty());
        assert(hs.last() == hs[0]);
        assert(headers_bytes(hs) =~= header_line_bytes(hs[0].0, hs[0].1) + headers_bytes(
            hs.drop_first(),
        ));
    } else {
        lemma_headers_bytes_first(hs.drop_last());
        assert(hs.drop_last()[0] == hs[0]);
        assert(hs.drop_last().drop_first() =~= hs.drop_first().drop_last());
        assert(hs.drop_first().last() == hs.last());
        assert(headers_bytes(hs) == headers_bytes(hs.drop_last()) + header_line_bytes(
            hs.last().0,
            hs.last().1,
        ));
        assert(headers_bytes(hs) =~= header_line_bytes(hs[0].0, hs[0].1) + headers_bytes(
            hs.drop_first(),
        ));
    }
}

/// The full wire form of a packet: request line, headers, blank line.
pub open spec fn spec_frame(p: SpecPacket) -> Seq<u8> {
    encode_utf8(p.typ.spec_reqline()) + seq![13u8, 10u8] + headers_bytes(p.headers) + seq![
        13u8,
        10u8,
    ]
}

/// Appends the UTF-8 bytes of `s` to `dst`.
fn push_str_bytes(dst: &mut Vec<u8>, s: &str)
    ensures
        final (dst)@ == old(dst)@ + encode_utf8(s@),
{
    dst.extend_from_slice(s.as_bytes());
}

/// The packet serializer.
pub struct Encoder {}

impl Encoder {
    /// Appends the wire form of `p` to `dst`.
    pub fn encode(&self, p: &Packet, dst: &mut Vec<u8>)
        ensures
            final (dst)@ == old(dst)@ + spec_frame(p@),
    {
        let ghost base = dst@;
        let ghost hs = p.headers@;
        let line = p.typ.to_string();
        push_str_bytes(dst, line.as_str());
        dst.push(13);
        dst.push(10);
        let n = p.headers.len();
        let ghost mid = base + encode_utf8(p@.typ.spec_reqline()) + seq![13u8, 10u8];
        proof {
            assert(dst@ =~= mid);
        }
        let mut i: usize = 0;
        while i < n
            invariant
                n == hs.len(),
                hs == p.headers@,
                0 <= i <= n,
                mid == base + encode_utf8(p@.typ.spec_reqline()) + seq![13u8, 10u8],
                dst@ == mid + headers_bytes(hs.take(i as int)),
            decreases n - i,
        {
            push_str_bytes(dst, p.headers.key_at(i).as_str());
            dst.push(58);
            dst.push(32);
            push_str_bytes(dst, p.headers.value_at(i).as_str());
            dst.push(13);
            dst.push(10);
            proof {
                assert(hs.take(i + 1).drop_last() =~= hs.take(i as int));
                assert(hs.take(i + 1).last() == hs[i as int]);
                assert(dst@ =~= mid + headers_bytes(hs.take(i + 1)));
            }
            i += 1;
        }
        dst.push(13);
        dst.push(10);
        proof {
            assert(hs.take(n as int) =~= hs);
            assert(dst@ =~= base + spec_frame(p@));
        }
    }
}

} // verus!
