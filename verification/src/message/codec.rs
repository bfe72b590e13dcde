//! The message codec: messages decoded from and encoded to raw bytes, and
//! the proof that the two directions are inverse.

use vstd::prelude::*;
use vstd::utf8::{
    char_is_scalar, encode_scalar, encode_utf8, encode_utf8_decode_utf8, encode_utf8_valid_utf8,
    has_width_1_encoding, has_width_2_encoding, has_width_3_encoding,
};

use crate::errors::{Error, SpecError};
use crate::headers::{key_eq, keys_unique, spec_insert, spec_insert_all};
use crate::message::{message_from_packet, message_to_packet, Message, SpecMessage};
use crate::packet::decoder::{
    find_crlf, has_term, is_crlf_at, is_term_at, lemma_find_byte_is_first,
    lemma_find_crlf_is_first, lemma_find_crlf_props, lemma_term_pos_is, lower_bytes,
    spec_parse_header_line, spec_parse_header_lines, spec_parse_region, split_crlf, term_pos,
    trim_start_bytes, utf8_to_chars, Decoder,
};
use crate::packet::encoder::{header_line_bytes, headers_bytes, lemma_headers_bytes_first, spec_frame, Encoder};
use crate::packet::{PacketType, SpecPacket};
use crate::strutil::lower_chars;

verus! {

/// The shape of one encoded scalar: an ASCII character is its own single
/// byte; every byte of a non-ASCII character's encoding is at least `0x80`.
pub proof fn lemma_encode_scalar_shape(c: char)
    ensures
        encode_scalar(c as u32).len() >= 1,
        (c as u32) < 0x80 ==> encode_scalar(c as u32) == seq![((c as u32) as u8)],
        (c as u32) >= 0x80 ==> forall|k: int|
            0 <= k < encode_scalar(c as u32).len() ==> (#[trigger] encode_scalar(c as u32)[k])
                >= 0x80,
{
    char_is_scalar(c);
    let v = c as u32;
    if v < 0x80 {
        assert(has_width_1_encoding(v));
        assert((v & 0x7F) as u8 == v as u8) by (bit_vector)
            requires
                v < 0x80,
        ;
        assert(encode_scalar(v) =~= seq![(v as u8)]);
    } else if has_width_2_encoding(v) {
        assert((0xC0 | ((v >> 6) & 0x1F) as u8) >= 0x80 && (0x80 | (v & 0x3F) as u8) >= 0x80)
            by (bit_vector);
    } else if has_width_3_encoding(v) {
        assert((0xE0 | ((v >> 12) & 0x0F) as u8) >= 0x80 && (0x80 | ((v >> 6) & 0x3F) as u8)
            >= 0x80 && (0x80 | (v & 0x3F) as u8) >= 0x80) by (bit_vector);
    } else {
        assert((0xF0 | ((v >> 18) & 0x7) as u8) >= 0x80 && (0x80 | ((v >> 12) & 0x3F) as u8)
            >= 0x80 && (0x80 | ((v >> 6) & 0x3F) as u8) >= 0x80 && (0x80 | (v & 0x3F) as u8)
            >= 0x80) by (bit_vector);
    }
}

/// A byte below `0x80` occurs in an encoded string only where the string
/// holds that very ASCII character.
pub proof fn lemma_encode_avoids(s: Seq<char>, b: u8)
    requires
        b < 0x80,
        forall|j: int| 0 <= j < s.len() ==> (#[trigger] s[j]) as u32 != b as u32,
    ensures
        forall|i: int| 0 <= i < encode_utf8(s).len() ==> (#[trigger] encode_utf8(s)[i]) != b,
    decreases s.len(),
{
    if s.len() > 0 {
        lemma_encode_scalar_shape(s[0]);
        lemma_encode_avoids(s.drop_first(), b);
        let head = encode_scalar(s[0] as u32);
        let tail = encode_utf8(s.drop_first());
        assert(encode_utf8(s) == head + tail);
        assert forall|i: int| 0 <= i < encode_utf8(s).len() implies (#[trigger] encode_utf8(s)[i])
            != b by {
            if i < head.len() {
                let v: u32 = s[0] as u32;
                if v < 0x80 {
                    assert(head[i] == v as u8);
                    assert(v != b as u32);
                    assert(v as u8 != b) by (bit_vector)
                        requires
                            v < 0x80 && v != b as u32,
                    ;
                } else {
                    assert(head[i] >= 0x80);
                }
            } else {
                assert(encode_utf8(s)[i] == tail[i - head.len()]);
            }
        }
    }
}

/// No byte of an encoded string is a CR or LF unless the string holds one.
pub open spec fn crlf_free(bs: Seq<u8>) -> bool {
    forall|i: int| 0 <= i < bs.len() ==> (#[trigger] bs[i]) != 13 && bs[i] != 10
}

/// Character strings without CR or LF encode to byte strings without them.
pub proof fn lemma_crlf_free(s: Seq<char>)
    requires
        forall|j: int| 0 <= j < s.len() ==> (#[trigger] s[j]) != '\r' && s[j] != '\n',
    ensures
        crlf_free(encode_utf8(s)),
{
    assert forall|j: int| 0 <= j < s.len() implies (#[trigger] s[j]) as u32 != 13u8 as u32 by {
        if s[j] as u32 == 13 {
            vstd::utf8::char_u32_cast(s[j], 13);
            assert(13u32 as char == '\r');
        }
    }
    assert forall|j: int| 0 <= j < s.len() implies (#[trigger] s[j]) as u32 != 10u8 as u32 by {
        if s[j] as u32 == 10 {
            vstd::utf8::char_u32_cast(s[j], 10);
            assert(10u32 as char == '\n');
        }
    }
    lemma_encode_avoids(s, 13);
    lemma_encode_avoids(s, 10);
}

/// A lower-case string encodes to bytes that byte-level lower-casing leaves
/// unchanged.
pub proof fn lemma_lower_fixed(s: Seq<char>)
    requires
        s == lower_chars(s),
    ensures
        lower_bytes(encode_utf8(s)) == encode_utf8(s),
    decreases s.len(),
{
    if s.len() == 0 {
        assert(lower_bytes(encode_utf8(s)) =~= encode_utf8(s));
    } else {
        lemma_encode_scalar_shape(s[0]);
        assert(s.drop_first() =~= lower_chars(s.drop_first())) by {
            assert(forall|j: int|
                0 <= j < s.drop_first().len() ==> (#[trigger] s.drop_first()[j]) == s[j + 1]);
            assert(forall|j: int| 0 <= j < s.len() ==> s[j] == lower_chars(s)[j]);
        }
        lemma_lower_fixed(s.drop_first());
        let head = encode_scalar(s[0] as u32);
        let tail = encode_utf8(s.drop_first());
        assert(encode_utf8(s) == head + tail);
        assert(s[0] == lower_chars(s)[0]);
        assert(s[0] == crate::strutil::lower_char(s[0]));
        assert forall|i: int| 0 <= i < head.len() implies crate::packet::decoder::lower_byte(
            head[i],
        ) == head[i] by {
            let v: u32 = s[0] as u32;
            if v < 0x80 {
                assert(head[i] == v as u8);
                if 65 <= head[i] <= 90 {
                    assert(65 <= v <= 90) by (bit_vector)
                        requires
                            v < 0x80 && 65 <= (v as u8) && (v as u8) <= 90,
                    ;
                    let w: u8 = ((v + 32) as u8);
                    assert(crate::strutil::lower_char(s[0]) == (w as char));
                    assert(w as u32 == v + 32);
                    assert((w as char) as u32 == w as u32);
                    assert(crate::strutil::lower_char(s[0]) != s[0]);
                }
            } else {
                assert(head[i] >= 0x80);
            }
        }
        assert(lower_bytes(encode_utf8(s)) =~= encode_utf8(s));
    }
}

/// A non-empty string encodes to a non-empty byte string.
pub proof fn lemma_encode_nonempty(s: Seq<char>)
    requires
        s.len() > 0,
    ensures
        encode_utf8(s).len() >= 1,
        encode_utf8(s)[0] == encode_scalar(s[0] as u32)[0],
{
    lemma_encode_scalar_shape(s[0]);
}

/// A header key fit for the wire: already lower-case, no CR, LF or colon.
pub open spec fn key_ok(k: Seq<char>) -> bool {
    k == lower_chars(k) && forall|i: int|
        0 <= i < k.len() ==> (#[trigger] k[i]) != '\r' && k[i] != '\n' && k[i] != ':'
}

/// A header value fit for the wire: no CR or LF, and no leading blank that
/// trimming would eat.
pub open spec fn value_ok(v: Seq<char>) -> bool {
    (forall|i: int| 0 <= i < v.len() ==> (#[trigger] v[i]) != '\r' && v[i] != '\n') && (v.len() > 0
        ==> v[0] != ' ' && v[0] != '\t')
}

pub open spec fn opt_value_ok(o: Option<Seq<char>>) -> bool {
    match o {
        None => true,
        Some(v) => value_ok(v),
    }
}

/// Every header of the sequence is fit for the wire.
pub open spec fn wire_ok_headers(hs: Seq<(Seq<char>, Seq<char>)>) -> bool {
    forall|j: int|
        0 <= j < hs.len() ==> key_ok((#[trigger] hs[j]).0) && value_ok(hs[j].1)
}

/// A packet whose wire form decodes back to itself: headers fit for the
/// wire, keys unique.
pub open spec fn packet_wire_ok(p: SpecPacket) -> bool {
    wire_ok_headers(p.headers) && keys_unique(p.headers)
}

/// One header line without its trailing CRLF.
pub open spec fn line_bytes(h: (Seq<char>, Seq<char>)) -> Seq<u8> {
    encode_utf8(h.0) + seq![58u8, 32u8] + encode_utf8(h.1)
}

/// The byte form of the header block, each line led by the CRLF that closes
/// the line before it.
pub open spec fn mid_bytes(hs: Seq<(Seq<char>, Seq<char>)>) -> Seq<u8>
    decreases hs.len(),
{
    if hs.len() == 0 {
        seq![]
    } else {
        seq![13u8, 10u8] + line_bytes(hs[0]) + mid_bytes(hs.drop_first())
    }
}

/// A wire-fit header renders to a line free of CR and LF.
proof fn lemma_line_bytes_ok(h: (Seq<char>, Seq<char>))
    requires
        key_ok(h.0),
        value_ok(h.1),
    ensures
        crlf_free(line_bytes(h)),
        line_bytes(h).len() >= 2,
{
    lemma_crlf_free(h.0);
    lemma_crlf_free(h.1);
    let kb = encode_utf8(h.0);
    let vb = encode_utf8(h.1);
    assert forall|i: int| 0 <= i < line_bytes(h).len() implies (#[trigger] line_bytes(h)[i]) != 13
        && line_bytes(h)[i] != 10 by {
        if i < kb.len() {
            assert(line_bytes(h)[i] == kb[i]);
        } else if i < kb.len() + 2 {
            assert(line_bytes(h)[i] == 58 || line_bytes(h)[i] == 32);
        } else {
            assert(line_bytes(h)[i] == vb[i - kb.len() - 2]);
        }
    }
}

/// The header block followed by the final blank line: its first terminator
/// stands exactly four bytes from the end, and the bytes before it are the
/// header lines.
proof fn lemma_headers_frame(hs: Seq<(Seq<char>, Seq<char>)>)
    requires
        wire_ok_headers(hs),
    ensures
        ({
            let b = seq![13u8, 10u8] + headers_bytes(hs) + seq![13u8, 10u8];
            &&& b.len() >= 4
            &&& is_term_at(b, b.len() - 4)
            &&& (forall|j: int| 0 <= j < b.len() - 4 ==> !is_term_at(b, j))
            &&& b.take(b.len() - 4) == mid_bytes(hs)
        }),
    decreases hs.len(),
{
    let b = seq![13u8, 10u8] + headers_bytes(hs) + seq![13u8, 10u8];
    if hs.len() == 0 {
        assert(headers_bytes(hs) =~= Seq::<u8>::empty());
        assert(b =~= seq![13u8, 10u8, 13u8, 10u8]);
        assert(b.take(0) =~= mid_bytes(hs));
    } else {
        let rest = hs.drop_first();
        lemma_headers_frame(rest);
        lemma_headers_bytes_first(hs);
        lemma_line_bytes_ok(hs[0]);
        let l = line_bytes(hs[0]);
        let bp = seq![13u8, 10u8] + headers_bytes(rest) + seq![13u8, 10u8];
        assert(header_line_bytes(hs[0].0, hs[0].1) =~= l + seq![13u8, 10u8]);
        assert(b =~= seq![13u8, 10u8] + l + bp);
        let off = 2 + l.len() as int;
        assert forall|x: int| 0 <= x < bp.len() implies b[off + x] == bp[x] by {}
        assert(b.len() == off + bp.len());
        assert(is_term_at(b, b.len() - 4)) by {
            assert(is_term_at(bp, bp.len() - 4));
            assert(b[b.len() - 4] == bp[bp.len() - 4]);
            assert(b[b.len() - 3] == bp[bp.len() - 3]);
            assert(b[b.len() - 2] == bp[bp.len() - 2]);
            assert(b[b.len() - 1] == bp[bp.len() - 1]);
        }
        assert forall|j: int| 0 <= j < b.len() - 4 implies !is_term_at(b, j) by {
            if j == 0 {
                assert(b[2] == l[0]);
                assert(l[0] != 13);
            } else if j == 1 {
                assert(b[1] == 10);
            } else if j < off {
                assert(b[j] == l[j - 2]);
                assert(l[j - 2] != 13);
            } else {
                assert(!is_term_at(bp, j - off));
                assert(b[j] == bp[j - off]);
                assert(b[j + 1] == bp[j - off + 1]);
                assert(b[j + 2] == bp[j - off + 2]);
                assert(b[j + 3] == bp[j - off + 3]);
            }
        }
        assert(b.take(b.len() - 4) =~= seq![13u8, 10u8] + l + bp.take(bp.len() - 4));
        assert(mid_bytes(hs) == seq![13u8, 10u8] + l + mid_bytes(rest));
        assert(b.take(b.len() - 4) =~= mid_bytes(hs));
    }
}

/// The header lines of a header sequence, as byte strings.
pub open spec fn line_seq(hs: Seq<(Seq<char>, Seq<char>)>) -> Seq<Seq<u8>> {
    Seq::new(hs.len(), |i: int| line_bytes(hs[i]))
}

/// Splitting a CR-LF-free line followed by the header block recovers the
/// lines one by one.
proof fn lemma_split_mid(a: Seq<u8>, hs: Seq<(Seq<char>, Seq<char>)>)
    requires
        crlf_free(a),
        wire_ok_headers(hs),
    ensures
        split_crlf(a + mid_bytes(hs)) == seq![a] + line_seq(hs),
    decreases hs.len(),
{
    let s = a + mid_bytes(hs);
    if hs.len() == 0 {
        assert(s =~= a);
        lemma_find_crlf_props(a);
        match find_crlf(a) {
            Some(i) => {
                assert(a[i] != 13);
            },
            None => {},
        }
        assert(split_crlf(s) =~= seq![a] + line_seq(hs));
    } else {
        let rest = hs.drop_first();
        lemma_line_bytes_ok(hs[0]);
        let l = line_bytes(hs[0]);
        assert(s =~= a + (seq![13u8, 10u8] + l + mid_bytes(rest)));
        assert(is_crlf_at(s, a.len() as int)) by {
            assert(s[a.len() as int] == 13);
            assert(s[a.len() as int + 1] == 10);
        }
        assert forall|j: int| 0 <= j < a.len() implies !is_crlf_at(s, j) by {
            assert(s[j] == a[j]);
        }
        lemma_find_crlf_is_first(s, a.len() as int);
        assert(s.take(a.len() as int) =~= a);
        assert(s.skip(a.len() as int + 2) =~= l + mid_bytes(rest));
        assert forall|j: int|
            0 <= j < rest.len() implies key_ok((#[trigger] rest[j]).0) && value_ok(rest[j].1) by {
            assert(rest[j] == hs[j + 1]);
        }
        lemma_split_mid(l, rest);
        assert(split_crlf(s) == seq![a] + (seq![l] + line_seq(rest)));
        assert(seq![a] + (seq![l] + line_seq(rest)) =~= seq![a] + line_seq(hs)) by {
            assert forall|j: int|
                0 <= j < line_seq(hs).len() implies line_seq(hs)[j] == (seq![l] + line_seq(
                rest,
            ))[j] by {
                if j > 0 {
                    assert(hs[j] == rest[j - 1]);
                }
            }
        }
    }
}

/// One rendered header line parses back to its own key and value.
proof fn lemma_parse_line(h: (Seq<char>, Seq<char>))
    requires
        key_ok(h.0),
        value_ok(h.1),
    ensures
        spec_parse_header_line(line_bytes(h)) == Result::<(Seq<char>, Seq<char>), SpecError>::Ok(
            (h.0, h.1),
        ),
{
    broadcast use encode_utf8_valid_utf8, encode_utf8_decode_utf8;

    let l = line_bytes(h);
    let kb = encode_utf8(h.0);
    let vb = encode_utf8(h.1);
    assert forall|j: int| 0 <= j < h.0.len() implies (#[trigger] h.0[j]) as u32 != 58u8 as u32 by {
        if h.0[j] as u32 == 58 {
            vstd::utf8::char_u32_cast(h.0[j], 58);
            assert(58u32 as char == ':');
        }
    }
    lemma_encode_avoids(h.0, 58);
    assert(l[kb.len() as int] == 58);
    assert forall|j: int| 0 <= j < kb.len() implies l[j] != 58 by {
        assert(l[j] == kb[j]);
    }
    lemma_find_byte_is_first(l, 58, kb.len() as int);
    assert(l.take(kb.len() as int) =~= kb);
    lemma_lower_fixed(h.0);
    assert(utf8_to_chars(lower_bytes(kb)) == h.0);
    let after = l.skip(kb.len() as int + 1);
    assert(after =~= seq![32u8] + vb);
    assert(crate::packet::decoder::is_blank(after[0]));
    if h.1.len() == 0 {
        assert(vb =~= Seq::<u8>::empty());
        assert(after.len() == 1);
        crate::packet::decoder::lemma_trim_at(after, 1);
    } else {
        lemma_encode_nonempty(h.1);
        lemma_encode_scalar_shape(h.1[0]);
        let v: u32 = h.1[0] as u32;
        assert(after[1] == vb[0]);
        assert(!crate::packet::decoder::is_blank(after[1])) by {
            if v < 0x80 {
                assert(vb[0] == v as u8);
                assert(v != 32 && v != 9) by {
                    if v == 32 {
                        vstd::utf8::char_u32_cast(h.1[0], 32);
                        assert(32u32 as char == ' ');
                    }
                    if v == 9 {
                        vstd::utf8::char_u32_cast(h.1[0], 9);
                        assert(9u32 as char == '\t');
                    }
                }
                assert(v as u8 != 32 && v as u8 != 9) by (bit_vector)
                    requires
                        v < 0x80 && v != 32 && v != 9,
                ;
            } else {
                assert(vb[0] >= 0x80);
            }
        }
        crate::packet::decoder::lemma_trim_at(after, 1);
    }
    assert(after.skip(1) =~= vb);
    assert(trim_start_bytes(after) == vb);
    assert(utf8_to_chars(vb) == h.1);
}

/// Parsing the rendered header lines folds them back into the header
/// sequence they came from.
proof fn lemma_parse_lines(hs: Seq<(Seq<char>, Seq<char>)>, acc: Seq<(Seq<char>, Seq<char>)>)
    requires
        wire_ok_headers(hs),
    ensures
        spec_parse_header_lines(line_seq(hs), acc) == Result::<
            Seq<(Seq<char>, Seq<char>)>,
            SpecError,
        >::Ok(spec_insert_all(acc, hs)),
    decreases hs.len(),
{
    if hs.len() == 0 {
        assert(line_seq(hs) =~= Seq::<Seq<u8>>::empty());
    } else {
        let rest = hs.drop_first();
        lemma_parse_line(hs[0]);
        assert(line_seq(hs)[0] == line_bytes(hs[0]));
        assert(line_seq(hs).drop_first() =~= line_seq(rest));
        assert forall|j: int|
            0 <= j < rest.len() implies key_ok((#[trigger] rest[j]).0) && value_ok(rest[j].1) by {
            assert(rest[j] == hs[j + 1]);
        }
        lemma_parse_lines(rest, spec_insert(acc, hs[0].0, hs[0].1));
    }
}

/// Inserting a sequence of headers with pairwise distinct keys into a map
/// that holds none of them simply appends them.
proof fn lemma_insert_all_fresh(acc: Seq<(Seq<char>, Seq<char>)>, hs: Seq<(Seq<char>, Seq<char>)>)
    requires
        keys_unique(acc + hs),
    ensures
        spec_insert_all(acc, hs) == acc + hs,
    decreases hs.len(),
{
    if hs.len() == 0 {
        assert(acc + hs =~= acc);
    } else {
        let whole = acc + hs;
        assert(whole[acc.len() as int] == hs[0]);
        assert forall|j: int| 0 <= j < acc.len() implies !key_eq((#[trigger] acc[j]).0, hs[0].0) by {
            assert(whole[j] == acc[j]);
            assert(!key_eq(whole[j].0, whole[acc.len() as int].0));
        }
        crate::headers::lemma_find_key_props(acc, hs[0].0);
        match crate::headers::find_key(acc, hs[0].0) {
            Some(i) => {
                assert(key_eq(acc[i].0, hs[0].0));
            },
            None => {},
        }
        assert(spec_insert(acc, hs[0].0, hs[0].1) == acc.push(hs[0]));
        assert(acc.push(hs[0]) + hs.drop_first() =~= acc + hs);
        lemma_insert_all_fresh(acc.push(hs[0]), hs.drop_first());
    }
}

/// The canonical request lines are CR-LF-free, and decode from their own
/// bytes.
proof fn lemma_reqline_bytes(t: PacketType)
    ensures
        crlf_free(encode_utf8(t.spec_reqline())),
        encode_utf8(t.spec_reqline()).len() >= 1,
        utf8_to_chars(encode_utf8(t.spec_reqline())) == t.spec_reqline(),
        PacketType::spec_from_reqline(utf8_to_chars(encode_utf8(t.spec_reqline()))) == Some(t),
{
    broadcast use encode_utf8_valid_utf8, encode_utf8_decode_utf8;

    reveal_strlit("M-SEARCH * HTTP/1.1");
    reveal_strlit("NOTIFY * HTTP/1.1");
    reveal_strlit("HTTP/1.1 200 OK");
    let s = t.spec_reqline();
    assert(s.len() > 0) by {
        match t {
            PacketType::MSearch => {
                assert(s.len() == 19);
            },
            PacketType::Notify => {
                assert(s.len() == 17);
            },
            PacketType::Okay => {
                assert(s.len() == 15);
            },
        }
    }
    assert forall|j: int| 0 <= j < s.len() implies (#[trigger] s[j]) != '\r' && s[j] != '\n' by {}
    lemma_crlf_free(s);
    lemma_encode_nonempty(s);
    PacketType::lemma_reqline_round_trip(t);
}

/// The full framing round trip: the wire form of a wire-fit packet ends in
/// its first terminator, and the region before the terminator parses back to
/// the packet itself.
pub proof fn lemma_frame_round_trip(p: SpecPacket)
    requires
        packet_wire_ok(p),
    ensures
        ({
            let bytes = spec_frame(p);
            &&& bytes.len() >= 4
            &&& has_term(bytes)
            &&& term_pos(bytes) == bytes.len() - 4
            &&& bytes.skip(bytes.len() - 4 + 4) == Seq::<u8>::empty()
            &&& spec_parse_region(bytes.take(bytes.len() - 4)) == Result::<
                SpecPacket,
                SpecError,
            >::Ok(p)
        }),
{
    broadcast use encode_utf8_valid_utf8, encode_utf8_decode_utf8;

    let bytes = spec_frame(p);
    let rb = encode_utf8(p.typ.spec_reqline());
    let b = seq![13u8, 10u8] + headers_bytes(p.headers) + seq![13u8, 10u8];
    lemma_reqline_bytes(p.typ);
    lemma_headers_frame(p.headers);
    assert(bytes =~= rb + b);
    let off = rb.len() as int;
    assert forall|x: int| 0 <= x < b.len() implies bytes[off + x] == b[x] by {}
    assert(is_term_at(bytes, bytes.len() - 4)) by {
        assert(is_term_at(b, b.len() - 4));
        assert(bytes[bytes.len() - 4] == b[b.len() - 4]);
        assert(bytes[bytes.len() - 3] == b[b.len() - 3]);
        assert(bytes[bytes.len() - 2] == b[b.len() - 2]);
        assert(bytes[bytes.len() - 1] == b[b.len() - 1]);
    }
    assert forall|j: int| 0 <= j < bytes.len() - 4 implies !is_term_at(bytes, j) by {
        if j < off {
            assert(bytes[j] == rb[j]);
            assert(rb[j] != 13);
        } else {
            assert(!is_term_at(b, j - off));
            assert(bytes[j] == b[j - off]);
            assert(bytes[j + 1] == b[j - off + 1]);
            assert(bytes[j + 2] == b[j - off + 2]);
            assert(bytes[j + 3] == b[j - off + 3]);
        }
    }
    lemma_term_pos_is(bytes, bytes.len() - 4);
    assert(bytes.skip(bytes.len() - 4 + 4) =~= Seq::<u8>::empty());
    let region = bytes.take(bytes.len() - 4);
    assert(region =~= rb + b.take(b.len() - 4));
    assert(region =~= rb + mid_bytes(p.headers));
    lemma_split_mid(rb, p.headers);
    let lines = split_crlf(region);
    assert(lines == seq![rb] + line_seq(p.headers));
    assert(lines[0] == rb);
    lemma_parse_lines(p.headers, Seq::<(Seq<char>, Seq<char>)>::empty());
    assert(Seq::<(Seq<char>, Seq<char>)>::empty() + p.headers =~= p.headers);
    lemma_insert_all_fresh(Seq::<(Seq<char>, Seq<char>)>::empty(), p.headers);
    assert(lines.drop_first() =~= line_seq(p.headers));
    assert(spec_parse_header_lines(lines.drop_first(), Seq::<(Seq<char>, Seq<char>)>::empty())
        == Result::<Seq<(Seq<char>, Seq<char>)>, SpecError>::Ok(p.headers));
}

/// Inserting a wire-fit header into a wire-fit map keeps it wire-fit.
pub broadcast proof fn lemma_insert_wire_ok(
    hs: Seq<(Seq<char>, Seq<char>)>,
    k: Seq<char>,
    v: Seq<char>,
)
    requires
        wire_ok_headers(hs),
        key_ok(k),
        value_ok(v),
    ensures
        wire_ok_headers(#[trigger] spec_insert(hs, k, v)),
{
    crate::headers::lemma_find_key_props(hs, k);
    let out = spec_insert(hs, k, v);
    assert forall|j: int| 0 <= j < out.len() implies key_ok((#[trigger] out[j]).0) && value_ok(
        out[j].1,
    ) by {
        match crate::headers::find_key(hs, k) {
            Some(i) => {
                if j != i {
                    assert(out[j] == hs[j]);
                }
            },
            None => {
                if j < hs.len() {
                    assert(out[j] == hs[j]);
                }
            },
        }
    }
}

/// Inserting keeps keys unique.
pub broadcast proof fn lemma_insert_unique(
    hs: Seq<(Seq<char>, Seq<char>)>,
    k: Seq<char>,
    v: Seq<char>,
)
    requires
        keys_unique(hs),
    ensures
        keys_unique(#[trigger] spec_insert(hs, k, v)),
{
    crate::headers::lemma_find_key_props(hs, k);
    let out = spec_insert(hs, k, v);
    assert forall|a: int, b: int| 0 <= a < b < out.len() implies !key_eq(out[a].0, out[b].0) by {
        match crate::headers::find_key(hs, k) {
            Some(i) => {
                assert(out[a].0 == hs[a].0);
                assert(out[b].0 == hs[b].0);
            },
            None => {
                if b < hs.len() {
                    assert(out[a].0 == hs[a].0);
                    assert(out[b].0 == hs[b].0);
                } else {
                    assert(out[a].0 == hs[a].0);
                    assert(out[b].0 == k);
                    assert(!key_eq(hs[a].0, k));
                }
            },
        }
    }
}

/// The header names of the message variants are fit for the wire.
proof fn lemma_header_names_ok()
    ensures
        key_ok("host"@),
        key_ok("man"@),
        key_ok("cache-control"@),
        key_ok("mx"@),
        key_ok("st"@),
        key_ok("user_agent"@),
        key_ok("tcpport.upnp.org"@),
        key_ok("cpfn.upnp.org"@),
        key_ok("cpuuid.upnp.org"@),
        key_ok("location"@),
        key_ok("securelocation.upnp.org"@),
        key_ok("nt"@),
        key_ok("server"@),
        key_ok("usn"@),
        key_ok("bootid.upnp.org"@),
        key_ok("configid.upnp.org"@),
        key_ok("searchport.upnp.org"@),
        key_ok("nts"@),
        key_ok("date"@),
        key_ok("ext"@),
        value_ok(crate::message::types::ManDiscover::spec_canonical()),
        value_ok("ssdp:alive"@),
        value_ok(Seq::<char>::empty()),
{
    reveal_strlit("host");
    reveal_strlit("man");
    reveal_strlit("cache-control");
    reveal_strlit("mx");
    reveal_strlit("st");
    reveal_strlit("user_agent");
    reveal_strlit("tcpport.upnp.org");
    reveal_strlit("cpfn.upnp.org");
    reveal_strlit("cpuuid.upnp.org");
    reveal_strlit("location");
    reveal_strlit("securelocation.upnp.org");
    reveal_strlit("nt");
    reveal_strlit("server");
    reveal_strlit("usn");
    reveal_strlit("bootid.upnp.org");
    reveal_strlit("configid.upnp.org");
    reveal_strlit("searchport.upnp.org");
    reveal_strlit("nts");
    reveal_strlit("date");
    reveal_strlit("ext");
    reveal_strlit("\"ssdp:discover\"");
    reveal_strlit("ssdp:alive");
    assert(lower_chars("host"@) =~= "host"@);
    assert(lower_chars("man"@) =~= "man"@);
    assert(lower_chars("cache-control"@) =~= "cache-control"@);
    assert(lower_chars("mx"@) =~= "mx"@);
    assert(lower_chars("st"@) =~= "st"@);
    assert(lower_chars("user_agent"@) =~= "user_agent"@);
    assert(lower_chars("tcpport.upnp.org"@) =~= "tcpport.upnp.org"@);
    assert(lower_chars("cpfn.upnp.org"@) =~= "cpfn.upnp.org"@);
    assert(lower_chars("cpuuid.upnp.org"@) =~= "cpuuid.upnp.org"@);
    assert(lower_chars("location"@) =~= "location"@);
    assert(lower_chars("securelocation.upnp.org"@) =~= "securelocation.upnp.org"@);
    assert(lower_chars("nt"@) =~= "nt"@);
    assert(lower_chars("server"@) =~= "server"@);
    assert(lower_chars("usn"@) =~= "usn"@);
    assert(lower_chars("bootid.upnp.org"@) =~= "bootid.upnp.org"@);
    assert(lower_chars("configid.upnp.org"@) =~= "configid.upnp.org"@);
    assert(lower_chars("searchport.upnp.org"@) =~= "searchport.upnp.org"@);
    assert(lower_chars("nts"@) =~= "nts"@);
    assert(lower_chars("date"@) =~= "date"@);
    assert(lower_chars("ext"@) =~= "ext"@);
}

/// A decimal rendering is fit for the wire.
proof fn lemma_dec_repr_value_ok(n: int)
    requires
        n >= 0,
    ensures
        value_ok(crate::num::dec_repr(n)),
        value_ok(crate::num::dec_repr_i32(n)),
        n >= 1 ==> value_ok(crate::num::dec_repr_i32(-n)),
{
    crate::num::lemma_dec_repr_val(n);
    let s = crate::num::dec_repr(n);
    assert forall|i: int| 0 <= i < s.len() implies (#[trigger] s[i]) != '\r' && s[i] != '\n' by {
        assert(crate::num::is_digit(s[i]));
        assert('\r' as u32 == 13 && '\n' as u32 == 10);
    }
    assert(s[0] != ' ' && s[0] != '\t') by {
        assert(crate::num::is_digit(s[0]));
        assert(' ' as u32 == 32 && '\t' as u32 == 9);
    }
    if n >= 1 {
        let t = crate::num::dec_repr_i32(-n);
        assert(t =~= seq!['-'] + s);
        assert forall|i: int| 0 <= i < t.len() implies (#[trigger] t[i]) != '\r' && t[i] != '\n' by {
            if i > 0 {
                assert(t[i] == s[i - 1]);
                assert(crate::num::is_digit(s[i - 1]));
                assert('\r' as u32 == 13 && '\n' as u32 == 10);
            }
        }
    }
}

/// The messages whose wire form decodes back to the very same message: the
/// typed fields must round-trip and every rendered value must be fit for the
/// wire.
pub open spec fn message_wire_wf(m: SpecMessage) -> bool {
    crate::message::message_mapping_wf(m) && match m {
        SpecMessage::MSearch(v) => value_ok(v.host) && opt_value_ok(v.cache_control) && value_ok(
            crate::message::types::st_format(v.target),
        ) && opt_value_ok(v.user_agent) && opt_value_ok(v.friendly_name) && opt_value_ok(v.uuid),
        SpecMessage::Available(v) => value_ok(v.host) && value_ok(v.max_age) && value_ok(
            v.location,
        ) && opt_value_ok(v.secure_location) && value_ok(
            crate::message::types::st_format(v.notification_type),
        ) && value_ok(v.server) && value_ok(
            crate::message::types::usn_format(v.unique_service_name),
        ),
        SpecMessage::SearchResponse(v) => value_ok(v.max_age) && opt_value_ok(v.date) && value_ok(
            v.location,
        ) && value_ok(v.server) && opt_value_ok(v.secure_location) && value_ok(
            crate::message::types::st_format(v.target),
        ) && value_ok(crate::message::types::usn_format(v.unique_service_name)),
    }
}

/// The packet of a wire-fit message is itself fit for the wire.
pub proof fn lemma_message_packet_wire_ok(m: SpecMessage)
    requires
        message_wire_wf(m),
    ensures
        packet_wire_ok(message_to_packet(m)),
{
    broadcast use lemma_insert_wire_ok, lemma_insert_unique;

    lemma_header_names_ok();
    assert(wire_ok_headers(Seq::<(Seq<char>, Seq<char>)>::empty()));
    assert(keys_unique(Seq::<(Seq<char>, Seq<char>)>::empty()));
    match m {
        SpecMessage::MSearch(v) => {
            match v.max_wait {
                Some(n) => {
                    lemma_dec_repr_value_ok(n as int);
                },
                None => {},
            }
            match v.tcp_port {
                Some(n) => {
                    lemma_dec_repr_value_ok(n as int);
                },
                None => {},
            }
        },
        SpecMessage::Available(v) => {
            match v.boot_id {
                Some(n) => {
                    lemma_dec_repr_value_ok(if n >= 0 {
                        n as int
                    } else {
                        -(n as int)
                    });
                },
                None => {},
            }
            match v.config_id {
                Some(n) => {
                    lemma_dec_repr_value_ok(if n >= 0 {
                        n as int
                    } else {
                        -(n as int)
                    });
                },
                None => {},
            }
            match v.search_port {
                Some(n) => {
                    lemma_dec_repr_value_ok(n as int);
                },
                None => {},
            }
        },
        SpecMessage::SearchResponse(v) => {
            match v.boot_id {
                Some(n) => {
                    lemma_dec_repr_value_ok(if n >= 0 {
                        n as int
                    } else {
                        -(n as int)
                    });
                },
                None => {},
            }
            match v.config_id {
                Some(n) => {
                    lemma_dec_repr_value_ok(if n >= 0 {
                        n as int
                    } else {
                        -(n as int)
                    });
                },
                None => {},
            }
            match v.search_port {
                Some(n) => {
                    lemma_dec_repr_value_ok(n as int);
                },
                None => {},
            }
        },
    }
}

/// What decoding one full buffer yields: the first framed region parsed and
/// mapped onto a message.
pub open spec fn spec_decode_bytes(bs: Seq<u8>) -> Result<SpecMessage, SpecError> {
    match spec_parse_region(bs.take(term_pos(bs))) {
        Result::Ok(sp) => message_from_packet(sp),
        Result::Err(e) => Result::Err(e),
    }
}

/// How a decode result must relate to the buffer's mathematical decoding.
pub open spec fn message_result_matches(
    r: Result<Message, Error>,
    s: Result<SpecMessage, SpecError>,
) -> bool {
    match r {
        Result::Ok(m) => s matches Result::Ok(sm) && m@ == sm,
        Result::Err(e) => s matches Result::Err(se) && e@ == se,
    }
}

/// A codec turning raw datagram bytes into messages and back.
pub struct Codec {}

impl Codec {
    pub fn new() -> Codec {
        Codec {  }
    }

    /// Appends the wire form of `m` to `dst`.
    pub fn encode(&self, m: &Message, dst: &mut Vec<u8>)
        ensures
            final (dst)@ == old(dst)@ + spec_frame(message_to_packet(m@)),
    {
        let p = m.to_packet();
        let enc = Encoder {  };
        enc.encode(&p, dst);
    }

    /// Decodes one message from the front of `src`: framing first, then the
    /// variant mapping. Without a full packet nothing is consumed.
    pub fn decode(&self, src: &mut Vec<u8>) -> (r: Result<Message, Error>)
        ensures
            !has_term(old(src)@) ==> r == Result::<Message, Error>::Err(Error::Incomplete)
                && final (src)@ == old(src)@,
            has_term(old(src)@) ==> {
                &&& final (src)@ == old(src)@.skip(term_pos(old(src)@) + 4)
                &&& message_result_matches(r, spec_decode_bytes(old(src)@))
            },
    {
        let dec = Decoder {  };
        match dec.decode(src) {
            Result::Err(e) => Result::Err(e),
            Result::Ok(p) => Message::from_packet(&p),
        }
    }
}

/// The round trip of the whole stack, stated over the wire bytes: encoding a
/// well-formed message frames exactly one packet, and decoding those bytes
/// gives the message back and leaves nothing behind.
pub proof fn lemma_codec_round_trip(m: SpecMessage)
    requires
        message_wire_wf(m),
    ensures
        ({
            let bytes = spec_frame(message_to_packet(m));
            &&& has_term(bytes)
            &&& term_pos(bytes) == bytes.len() - 4
            &&& bytes.skip(term_pos(bytes) + 4) == Seq::<u8>::empty()
            &&& spec_decode_bytes(bytes) == Result::<SpecMessage, SpecError>::Ok(m)
        }),
{
    lemma_message_packet_wire_ok(m);
    lemma_frame_round_trip(message_to_packet(m));
    crate::message::lemma_message_round_trip(m);
}

} // verus!
