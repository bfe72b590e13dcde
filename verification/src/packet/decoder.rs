//! Byte-level packet framing.
//!
//! The decoder scans the buffer for the four-byte terminator `CR LF CR LF`.
//! Until it appears nothing is consumed and the caller is told the packet is
//! incomplete. Once it appears, exactly the bytes through the terminator are
//! consumed; the consumed region is split at `CR LF` into a request line and
//! header lines, each header line is split at its first colon into a
//! lower-cased key and a value with leading blanks removed, and duplicate
//! keys keep the first position with the last value.

use vstd::prelude::*;
use vstd::utf8::{decode_utf8, valid_utf8};

use crate::errors::{Error, SpecError};
use crate::headers::{spec_insert, HeaderMap};
use crate::packet::{Packet, PacketType, SpecPacket};

verus! {

/// What `String::from_utf8_lossy` returns on bytes that are not valid UTF-8;
/// a function of the bytes alone.
pub uninterp spec fn lossy_decode(bytes: Seq<u8>) -> Seq<char>;

/// The characters a byte region decodes to: exact UTF-8 decoding where the
/// region is valid, the lossy replacement otherwise.
pub open spec fn utf8_to_chars(bytes: Seq<u8>) -> Seq<char> {
    if valid_utf8(bytes) {
        decode_utf8(bytes)
    } else {
        lossy_decode(bytes)
    }
}

/// Relies on `String::from_utf8_lossy`: valid UTF-8 input converts to the
/// exact character sequence it encodes, and the result depends on the bytes
/// alone.
#[verifier::external_body]
pub(crate) fn bytes_to_string(v: &[u8]) -> (r: String)
    ensures
        r@ == utf8_to_chars(v@),
        !valid_utf8(v@) ==> r@ == lossy_decode(v@),
{
    String::from_utf8_lossy(v).into_owned()
}

/// A `CR LF` pair starts at position `i`.
pub open spec fn is_crlf_at(bs: Seq<u8>, i: int) -> bool {
    0 <= i && i + 2 <= bs.len() && bs[i] == 13 && bs[i + 1] == 10
}

/// The four-byte terminator `CR LF CR LF` starts at position `i`.
pub open spec fn is_term_at(bs: Seq<u8>, i: int) -> bool {
    0 <= i && i + 4 <= bs.len() && bs[i] == 13 && bs[i + 1] == 10 && bs[i + 2] == 13 && bs[i + 3]
        == 10
}

/// The buffer holds a full packet: the terminator occurs somewhere.
pub open spec fn has_term(bs: Seq<u8>) -> bool {
    exists|i: int| is_term_at(bs, i)
}

/// The position of the first terminator occurrence.
pub open spec fn term_pos(bs: Seq<u8>) -> int {
    choose|i: int| is_term_at(bs, i) && (forall|j: int| 0 <= j < i ==> !is_term_at(bs, j))
}

proof fn lemma_exists_first_term(bs: Seq<u8>, w: int)
    requires
        is_term_at(bs, w),
    ensures
        exists|i: int| is_term_at(bs, i) && (forall|j: int| 0 <= j < i ==> !is_term_at(bs, j)),
    decreases w,
{
    if forall|j: int| 0 <= j < w ==> !is_term_at(bs, j) {
        assert(is_term_at(bs, w) && (forall|j: int| 0 <= j < w ==> !is_term_at(bs, j)));
    } else {
        let j = choose|j: int| 0 <= j < w && is_term_at(bs, j);
        lemma_exists_first_term(bs, j);
    }
}

/// When the terminator occurs, `term_pos` is its first occurrence.
pub proof fn lemma_term_pos(bs: Seq<u8>)
    requires
        has_term(bs),
    ensures
        is_term_at(bs, term_pos(bs)),
        forall|j: int| 0 <= j < term_pos(bs) ==> !is_term_at(bs, j),
{
    let w = choose|i: int| is_term_at(bs, i);
    lemma_exists_first_term(bs, w);
}

/// A position that carries the terminator while no earlier one does is
/// exactly `term_pos`.
pub proof fn lemma_term_pos_is(bs: Seq<u8>, i: int)
    requires
        is_term_at(bs, i),
        forall|j: int| 0 <= j < i ==> !is_term_at(bs, j),
    ensures
        term_pos(bs) == i,
{
    lemma_term_pos(bs);
    let p = term_pos(bs);
    if p < i {
        assert(!is_term_at(bs, p));
    } else if i < p {
        assert(!is_term_at(bs, i));
    }
}

/// First position of a `CR LF` pair.
pub open spec fn find_crlf(bs: Seq<u8>) -> Option<int>
    decreases bs.len(),
{
    if bs.len() < 2 {
        None
    } else if bs[0] == 13 && bs[1] == 10 {
        Some(0)
    } else {
        match find_crlf(bs.drop_first()) {
            Some(i) => Some(i + 1),
            None => None,
        }
    }
}

pub proof fn lemma_find_crlf_props(bs: Seq<u8>)
    ensures
        match find_crlf(bs) {
            Some(i) => is_crlf_at(bs, i) && (forall|j: int| 0 <= j < i ==> !is_crlf_at(bs, j)),
            None => forall|j: int| 0 <= j < bs.len() ==> !is_crlf_at(bs, j),
        },
    decreases bs.len(),
{
    if bs.len() >= 2 && !(bs[0] == 13 && bs[1] == 10) {
        lemma_find_crlf_props(bs.drop_first());
        match find_crlf(bs.drop_first()) {
            Some(i) => {
                assert(bs.drop_first()[i] == bs[i + 1]);
                assert(bs.drop_first()[i + 1] == bs[i + 2]);
                assert forall|j: int| 0 <= j < i + 1 implies !is_crlf_at(bs, j) by {
                    if j > 0 {
                        assert(!is_crlf_at(bs.drop_first(), j - 1));
                        assert(bs.drop_first()[j - 1] == bs[j]);
                        assert(bs.drop_first()[j] == bs[j + 1]);
                    }
                }
            },
            None => {
                assert forall|j: int| 0 <= j < bs.len() implies !is_crlf_at(bs, j) by {
                    if j > 0 && j + 2 <= bs.len() {
                        assert(!is_crlf_at(bs.drop_first(), j - 1));
                        assert(bs.drop_first()[j - 1] == bs[j]);
                        assert(bs.drop_first()[j] == bs[j + 1]);
                    }
                }
            },
        }
    } else if bs.len() < 2 {
        assert forall|j: int| 0 <= j < bs.len() implies !is_crlf_at(bs, j) by {}
    }
}

pub proof fn lemma_find_crlf_is_first(bs: Seq<u8>, i: int)
    requires
        is_crlf_at(bs, i),
        forall|j: int| 0 <= j < i ==> !is_crlf_at(bs, j),
    ensures
        find_crlf(bs) == Some(i),
{
    lemma_find_crlf_props(bs);
    match find_crlf(bs) {
        Some(k) => {
            if k < i {
                assert(!is_crlf_at(bs, k));
            } else if i < k {
                assert(!is_crlf_at(bs, i));
            }
        },
        None => {
            assert(!is_crlf_at(bs, i));
        },
    }
}

/// The pieces of `bs` between `CR LF` pairs, leftmost first.
pub open spec fn split_crlf(bs: Seq<u8>) -> Seq<Seq<u8>>
    decreases bs.len(),
    via split_crlf_decreases
{
    match find_crlf(bs) {
        None => seq![bs],
        Some(i) => seq![bs.take(i)] + split_crlf(bs.skip(i + 2)),
    }
}

#[via_fn]
proof fn split_crlf_decreases(bs: Seq<u8>) {
    lemma_find_crlf_props(bs);
}
/// First position of byte `b`.
pub open spec fn find_byte(bs: Seq<u8>, b: u8) -> Option<int>
    decreases bs.len(),
{
    if bs.len() == 0 {
        None
    } else if bs[0] == b {
        Some(0)
    } else {
        match find_byte(bs.drop_first(), b) {
            Some(i) => Some(i + 1),
            None => None,
        }
    }
}

pub proof fn lemma_find_byte_props(bs: Seq<u8>, b: u8)
    ensures
        match find_byte(bs, b) {
            Some(i) => 0 <= i < bs.len() && bs[i] == b && (forall|j: int|
                0 <= j < i ==> bs[j] != b),
            None => forall|j: int| 0 <= j < bs.len() ==> bs[j] != b,
        },
    decreases bs.len(),
{
    if bs.len() > 0 && bs[0] != b {
        lemma_find_byte_props(bs.drop_first(), b);
        match find_byte(bs.drop_first(), b) {
            Some(i) => {
                assert(bs.drop_first()[i] == bs[i + 1]);
                assert forall|j: int| 0 <= j < i + 1 implies bs[j] != b by {
                    if j > 0 {
                        assert(bs.drop_first()[j - 1] == bs[j]);
                    }
                }
            },
            None => {
                assert forall|j: int| 0 <= j < bs.len() implies bs[j] != b by {
                    if j > 0 {
                        assert(bs.drop_first()[j - 1] == bs[j]);
                    }
                }
            },
        }
    }
}

pub proof fn lemma_find_byte_is_first(bs: Seq<u8>, b: u8, i: int)
    requires
        0 <= i < bs.len(),
        bs[i] == b,
        forall|j: int| 0 <= j < i ==> bs[j] != b,
    ensures
        find_byte(bs, b) == Some(i),
{
    lemma_find_byte_props(bs, b);
    match find_byte(bs, b) {
        Some(k) => {
            if k < i {
                assert(bs[k] != b);
            } else if i < k {
                assert(bs[i] != b);
            }
        },
        None => {
            assert(bs[i] != b);
        },
    }
}

/// ASCII lower-casing of one byte.
pub open spec fn lower_byte(b: u8) -> u8 {
    if 65 <= b <= 90 {
        (b + 32) as u8
    } else {
        b
    }
}

/// ASCII lower-casing of a byte string.
pub open spec fn lower_bytes(bs: Seq<u8>) -> Seq<u8> {
    bs.map_values(|b: u8| lower_byte(b))
}

/// Protocol blanks at the start of a header value: space and horizontal tab.
pub open spec fn is_blank(b: u8) -> bool {
    b == 32 || b == 9
}

/// `bs` with its leading blanks removed.
pub open spec fn trim_start_bytes(bs: Seq<u8>) -> Seq<u8>
    decreases bs.len(),
{
    if bs.len() > 0 && is_blank(bs[0]) {
        trim_start_bytes(bs.drop_first())
    } else {
        bs
    }
}

/// Trimming removes exactly the blank prefix.
pub proof fn lemma_trim_at(bs: Seq<u8>, j: int)
    requires
        0 <= j <= bs.len(),
        forall|k: int| 0 <= k < j ==> is_blank(#[trigger] bs[k]),
        j == bs.len() || !is_blank(bs[j]),
    ensures
        trim_start_bytes(bs) == bs.skip(j),
    decreases j,
{
    if j == 0 {
        assert(bs.skip(0) =~= bs);
    } else {
        assert(is_blank(bs[0]));
        lemma_trim_at(bs.drop_first(), j - 1);
        assert(bs.drop_first().skip(j - 1) =~= bs.skip(j));
    }
}

/// A decoded header: the key lower-cased, the value with leading blanks
/// removed, both read as text.
pub open spec fn spec_parse_header_line(line: Seq<u8>) -> Result<(Seq<char>, Seq<char>), SpecError> {
    match find_byte(line, 58) {
        None => Result::Err(SpecError::MalformedHeaderLine(utf8_to_chars(line))),
        Some(i) => Result::Ok(
            (
                utf8_to_chars(lower_bytes(line.take(i))),
                utf8_to_chars(trim_start_bytes(line.skip(i + 1))),
            ),
        ),
    }
}

/// Folds header lines into a header sequence with map-insert semantics;
/// the first malformed line aborts the packet.
pub open spec fn spec_parse_header_lines(
    lines: Seq<Seq<u8>>,
    acc: Seq<(Seq<char>, Seq<char>)>,
) -> Result<Seq<(Seq<char>, Seq<char>)>, SpecError>
    decreases lines.len(),
{
    if lines.len() == 0 {
        Result::Ok(acc)
    } else {
        match spec_parse_header_line(lines[0]) {
            Result::Err(e) => Result::Err(e),
            Result::Ok((k, v)) => spec_parse_header_lines(lines.drop_first(), spec_insert(acc, k, v)),
        }
    }
}

/// The packet encoded by a consumed region (the bytes before the terminator):
/// the first line must be one of the three recognized request lines, the rest
/// are header lines.
pub open spec fn spec_parse_region(region: Seq<u8>) -> Result<SpecPacket, SpecError> {
    let lines = split_crlf(region);
    match PacketType::spec_from_reqline(utf8_to_chars(lines[0])) {
        None => Result::Err(SpecError::MalformedRequestLine(utf8_to_chars(lines[0]))),
        Some(t) => match spec_parse_header_lines(
            lines.drop_first(),
            Seq::<(Seq<char>, Seq<char>)>::empty(),
        ) {
            Result::Err(e) => Result::Err(e),
            Result::Ok(hs) => Result::Ok(SpecPacket { typ: t, headers: hs }),
        },
    }
}

/// How a decode result must relate to the region's mathematical parse.
pub open spec fn packet_result_matches(
    r: Result<Packet, Error>,
    s: Result<SpecPacket, SpecError>,
) -> bool {
    match r {
        Result::Ok(p) => s matches Result::Ok(sp) && p@ == sp && p.wf(),
        Result::Err(e) => s matches Result::Err(se) && e@ == se,
    }
}

/// Copies `v[a..b]` into a fresh vector.
pub(crate) fn bytes_range(v: &Vec<u8>, a: usize, b: usize) -> (r: Vec<u8>)
    requires
        a <= b <= v@.len(),
    ensures
        r@ == v@.subrange(a as int, b as int),
{
    let mut r: Vec<u8> = Vec::new();
    let mut i: usize = a;
    while i < b
        invariant
            a <= i <= b <= v@.len(),
            r@ == v@.subrange(a as int, i as int),
        decreases b - i,
    {
        r.push(v[i]);
        proof {
            assert(r@ =~= v@.subrange(a as int, i + 1));
        }
        i += 1;
    }
    r
}

fn find_crlf_exec(v: &Vec<u8>) -> (r: Option<usize>)
    ensures
        match r {
            Some(i) => find_crlf(v@) == Some(i as int),
            None => find_crlf(v@) is None,
        },
{
    let n = v.len();
    let mut i: usize = 0;
    while n >= 2 && i < n - 1
        invariant
            n == v@.len(),
            0 <= i <= n,
            forall|j: int| 0 <= j < i ==> !is_crlf_at(v@, j),
        decreases n - i,
    {
        if v[i] == 13 && v[i + 1] == 10 {
            proof {
                lemma_find_crlf_is_first(v@, i as int);
            }
            return Some(i);
        }
        i += 1;
    }
    proof {
        assert forall|j: int| 0 <= j < v@.len() implies !is_crlf_at(v@, j) by {
            if j + 2 <= v@.len() {
                assert(j < i);
            }
        }
        lemma_find_crlf_props(v@);
    }
    None
}

fn find_byte_exec(v: &Vec<u8>, b: u8) -> (r: Option<usize>)
    ensures
        match r {
            Some(i) => find_byte(v@, b) == Some(i as int),
            None => find_byte(v@, b) is None,
        },
{
    let n = v.len();
    let mut i: usize = 0;
    while i < n
        invariant
            n == v@.len(),
            0 <= i <= n,
            forall|j: int| 0 <= j < i ==> v@[j] != b,
        decreases n - i,
    {
        if v[i] == b {
            proof {
                lemma_find_byte_is_first(v@, b, i as int);
            }
            return Some(i);
        }
        i += 1;
    }
    proof {
        lemma_find_byte_props(v@, b);
    }
    None
}

fn lower_bytes_exec(v: &Vec<u8>) -> (r: Vec<u8>)
    ensures
        r@ == lower_bytes(v@),
{
    let n = v.len();
    let mut r: Vec<u8> = Vec::new();
    let mut i: usize = 0;
    while i < n
        invariant
            n == v@.len(),
            0 <= i <= n,
            r@ == lower_bytes(v@.take(i as int)),
        decreases n - i,
    {
        let b = v[i];
        if 65 <= b && b <= 90 {
            r.push(b + 32);
        } else {
            r.push(b);
        }
        proof {
            assert(r@ =~= lower_bytes(v@.take(i + 1)));
        }
        i += 1;
    }
    proof {
        assert(v@.take(n as int) =~= v@);
    }
    r
}

fn trim_start_exec(v: &Vec<u8>) -> (r: Vec<u8>)
    ensures
        r@ == trim_start_bytes(v@),
{
    let n = v.len();
    let mut i: usize = 0;
    while i < n && (v[i] == 32 || v[i] == 9)
        invariant
            n == v@.len(),
            0 <= i <= n,
            forall|k: int| 0 <= k < i ==> is_blank(#[trigger] v@[k]),
        decreases n - i,
    {
        i += 1;
    }
    proof {
        lemma_trim_at(v@, i as int);
        assert(v@.subrange(i as int, n as int) =~= v@.skip(i as int));
    }
    bytes_range(v, i, n)
}

/// Splits `v` at every `CR LF`, mirroring [`split_crlf`].
fn split_crlf_exec(v: Vec<u8>) -> (r: Vec<Vec<u8>>)
    ensures
        r@.map_values(|x: Vec<u8>| x@) == split_crlf(v@),
        r@.len() >= 1,
    decreases v@.len(),
{
    match find_crlf_exec(&v) {
        None => {
            let mut out: Vec<Vec<u8>> = Vec::new();
            out.push(v);
            proof {
                assert(out@.map_values(|x: Vec<u8>| x@) =~= split_crlf(out@[0]@));
            }
            out
        },
        Some(i) => {
            proof {
                lemma_find_crlf_props(v@);
            }
            let head = bytes_range(&v, 0, i);
            let tail = bytes_range(&v, i + 2, v.len());
            proof {
                assert(head@ =~= v@.take(i as int));
                assert(tail@ =~= v@.skip(i + 2));
            }
            let mut out = split_crlf_exec(tail);
            out.insert(0, head);
            proof {
                assert(out@.map_values(|x: Vec<u8>| x@) =~= split_crlf(v@));
            }
            out
        },
    }
}

/// The packet deserializer.
pub struct Decoder {}

impl Decoder {
    /// Decodes one packet from the front of `src`.
    ///
    /// Without a terminator nothing is consumed and the result is
    /// `Incomplete`. With one, the bytes through the terminator are consumed
    /// whether or not the region parses, and the result is exactly the
    /// region's parse.
    pub fn decode(&self, src: &mut Vec<u8>) -> (r: Result<Packet, Error>)
        ensures
            !has_term(old(src)@) ==> r == Result::<Packet, Error>::Err(Error::Incomplete)
                && final (src)@ == old(src)@,
            has_term(old(src)@) ==> {
                &&& final (src)@ == old(src)@.skip(term_pos(old(src)@) + 4)
                &&& packet_result_matches(r, spec_parse_region(old(src)@.take(term_pos(old(src)@))))
            },
    {
        let ghost bs = src@;
        let n = src.len();
        let mut i: usize = 0;
        let mut found: Option<usize> = None;
        while n >= 4 && i < n - 3 && found.is_none()
            invariant
                n == bs.len(),
                bs == src@,
                0 <= i <= n,
                match found {
                    Some(p) => is_term_at(bs, p as int) && (forall|j: int|
                        0 <= j < p ==> !is_term_at(bs, j)),
                    None => forall|j: int| 0 <= j < i ==> !is_term_at(bs, j),
                },
            decreases n - i,
        {
            if src[i] == 13 && src[i + 1] == 10 && src[i + 2] == 13 && src[i + 3] == 10 {
                found = Some(i);
            }
            i += 1;
        }
        match found {
            None => {
                proof {
                    assert forall|j: int| !is_term_at(bs, j) by {
                        if 0 <= j && j + 4 <= bs.len() {
                            assert(n >= 4 && j <= n - 4);
                            assert(i >= n - 3);
                            assert(j < i);
                        }
                    }
                }
                Result::Err(Error::Incomplete)
            },
            Some(p) => {
                proof {
                    lemma_term_pos_is(bs, p as int);
                }
                let region = bytes_range(src, 0, p);
                let tail = src.split_off(p + 4);
                *src = tail;
                proof {
                    assert(region@ =~= bs.take(p as int));
                    assert(src@ =~= bs.skip(p + 4));
                }
                self.parse_region(region)
            },
        }
    }

    /// Parses a consumed region (request line plus header lines).
    #[verifier::loop_isolation(false)]
    fn parse_region(&self, region: Vec<u8>) -> (r: Result<Packet, Error>)
        ensures
            packet_result_matches(r, spec_parse_region(region@)),
    {
        let ghost reg = region@;
        let lines = split_crlf_exec(region);
        let ghost lm = lines@.map_values(|x: Vec<u8>| x@);
        proof {
            assert(lm == split_crlf(reg));
            assert(lm[0] == lines@[0]@);
            assert(lm.drop_first() =~= lm.skip(1));
        }
        let s0 = bytes_to_string(lines[0].as_slice());
        let t = match PacketType::from_str(s0.as_str()) {
            Result::Err(e) => {
                return Result::Err(e);
            },
            Result::Ok(t) => t,
        };
        let mut hm = HeaderMap::new();
        let nl = lines.len();
        let mut k: usize = 1;
        while k < nl
            invariant
                nl == lm.len(),
                lm == lines@.map_values(|x: Vec<u8>| x@),
                lm == split_crlf(reg),
                PacketType::spec_from_reqline(utf8_to_chars(lm[0])) == Some(t),
                1 <= k <= nl,
                hm.wf(),
                spec_parse_header_lines(lm.skip(1), Seq::<(Seq<char>, Seq<char>)>::empty())
                    == spec_parse_header_lines(lm.skip(k as int), hm@),
            decreases nl - k,
        {
            let ghost prev = hm@;
            let line = &lines[k];
            proof {
                assert(lm.skip(k as int)[0] == lm[k as int]);
                assert(lm[k as int] == line@);
                assert(lm.skip(k as int).drop_first() =~= lm.skip(k + 1));
                assert(lm.skip(k as int).len() == nl - k);
            }
            match find_byte_exec(line, 58) {
                None => {
                    let msg = bytes_to_string(line.as_slice());
                    proof {
                        assert(spec_parse_header_line(lm[k as int]) == Result::<
                            (Seq<char>, Seq<char>),
                            SpecError,
                        >::Err(SpecError::MalformedHeaderLine(utf8_to_chars(line@))));
                        assert(spec_parse_header_lines(lm.skip(k as int), hm@) == Result::<
                            Seq<(Seq<char>, Seq<char>)>,
                            SpecError,
                        >::Err(SpecError::MalformedHeaderLine(utf8_to_chars(line@))));
                        assert(spec_parse_header_lines(
                            lm.skip(1),
                            Seq::<(Seq<char>, Seq<char>)>::empty(),
                        ) == Result::<Seq<(Seq<char>, Seq<char>)>, SpecError>::Err(
                            SpecError::MalformedHeaderLine(utf8_to_chars(line@)),
                        ));
                        assert(split_crlf(reg) == lm);
                        assert(PacketType::spec_from_reqline(utf8_to_chars(lm[0])) == Some(t));
                        assert(spec_parse_region(reg) == Result::<SpecPacket, SpecError>::Err(
                            SpecError::MalformedHeaderLine(utf8_to_chars(line@)),
                        ));
                        assert(msg@ == utf8_to_chars(line@));
                    }
                    return Result::Err(Error::MalformedHeaderLine(msg));
                },
                Some(ci) => {
                    proof {
                        lemma_find_byte_props(line@, 58);
                    }
                    let ll = line.len();
                    let rawkey = bytes_range(line, 0, ci);
                    let key = lower_bytes_exec(&rawkey);
                    let rawval = bytes_range(line, ci + 1, ll);
                    let val = trim_start_exec(&rawval);
                    proof {
                        assert(rawkey@ =~= line@.take(ci as int));
                        assert(rawval@ =~= line@.skip(ci + 1));
                    }
                    let ks = bytes_to_string(key.as_slice());
                    let vs = bytes_to_string(val.as_slice());
                    hm.insert(ks, vs);
                    proof {
                        assert(spec_parse_header_line(lm[k as int]) == Result::<
                            (Seq<char>, Seq<char>),
                            SpecError,
                        >::Ok((ks@, vs@)));
                        assert(spec_parse_header_lines(lm.skip(k as int), prev)
                            == spec_parse_header_lines(lm.skip(k + 1), spec_insert(prev, ks@, vs@)));
                    }
                },
            }
            k += 1;
        }
        proof {
            assert(lm.skip(nl as int) =~= Seq::<Seq<u8>>::empty());
        }
        Result::Ok(Packet { typ: t, headers: hm })
    }
}

} // verus!
