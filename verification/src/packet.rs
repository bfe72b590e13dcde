//! The unstructured intermediate form of an SSDP datagram: a request line
//! plus a header map.

pub mod decoder;
pub mod encoder;

use vstd::prelude::*;

use crate::errors::Error;
use crate::headers::{spec_insert, spec_insert_all, HeaderMap};

verus! {

/// The request line of a packet. Exactly three lines are recognized.
#[derive(Debug, PartialEq, Eq, Structural, Clone, Copy)]
pub enum PacketType {
    MSearch,
    Notify,
    Okay,
}

impl PacketType {
    /// The canonical request line of this packet type.
    pub open spec fn spec_reqline(self) -> Seq<char> {
        match self {
            PacketType::MSearch => "M-SEARCH * HTTP/1.1"@,
            PacketType::Notify => "NOTIFY * HTTP/1.1"@,
            PacketType::Okay => "HTTP/1.1 200 OK"@,
        }
    }

    /// Renders the canonical request line.
    pub fn to_string(&self) -> (r: String)
        ensures
            r@ == self.spec_reqline(),
    {
        match self {
            PacketType::MSearch => "M-SEARCH * HTTP/1.1".to_owned(),
            PacketType::Notify => "NOTIFY * HTTP/1.1".to_owned(),
            PacketType::Okay => "HTTP/1.1 200 OK".to_owned(),
        }
    }

    /// The packet type whose canonical request line is `s`, if any.
    /// Matching is case-sensitive and exact.
    pub open spec fn spec_from_reqline(s: Seq<char>) -> Option<PacketType> {
        if s == PacketType::Okay.spec_reqline() {
            Some(PacketType::Okay)
        } else if s == PacketType::Notify.spec_reqline() {
            Some(PacketType::Notify)
        } else if s == PacketType::MSearch.spec_reqline() {
            Some(PacketType::MSearch)
        } else {
            None
        }
    }

    /// Parses a request line; an unrecognized line is a decode error carrying
    /// the line itself.
    pub fn from_str(s: &str) -> (r: Result<PacketType, Error>)
        ensures
            match r {
                Result::Ok(t) => Self::spec_from_reqline(s@) == Some(t),
                Result::Err(e) => Self::spec_from_reqline(s@) is None && e@
                    == crate::errors::SpecError::MalformedRequestLine(s@),
            },
    {
        if crate::strutil::str_eq(s, "HTTP/1.1 200 OK") {
            Result::Ok(PacketType::Okay)
        } else if crate::strutil::str_eq(s, "NOTIFY * HTTP/1.1") {
            Result::Ok(PacketType::Notify)
        } else if crate::strutil::str_eq(s, "M-SEARCH * HTTP/1.1") {
            Result::Ok(PacketType::MSearch)
        } else {
            Result::Err(Error::MalformedRequestLine(s.to_owned()))
        }
    }

    /// Every canonical request line parses back to its own packet type.
    pub proof fn lemma_reqline_round_trip(t: PacketType)
        ensures
            Self::spec_from_reqline(t.spec_reqline()) == Some(t),
    {
        reveal_strlit("M-SEARCH * HTTP/1.1");
        reveal_strlit("NOTIFY * HTTP/1.1");
        reveal_strlit("HTTP/1.1 200 OK");
        assert(PacketType::MSearch.spec_reqline().len() == 19);
        assert(PacketType::Notify.spec_reqline().len() == 17);
        assert(PacketType::Okay.spec_reqline().len() == 15);
    }
}

/// The mathematical image of a [`Packet`].
pub ghost struct SpecPacket {
    pub typ: PacketType,
    pub headers: Seq<(Seq<char>, Seq<char>)>,
}

/// A single SSDP packet: its request line and its headers.
#[derive(Debug, PartialEq)]
pub struct Packet {
    /// The request line of the packet.
    pub typ: PacketType,
    /// The headers of the packet, in insertion order.
    pub headers: HeaderMap,
}

impl View for Packet {
    type V = SpecPacket;

    open spec fn view(&self) -> SpecPacket {
        SpecPacket { typ: self.typ, headers: self.headers@ }
    }
}

impl Packet {
    pub open spec fn wf(&self) -> bool {
        self.headers.wf()
    }

    /// Builds a packet from literal key/value pairs, inserting front to back
    /// with map semantics.
    pub fn new_from_literal(typ: PacketType, headers: Vec<(&str, &str)>) -> (r: Packet)
        ensures
            r@.typ == typ,
            r@.headers == spec_insert_all(
                Seq::<(Seq<char>, Seq<char>)>::empty(),
                Seq::new(headers@.len(), |i: int| (headers@[i].0@, headers@[i].1@)),
            ),
            r.wf(),
    {
        let ghost ps = Seq::new(headers@.len(), |i: int| (headers@[i].0@, headers@[i].1@));
        let mut hm = HeaderMap::new();
        let n = headers.len();
        let mut i: usize = 0;
        while i < n
            invariant
                n == headers@.len(),
                0 <= i <= n,
                ps == Seq::new(headers@.len(), |k: int| (headers@[k].0@, headers@[k].1@)),
                hm@ == spec_insert_all(Seq::<(Seq<char>, Seq<char>)>::empty(), ps.take(i as int)),
                hm.wf(),
            decreases n - i,
        {
            let (k, v) = headers[i];
            hm.insert(k.to_owned(), v.to_owned());
            proof {
                lemma_insert_all_snoc(
                    Seq::<(Seq<char>, Seq<char>)>::empty(),
                    ps.take(i as int),
                    (k@, v@),
                );
                assert(ps.take(i as int).push((k@, v@)) =~= ps.take(i + 1));
            }
            i += 1;
        }
        proof {
            assert(ps.take(n as int) =~= ps);
        }
        Packet { typ, headers: hm }
    }
}

/// Folding one more pair into an insertion sequence appends one insertion.
pub proof fn lemma_insert_all_snoc(
    hs: Seq<(Seq<char>, Seq<char>)>,
    ps: Seq<(Seq<char>, Seq<char>)>,
    p: (Seq<char>, Seq<char>),
)
    ensures
        spec_insert_all(hs, ps.push(p)) == spec_insert(spec_insert_all(hs, ps), p.0, p.1),
    decreases ps.len(),
{
    let q = ps.push(p);
    assert(q.len() == ps.len() + 1);
    if ps.len() == 0 {
        assert(q.drop_first() =~= Seq::<(Seq<char>, Seq<char>)>::empty());
        assert(q[0] == p);
        assert(spec_insert_all(hs, q) == spec_insert_all(
            spec_insert(hs, p.0, p.1),
            Seq::<(Seq<char>, Seq<char>)>::empty(),
        ));
        assert(spec_insert_all(spec_insert(hs, p.0, p.1), Seq::<(Seq<char>, Seq<char>)>::empty())
            == spec_insert(hs, p.0, p.1));
        assert(spec_insert_all(hs, ps) == hs);
    } else {
        assert(q[0] == ps[0]);
        assert(q.drop_first() =~= ps.drop_first().push(p));
        lemma_insert_all_snoc(spec_insert(hs, ps[0].0, ps[0].1), ps.drop_first(), p);
        assert(spec_insert_all(hs, q) == spec_insert_all(
            spec_insert(hs, ps[0].0, ps[0].1),
            ps.drop_first().push(p),
        ));
        assert(spec_insert_all(hs, ps) == spec_insert_all(
            spec_insert(hs, ps[0].0, ps[0].1),
            ps.drop_first(),
        ));
    }
}

} // verus!
