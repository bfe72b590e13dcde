//! Strongly typed SSDP messages and their mapping onto packets.
//!
//! Each message variant declares its fields once; decoding reads each field
//! from the header map by name, required fields failing when absent and every
//! value passing through its type's parser, while encoding renders each
//! present field under the same name. Variants are tried in declaration
//! order, a variant with a discriminant header matching only when that header
//! carries its exact value.

pub mod codec;
pub mod types;

use vstd::prelude::*;

use crate::errors::{Error, SpecError};
use crate::headers::{key_eq, lemma_get_insert, spec_get, spec_insert, HeaderMap};
use crate::message::types::{
    st_format, st_parse, st_wf, usn_format, usn_parse, usn_wf, Ext, ManDiscover, SearchTarget,
    SpecSearchTarget, SpecUsn, UniqueServiceName,
};
use crate::num::{
    dec_repr, dec_repr_i32, format_i32, format_u16, format_u8, lemma_int_round_trip,
    lemma_uint_round_trip, parse_i32, parse_u16, parse_u8, spec_parse_int, spec_parse_uint,
};
use crate::packet::{Packet, PacketType, SpecPacket};

verus! {

/// A search request sent to the multicast group.
#[derive(Debug, PartialEq)]
pub struct MSearch {
    pub host: String,
    /// The mandatory `man` marker, always `"ssdp:discover"`.
    pub man: ManDiscover,
    pub cache_control: Option<String>,
    /// Maximum wait time in seconds; the protocol convention is 1 through 5.
    pub max_wait: Option<u8>,
    /// What to search for.
    pub target: SearchTarget,
    pub user_agent: Option<String>,
    /// A TCP port usable for follow-up requests.
    pub tcp_port: Option<u16>,
    /// The friendly name of the control point.
    pub friendly_name: Option<String>,
    /// The UUID of the control point.
    pub uuid: Option<String>,
}

/// A notification that a device is available on the network.
#[derive(Debug, PartialEq)]
pub struct Available {
    pub host: String,
    /// How long the advertisement stays valid.
    pub max_age: String,
    /// The URL of the UPnP description of the root device.
    pub location: String,
    pub secure_location: Option<String>,
    /// What kind of device or service this notification concerns.
    pub notification_type: SearchTarget,
    pub server: String,
    /// The unique instance this notification concerns.
    pub unique_service_name: UniqueServiceName,
    pub boot_id: Option<i32>,
    pub config_id: Option<i32>,
    pub search_port: Option<u16>,
}

/// A unicast reply to a search request.
#[derive(Debug, PartialEq)]
pub struct SearchResponse {
    /// How long this response stays valid.
    pub max_age: String,
    pub date: Option<String>,
    /// The URL of the UPnP description of the root device.
    pub location: String,
    /// The empty extension marker; its header must be present and empty.
    pub ext: Ext,
    pub server: String,
    pub secure_location: Option<String>,
    /// The search target this response answers.
    pub target: SearchTarget,
    pub unique_service_name: UniqueServiceName,
    pub boot_id: Option<i32>,
    pub config_id: Option<i32>,
    pub search_port: Option<u16>,
}

/// Any SSDP message.
#[derive(Debug, PartialEq)]
pub enum Message {
    /// A search for other devices.
    MSearch(MSearch),
    /// A notification that a device has appeared.
    Available(Available),
    /// A reply to a search.
    SearchResponse(SearchResponse),
}

/// The mathematical image of an [`MSearch`].
pub ghost struct SpecMSearch {
    pub host: Seq<char>,
    pub cache_control: Option<Seq<char>>,
    pub max_wait: Option<u8>,
    pub target: SpecSearchTarget,
    pub user_agent: Option<Seq<char>>,
    pub tcp_port: Option<u16>,
    pub friendly_name: Option<Seq<char>>,
    pub uuid: Option<Seq<char>>,
}

/// The mathematical image of an [`Available`].
pub ghost struct SpecAvailable {
    pub host: Seq<char>,
    pub max_age: Seq<char>,
    pub location: Seq<char>,
    pub secure_location: Option<Seq<char>>,
    pub notification_type: SpecSearchTarget,
    pub server: Seq<char>,
    pub unique_service_name: SpecUsn,
    pub boot_id: Option<i32>,
    pub config_id: Option<i32>,
    pub search_port: Option<u16>,
}

/// The mathematical image of a [`SearchResponse`].
pub ghost struct SpecSearchResponse {
    pub max_age: Seq<char>,
    pub date: Option<Seq<char>>,
    pub location: Seq<char>,
    pub server: Seq<char>,
    pub secure_location: Option<Seq<char>>,
    pub target: SpecSearchTarget,
    pub unique_service_name: SpecUsn,
    pub boot_id: Option<i32>,
    pub config_id: Option<i32>,
    pub search_port: Option<u16>,
}

/// The mathematical image of a [`Message`].
pub ghost enum SpecMessage {
    MSearch(SpecMSearch),
    Available(SpecAvailable),
    SearchResponse(SpecSearchResponse),
}

pub open spec fn opt_view(o: Option<String>) -> Option<Seq<char>> {
    match o {
        Some(s) => Some(s@),
        None => None,
    }
}

impl View for MSearch {
    type V = SpecMSearch;

    open spec fn view(&self) -> SpecMSearch {
        SpecMSearch {
            host: self.host@,
            cache_control: opt_view(self.cache_control),
            max_wait: self.max_wait,
            target: self.target@,
            user_agent: opt_view(self.user_agent),
            tcp_port: self.tcp_port,
            friendly_name: opt_view(self.friendly_name),
            uuid: opt_view(self.uuid),
        }
    }
}

impl View for Available {
    type V = SpecAvailable;

    open spec fn view(&self) -> SpecAvailable {
        SpecAvailable {
            host: self.host@,
            max_age: self.max_age@,
            location: self.location@,
            secure_location: opt_view(self.secure_location),
            notification_type: self.notification_type@,
            server: self.server@,
            unique_service_name: self.unique_service_name@,
            boot_id: self.boot_id,
            config_id: self.config_id,
            search_port: self.search_port,
        }
    }
}

impl View for SearchResponse {
    type V = SpecSearchResponse;

    open spec fn view(&self) -> SpecSearchResponse {
        SpecSearchResponse {
            max_age: self.max_age@,
            date: opt_view(self.date),
            location: self.location@,
            server: self.server@,
            secure_location: opt_view(self.secure_location),
            target: self.target@,
            unique_service_name: self.unique_service_name@,
            boot_id: self.boot_id,
            config_id: self.config_id,
            search_port: self.search_port,
        }
    }
}

impl View for Message {
    type V = SpecMessage;

    open spec fn view(&self) -> SpecMessage {
        match self {
            Message::MSearch(m) => SpecMessage::MSearch(m@),
            Message::Available(m) => SpecMessage::Available(m@),
            Message::SearchResponse(m) => SpecMessage::SearchResponse(m@),
        }
    }
}

/// A required string field: its header must be present.
pub open spec fn spec_req_str(
    hs: Seq<(Seq<char>, Seq<char>)>,
    k: Seq<char>,
) -> Result<Seq<char>, SpecError> {
    match spec_get(hs, k) {
        None => Result::Err(SpecError::MissingRequiredHeader(k)),
        Some(v) => Result::Ok(v),
    }
}

/// An optional `u8` field: absent is `None`, present must parse.
pub open spec fn spec_opt_u8(
    hs: Seq<(Seq<char>, Seq<char>)>,
    k: Seq<char>,
) -> Result<Option<u8>, SpecError> {
    match spec_get(hs, k) {
        None => Result::Ok(None),
        Some(v) => match spec_parse_uint(v, 255) {
            None => Result::Err(SpecError::MalformedFieldValue(k, v)),
            Some(n) => Result::Ok(Some(n as u8)),
        },
    }
}

/// An optional `u16` field: absent is `None`, present must parse.
pub open spec fn spec_opt_u16(
    hs: Seq<(Seq<char>, Seq<char>)>,
    k: Seq<char>,
) -> Result<Option<u16>, SpecError> {
    match spec_get(hs, k) {
        None => Result::Ok(None),
        Some(v) => match spec_parse_uint(v, 65535) {
            None => Result::Err(SpecError::MalformedFieldValue(k, v)),
            Some(n) => Result::Ok(Some(n as u16)),
        },
    }
}

/// An optional `i32` field: absent is `None`, present must parse.
pub open spec fn spec_opt_i32(
    hs: Seq<(Seq<char>, Seq<char>)>,
    k: Seq<char>,
) -> Result<Option<i32>, SpecError> {
    match spec_get(hs, k) {
        None => Result::Ok(None),
        Some(v) => match spec_parse_int(v, i32::MIN as int, i32::MAX as int) {
            None => Result::Err(SpecError::MalformedFieldValue(k, v)),
            Some(n) => Result::Ok(Some(n as i32)),
        },
    }
}

/// Inserts an optional field: absent values contribute no header.
pub open spec fn opt_insert(
    hs: Seq<(Seq<char>, Seq<char>)>,
    k: Seq<char>,
    ov: Option<Seq<char>>,
) -> Seq<(Seq<char>, Seq<char>)> {
    match ov {
        None => hs,
        Some(v) => spec_insert(hs, k, v),
    }
}

pub open spec fn opt_u8_repr(o: Option<u8>) -> Option<Seq<char>> {
    match o {
        None => None,
        Some(n) => Some(dec_repr(n as int)),
    }
}

pub open spec fn opt_u16_repr(o: Option<u16>) -> Option<Seq<char>> {
    match o {
        None => None,
        Some(n) => Some(dec_repr(n as int)),
    }
}

pub open spec fn opt_i32_repr(o: Option<i32>) -> Option<Seq<char>> {
    match o {
        None => None,
        Some(n) => Some(dec_repr_i32(n as int)),
    }
}

/// How a search request reads from a header map, field by field in
/// declaration order; the first failing field decides the error.
pub open spec fn msearch_from_headers(
    hs: Seq<(Seq<char>, Seq<char>)>,
) -> Result<SpecMSearch, SpecError> {
    match spec_req_str(hs, "host"@) {
        Result::Err(e) => Result::Err(e),
        Result::Ok(host) => match spec_req_str(hs, "man"@) {
            Result::Err(e) => Result::Err(e),
            Result::Ok(man) => if !ManDiscover::spec_ok(man) {
                Result::Err(SpecError::MalformedFieldValue("man"@, man))
            } else {
                match spec_opt_u8(hs, "mx"@) {
                    Result::Err(e) => Result::Err(e),
                    Result::Ok(max_wait) => match spec_req_str(hs, "st"@) {
                        Result::Err(e) => Result::Err(e),
                        Result::Ok(st) => match spec_opt_u16(hs, "tcpport.upnp.org"@) {
                            Result::Err(e) => Result::Err(e),
                            Result::Ok(tcp_port) => Result::Ok(
                                SpecMSearch {
                                    host: host,
                                    cache_control: spec_get(hs, "cache-control"@),
                                    max_wait: max_wait,
                                    target: st_parse(st),
                                    user_agent: spec_get(hs, "user_agent"@),
                                    tcp_port: tcp_port,
                                    friendly_name: spec_get(hs, "cpfn.upnp.org"@),
                                    uuid: spec_get(hs, "cpuuid.upnp.org"@),
                                },
                            ),
                        },
                    },
                }
            },
        },
    }
}

/// The headers a search request renders to, in declaration order.
pub open spec fn msearch_to_headers(m: SpecMSearch) -> Seq<(Seq<char>, Seq<char>)> {
    let h0 = Seq::<(Seq<char>, Seq<char>)>::empty();
    let h1 = spec_insert(h0, "host"@, m.host);
    let h2 = spec_insert(h1, "man"@, ManDiscover::spec_canonical());
    let h3 = opt_insert(h2, "cache-control"@, m.cache_control);
    let h4 = opt_insert(h3, "mx"@, opt_u8_repr(m.max_wait));
    let h5 = spec_insert(h4, "st"@, st_format(m.target));
    let h6 = opt_insert(h5, "user_agent"@, m.user_agent);
    let h7 = opt_insert(h6, "tcpport.upnp.org"@, opt_u16_repr(m.tcp_port));
    let h8 = opt_insert(h7, "cpfn.upnp.org"@, m.friendly_name);
    opt_insert(h8, "cpuuid.upnp.org"@, m.uuid)
}

/// Reads a required string field from the map.
fn header_req_str(h: &HeaderMap, k: &str) -> (r: Result<String, Error>)
    ensures
        match r {
            Result::Ok(v) => spec_req_str(h@, k@) == Result::<Seq<char>, SpecError>::Ok(v@),
            Result::Err(e) => spec_req_str(h@, k@) == Result::<Seq<char>, SpecError>::Err(e@),
        },
{
    match h.get(k) {
        Some(v) => Result::Ok(v),
        None => Result::Err(Error::MissingRequiredHeader(k.to_owned())),
    }
}

/// Reads an optional `u8` field from the map.
fn header_opt_u8(h: &HeaderMap, k: &str) -> (r: Result<Option<u8>, Error>)
    ensures
        match r {
            Result::Ok(v) => spec_opt_u8(h@, k@) == Result::<Option<u8>, SpecError>::Ok(v),
            Result::Err(e) => spec_opt_u8(h@, k@) == Result::<Option<u8>, SpecError>::Err(e@),
        },
{
    match h.get(k) {
        None => Result::Ok(None),
        Some(v) => match parse_u8(v.as_str()) {
            Some(n) => Result::Ok(Some(n)),
            None => Result::Err(Error::MalformedFieldValue(k.to_owned(), v)),
        },
    }
}

/// Reads an optional `u16` field from the map.
fn header_opt_u16(h: &HeaderMap, k: &str) -> (r: Result<Option<u16>, Error>)
    ensures
        match r {
            Result::Ok(v) => spec_opt_u16(h@, k@) == Result::<Option<u16>, SpecError>::Ok(v),
            Result::Err(e) => spec_opt_u16(h@, k@) == Result::<Option<u16>, SpecError>::Err(e@),
        },
{
    match h.get(k) {
        None => Result::Ok(None),
        Some(v) => match parse_u16(v.as_str()) {
            Some(n) => Result::Ok(Some(n)),
            None => Result::Err(Error::MalformedFieldValue(k.to_owned(), v)),
        },
    }
}

/// Reads an optional `i32` field from the map.
fn header_opt_i32(h: &HeaderMap, k: &str) -> (r: Result<Option<i32>, Error>)
    ensures
        match r {
            Result::Ok(v) => spec_opt_i32(h@, k@) == Result::<Option<i32>, SpecError>::Ok(v),
            Result::Err(e) => spec_opt_i32(h@, k@) == Result::<Option<i32>, SpecError>::Err(e@),
        },
{
    match h.get(k) {
        None => Result::Ok(None),
        Some(v) => match parse_i32(v.as_str()) {
            Some(n) => Result::Ok(Some(n)),
            None => Result::Err(Error::MalformedFieldValue(k.to_owned(), v)),
        },
    }
}

impl MSearch {
    /// Reads a search request from a header map, mirroring
    /// [`msearch_from_headers`].
    pub fn from_headers(h: &HeaderMap) -> (r: Result<MSearch, Error>)
        ensures
            match r {
                Result::Ok(m) => msearch_from_headers(h@) == Result::<SpecMSearch, SpecError>::Ok(
                    m@,
                ),
                Result::Err(e) => msearch_from_headers(h@) == Result::<
                    SpecMSearch,
                    SpecError,
                >::Err(e@),
            },
    {
        let host = match header_req_str(h, "host") {
            Result::Ok(v) => v,
            Result::Err(e) => {
                return Result::Err(e);
            },
        };
        let man = match header_req_str(h, "man") {
            Result::Ok(v) => match ManDiscover::from_str(v.as_str()) {
                Result::Ok(m) => m,
                Result::Err(e) => {
                    return Result::Err(e);
                },
            },
            Result::Err(e) => {
                return Result::Err(e);
            },
        };
        let max_wait = match header_opt_u8(h, "mx") {
            Result::Ok(v) => v,
            Result::Err(e) => {
                return Result::Err(e);
            },
        };
        let target = match header_req_str(h, "st") {
            Result::Ok(v) => match SearchTarget::from_str(v.as_str()) {
                Result::Ok(t) => t,
                Result::Err(e) => {
                    return Result::Err(e);
                },
            },
            Result::Err(e) => {
                return Result::Err(e);
            },
        };
        let tcp_port = match header_opt_u16(h, "tcpport.upnp.org") {
            Result::Ok(v) => v,
            Result::Err(e) => {
                return Result::Err(e);
            },
        };
        Result::Ok(
            MSearch {
                host,
                man,
                cache_control: h.get("cache-control"),
                max_wait,
                target,
                user_agent: h.get("user_agent"),
                tcp_port,
                friendly_name: h.get("cpfn.upnp.org"),
                uuid: h.get("cpuuid.upnp.org"),
            },
        )
    }

    /// Renders this search request's headers, mirroring
    /// [`msearch_to_headers`].
    pub fn to_headers(&self) -> (h: HeaderMap)
        ensures
            h@ == msearch_to_headers(self@),
            h.wf(),
    {
        let mut h = HeaderMap::new();
        h.insert("host".to_owned(), self.host.clone());
        h.insert("man".to_owned(), self.man.to_string());
        if let Some(v) = &self.cache_control {
            h.insert("cache-control".to_owned(), v.clone());
        }
        if let Some(n) = &self.max_wait {
            h.insert("mx".to_owned(), format_u8(*n));
        }
        h.insert("st".to_owned(), self.target.to_string());
        if let Some(v) = &self.user_agent {
            h.insert("user_agent".to_owned(), v.clone());
        }
        if let Some(n) = &self.tcp_port {
            h.insert("tcpport.upnp.org".to_owned(), format_u16(*n));
        }
        if let Some(v) = &self.friendly_name {
            h.insert("cpfn.upnp.org".to_owned(), v.clone());
        }
        if let Some(v) = &self.uuid {
            h.insert("cpuuid.upnp.org".to_owned(), v.clone());
        }
        h
    }
}

/// The header keys of a search request are pairwise distinct under case
/// folding.
proof fn lemma_msearch_keys_distinct()
    ensures
        !key_eq("host"@, "man"@),
        !key_eq("host"@, "cache-control"@),
        !key_eq("host"@, "mx"@),
        !key_eq("host"@, "st"@),
        !key_eq("host"@, "user_agent"@),
        !key_eq("host"@, "tcpport.upnp.org"@),
        !key_eq("host"@, "cpfn.upnp.org"@),
        !key_eq("host"@, "cpuuid.upnp.org"@),
        !key_eq("man"@, "cache-control"@),
        !key_eq("man"@, "mx"@),
        !key_eq("man"@, "st"@),
        !key_eq("man"@, "user_agent"@),
        !key_eq("man"@, "tcpport.upnp.org"@),
        !key_eq("man"@, "cpfn.upnp.org"@),
        !key_eq("man"@, "cpuuid.upnp.org"@),
        !key_eq("cache-control"@, "mx"@),
        !key_eq("cache-control"@, "st"@),
        !key_eq("cache-control"@, "user_agent"@),
        !key_eq("cache-control"@, "tcpport.upnp.org"@),
        !key_eq("cache-control"@, "cpfn.upnp.org"@),
        !key_eq("cache-control"@, "cpuuid.upnp.org"@),
        !key_eq("mx"@, "st"@),
        !key_eq("mx"@, "user_agent"@),
        !key_eq("mx"@, "tcpport.upnp.org"@),
        !key_eq("mx"@, "cpfn.upnp.org"@),
        !key_eq("mx"@, "cpuuid.upnp.org"@),
        !key_eq("st"@, "user_agent"@),
        !key_eq("st"@, "tcpport.upnp.org"@),
        !key_eq("st"@, "cpfn.upnp.org"@),
        !key_eq("st"@, "cpuuid.upnp.org"@),
        !key_eq("user_agent"@, "tcpport.upnp.org"@),
        !key_eq("user_agent"@, "cpfn.upnp.org"@),
        !key_eq("user_agent"@, "cpuuid.upnp.org"@),
        !key_eq("tcpport.upnp.org"@, "cpfn.upnp.org"@),
        !key_eq("tcpport.upnp.org"@, "cpuuid.upnp.org"@),
        !key_eq("cpfn.upnp.org"@, "cpuuid.upnp.org"@),
{
    reveal_strlit("host");
    reveal_strlit("man");
    reveal_strlit("cache-control");
    reveal_strlit("mx");
    reveal_strlit("st");
    reveal_strlit("user_agent");
    reveal_strlit("tcpport.upnp.org");
    reveal_strlit("cpfn.upnp.org");
    reveal_strlit("cpuuid.upnp.org");
    assert(crate::strutil::lower_chars("host"@).len() == 4);
    assert(crate::strutil::lower_chars("man"@).len() == 3);
    assert(crate::strutil::lower_chars("cache-control"@).len() == 13);
    assert(crate::strutil::lower_chars("mx"@).len() == 2);
    assert(crate::strutil::lower_chars("st"@).len() == 2);
    assert(crate::strutil::lower_chars("user_agent"@).len() == 10);
    assert(crate::strutil::lower_chars("tcpport.upnp.org"@).len() == 16);
    assert(crate::strutil::lower_chars("cpfn.upnp.org"@).len() == 13);
    assert(crate::strutil::lower_chars("cpuuid.upnp.org"@).len() == 15);
    assert(crate::strutil::lower_chars("cache-control"@)[1] == 'a');
    assert(crate::strutil::lower_chars("cpfn.upnp.org"@)[1] == 'p');
    assert(crate::strutil::lower_chars("mx"@)[0] == 'm');
    assert(crate::strutil::lower_chars("st"@)[0] == 's');
}

/// Decoding the rendered headers of a well-formed search request gives the
/// request back.
pub proof fn lemma_msearch_round_trip(m: SpecMSearch)
    requires
        st_wf(m.target),
    ensures
        msearch_from_headers(msearch_to_headers(m)) == Result::<SpecMSearch, SpecError>::Ok(m),
{
    broadcast use lemma_get_insert;

    lemma_msearch_keys_distinct();
    crate::message::types::lemma_st_round_trip(m.target);
    match m.max_wait {
        Some(n) => {
            lemma_uint_round_trip(n as int, 255);
        },
        None => {},
    }
    match m.tcp_port {
        Some(n) => {
            lemma_uint_round_trip(n as int, 65535);
        },
        None => {},
    }
    let hs = msearch_to_headers(m);
    assert(spec_get(hs, "host"@) == Some(m.host));
    assert(spec_get(hs, "man"@) == Some(ManDiscover::spec_canonical()));
    assert(spec_get(hs, "cache-control"@) == m.cache_control);
    assert(spec_get(hs, "mx"@) == opt_u8_repr(m.max_wait));
    assert(spec_get(hs, "st"@) == Some(st_format(m.target)));
    assert(spec_get(hs, "user_agent"@) == m.user_agent);
    assert(spec_get(hs, "tcpport.upnp.org"@) == opt_u16_repr(m.tcp_port));
    assert(spec_get(hs, "cpfn.upnp.org"@) == m.friendly_name);
    assert(spec_get(hs, "cpuuid.upnp.org"@) == m.uuid);
    crate::message::types::ManDiscover::lemma_round_trip();
}

/// How an availability notification reads from a header map.
pub open spec fn available_from_headers(
    hs: Seq<(Seq<char>, Seq<char>)>,
) -> Result<SpecAvailable, SpecError> {
    match spec_req_str(hs, "host"@) {
        Result::Err(e) => Result::Err(e),
        Result::Ok(host) => match spec_req_str(hs, "cache-control"@) {
            Result::Err(e) => Result::Err(e),
            Result::Ok(max_age) => match spec_req_str(hs, "location"@) {
                Result::Err(e) => Result::Err(e),
                Result::Ok(location) => match spec_req_str(hs, "nt"@) {
                    Result::Err(e) => Result::Err(e),
                    Result::Ok(nt) => match spec_req_str(hs, "server"@) {
                        Result::Err(e) => Result::Err(e),
                        Result::Ok(server) => match spec_req_str(hs, "usn"@) {
                            Result::Err(e) => Result::Err(e),
                            Result::Ok(usn) => match usn_parse(usn) {
                                Result::Err(e) => Result::Err(e),
                                Result::Ok(u) => match spec_opt_i32(hs, "bootid.upnp.org"@) {
                                    Result::Err(e) => Result::Err(e),
                                    Result::Ok(boot_id) => match spec_opt_i32(
                                        hs,
                                        "configid.upnp.org"@,
                                    ) {
                                        Result::Err(e) => Result::Err(e),
                                        Result::Ok(config_id) => match spec_opt_u16(
                                            hs,
                                            "searchport.upnp.org"@,
                                        ) {
                                            Result::Err(e) => Result::Err(e),
                                            Result::Ok(search_port) => Result::Ok(
                                                SpecAvailable {
                                                    host: host,
                                                    max_age: max_age,
                                                    location: location,
                                                    secure_location: spec_get(
                                                        hs,
                                                        "securelocation.upnp.org"@,
                                                    ),
                                                    notification_type: st_parse(nt),
                                                    server: server,
                                                    unique_service_name: u,
                                                    boot_id: boot_id,
                                                    config_id: config_id,
                                                    search_port: search_port,
                                                },
                                            ),
                                        },
                                    },
                                },
                            },
                        },
                    },
                },
            },
        },
    }
}

/// The headers an availability notification renders to.
pub open spec fn available_to_headers(m: SpecAvailable) -> Seq<(Seq<char>, Seq<char>)> {
    let h0 = Seq::<(Seq<char>, Seq<char>)>::empty();
    let h1 = spec_insert(h0, "host"@, m.host);
    let h2 = spec_insert(h1, "cache-control"@, m.max_age);
    let h3 = spec_insert(h2, "location"@, m.location);
    let h4 = opt_insert(h3, "securelocation.upnp.org"@, m.secure_location);
    let h5 = spec_insert(h4, "nt"@, st_format(m.notification_type));
    let h6 = spec_insert(h5, "server"@, m.server);
    let h7 = spec_insert(h6, "usn"@, usn_format(m.unique_service_name));
    let h8 = opt_insert(h7, "bootid.upnp.org"@, opt_i32_repr(m.boot_id));
    let h9 = opt_insert(h8, "configid.upnp.org"@, opt_i32_repr(m.config_id));
    opt_insert(h9, "searchport.upnp.org"@, opt_u16_repr(m.search_port))
}

impl Available {
    /// Reads an availability notification from a header map, mirroring
    /// [`available_from_headers`].
    pub fn from_headers(h: &HeaderMap) -> (r: Result<Available, Error>)
        ensures
            match r {
                Result::Ok(m) => available_from_headers(h@) == Result::<
                    SpecAvailable,
                    SpecError,
                >::Ok(m@),
                Result::Err(e) => available_from_headers(h@) == Result::<
                    SpecAvailable,
                    SpecError,
                >::Err(e@),
            },
    {
        let host = match header_req_str(h, "host") {
            Result::Ok(v) => v,
            Result::Err(e) => {
                return Result::Err(e);
            },
        };
        let max_age = match header_req_str(h, "cache-control") {
            Result::Ok(v) => v,
            Result::Err(e) => {
                return Result::Err(e);
            },
        };
        let location = match header_req_str(h, "location") {
            Result::Ok(v) => v,
            Result::Err(e) => {
                return Result::Err(e);
            },
        };
        let notification_type = match header_req_str(h, "nt") {
            Result::Ok(v) => match SearchTarget::from_str(v.as_str()) {
                Result::Ok(t) => t,
                Result::Err(e) => {
                    return Result::Err(e);
                },
            },
            Result::Err(e) => {
                return Result::Err(e);
            },
        };
        let server = match header_req_str(h, "server") {
            Result::Ok(v) => v,
            Result::Err(e) => {
                return Result::Err(e);
            },
        };
        let unique_service_name = match header_req_str(h, "usn") {
            Result::Ok(v) => match UniqueServiceName::from_str(v.as_str()) {
                Result::Ok(u) => u,
                Result::Err(e) => {
                    return Result::Err(e);
                },
            },
            Result::Err(e) => {
                return Result::Err(e);
            },
        };
        let boot_id = match header_opt_i32(h, "bootid.upnp.org") {
            Result::Ok(v) => v,
            Result::Err(e) => {
                return Result::Err(e);
            },
        };
        let config_id = match header_opt_i32(h, "configid.upnp.org") {
            Result::Ok(v) => v,
            Result::Err(e) => {
                return Result::Err(e);
            },
        };
        let search_port = match header_opt_u16(h, "searchport.upnp.org") {
            Result::Ok(v) => v,
            Result::Err(e) => {
                return Result::Err(e);
            },
        };
        Result::Ok(
            Available {
                host,
                max_age,
                location,
                secure_location: h.get("securelocation.upnp.org"),
                notification_type,
                server,
                unique_service_name,
                boot_id,
                config_id,
                search_port,
            },
        )
    }

    /// Renders this notification's headers, mirroring
    /// [`available_to_headers`].
    pub fn to_headers(&self) -> (h: HeaderMap)
        ensures
            h@ == available_to_headers(self@),
            h.wf(),
    {
        let mut h = HeaderMap::new();
        h.insert("host".to_owned(), self.host.clone());
        h.insert("cache-control".to_owned(), self.max_age.clone());
        h.insert("location".to_owned(), self.location.clone());
        if let Some(v) = &self.secure_location {
            h.insert("securelocation.upnp.org".to_owned(), v.clone());
        }
        h.insert("nt".to_owned(), self.notification_type.to_string());
        h.insert("server".to_owned(), self.server.clone());
        h.insert("usn".to_owned(), self.unique_service_name.to_string());
        if let Some(n) = &self.boot_id {
            h.insert("bootid.upnp.org".to_owned(), format_i32(*n));
        }
        if let Some(n) = &self.config_id {
            h.insert("configid.upnp.org".to_owned(), format_i32(*n));
        }
        if let Some(n) = &self.search_port {
            h.insert("searchport.upnp.org".to_owned(), format_u16(*n));
        }
        h
    }
}

/// How a search response reads from a header map.
pub open spec fn search_response_from_headers(
    hs: Seq<(Seq<char>, Seq<char>)>,
) -> Result<SpecSearchResponse, SpecError> {
    match spec_req_str(hs, "cache-control"@) {
        Result::Err(e) => Result::Err(e),
        Result::Ok(max_age) => match spec_req_str(hs, "location"@) {
            Result::Err(e) => Result::Err(e),
            Result::Ok(location) => match spec_req_str(hs, "ext"@) {
                Result::Err(e) => Result::Err(e),
                Result::Ok(ext) => if !Ext::spec_ok(ext) {
                    Result::Err(SpecError::MalformedFieldValue("ext"@, ext))
                } else {
                    match spec_req_str(hs, "server"@) {
                        Result::Err(e) => Result::Err(e),
                        Result::Ok(server) => match spec_req_str(hs, "st"@) {
                            Result::Err(e) => Result::Err(e),
                            Result::Ok(st) => match spec_req_str(hs, "usn"@) {
                                Result::Err(e) => Result::Err(e),
                                Result::Ok(usn) => match usn_parse(usn) {
                                    Result::Err(e) => Result::Err(e),
                                    Result::Ok(u) => match spec_opt_i32(hs, "bootid.upnp.org"@) {
                                        Result::Err(e) => Result::Err(e),
                                        Result::Ok(boot_id) => match spec_opt_i32(
                                            hs,
                                            "configid.upnp.org"@,
                                        ) {
                                            Result::Err(e) => Result::Err(e),
                                            Result::Ok(config_id) => match spec_opt_u16(
                                                hs,
                                                "searchport.upnp.org"@,
                                            ) {
                                                Result::Err(e) => Result::Err(e),
                                                Result::Ok(search_port) => Result::Ok(
                                                    SpecSearchResponse {
                                                        max_age: max_age,
                                                        date: spec_get(hs, "date"@),
                                                        location: location,
                                                        server: server,
                                                        secure_location: spec_get(
                                                            hs,
                                                            "securelocation.upnp.org"@,
                                                        ),
                                                        target: st_parse(st),
                                                        unique_service_name: u,
                                                        boot_id: boot_id,
                                                        config_id: config_id,
                                                        search_port: search_port,
                                                    },
                                                ),
                                            },
                                        },
                                    },
                                },
                            },
                        },
                    }
                },
            },
        },
    }
}

/// The headers a search response renders to.
pub open spec fn search_response_to_headers(m: SpecSearchResponse) -> Seq<(Seq<char>, Seq<char>)> {
    let h0 = Seq::<(Seq<char>, Seq<char>)>::empty();
    let h1 = spec_insert(h0, "cache-control"@, m.max_age);
    let h2 = opt_insert(h1, "date"@, m.date);
    let h3 = spec_insert(h2, "location"@, m.location);
    let h4 = spec_insert(h3, "ext"@, Seq::<char>::empty());
    let h5 = spec_insert(h4, "server"@, m.server);
    let h6 = opt_insert(h5, "securelocation.upnp.org"@, m.secure_location);
    let h7 = spec_insert(h6, "st"@, st_format(m.target));
    let h8 = spec_insert(h7, "usn"@, usn_format(m.unique_service_name));
    let h9 = opt_insert(h8, "bootid.upnp.org"@, opt_i32_repr(m.boot_id));
    let h10 = opt_insert(h9, "configid.upnp.org"@, opt_i32_repr(m.config_id));
    opt_insert(h10, "searchport.upnp.org"@, opt_u16_repr(m.search_port))
}

impl SearchResponse {
    /// Reads a search response from a header map, mirroring
    /// [`search_response_from_headers`].
    pub fn from_headers(h: &HeaderMap) -> (r: Result<SearchResponse, Error>)
        ensures
            match r {
                Result::Ok(m) => search_response_from_headers(h@) == Result::<
                    SpecSearchResponse,
                    SpecError,
                >::Ok(m@),
                Result::Err(e) => search_response_from_headers(h@) == Result::<
                    SpecSearchResponse,
                    SpecError,
                >::Err(e@),
            },
    {
        let max_age = match header_req_str(h, "cache-control") {
            Result::Ok(v) => v,
            Result::Err(e) => {
                return Result::Err(e);
            },
        };
        let location = match header_req_str(h, "location") {
            Result::Ok(v) => v,
            Result::Err(e) => {
                return Result::Err(e);
            },
        };
        let ext = match header_req_str(h, "ext") {
            Result::Ok(v) => match Ext::from_str(v.as_str()) {
                Result::Ok(x) => x,
                Result::Err(e) => {
                    return Result::Err(e);
                },
            },
            Result::Err(e) => {
                return Result::Err(e);
            },
        };
        let server = match header_req_str(h, "server") {
            Result::Ok(v) => v,
            Result::Err(e) => {
                return Result::Err(e);
            },
        };
        let target = match header_req_str(h, "st") {
            Result::Ok(v) => match SearchTarget::from_str(v.as_str()) {
                Result::Ok(t) => t,
                Result::Err(e) => {
                    return Result::Err(e);
                },
            },
            Result::Err(e) => {
                return Result::Err(e);
            },
        };
        let unique_service_name = match header_req_str(h, "usn") {
            Result::Ok(v) => match UniqueServiceName::from_str(v.as_str()) {
                Result::Ok(u) => u,
                Result::Err(e) => {
                    return Result::Err(e);
                },
            },
            Result::Err(e) => {
                return Result::Err(e);
            },
        };
        let boot_id = match header_opt_i32(h, "bootid.upnp.org") {
            Result::Ok(v) => v,
            Result::Err(e) => {
                return Result::Err(e);
            },
        };
        let config_id = match header_opt_i32(h, "configid.upnp.org") {
            Result::Ok(v) => v,
            Result::Err(e) => {
                return Result::Err(e);
            },
        };
        let search_port = match header_opt_u16(h, "searchport.upnp.org") {
            Result::Ok(v) => v,
            Result::Err(e) => {
                return Result::Err(e);
            },
        };
        Result::Ok(
            SearchResponse {
                max_age,
                date: h.get("date"),
                location,
                ext,
                server,
                secure_location: h.get("securelocation.upnp.org"),
                target,
                unique_service_name,
                boot_id,
                config_id,
                search_port,
            },
        )
    }

    /// Renders this response's headers, mirroring
    /// [`search_response_to_headers`].
    pub fn to_headers(&self) -> (h: HeaderMap)
        ensures
            h@ == search_response_to_headers(self@),
            h.wf(),
    {
        let mut h = HeaderMap::new();
        h.insert("cache-control".to_owned(), self.max_age.clone());
        if let Some(v) = &self.date {
            h.insert("date".to_owned(), v.clone());
        }
        h.insert("location".to_owned(), self.location.clone());
        h.insert("ext".to_owned(), self.ext.to_string());
        h.insert("server".to_owned(), self.server.clone());
        if let Some(v) = &self.secure_location {
            h.insert("securelocation.upnp.org".to_owned(), v.clone());
        }
        h.insert("st".to_owned(), self.target.to_string());
        h.insert("usn".to_owned(), self.unique_service_name.to_string());
        if let Some(n) = &self.boot_id {
            h.insert("bootid.upnp.org".to_owned(), format_i32(*n));
        }
        if let Some(n) = &self.config_id {
            h.insert("configid.upnp.org".to_owned(), format_i32(*n));
        }
        if let Some(n) = &self.search_port {
            h.insert("searchport.upnp.org".to_owned(), format_u16(*n));
        }
        h
    }
}

/// The header keys of the notification and response variants are pairwise
/// distinct under case folding; `nts` is distinct from all of them.
proof fn lemma_notify_keys_distinct()
    ensures
        !key_eq("host"@, "cache-control"@),
        !key_eq("host"@, "location"@),
        !key_eq("host"@, "securelocation.upnp.org"@),
        !key_eq("host"@, "nt"@),
        !key_eq("host"@, "server"@),
        !key_eq("host"@, "usn"@),
        !key_eq("host"@, "bootid.upnp.org"@),
        !key_eq("host"@, "configid.upnp.org"@),
        !key_eq("host"@, "searchport.upnp.org"@),
        !key_eq("host"@, "nts"@),
        !key_eq("host"@, "date"@),
        !key_eq("host"@, "ext"@),
        !key_eq("host"@, "st"@),
        !key_eq("cache-control"@, "location"@),
        !key_eq("cache-control"@, "securelocation.upnp.org"@),
        !key_eq("cache-control"@, "nt"@),
        !key_eq("cache-control"@, "server"@),
        !key_eq("cache-control"@, "usn"@),
        !key_eq("cache-control"@, "bootid.upnp.org"@),
        !key_eq("cache-control"@, "configid.upnp.org"@),
        !key_eq("cache-control"@, "searchport.upnp.org"@),
        !key_eq("cache-control"@, "nts"@),
        !key_eq("cache-control"@, "date"@),
        !key_eq("cache-control"@, "ext"@),
        !key_eq("cache-control"@, "st"@),
        !key_eq("location"@, "securelocation.upnp.org"@),
        !key_eq("location"@, "nt"@),
        !key_eq("location"@, "server"@),
        !key_eq("location"@, "usn"@),
        !key_eq("location"@, "bootid.upnp.org"@),
        !key_eq("location"@, "configid.upnp.org"@),
        !key_eq("location"@, "searchport.upnp.org"@),
        !key_eq("location"@, "nts"@),
        !key_eq("location"@, "date"@),
        !key_eq("location"@, "ext"@),
        !key_eq("location"@, "st"@),
        !key_eq("securelocation.upnp.org"@, "nt"@),
        !key_eq("securelocation.upnp.org"@, "server"@),
        !key_eq("securelocation.upnp.org"@, "usn"@),
        !key_eq("securelocation.upnp.org"@, "bootid.upnp.org"@),
        !key_eq("securelocation.upnp.org"@, "configid.upnp.org"@),
        !key_eq("securelocation.upnp.org"@, "searchport.upnp.org"@),
        !key_eq("securelocation.upnp.org"@, "nts"@),
        !key_eq("securelocation.upnp.org"@, "date"@),
        !key_eq("securelocation.upnp.org"@, "ext"@),
        !key_eq("securelocation.upnp.org"@, "st"@),
        !key_eq("nt"@, "server"@),
        !key_eq("nt"@, "usn"@),
        !key_eq("nt"@, "bootid.upnp.org"@),
        !key_eq("nt"@, "configid.upnp.org"@),
        !key_eq("nt"@, "searchport.upnp.org"@),
        !key_eq("nt"@, "nts"@),
        !key_eq("nt"@, "date"@),
        !key_eq("nt"@, "ext"@),
        !key_eq("nt"@, "st"@),
        !key_eq("server"@, "usn"@),
        !key_eq("server"@, "bootid.upnp.org"@),
        !key_eq("server"@, "configid.upnp.org"@),
        !key_eq("server"@, "searchport.upnp.org"@),
        !key_eq("server"@, "nts"@),
        !key_eq("server"@, "date"@),
        !key_eq("server"@, "ext"@),
        !key_eq("server"@, "st"@),
        !key_eq("usn"@, "bootid.upnp.org"@),
        !key_eq("usn"@, "configid.upnp.org"@),
        !key_eq("usn"@, "searchport.upnp.org"@),
        !key_eq("usn"@, "nts"@),
        !key_eq("usn"@, "date"@),
        !key_eq("usn"@, "ext"@),
        !key_eq("usn"@, "st"@),
        !key_eq("bootid.upnp.org"@, "configid.upnp.org"@),
        !key_eq("bootid.upnp.org"@, "searchport.upnp.org"@),
        !key_eq("bootid.upnp.org"@, "nts"@),
        !key_eq("bootid.upnp.org"@, "date"@),
        !key_eq("bootid.upnp.org"@, "ext"@),
        !key_eq("bootid.upnp.org"@, "st"@),
        !key_eq("configid.upnp.org"@, "searchport.upnp.org"@),
        !key_eq("configid.upnp.org"@, "nts"@),
        !key_eq("configid.upnp.org"@, "date"@),
        !key_eq("configid.upnp.org"@, "ext"@),
        !key_eq("configid.upnp.org"@, "st"@),
        !key_eq("searchport.upnp.org"@, "nts"@),
        !key_eq("searchport.upnp.org"@, "date"@),
        !key_eq("searchport.upnp.org"@, "ext"@),
        !key_eq("searchport.upnp.org"@, "st"@),
        !key_eq("nts"@, "date"@),
        !key_eq("nts"@, "ext"@),
        !key_eq("nts"@, "st"@),
        !key_eq("date"@, "ext"@),
        !key_eq("date"@, "st"@),
        !key_eq("ext"@, "st"@),
{
    reveal_strlit("host");
    reveal_strlit("cache-control");
    reveal_strlit("location");
    reveal_strlit("securelocation.upnp.org");
    reveal_strlit("nt");
    reveal_strlit("server");
    reveal_strlit("usn");
    reveal_strlit("bootid.upnp.org");
    reveal_strlit("configid.upnp.org");
    reveal_strlit("searchport.upnp.org");
    reveal_strlit("nts");
    reveal_strlit("date");
    reveal_strlit("ext");
    reveal_strlit("st");
    assert(crate::strutil::lower_chars("host"@).len() == 4);
    assert(crate::strutil::lower_chars("cache-control"@).len() == 13);
    assert(crate::strutil::lower_chars("location"@).len() == 8);
    assert(crate::strutil::lower_chars("securelocation.upnp.org"@).len() == 23);
    assert(crate::strutil::lower_chars("nt"@).len() == 2);
    assert(crate::strutil::lower_chars("server"@).len() == 6);
    assert(crate::strutil::lower_chars("usn"@).len() == 3);
    assert(crate::strutil::lower_chars("bootid.upnp.org"@).len() == 15);
    assert(crate::strutil::lower_chars("configid.upnp.org"@).len() == 17);
    assert(crate::strutil::lower_chars("searchport.upnp.org"@).len() == 19);
    assert(crate::strutil::lower_chars("nts"@).len() == 3);
    assert(crate::strutil::lower_chars("date"@).len() == 4);
    assert(crate::strutil::lower_chars("ext"@).len() == 3);
    assert(crate::strutil::lower_chars("st"@).len() == 2);
    assert(crate::strutil::lower_chars("usn"@)[0] == 'u');
    assert(crate::strutil::lower_chars("nts"@)[0] == 'n');
    assert(crate::strutil::lower_chars("ext"@)[0] == 'e');
    assert(crate::strutil::lower_chars("host"@)[0] == 'h');
    assert(crate::strutil::lower_chars("date"@)[0] == 'd');
    assert(crate::strutil::lower_chars("nt"@)[0] == 'n');
    assert(crate::strutil::lower_chars("st"@)[0] == 's');
}

/// Decoding the rendered headers of a well-formed notification, the
/// discriminant header included, gives the notification back.
pub proof fn lemma_available_round_trip(m: SpecAvailable)
    requires
        st_wf(m.notification_type),
        usn_wf(m.unique_service_name),
    ensures
        available_from_headers(
            spec_insert(available_to_headers(m), "nts"@, "ssdp:alive"@),
        ) == Result::<SpecAvailable, SpecError>::Ok(m),
        spec_get(spec_insert(available_to_headers(m), "nts"@, "ssdp:alive"@), "nts"@) == Some(
            "ssdp:alive"@,
        ),
{
    broadcast use lemma_get_insert;

    lemma_notify_keys_distinct();
    crate::message::types::lemma_st_round_trip(m.notification_type);
    crate::message::types::lemma_usn_round_trip(m.unique_service_name);
    match m.boot_id {
        Some(n) => {
            lemma_int_round_trip(n as int, i32::MIN as int, i32::MAX as int);
        },
        None => {},
    }
    match m.config_id {
        Some(n) => {
            lemma_int_round_trip(n as int, i32::MIN as int, i32::MAX as int);
        },
        None => {},
    }
    match m.search_port {
        Some(n) => {
            lemma_uint_round_trip(n as int, 65535);
        },
        None => {},
    }
    let hs = spec_insert(available_to_headers(m), "nts"@, "ssdp:alive"@);
    assert(spec_get(hs, "host"@) == Some(m.host));
    assert(spec_get(hs, "cache-control"@) == Some(m.max_age));
    assert(spec_get(hs, "location"@) == Some(m.location));
    assert(spec_get(hs, "securelocation.upnp.org"@) == m.secure_location);
    assert(spec_get(hs, "nt"@) == Some(st_format(m.notification_type)));
    assert(spec_get(hs, "server"@) == Some(m.server));
    assert(spec_get(hs, "usn"@) == Some(usn_format(m.unique_service_name)));
    assert(spec_get(hs, "bootid.upnp.org"@) == opt_i32_repr(m.boot_id));
    assert(spec_get(hs, "configid.upnp.org"@) == opt_i32_repr(m.config_id));
    assert(spec_get(hs, "searchport.upnp.org"@) == opt_u16_repr(m.search_port));
}

/// Decoding the rendered headers of a well-formed search response gives the
/// response back.
pub proof fn lemma_search_response_round_trip(m: SpecSearchResponse)
    requires
        st_wf(m.target),
        usn_wf(m.unique_service_name),
    ensures
        search_response_from_headers(search_response_to_headers(m)) == Result::<
            SpecSearchResponse,
            SpecError,
        >::Ok(m),
{
    broadcast use lemma_get_insert;

    lemma_notify_keys_distinct();
    crate::message::types::lemma_st_round_trip(m.target);
    crate::message::types::lemma_usn_round_trip(m.unique_service_name);
    match m.boot_id {
        Some(n) => {
            lemma_int_round_trip(n as int, i32::MIN as int, i32::MAX as int);
        },
        None => {},
    }
    match m.config_id {
        Some(n) => {
            lemma_int_round_trip(n as int, i32::MIN as int, i32::MAX as int);
        },
        None => {},
    }
    match m.search_port {
        Some(n) => {
            lemma_uint_round_trip(n as int, 65535);
        },
        None => {},
    }
    let hs = search_response_to_headers(m);
    assert(spec_get(hs, "cache-control"@) == Some(m.max_age));
    assert(spec_get(hs, "date"@) == m.date);
    assert(spec_get(hs, "location"@) == Some(m.location));
    assert(spec_get(hs, "ext"@) == Some(Seq::<char>::empty()));
    assert(spec_get(hs, "server"@) == Some(m.server));
    assert(spec_get(hs, "securelocation.upnp.org"@) == m.secure_location);
    assert(spec_get(hs, "st"@) == Some(st_format(m.target)));
    assert(spec_get(hs, "usn"@) == Some(usn_format(m.unique_service_name)));
    assert(spec_get(hs, "bootid.upnp.org"@) == opt_i32_repr(m.boot_id));
    assert(spec_get(hs, "configid.upnp.org"@) == opt_i32_repr(m.config_id));
    assert(spec_get(hs, "searchport.upnp.org"@) == opt_u16_repr(m.search_port));
}

/// How a packet maps to a message: variants are tried in declaration order,
/// the notification variant requiring the `nts` discriminant header to carry
/// exactly `ssdp:alive`. A packet matching no variant is unrecognized.
pub open spec fn message_from_packet(p: SpecPacket) -> Result<SpecMessage, SpecError> {
    if p.typ == PacketType::MSearch {
        match msearch_from_headers(p.headers) {
            Result::Ok(m) => Result::Ok(SpecMessage::MSearch(m)),
            Result::Err(e) => Result::Err(e),
        }
    } else if p.typ == PacketType::Notify && spec_get(p.headers, "nts"@) == Some("ssdp:alive"@) {
        match available_from_headers(p.headers) {
            Result::Ok(m) => Result::Ok(SpecMessage::Available(m)),
            Result::Err(e) => Result::Err(e),
        }
    } else if p.typ == PacketType::Okay {
        match search_response_from_headers(p.headers) {
            Result::Ok(m) => Result::Ok(SpecMessage::SearchResponse(m)),
            Result::Err(e) => Result::Err(e),
        }
    } else {
        Result::Err(SpecError::UnrecognizedPacket)
    }
}

/// How a message renders to a packet: its variant's request line, its
/// headers, and the discriminant header where the variant declares one.
pub open spec fn message_to_packet(m: SpecMessage) -> SpecPacket {
    match m {
        SpecMessage::MSearch(v) => SpecPacket {
            typ: PacketType::MSearch,
            headers: msearch_to_headers(v),
        },
        SpecMessage::Available(v) => SpecPacket {
            typ: PacketType::Notify,
            headers: spec_insert(available_to_headers(v), "nts"@, "ssdp:alive"@),
        },
        SpecMessage::SearchResponse(v) => SpecPacket {
            typ: PacketType::Okay,
            headers: search_response_to_headers(v),
        },
    }
}

impl Message {
    /// Maps a packet onto a message, mirroring [`message_from_packet`].
    pub fn from_packet(p: &Packet) -> (r: Result<Message, Error>)
        ensures
            match r {
                Result::Ok(m) => message_from_packet(p@) == Result::<SpecMessage, SpecError>::Ok(
                    m@,
                ),
                Result::Err(e) => message_from_packet(p@) == Result::<
                    SpecMessage,
                    SpecError,
                >::Err(e@),
            },
    {
        match p.typ {
            PacketType::MSearch => match MSearch::from_headers(&p.headers) {
                Result::Ok(m) => Result::Ok(Message::MSearch(m)),
                Result::Err(e) => Result::Err(e),
            },
            PacketType::Notify => {
                let nts_matches = match p.headers.get("nts") {
                    Some(v) => crate::strutil::str_eq(v.as_str(), "ssdp:alive"),
                    None => false,
                };
                if nts_matches {
                    match Available::from_headers(&p.headers) {
                        Result::Ok(m) => Result::Ok(Message::Available(m)),
                        Result::Err(e) => Result::Err(e),
                    }
                } else {
                    Result::Err(Error::UnrecognizedPacket)
                }
            },
            PacketType::Okay => match SearchResponse::from_headers(&p.headers) {
                Result::Ok(m) => Result::Ok(Message::SearchResponse(m)),
                Result::Err(e) => Result::Err(e),
            },
        }
    }

    /// Renders this message as a packet, mirroring [`message_to_packet`].
    pub fn to_packet(&self) -> (p: Packet)
        ensures
            p@ == message_to_packet(self@),
            p.wf(),
    {
        match self {
            Message::MSearch(v) => Packet { typ: PacketType::MSearch, headers: v.to_headers() },
            Message::Available(v) => {
                let mut h = v.to_headers();
                h.insert("nts".to_owned(), "ssdp:alive".to_owned());
                Packet { typ: PacketType::Notify, headers: h }
            },
            Message::SearchResponse(v) => Packet {
                typ: PacketType::Okay,
                headers: v.to_headers(),
            },
        }
    }
}

/// The messages whose packet maps back to the same message: the typed fields
/// must be well-formed.
pub open spec fn message_mapping_wf(m: SpecMessage) -> bool {
    match m {
        SpecMessage::MSearch(v) => st_wf(v.target),
        SpecMessage::Available(v) => st_wf(v.notification_type) && usn_wf(v.unique_service_name),
        SpecMessage::SearchResponse(v) => st_wf(v.target) && usn_wf(v.unique_service_name),
    }
}

/// Mapping a well-formed message to a packet and back gives the message
/// back: the mapper's round trip.
pub proof fn lemma_message_round_trip(m: SpecMessage)
    requires
        message_mapping_wf(m),
    ensures
        message_from_packet(message_to_packet(m)) == Result::<SpecMessage, SpecError>::Ok(m),
{
    match m {
        SpecMessage::MSearch(v) => {
            lemma_msearch_round_trip(v);
        },
        SpecMessage::Available(v) => {
            lemma_available_round_trip(v);
        },
        SpecMessage::SearchResponse(v) => {
            lemma_search_response_round_trip(v);
        },
    }
}

} // verus!
