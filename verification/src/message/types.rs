//! The domain value types carried in headers: marker values, search targets
//! and unique service names, each with a string codec.

use vstd::prelude::*;

use crate::errors::{Error, SpecError};
use crate::strutil::{
    find_char, lemma_find_char_props, split_char, split_str, str_eq, str_starts_with, starts_with,
};

verus! {

/// The empty `ext` marker header: present with an empty value or absent.
#[derive(Debug, PartialEq)]
pub struct Ext;

impl Ext {
    /// The one legal value of the `ext` header.
    pub open spec fn spec_ok(s: Seq<char>) -> bool {
        s == Seq::<char>::empty()
    }

    pub fn to_string(&self) -> (r: String)
        ensures
            r@ == Seq::<char>::empty(),
    {
        String::new()
    }

    /// Accepts exactly the empty string.
    pub fn from_str(s: &str) -> (r: Result<Ext, Error>)
        ensures
            match r {
                Result::Ok(_) => Self::spec_ok(s@),
                Result::Err(e) => !Self::spec_ok(s@) && e@ == SpecError::MalformedFieldValue(
                    "ext"@,
                    s@,
                ),
            },
    {
        if s.unicode_len() == 0 {
            proof {
                assert(s@ =~= Seq::<char>::empty());
            }
            Result::Ok(Ext {})
        } else {
            Result::Err(Error::MalformedFieldValue("ext".to_owned(), s.to_owned()))
        }
    }
}

/// The `man` marker of a search request: the literal `"ssdp:discover"`.
#[derive(Debug, PartialEq, Default)]
pub struct ManDiscover;

impl ManDiscover {
    /// The canonical rendering, quotes included.
    pub open spec fn spec_canonical() -> Seq<char> {
        "\"ssdp:discover\""@
    }

    /// The two accepted spellings: with or without the quotes.
    pub open spec fn spec_ok(s: Seq<char>) -> bool {
        s == "ssdp:discover"@ || s == "\"ssdp:discover\""@
    }

    pub fn to_string(&self) -> (r: String)
        ensures
            r@ == Self::spec_canonical(),
    {
        "\"ssdp:discover\"".to_owned()
    }

    pub fn from_str(s: &str) -> (r: Result<ManDiscover, Error>)
        ensures
            match r {
                Result::Ok(_) => Self::spec_ok(s@),
                Result::Err(e) => !Self::spec_ok(s@) && e@ == SpecError::MalformedFieldValue(
                    "man"@,
                    s@,
                ),
            },
    {
        if str_eq(s, "ssdp:discover") || str_eq(s, "\"ssdp:discover\"") {
            Result::Ok(ManDiscover {})
        } else {
            Result::Err(Error::MalformedFieldValue("man".to_owned(), s.to_owned()))
        }
    }

    /// The canonical rendering is accepted back.
    pub proof fn lemma_round_trip()
        ensures
            Self::spec_ok(Self::spec_canonical()),
    {
    }
}

/// What `uuid::Uuid::parse_str` followed by `Display` yields: `None` for a
/// rejected string, otherwise the canonical lower-case hyphenated form.
/// A function of the input alone.
pub uninterp spec fn uuid_canon(s: Seq<char>) -> Option<Seq<char>>;

/// A character of a canonical UUID: a lower-case hex digit or a hyphen.
pub open spec fn is_uuid_char(c: char) -> bool {
    c == '-' || 48 <= (c as u32) <= 57 || 97 <= (c as u32) <= 102
}

/// Relies on `uuid::Uuid::parse_str` and its `Display`: parsing accepts a
/// string or not from its characters alone; a parsed value renders in the
/// canonical 36-character lower-case hyphenated form, which parses back to
/// itself.
#[verifier::external_body]
fn uuid_canonical(s: &str) -> (r: Option<String>)
    ensures
        r is Some <==> uuid_canon(s@) is Some,
        r matches Some(c) ==> uuid_canon(s@) == Some(c@),
        r matches Some(c) ==> uuid_canon(c@) == Some(c@),
        r matches Some(c) ==> c@.len() == 36 && (forall|i: int|
            0 <= i < c@.len() ==> is_uuid_char(#[trigger] c@[i])),
{
    match uuid::Uuid::parse_str(s) {
        Ok(u) => Some(u.to_string()),
        Err(_) => None,
    }
}

/// What kind of device or service a query or response concerns.
#[derive(Debug, PartialEq, Clone)]
pub enum SearchTarget {
    /// All devices and services.
    All,
    /// Root devices only.
    RootDevice,
    /// One particular device, by its UUID in canonical hyphenated form.
    UUID(String),
    /// Any device of a type defined by the UPnP forum.
    Device { device_type: String, version: String },
    /// Any service of a type defined by the UPnP forum.
    Service { service_type: String, version: String },
    /// Any device of a vendor-defined type.
    VendorDevice { domain_name: String, device_type: String, version: String },
    /// Any service of a vendor-defined type.
    VendorService { domain_name: String, service_type: String, version: String },
    /// A non-standard search target, kept verbatim.
    Other(String),
}

/// The mathematical image of a [`SearchTarget`].
pub ghost enum SpecSearchTarget {
    All,
    RootDevice,
    UUID(Seq<char>),
    Device { device_type: Seq<char>, version: Seq<char> },
    Service { service_type: Seq<char>, version: Seq<char> },
    VendorDevice { domain_name: Seq<char>, device_type: Seq<char>, version: Seq<char> },
    VendorService { domain_name: Seq<char>, service_type: Seq<char>, version: Seq<char> },
    Other(Seq<char>),
}

impl View for SearchTarget {
    type V = SpecSearchTarget;

    open spec fn view(&self) -> SpecSearchTarget {
        match self {
            SearchTarget::All => SpecSearchTarget::All,
            SearchTarget::RootDevice => SpecSearchTarget::RootDevice,
            SearchTarget::UUID(u) => SpecSearchTarget::UUID(u@),
            SearchTarget::Device { device_type, version } => SpecSearchTarget::Device {
                device_type: device_type@,
                version: version@,
            },
            SearchTarget::Service { service_type, version } => SpecSearchTarget::Service {
                service_type: service_type@,
                version: version@,
            },
            SearchTarget::VendorDevice { domain_name, device_type, version } =>
                SpecSearchTarget::VendorDevice {
                domain_name: domain_name@,
                device_type: device_type@,
                version: version@,
            },
            SearchTarget::VendorService { domain_name, service_type, version } =>
                SpecSearchTarget::VendorService {
                domain_name: domain_name@,
                service_type: service_type@,
                version: version@,
            },
            SearchTarget::Other(s) => SpecSearchTarget::Other(s@),
        }
    }
}

pub open spec fn colon() -> Seq<char> {
    seq![':']
}

/// The canonical string of a search target.
pub open spec fn st_format(t: SpecSearchTarget) -> Seq<char> {
    match t {
        SpecSearchTarget::All => "ssdp"@ + colon() + "all"@,
        SpecSearchTarget::RootDevice => "upnp"@ + colon() + "rootdevice"@,
        SpecSearchTarget::UUID(u) => "uuid"@ + colon() + u,
        SpecSearchTarget::Device { device_type, version } => "urn"@ + colon() + "schemas-upnp-org"@
            + colon() + "device"@ + colon() + device_type + colon() + version,
        SpecSearchTarget::Service { service_type, version } => "urn"@ + colon()
            + "schemas-upnp-org"@ + colon() + "service"@ + colon() + service_type + colon()
            + version,
        SpecSearchTarget::VendorDevice { domain_name, device_type, version } => "urn"@ + colon()
            + domain_name + colon() + "device"@ + colon() + device_type + colon() + version,
        SpecSearchTarget::VendorService { domain_name, service_type, version } => "urn"@ + colon()
            + domain_name + colon() + "service"@ + colon() + service_type + colon() + version,
        SpecSearchTarget::Other(s) => s,
    }
}

/// The search target a string denotes. Parsing is total: anything
/// unrecognized, a rejected UUID included, becomes `Other`.
pub open spec fn st_parse(s: Seq<char>) -> SpecSearchTarget {
    let parts = split_char(s, ':');
    if parts.len() == 2 && parts[0] == "ssdp"@ && parts[1] == "all"@ {
        SpecSearchTarget::All
    } else if parts.len() == 2 && parts[0] == "upnp"@ && parts[1] == "rootdevice"@ {
        SpecSearchTarget::RootDevice
    } else if parts.len() == 2 && parts[0] == "uuid"@ && uuid_canon(parts[1]) is Some {
        SpecSearchTarget::UUID(uuid_canon(parts[1]).unwrap())
    } else if parts.len() == 5 && parts[0] == "urn"@ && parts[1] == "schemas-upnp-org"@ && parts[2]
        == "device"@ {
        SpecSearchTarget::Device { device_type: parts[3], version: parts[4] }
    } else if parts.len() == 5 && parts[0] == "urn"@ && parts[1] == "schemas-upnp-org"@ && parts[2]
        == "service"@ {
        SpecSearchTarget::Service { service_type: parts[3], version: parts[4] }
    } else if parts.len() == 5 && parts[0] == "urn"@ && parts[2] == "device"@ {
        SpecSearchTarget::VendorDevice {
            domain_name: parts[1],
            device_type: parts[3],
            version: parts[4],
        }
    } else if parts.len() == 5 && parts[0] == "urn"@ && parts[2] == "service"@ {
        SpecSearchTarget::VendorService {
            domain_name: parts[1],
            service_type: parts[3],
            version: parts[4],
        }
    } else {
        SpecSearchTarget::Other(s)
    }
}

pub open spec fn no_colon(s: Seq<char>) -> bool {
    forall|i: int| 0 <= i < s.len() ==> s[i] != ':'
}

/// The search targets whose canonical string parses back to the same value.
/// `Other` is well-formed exactly when its string is not recognized as
/// anything else.
pub open spec fn st_wf(t: SpecSearchTarget) -> bool {
    match t {
        SpecSearchTarget::All => true,
        SpecSearchTarget::RootDevice => true,
        SpecSearchTarget::UUID(u) => uuid_canon(u) == Some(u) && u.len() == 36 && (forall|i: int|
            0 <= i < u.len() ==> is_uuid_char(#[trigger] u[i])),
        SpecSearchTarget::Device { device_type, version } => no_colon(device_type) && no_colon(
            version,
        ),
        SpecSearchTarget::Service { service_type, version } => no_colon(service_type) && no_colon(
            version,
        ),
        SpecSearchTarget::VendorDevice { domain_name, device_type, version } => no_colon(
            domain_name,
        ) && no_colon(device_type) && no_colon(version) && domain_name != "schemas-upnp-org"@,
        SpecSearchTarget::VendorService { domain_name, service_type, version } => no_colon(
            domain_name,
        ) && no_colon(service_type) && no_colon(version) && domain_name != "schemas-upnp-org"@,
        SpecSearchTarget::Other(s) => st_parse(s) == SpecSearchTarget::Other(s),
    }
}

/// Splitting a string that begins with a colon-free piece and a colon yields
/// that piece and then the split of the rest.
pub proof fn lemma_split_prefix(a: Seq<char>, b: Seq<char>)
    requires
        no_colon(a),
    ensures
        split_char(a + colon() + b, ':') == seq![a] + split_char(b, ':'),
{
    let s = a + colon() + b;
    assert(s[a.len() as int] == ':');
    assert forall|j: int| 0 <= j < a.len() implies s[j] != ':' by {
        assert(s[j] == a[j]);
    }
    crate::strutil::lemma_find_char_is_first(s, ':', a.len() as int);
    assert(s.take(a.len() as int) =~= a);
    assert(s.skip(a.len() as int + 1) =~= b);
}

/// A string without colons splits into itself alone.
pub proof fn lemma_split_whole(a: Seq<char>)
    requires
        no_colon(a),
    ensures
        split_char(a, ':') == seq![a],
{
    lemma_find_char_props(a, ':');
    match find_char(a, ':') {
        Some(i) => {
            assert(a[i] != ':');
        },
        None => {},
    }
}

/// The literal pieces of the grammar hold no colon, and the key literals are
/// pairwise distinct.
proof fn lemma_literal_pieces()
    ensures
        no_colon("ssdp"@) && "ssdp"@.len() == 4,
        no_colon("all"@) && "all"@.len() == 3,
        no_colon("upnp"@) && "upnp"@.len() == 4,
        no_colon("rootdevice"@) && "rootdevice"@.len() == 10,
        no_colon("uuid"@) && "uuid"@.len() == 4,
        no_colon("urn"@) && "urn"@.len() == 3,
        no_colon("schemas-upnp-org"@) && "schemas-upnp-org"@.len() == 16,
        no_colon("device"@) && "device"@.len() == 6,
        no_colon("service"@) && "service"@.len() == 7,
        "ssdp"@ != "upnp"@ && "ssdp"@ != "uuid"@ && "ssdp"@ != "urn"@,
        "upnp"@ != "uuid"@ && "upnp"@ != "urn"@ && "uuid"@ != "urn"@,
        "device"@ != "service"@,
        "all"@ != "rootdevice"@,
{
    reveal_strlit("ssdp");
    reveal_strlit("all");
    reveal_strlit("upnp");
    reveal_strlit("rootdevice");
    reveal_strlit("uuid");
    reveal_strlit("urn");
    reveal_strlit("schemas-upnp-org");
    reveal_strlit("device");
    reveal_strlit("service");
    assert("ssdp"@[0] == 's' && "upnp"@[0] == 'u' && "urn"@[0] == 'u');
    assert("uuid"@[1] == 'u' && "upnp"@[1] == 'p');
    assert("device"@.len() != "service"@.len());
}

/// Parsing the canonical string of a well-formed target gives the target
/// back: the `format`-then-`parse` round trip.
pub proof fn lemma_st_round_trip(t: SpecSearchTarget)
    requires
        st_wf(t),
    ensures
        st_parse(st_format(t)) == t,
{
    lemma_literal_pieces();
    match t {
        SpecSearchTarget::All => {
            lemma_split_prefix("ssdp"@, "all"@);
            lemma_split_whole("all"@);
        },
        SpecSearchTarget::RootDevice => {
            lemma_split_prefix("upnp"@, "rootdevice"@);
            lemma_split_whole("rootdevice"@);
        },
        SpecSearchTarget::UUID(u) => {
            assert(no_colon(u)) by {
                assert(forall|i: int| 0 <= i < u.len() ==> is_uuid_char(#[trigger] u[i]));
                assert((':' as u32) == 58);
            }
            lemma_split_prefix("uuid"@, u);
            lemma_split_whole(u);
            let parts = split_char(st_format(t), ':');
            assert(parts =~= seq!["uuid"@, u]);
        },
        SpecSearchTarget::Device { device_type, version } => {
            lemma_st_urn_split("schemas-upnp-org"@, "device"@, device_type, version);
        },
        SpecSearchTarget::Service { service_type, version } => {
            lemma_st_urn_split("schemas-upnp-org"@, "service"@, service_type, version);
        },
        SpecSearchTarget::VendorDevice { domain_name, device_type, version } => {
            lemma_st_urn_split(domain_name, "device"@, device_type, version);
        },
        SpecSearchTarget::VendorService { domain_name, service_type, version } => {
            lemma_st_urn_split(domain_name, "service"@, service_type, version);
        },
        SpecSearchTarget::Other(s) => {},
    }
}

/// Splits a five-part `urn` string into its parts.
pub proof fn lemma_st_urn_split(dn: Seq<char>, kind: Seq<char>, ty: Seq<char>, ver: Seq<char>)
    requires
        no_colon(dn),
        no_colon(kind),
        no_colon(ty),
        no_colon(ver),
    ensures
        split_char("urn"@ + colon() + dn + colon() + kind + colon() + ty + colon() + ver, ':')
            =~= seq!["urn"@, dn, kind, ty, ver],
{
    lemma_literal_pieces();
    let s4 = ty + colon() + ver;
    let s3 = kind + colon() + s4;
    let s2 = dn + colon() + s3;
    let s = "urn"@ + colon() + s2;
    assert("urn"@ + colon() + dn + colon() + kind + colon() + ty + colon() + ver =~= s);
    lemma_split_prefix("urn"@, s2);
    lemma_split_prefix(dn, s3);
    lemma_split_prefix(kind, s4);
    lemma_split_prefix(ty, ver);
    lemma_split_whole(ver);
}

impl SearchTarget {
    /// Renders the canonical string of this search target.
    pub fn to_string(&self) -> (r: String)
        ensures
            r@ == st_format(self@),
    {
        match self {
            SearchTarget::All => {
                let r = "ssdp:all".to_owned();
                proof {
                    reveal_strlit("ssdp:all");
                    reveal_strlit("ssdp");
                    reveal_strlit("all");
                    assert(r@ =~= st_format(self@));
                }
                r
            },
            SearchTarget::RootDevice => {
                let r = "upnp:rootdevice".to_owned();
                proof {
                    reveal_strlit("upnp:rootdevice");
                    reveal_strlit("upnp");
                    reveal_strlit("rootdevice");
                    assert(r@ =~= st_format(self@));
                }
                r
            },
            SearchTarget::UUID(u) => {
                let r = String::from_str("uuid:").concat(u.as_str());
                proof {
                    reveal_strlit("uuid:");
                    reveal_strlit("uuid");
                    assert(r@ =~= st_format(self@));
                }
                r
            },
            SearchTarget::Device { device_type, version } => {
                let r = String::from_str("urn:schemas-upnp-org:device:").concat(
                    device_type.as_str(),
                ).concat(":").concat(version.as_str());
                proof {
                    reveal_strlit("urn:schemas-upnp-org:device:");
                    reveal_strlit("urn");
                    reveal_strlit("schemas-upnp-org");
                    reveal_strlit("device");
                    reveal_strlit(":");
                    assert(r@ =~= st_format(self@));
                }
                r
            },
            SearchTarget::Service { service_type, version } => {
                let r = String::from_str("urn:schemas-upnp-org:service:").concat(
                    service_type.as_str(),
                ).concat(":").concat(version.as_str());
                proof {
                    reveal_strlit("urn:schemas-upnp-org:service:");
                    reveal_strlit("urn");
                    reveal_strlit("schemas-upnp-org");
                    reveal_strlit("service");
                    reveal_strlit(":");
                    assert(r@ =~= st_format(self@));
                }
                r
            },
            SearchTarget::VendorDevice { domain_name, device_type, version } => {
                let r = String::from_str("urn:").concat(domain_name.as_str()).concat(
                    ":device:",
                ).concat(device_type.as_str()).concat(":").concat(version.as_str());
                proof {
                    reveal_strlit("urn:");
                    reveal_strlit(":device:");
                    reveal_strlit("urn");
                    reveal_strlit("device");
                    reveal_strlit(":");
                    assert(r@ =~= st_format(self@));
                }
                r
            },
            SearchTarget::VendorService { domain_name, service_type, version } => {
                let r = String::from_str("urn:").concat(domain_name.as_str()).concat(
                    ":service:",
                ).concat(service_type.as_str()).concat(":").concat(version.as_str());
                proof {
                    reveal_strlit("urn:");
                    reveal_strlit(":service:");
                    reveal_strlit("urn");
                    reveal_strlit("service");
                    reveal_strlit(":");
                    assert(r@ =~= st_format(self@));
                }
                r
            },
            SearchTarget::Other(s) => {
                let r = s.clone();
                r
            },
        }
    }

    /// Parses a search target. This never fails: unrecognized strings come
    /// back verbatim as `Other`, and the result is always well-formed, so
    /// rendering it again is stable.
    pub fn from_str(s: &str) -> (r: Result<SearchTarget, Error>)
        ensures
            r matches Result::Ok(t) && t@ == st_parse(s@) && st_wf(t@),
    {
        let parts = split_str(s, ':');
        let ghost sp = split_char(s@, ':');
        proof {
            assert(parts@.map_values(|t: String| t@) == sp);
            assert(parts@.len() == sp.len());
        }
        let n = parts.len();
        if n == 2 {
            proof {
                assert(parts@[0]@ == sp[0] && parts@[1]@ == sp[1]);
            }
            if str_eq(parts[0].as_str(), "ssdp") && str_eq(parts[1].as_str(), "all") {
                return Result::Ok(SearchTarget::All);
            }
            if str_eq(parts[0].as_str(), "upnp") && str_eq(parts[1].as_str(), "rootdevice") {
                proof {
                    lemma_distinct_heads(sp[0]);
                }
                return Result::Ok(SearchTarget::RootDevice);
            }
            if str_eq(parts[0].as_str(), "uuid") {
                proof {
                    lemma_distinct_heads(sp[0]);
                }
                match uuid_canonical(parts[1].as_str()) {
                    Some(c) => {
                        return Result::Ok(SearchTarget::UUID(c));
                    },
                    None => {
                        proof {
                            lemma_other_stable(s@);
                        }
                        return Result::Ok(SearchTarget::Other(s.to_owned()));
                    },
                }
            }
            proof {
                lemma_other_stable(s@);
            }
            return Result::Ok(SearchTarget::Other(s.to_owned()));
        }
        if n == 5 {
            proof {
                assert(parts@[0]@ == sp[0] && parts@[1]@ == sp[1] && parts@[2]@ == sp[2]
                    && parts@[3]@ == sp[3] && parts@[4]@ == sp[4]);
            }
            if str_eq(parts[0].as_str(), "urn") {
                let schemas = str_eq(parts[1].as_str(), "schemas-upnp-org");
                let ghost dn = sp[1];
                proof {
                    lemma_split_parts_no_colon(s@);
                }
                if str_eq(parts[2].as_str(), "device") {
                    if schemas {
                        return Result::Ok(
                            SearchTarget::Device {
                                device_type: parts[3].clone(),
                                version: parts[4].clone(),
                            },
                        );
                    }
                    proof {
                        lemma_literal_pieces();
                    }
                    return Result::Ok(
                        SearchTarget::VendorDevice {
                            domain_name: parts[1].clone(),
                            device_type: parts[3].clone(),
                            version: parts[4].clone(),
                        },
                    );
                }
                if str_eq(parts[2].as_str(), "service") {
                    proof {
                        lemma_literal_pieces();
                    }
                    if schemas {
                        return Result::Ok(
                            SearchTarget::Service {
                                service_type: parts[3].clone(),
                                version: parts[4].clone(),
                            },
                        );
                    }
                    return Result::Ok(
                        SearchTarget::VendorService {
                            domain_name: parts[1].clone(),
                            service_type: parts[3].clone(),
                            version: parts[4].clone(),
                        },
                    );
                }
            }
            proof {
                lemma_other_stable(s@);
            }
            return Result::Ok(SearchTarget::Other(s.to_owned()));
        }
        proof {
            lemma_other_stable(s@);
        }
        Result::Ok(SearchTarget::Other(s.to_owned()))
    }
}

/// The two-part literal heads cannot collide.
proof fn lemma_distinct_heads(h: Seq<char>)
    ensures
        h == "ssdp"@ ==> h != "upnp"@ && h != "uuid"@,
        h == "upnp"@ ==> h != "ssdp"@ && h != "uuid"@,
        h == "uuid"@ ==> h != "ssdp"@ && h != "upnp"@,
{
    reveal_strlit("ssdp");
    reveal_strlit("upnp");
    reveal_strlit("uuid");
    assert("ssdp"@[0] == 's' && "upnp"@[0] == 'u' && "uuid"@[0] == 'u');
    assert("upnp"@[1] == 'p' && "uuid"@[1] == 'u');
}

/// A string the grammar does not recognize parses to `Other` holding the
/// string verbatim, and rendering that result gives the string back
/// unchanged: the `parse`-then-`format` round trip for unrecognized input.
pub proof fn lemma_st_other_round_trip(s: Seq<char>)
    requires
        st_parse(s) == SpecSearchTarget::Other(s),
    ensures
        st_format(st_parse(s)) == s,
{
}

/// A string the grammar does not recognize is a stable `Other`.
proof fn lemma_other_stable(s: Seq<char>)
    requires
        st_parse(s) == SpecSearchTarget::Other(s),
    ensures
        st_wf(SpecSearchTarget::Other(s)),
{
}

/// A double colon starts at position `i` of `s`.
pub open spec fn is_2colon_at(s: Seq<char>, i: int) -> bool {
    0 <= i && i + 2 <= s.len() && s[i] == ':' && s[i + 1] == ':'
}

/// First position of a double colon.
pub open spec fn find_2colon(s: Seq<char>) -> Option<int>
    decreases s.len(),
{
    if s.len() < 2 {
        None
    } else if s[0] == ':' && s[1] == ':' {
        Some(0)
    } else {
        match find_2colon(s.drop_first()) {
            Some(i) => Some(i + 1),
            None => None,
        }
    }
}

pub proof fn lemma_find_2colon_props(s: Seq<char>)
    ensures
        match find_2colon(s) {
            Some(i) => is_2colon_at(s, i) && (forall|j: int| 0 <= j < i ==> !is_2colon_at(s, j)),
            None => forall|j: int| 0 <= j < s.len() ==> !is_2colon_at(s, j),
        },
    decreases s.len(),
{
    if s.len() >= 2 && !(s[0] == ':' && s[1] == ':') {
        lemma_find_2colon_props(s.drop_first());
        match find_2colon(s.drop_first()) {
            Some(i) => {
                assert(s.drop_first()[i] == s[i + 1]);
                assert(s.drop_first()[i + 1] == s[i + 2]);
                assert forall|j: int| 0 <= j < i + 1 implies !is_2colon_at(s, j) by {
                    if j > 0 {
                        assert(!is_2colon_at(s.drop_first(), j - 1));
                        assert(s.drop_first()[j - 1] == s[j]);
                        assert(s.drop_first()[j] == s[j + 1]);
                    }
                }
            },
            None => {
                assert forall|j: int| 0 <= j < s.len() implies !is_2colon_at(s, j) by {
                    if j > 0 && j + 2 <= s.len() {
                        assert(!is_2colon_at(s.drop_first(), j - 1));
                        assert(s.drop_first()[j - 1] == s[j]);
                        assert(s.drop_first()[j] == s[j + 1]);
                    }
                }
            },
        }
    } else if s.len() < 2 {
        assert forall|j: int| 0 <= j < s.len() implies !is_2colon_at(s, j) by {}
    }
}

pub proof fn lemma_find_2colon_is_first(s: Seq<char>, i: int)
    requires
        is_2colon_at(s, i),
        forall|j: int| 0 <= j < i ==> !is_2colon_at(s, j),
    ensures
        find_2colon(s) == Some(i),
{
    lemma_find_2colon_props(s);
    match find_2colon(s) {
        Some(k) => {
            if k < i {
                assert(!is_2colon_at(s, k));
            } else if i < k {
                assert(!is_2colon_at(s, i));
            }
        },
        None => {
            assert(!is_2colon_at(s, i));
        },
    }
}

fn find_2colon_str(s: &str) -> (r: Option<usize>)
    ensures
        match r {
            Some(i) => find_2colon(s@) == Some(i as int),
            None => find_2colon(s@) is None,
        },
{
    let n = s.unicode_len();
    let mut i: usize = 0;
    while n >= 2 && i < n - 1
        invariant
            n == s@.len(),
            0 <= i <= n,
            forall|j: int| 0 <= j < i ==> !is_2colon_at(s@, j),
        decreases n - i,
    {
        if s.get_char(i) == ':' && s.get_char(i + 1) == ':' {
            proof {
                lemma_find_2colon_is_first(s@, i as int);
            }
            return Some(i);
        }
        i += 1;
    }
    proof {
        assert forall|j: int| 0 <= j < s@.len() implies !is_2colon_at(s@, j) by {
            if j + 2 <= s@.len() {
                assert(j < i);
            }
        }
        lemma_find_2colon_props(s@);
    }
    None
}

/// A unique service name: the device UUID, possibly followed by the search
/// target the advertisement concerns.
#[derive(Debug, PartialEq, Clone)]
pub struct UniqueServiceName {
    pub uuid: String,
    pub search_target: Option<SearchTarget>,
}

/// The mathematical image of a [`UniqueServiceName`].
pub ghost struct SpecUsn {
    pub uuid: Seq<char>,
    pub search_target: Option<SpecSearchTarget>,
}

impl View for UniqueServiceName {
    type V = SpecUsn;

    open spec fn view(&self) -> SpecUsn {
        SpecUsn {
            uuid: self.uuid@,
            search_target: match &self.search_target {
                Some(t) => Some(t@),
                None => None,
            },
        }
    }
}

/// The canonical string of a unique service name:
/// `uuid:<id>` or `uuid:<id>::<search target>`.
pub open spec fn usn_format(u: SpecUsn) -> Seq<char> {
    "uuid"@ + colon() + u.uuid + match u.search_target {
        None => Seq::<char>::empty(),
        Some(t) => colon() + colon() + st_format(t),
    }
}

/// Parses a unique service name: a `uuid:` prefix, the identifier up to the
/// first double colon, and after it, if present, a search target.
pub open spec fn usn_parse(s: Seq<char>) -> Result<SpecUsn, SpecError> {
    if !starts_with(s, "uuid:"@) {
        Result::Err(SpecError::MalformedFieldValue("usn"@, s))
    } else {
        let rest = s.skip(5);
        match find_2colon(rest) {
            None => Result::Ok(SpecUsn { uuid: rest, search_target: None }),
            Some(i) => Result::Ok(
                SpecUsn { uuid: rest.take(i), search_target: Some(st_parse(rest.skip(i + 2))) },
            ),
        }
    }
}

/// The unique service names whose canonical string parses back unchanged.
pub open spec fn usn_wf(u: SpecUsn) -> bool {
    no_colon(u.uuid) && match u.search_target {
        None => true,
        Some(t) => st_wf(t),
    }
}

/// The `format`-then-`parse` round trip for unique service names.
pub proof fn lemma_usn_round_trip(u: SpecUsn)
    requires
        usn_wf(u),
    ensures
        usn_parse(usn_format(u)) == Result::<SpecUsn, SpecError>::Ok(u),
{
    reveal_strlit("uuid:");
    reveal_strlit("uuid");
    let s = usn_format(u);
    assert(s.take(5) =~= "uuid:"@);
    match u.search_target {
        None => {
            assert(s.skip(5) =~= u.uuid);
            lemma_find_2colon_props(u.uuid);
            match find_2colon(u.uuid) {
                Some(i) => {
                    assert(u.uuid[i] != ':');
                },
                None => {},
            }
        },
        Some(t) => {
            let rest = s.skip(5);
            assert(rest =~= u.uuid + colon() + colon() + st_format(t));
            let k = u.uuid.len() as int;
            assert(rest[k] == ':' && rest[k + 1] == ':');
            assert forall|j: int| 0 <= j < k implies !is_2colon_at(rest, j) by {
                assert(rest[j] == u.uuid[j]);
            }
            lemma_find_2colon_is_first(rest, k);
            assert(rest.take(k) =~= u.uuid);
            assert(rest.skip(k + 2) =~= st_format(t));
            lemma_st_round_trip(t);
        },
    }
}

impl UniqueServiceName {
    /// Renders the canonical string of this unique service name.
    pub fn to_string(&self) -> (r: String)
        ensures
            r@ == usn_format(self@),
    {
        let head = String::from_str("uuid:").concat(self.uuid.as_str());
        proof {
            reveal_strlit("uuid:");
            reveal_strlit("uuid");
        }
        match &self.search_target {
            None => {
                proof {
                    assert(head@ =~= usn_format(self@));
                }
                head
            },
            Some(t) => {
                let st = t.to_string();
                let r = head.concat("::").concat(st.as_str());
                proof {
                    reveal_strlit("::");
                    assert(r@ =~= usn_format(self@));
                }
                r
            },
        }
    }

    /// Parses a unique service name, mirroring [`usn_parse`].
    pub fn from_str(s: &str) -> (r: Result<UniqueServiceName, Error>)
        ensures
            match r {
                Result::Ok(u) => usn_parse(s@) == Result::<SpecUsn, SpecError>::Ok(u@),
                Result::Err(e) => usn_parse(s@) == Result::<SpecUsn, SpecError>::Err(e@),
            },
    {
        if !str_starts_with(s, "uuid:") {
            proof {
                reveal_strlit("uuid:");
            }
            return Result::Err(Error::MalformedFieldValue("usn".to_owned(), s.to_owned()));
        }
        proof {
            reveal_strlit("uuid:");
        }
        let n = s.unicode_len();
        let rest = s.substring_char(5, n);
        proof {
            assert(rest@ =~= s@.skip(5));
        }
        match find_2colon_str(rest) {
            None => Result::Ok(
                UniqueServiceName { uuid: rest.to_owned(), search_target: None },
            ),
            Some(i) => {
                proof {
                    lemma_find_2colon_props(rest@);
                }
                let m = rest.unicode_len();
                let id = rest.substring_char(0, i).to_owned();
                let st_str = rest.substring_char(i + 2, m);
                proof {
                    assert(id@ =~= rest@.take(i as int));
                    assert(st_str@ =~= rest@.skip(i + 2));
                }
                match SearchTarget::from_str(st_str) {
                    Result::Ok(t) => Result::Ok(
                        UniqueServiceName { uuid: id, search_target: Some(t) },
                    ),
                    Result::Err(e) => Result::Err(e),
                }
            },
        }
    }
}

/// Every piece returned by splitting at colons is itself colon-free.
pub proof fn lemma_split_parts_no_colon(s: Seq<char>)
    ensures
        forall|k: int| 0 <= k < split_char(s, ':').len() ==> no_colon(#[trigger] split_char(s, ':')[k]),
    decreases s.len(),
{
    lemma_find_char_props(s, ':');
    match find_char(s, ':') {
        None => {
            assert(split_char(s, ':') =~= seq![s]);
            assert(no_colon(s));
        },
        Some(i) => {
            lemma_split_parts_no_colon(s.skip(i + 1));
            let parts = split_char(s, ':');
            let rest = split_char(s.skip(i + 1), ':');
            assert(parts == seq![s.take(i)] + rest);
            assert(no_colon(s.take(i))) by {
                assert(forall|j: int| 0 <= j < i ==> s[j] != ':');
                assert(forall|j: int|
                    0 <= j < s.take(i).len() ==> (#[trigger] s.take(i)[j]) == s[j]);
            }
            assert forall|k: int| 0 <= k < parts.len() implies no_colon(#[trigger] parts[k]) by {
                if k == 0 {
                    assert(parts[0] == s.take(i));
                } else {
                    assert(parts[k] == rest[k - 1]);
                }
            }
        },
    }
}

} // verus!
