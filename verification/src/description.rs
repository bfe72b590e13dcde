//! The typed identifiers found in device description documents. The
//! document itself is fetched and parsed elsewhere; these are the value
//! grammars it relies on.

use vstd::prelude::*;

use crate::errors::{Error, SpecError};
use crate::message::types::{colon, lemma_split_prefix, lemma_split_whole, no_colon};
use crate::strutil::{split_char, split_str, starts_with, str_eq, str_starts_with};

verus! {

/// A UPnP device type: `urn:<domain>:device:<type>:<version>`, the domain
/// absent for standard devices of the UPnP forum.
#[derive(Debug, PartialEq)]
pub struct DeviceType {
    /// `None` for standard devices specified by the UPnP forum.
    pub vendor_domain: Option<String>,
    pub device_type: String,
    pub version: String,
}

/// The mathematical image of a [`DeviceType`].
pub ghost struct SpecDeviceType {
    pub vendor_domain: Option<Seq<char>>,
    pub device_type: Seq<char>,
    pub version: Seq<char>,
}

impl View for DeviceType {
    type V = SpecDeviceType;

    open spec fn view(&self) -> SpecDeviceType {
        SpecDeviceType {
            vendor_domain: match &self.vendor_domain {
                Some(d) => Some(d@),
                None => None,
            },
            device_type: self.device_type@,
            version: self.version@,
        }
    }
}

/// The canonical string of a device type; an absent domain renders as
/// `schemas-upnp-org`.
pub open spec fn device_type_format(t: SpecDeviceType) -> Seq<char> {
    let dn = match t.vendor_domain {
        Some(d) => d,
        None => "schemas-upnp-org"@,
    };
    "urn"@ + colon() + dn + colon() + "device"@ + colon() + t.device_type + colon() + t.version
}

/// The device type a string denotes, when it fits the grammar.
pub open spec fn device_type_parse(s: Seq<char>) -> Option<SpecDeviceType> {
    let parts = split_char(s, ':');
    if parts.len() == 5 && parts[0] == "urn"@ && parts[2] == "device"@ {
        if parts[1] == "schemas-upnp-org"@ {
            Some(SpecDeviceType { vendor_domain: None, device_type: parts[3], version: parts[4] })
        } else {
            Some(
                SpecDeviceType {
                    vendor_domain: Some(parts[1]),
                    device_type: parts[3],
                    version: parts[4],
                },
            )
        }
    } else {
        None
    }
}

impl DeviceType {
    /// Renders the canonical string of this device type.
    pub fn to_string(&self) -> (r: String)
        ensures
            r@ == device_type_format(self@),
    {
        let head = match &self.vendor_domain {
            Some(d) => String::from_str("urn:").concat(d.as_str()),
            None => String::from_str("urn:schemas-upnp-org"),
        };
        let r = head.concat(":device:").concat(self.device_type.as_str()).concat(":").concat(
            self.version.as_str(),
        );
        proof {
            reveal_strlit("urn:");
            reveal_strlit("urn:schemas-upnp-org");
            reveal_strlit(":device:");
            reveal_strlit("urn");
            reveal_strlit("schemas-upnp-org");
            reveal_strlit("device");
            reveal_strlit(":");
            assert(r@ =~= device_type_format(self@));
        }
        r
    }

    /// Parses a device type; anything outside the grammar is a decode error
    /// carrying the raw string.
    pub fn from_str(s: &str) -> (r: Result<DeviceType, Error>)
        ensures
            match r {
                Result::Ok(t) => device_type_parse(s@) == Some(t@),
                Result::Err(e) => device_type_parse(s@) is None && e@
                    == SpecError::MalformedFieldValue("service_id"@, s@),
            },
    {
        let parts = split_str(s, ':');
        let ghost sp = split_char(s@, ':');
        proof {
            assert(parts@.map_values(|t: String| t@) == sp);
        }
        if parts.len() == 5 {
            proof {
                assert(parts@[0]@ == sp[0] && parts@[1]@ == sp[1] && parts@[2]@ == sp[2]
                    && parts@[3]@ == sp[3] && parts@[4]@ == sp[4]);
            }
            if str_eq(parts[0].as_str(), "urn") && str_eq(parts[2].as_str(), "device") {
                if str_eq(parts[1].as_str(), "schemas-upnp-org") {
                    return Result::Ok(
                        DeviceType {
                            vendor_domain: None,
                            device_type: parts[3].clone(),
                            version: parts[4].clone(),
                        },
                    );
                }
                return Result::Ok(
                    DeviceType {
                        vendor_domain: Some(parts[1].clone()),
                        device_type: parts[3].clone(),
                        version: parts[4].clone(),
                    },
                );
            }
        }
        Result::Err(Error::MalformedFieldValue("service_id".to_owned(), s.to_owned()))
    }
}

/// The device types whose canonical string parses back to the same value.
pub open spec fn device_type_wf(t: SpecDeviceType) -> bool {
    no_colon(t.device_type) && no_colon(t.version) && match t.vendor_domain {
        None => true,
        Some(d) => no_colon(d) && d != "schemas-upnp-org"@,
    }
}

/// The `format`-then-`parse` round trip for device types.
pub proof fn lemma_device_type_round_trip(t: SpecDeviceType)
    requires
        device_type_wf(t),
    ensures
        device_type_parse(device_type_format(t)) == Some(t),
{
    reveal_strlit("urn");
    reveal_strlit("schemas-upnp-org");
    reveal_strlit("device");
    let dn = match t.vendor_domain {
        Some(d) => d,
        None => "schemas-upnp-org"@,
    };
    assert(no_colon(dn)) by {
        assert forall|i: int| 0 <= i < "schemas-upnp-org"@.len() implies "schemas-upnp-org"@[i]
            != ':' by {}
    }
    assert(no_colon("urn"@) && no_colon("device"@)) by {
        assert forall|i: int| 0 <= i < "urn"@.len() implies "urn"@[i] != ':' by {}
        assert forall|i: int| 0 <= i < "device"@.len() implies "device"@[i] != ':' by {}
    }
    crate::message::types::lemma_st_urn_split(dn, "device"@, t.device_type, t.version);
}

/// A UPnP service type: `urn:<domain>:service:<type>:<version>`.
#[derive(Debug, PartialEq)]
pub struct ServiceType {
    /// `None` for standard services specified by the UPnP forum.
    pub vendor_domain: Option<String>,
    pub service_type: String,
    pub version: String,
}

/// The mathematical image of a [`ServiceType`].
pub ghost struct SpecServiceType {
    pub vendor_domain: Option<Seq<char>>,
    pub service_type: Seq<char>,
    pub version: Seq<char>,
}

impl View for ServiceType {
    type V = SpecServiceType;

    open spec fn view(&self) -> SpecServiceType {
        SpecServiceType {
            vendor_domain: match &self.vendor_domain {
                Some(d) => Some(d@),
                None => None,
            },
            service_type: self.service_type@,
            version: self.version@,
        }
    }
}

/// The service type a string denotes, when it fits the grammar.
pub open spec fn service_type_parse(s: Seq<char>) -> Option<SpecServiceType> {
    let parts = split_char(s, ':');
    if parts.len() == 5 && parts[0] == "urn"@ && parts[2] == "service"@ {
        if parts[1] == "schemas-upnp-org"@ {
            Some(
                SpecServiceType { vendor_domain: None, service_type: parts[3], version: parts[4] },
            )
        } else {
            Some(
                SpecServiceType {
                    vendor_domain: Some(parts[1]),
                    service_type: parts[3],
                    version: parts[4],
                },
            )
        }
    } else {
        None
    }
}

impl ServiceType {
    /// Parses a service type; anything outside the grammar is a decode
    /// error carrying the raw string.
    pub fn from_str(s: &str) -> (r: Result<ServiceType, Error>)
        ensures
            match r {
                Result::Ok(t) => service_type_parse(s@) == Some(t@),
                Result::Err(e) => service_type_parse(s@) is None && e@
                    == SpecError::MalformedFieldValue("service_id"@, s@),
            },
    {
        let parts = split_str(s, ':');
        let ghost sp = split_char(s@, ':');
        proof {
            assert(parts@.map_values(|t: String| t@) == sp);
        }
        if parts.len() == 5 {
            proof {
                assert(parts@[0]@ == sp[0] && parts@[1]@ == sp[1] && parts@[2]@ == sp[2]
                    && parts@[3]@ == sp[3] && parts@[4]@ == sp[4]);
            }
            if str_eq(parts[0].as_str(), "urn") && str_eq(parts[2].as_str(), "service") {
                if str_eq(parts[1].as_str(), "schemas-upnp-org") {
                    return Result::Ok(
                        ServiceType {
                            vendor_domain: None,
                            service_type: parts[3].clone(),
                            version: parts[4].clone(),
                        },
                    );
                }
                return Result::Ok(
                    ServiceType {
                        vendor_domain: Some(parts[1].clone()),
                        service_type: parts[3].clone(),
                        version: parts[4].clone(),
                    },
                );
            }
        }
        Result::Err(Error::MalformedFieldValue("service_id".to_owned(), s.to_owned()))
    }
}

/// A service identifier: `urn:<domain>:serviceId:<id>`.
#[derive(Debug, PartialEq)]
pub struct ServiceId {
    /// `None` for standard services specified by the UPnP forum.
    pub vendor_domain: Option<String>,
    pub service_id: String,
}

/// The mathematical image of a [`ServiceId`].
pub ghost struct SpecServiceId {
    pub vendor_domain: Option<Seq<char>>,
    pub service_id: Seq<char>,
}

impl View for ServiceId {
    type V = SpecServiceId;

    open spec fn view(&self) -> SpecServiceId {
        SpecServiceId {
            vendor_domain: match &self.vendor_domain {
                Some(d) => Some(d@),
                None => None,
            },
            service_id: self.service_id@,
        }
    }
}

/// The service identifier a string denotes, when it fits the grammar; the
/// standard domain is `upnp-org` here.
pub open spec fn service_id_parse(s: Seq<char>) -> Option<SpecServiceId> {
    let parts = split_char(s, ':');
    if parts.len() == 4 && parts[0] == "urn"@ && parts[2] == "serviceId"@ {
        if parts[1] == "upnp-org"@ {
            Some(SpecServiceId { vendor_domain: None, service_id: parts[3] })
        } else {
            Some(SpecServiceId { vendor_domain: Some(parts[1]), service_id: parts[3] })
        }
    } else {
        None
    }
}

impl ServiceId {
    /// Parses a service identifier; anything outside the grammar is a
    /// decode error carrying the raw string.
    pub fn from_str(s: &str) -> (r: Result<ServiceId, Error>)
        ensures
            match r {
                Result::Ok(t) => service_id_parse(s@) == Some(t@),
                Result::Err(e) => service_id_parse(s@) is None && e@
                    == SpecError::MalformedFieldValue("service_id"@, s@),
            },
    {
        let parts = split_str(s, ':');
        let ghost sp = split_char(s@, ':');
        proof {
            assert(parts@.map_values(|t: String| t@) == sp);
        }
        if parts.len() == 4 {
            proof {
                assert(parts@[0]@ == sp[0] && parts@[1]@ == sp[1] && parts@[2]@ == sp[2]
                    && parts@[3]@ == sp[3]);
            }
            if str_eq(parts[0].as_str(), "urn") && str_eq(parts[2].as_str(), "serviceId") {
                if str_eq(parts[1].as_str(), "upnp-org") {
                    return Result::Ok(
                        ServiceId { vendor_domain: None, service_id: parts[3].clone() },
                    );
                }
                return Result::Ok(
                    ServiceId { vendor_domain: Some(parts[1].clone()), service_id: parts[3].clone() },
                );
            }
        }
        Result::Err(Error::MalformedFieldValue("service_id".to_owned(), s.to_owned()))
    }
}

/// A unique device name: `uuid:` followed by the device UUID.
#[derive(Debug, PartialEq)]
pub struct UniqueDeviceName {
    pub uuid: String,
}

/// The mathematical image of a [`UniqueDeviceName`].
pub ghost struct SpecUdn {
    pub uuid: Seq<char>,
}

impl View for UniqueDeviceName {
    type V = SpecUdn;

    open spec fn view(&self) -> SpecUdn {
        SpecUdn { uuid: self.uuid@ }
    }
}

/// The unique device name a string denotes: everything after a mandatory
/// `uuid:` prefix.
pub open spec fn udn_parse(s: Seq<char>) -> Option<SpecUdn> {
    if starts_with(s, "uuid:"@) {
        Some(SpecUdn { uuid: s.skip(5) })
    } else {
        None
    }
}

impl UniqueDeviceName {
    /// Parses a unique device name; a string without the `uuid:` prefix is
    /// a decode error carrying the raw string.
    pub fn from_str(s: &str) -> (r: Result<UniqueDeviceName, Error>)
        ensures
            match r {
                Result::Ok(t) => udn_parse(s@) == Some(t@),
                Result::Err(e) => udn_parse(s@) is None && e@ == SpecError::MalformedFieldValue(
                    "udn"@,
                    s@,
                ),
            },
    {
        if str_starts_with(s, "uuid:") {
            proof {
                reveal_strlit("uuid:");
            }
            let n = s.unicode_len();
            let rest = s.substring_char(5, n);
            proof {
                assert(rest@ =~= s@.skip(5));
            }
            Result::Ok(UniqueDeviceName { uuid: rest.to_owned() })
        } else {
            Result::Err(Error::MalformedFieldValue("udn".to_owned(), s.to_owned()))
        }
    }
}

/// The UPnP document version of a description: major and minor number.
#[derive(Debug, PartialEq, Eq, Structural, Clone, Copy)]
pub struct SpecVersion {
    pub major: u32,
    pub minor: u32,
}

} // verus!
