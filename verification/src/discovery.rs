//! The discovery orchestrator: one search burst folded into a deduplicated
//! device inventory.
//!
//! A session walks Idle, Searching, Collecting, Done. It builds the search
//! message, then folds every decoded search response into an inventory keyed
//! by the responder's UUID: the first response for a UUID creates the device
//! entry, and every response, the first included, appends one service to it.
//! Anything that is not a well-decoded search response is ignored and never
//! aborts the session. The caller performs the sends, receives and the
//! deadline; once the deadline fires it closes the session and takes the
//! inventory.

use vstd::prelude::*;

use crate::errors::Error;
use crate::message::codec::{spec_decode_bytes, Codec};
use crate::packet::decoder::{has_term, term_pos};
use crate::message::types::{
    ManDiscover, SearchTarget, SpecSearchTarget, SpecUsn, UniqueServiceName,
};
use crate::message::{
    opt_view, MSearch, Message, SpecMSearch, SpecMessage, SpecSearchResponse, SearchResponse,
};
use crate::num::spec_parse_uint;
use crate::strutil::str_eq;

verus! {

/// A running service on a discovered device.
#[derive(Debug, PartialEq)]
pub struct Service {
    /// The unique instance of the device or service that replied.
    pub service_name: UniqueServiceName,
    /// The search target one would use to describe this service.
    pub target: SearchTarget,
}

/// The mathematical image of a [`Service`].
pub ghost struct SpecService {
    pub service_name: SpecUsn,
    pub target: SpecSearchTarget,
}

impl View for Service {
    type V = SpecService;

    open spec fn view(&self) -> SpecService {
        SpecService { service_name: self.service_name@, target: self.target@ }
    }
}

/// A device that answered a search.
#[derive(Debug, PartialEq)]
pub struct Device {
    /// Version information of the responding server.
    pub server: String,
    /// The address the device replied from.
    pub address: String,
    /// Every service the device advertised during the session.
    pub services: Vec<Service>,
    /// Where to retrieve the device description.
    pub location: String,
}

/// The mathematical image of a [`Device`].
pub ghost struct SpecDevice {
    pub server: Seq<char>,
    pub address: Seq<char>,
    pub services: Seq<SpecService>,
    pub location: Seq<char>,
}

impl View for Device {
    type V = SpecDevice;

    open spec fn view(&self) -> SpecDevice {
        SpecDevice {
            server: self.server@,
            address: self.address@,
            services: Seq::new(self.services@.len(), |i: int| self.services@[i]@),
            location: self.location@,
        }
    }
}

/// The phases of a discovery session.
#[derive(Debug, PartialEq, Eq, Structural, Clone, Copy)]
pub enum SessionPhase {
    Idle,
    Searching,
    Collecting,
    Done,
}

/// The device inventory in insertion order, keyed by responder UUID.
pub type SpecInventory = Seq<(Seq<char>, SpecDevice)>;

/// First inventory entry whose key is exactly `uuid`.
pub open spec fn dev_find(entries: SpecInventory, uuid: Seq<char>) -> Option<int>
    decreases entries.len(),
{
    if entries.len() == 0 {
        None
    } else if entries[0].0 == uuid {
        Some(0)
    } else {
        match dev_find(entries.drop_first(), uuid) {
            Some(i) => Some(i + 1),
            None => None,
        }
    }
}

pub proof fn lemma_dev_find_props(entries: SpecInventory, uuid: Seq<char>)
    ensures
        match dev_find(entries, uuid) {
            Some(i) => 0 <= i < entries.len() && entries[i].0 == uuid && (forall|j: int|
                0 <= j < i ==> entries[j].0 != uuid),
            None => forall|j: int| 0 <= j < entries.len() ==> entries[j].0 != uuid,
        },
    decreases entries.len(),
{
    if entries.len() > 0 && entries[0].0 != uuid {
        lemma_dev_find_props(entries.drop_first(), uuid);
        match dev_find(entries.drop_first(), uuid) {
            Some(i) => {
                assert(entries.drop_first()[i] == entries[i + 1]);
                assert forall|j: int| 0 <= j < i + 1 implies entries[j].0 != uuid by {
                    if j > 0 {
                        assert(entries.drop_first()[j - 1] == entries[j]);
                    }
                }
            },
            None => {
                assert forall|j: int| 0 <= j < entries.len() implies entries[j].0 != uuid by {
                    if j > 0 {
                        assert(entries.drop_first()[j - 1] == entries[j]);
                    }
                }
            },
        }
    }
}

pub proof fn lemma_dev_find_is_first(entries: SpecInventory, uuid: Seq<char>, i: int)
    requires
        0 <= i < entries.len(),
        entries[i].0 == uuid,
        forall|j: int| 0 <= j < i ==> entries[j].0 != uuid,
    ensures
        dev_find(entries, uuid) == Some(i),
{
    lemma_dev_find_props(entries, uuid);
    match dev_find(entries, uuid) {
        Some(k) => {
            if k < i {
                assert(entries[k].0 != uuid);
            } else if i < k {
                assert(entries[i].0 != uuid);
            }
        },
        None => {
            assert(entries[i].0 != uuid);
        },
    }
}

/// The service a search response contributes.
pub open spec fn spec_service_of(sr: SpecSearchResponse) -> SpecService {
    SpecService { service_name: sr.unique_service_name, target: sr.target }
}

/// The device entry the first response for a UUID creates: server, address
/// and location (the secure location when given), with no services yet.
pub open spec fn spec_device_of(sr: SpecSearchResponse, address: Seq<char>) -> SpecDevice {
    SpecDevice {
        server: sr.server,
        address: address,
        services: Seq::<SpecService>::empty(),
        location: match sr.secure_location {
            Some(l) => l,
            None => sr.location,
        },
    }
}

/// Folds one search response into the inventory: the first response for a
/// UUID creates the device, and every response appends one service to it.
pub open spec fn spec_fold_response(
    entries: SpecInventory,
    sr: SpecSearchResponse,
    address: Seq<char>,
) -> SpecInventory {
    let uuid = sr.unique_service_name.uuid;
    let svc = spec_service_of(sr);
    match dev_find(entries, uuid) {
        Some(i) => {
            let d = entries[i].1;
            entries.update(
                i,
                (
                    entries[i].0,
                    SpecDevice {
                        server: d.server,
                        address: d.address,
                        services: d.services.push(svc),
                        location: d.location,
                    },
                ),
            )
        },
        None => {
            let d = spec_device_of(sr, address);
            entries.push(
                (
                    uuid,
                    SpecDevice {
                        server: d.server,
                        address: d.address,
                        services: seq![svc],
                        location: d.location,
                    },
                ),
            )
        },
    }
}

/// What the inventory does with any message: search responses fold in,
/// everything else is ignored.
pub open spec fn spec_fold_message(
    entries: SpecInventory,
    m: SpecMessage,
    address: Seq<char>,
) -> SpecInventory {
    match m {
        SpecMessage::SearchResponse(sr) => spec_fold_response(entries, sr, address),
        _ => entries,
    }
}

/// The mathematical image of a [`DiscoverySession`].
pub ghost struct SpecSession {
    pub phase: SessionPhase,
    pub entries: SpecInventory,
}

/// One discovery session: Idle -> Searching -> Collecting -> Done.
#[derive(Debug)]
pub struct DiscoverySession {
    phase: SessionPhase,
    entries: Vec<(String, Device)>,
}

impl View for DiscoverySession {
    type V = SpecSession;

    closed spec fn view(&self) -> SpecSession {
        SpecSession {
            phase: self.phase,
            entries: Seq::new(
                self.entries@.len(),
                |i: int|
                    {
                        let (k, d) = self.entries@[i];
                        (k@, d@)
                    },
            ),
        }
    }
}

/// The address and port of the SSDP multicast group.
pub open spec fn spec_ssdp_host() -> Seq<char> {
    "239.255.255.250:1900"@
}

impl DiscoverySession {
    /// A fresh session: idle, with an empty inventory.
    pub fn new() -> (r: DiscoverySession)
        ensures
            r@.phase == SessionPhase::Idle,
            r@.entries == Seq::<(Seq<char>, SpecDevice)>::empty(),
    {
        let r = DiscoverySession { phase: SessionPhase::Idle, entries: Vec::new() };
        proof {
            assert(r@.entries =~= Seq::<(Seq<char>, SpecDevice)>::empty());
        }
        r
    }

    /// The phase the session is in.
    pub fn phase(&self) -> (r: SessionPhase)
        ensures
            r == self@.phase,
    {
        self.phase
    }

    /// Builds the search message that opens the session and moves to
    /// Searching. The caller must send the message to the multicast group.
    ///
    /// `secs` is the wait window; the protocol convention is 1 through 5,
    /// but values outside that range are accepted unchanged. The caller
    /// passes its own user agent string and control point UUID, which come
    /// from the machine, not from the session.
    pub fn start_search(&mut self, secs: u8, user_agent: Option<String>, uuid: Option<String>)
        -> (m: Message)
        requires
            old(self)@.phase == SessionPhase::Idle,
        ensures
            final (self)@.phase == SessionPhase::Searching,
            final (self)@.entries == old(self)@.entries,
            m@ == SpecMessage::MSearch(
                SpecMSearch {
                    host: spec_ssdp_host(),
                    cache_control: None,
                    max_wait: Some(secs),
                    target: SpecSearchTarget::All,
                    user_agent: opt_view(user_agent),
                    tcp_port: None,
                    friendly_name: Some("yooper"@),
                    uuid: opt_view(uuid),
                },
            ),
    {
        self.phase = SessionPhase::Searching;
        Message::MSearch(
            MSearch {
                host: "239.255.255.250:1900".to_owned(),
                man: ManDiscover {},
                cache_control: None,
                max_wait: Some(secs),
                target: SearchTarget::All,
                user_agent,
                tcp_port: None,
                friendly_name: Some("yooper".to_owned()),
                uuid,
            },
        )
    }

    /// The search message has left the socket: the countdown begins and the
    /// session collects.
    pub fn on_sent(&mut self)
        requires
            old(self)@.phase == SessionPhase::Searching,
        ensures
            final (self)@.phase == SessionPhase::Collecting,
            final (self)@.entries == old(self)@.entries,
    {
        self.phase = SessionPhase::Collecting;
    }

    /// Folds one decoded message into the inventory; non-responses are
    /// ignored.
    pub fn on_message(&mut self, msg: Message, address: String)
        requires
            old(self)@.phase == SessionPhase::Collecting,
        ensures
            final (self)@.phase == SessionPhase::Collecting,
            final (self)@.entries == spec_fold_message(old(self)@.entries, msg@, address@),
    {
        match msg {
            Message::SearchResponse(sr) => self.fold_response(sr, address),
            _ => {},
        }
    }

    /// Decodes one datagram and folds it in; malformed datagrams and
    /// irrelevant messages are ignored and never abort the session.
    pub fn on_datagram(&mut self, data: Vec<u8>, address: String)
        requires
            old(self)@.phase == SessionPhase::Collecting,
        ensures
            final (self)@.phase == SessionPhase::Collecting,
            final (self)@.entries == {
                if has_term(data@) {
                    match spec_decode_bytes(data@) {
                        Result::Ok(m) => spec_fold_message(old(self)@.entries, m, address@),
                        Result::Err(_) => old(self)@.entries,
                    }
                } else {
                    old(self)@.entries
                }
            },
    {
        let codec = Codec::new();
        let mut buf = data;
        match codec.decode(&mut buf) {
            Result::Ok(m) => self.on_message(m, address),
            Result::Err(_) => {},
        }
    }

    /// Folds one search response into the inventory, mirroring
    /// [`spec_fold_response`].
    pub fn fold_response(&mut self, sr: SearchResponse, address: String)
        requires
            old(self)@.phase == SessionPhase::Collecting,
        ensures
            final (self)@.phase == SessionPhase::Collecting,
            final (self)@.entries == spec_fold_response(old(self)@.entries, sr@, address@),
    {
        let ghost entries = self@.entries;
        let ghost uuid = sr@.unique_service_name.uuid;
        let ghost svcg = spec_service_of(sr@);
        let n = self.entries.len();
        let mut i: usize = 0;
        let mut found: Option<usize> = None;
        while i < n && found.is_none()
            invariant
                n == entries.len(),
                entries == self@.entries,
                uuid == sr@.unique_service_name.uuid,
                0 <= i <= n,
                match found {
                    Some(p) => 0 <= p < entries.len() && entries[p as int].0 == uuid && (forall|
                        j: int,
                    |
                        0 <= j < p ==> entries[j].0 != uuid),
                    None => forall|j: int| 0 <= j < i ==> entries[j].0 != uuid,
                },
            decreases n - i,
        {
            if str_eq(self.entries[i].0.as_str(), sr.unique_service_name.uuid.as_str()) {
                proof {
                    assert(entries[i as int].0 == self.entries@[i as int].0@);
                }
                found = Some(i);
            }
            i += 1;
        }
        match found {
            Some(p) => {
                proof {
                    lemma_dev_find_is_first(entries, uuid, p as int);
                }
                let svc = Service { service_name: sr.unique_service_name, target: sr.target };
                let ghost target_dev = SpecDevice {
                    server: entries[p as int].1.server,
                    address: entries[p as int].1.address,
                    services: entries[p as int].1.services.push(svcg),
                    location: entries[p as int].1.location,
                };
                let (key, mut dev) = self.entries.remove(p);
                dev.services.push(svc);
                self.entries.insert(p, (key, dev));
                proof {
                    assert(svc@ == svcg);
                    assert(dev@.services =~= target_dev.services);
                    assert(dev@ == target_dev);
                    assert(key@ == entries[p as int].0);
                    assert forall|j: int| 0 <= j < self@.entries.len() implies self@.entries[j]
                        == spec_fold_response(entries, sr@, address@)[j] by {
                        if j != p {
                            assert(self.entries@[j] == old(self).entries@[j]);
                        }
                    }
                    assert(self@.entries =~= spec_fold_response(entries, sr@, address@));
                }
            },
            None => {
                proof {
                    assert forall|j: int| 0 <= j < entries.len() implies entries[j].0 != uuid by {
                        assert(j < i);
                    }
                    lemma_dev_find_props(entries, uuid);
                }
                let key = sr.unique_service_name.uuid.clone();
                let location = match sr.secure_location {
                    Some(l) => l,
                    None => sr.location,
                };
                let svc = Service { service_name: sr.unique_service_name, target: sr.target };
                let mut services = Vec::new();
                services.push(svc);
                let dev = Device { server: sr.server, address, services, location };
                let ghost target_dev = SpecDevice {
                    server: spec_device_of(sr@, address@).server,
                    address: spec_device_of(sr@, address@).address,
                    services: seq![svcg],
                    location: spec_device_of(sr@, address@).location,
                };
                self.entries.push((key, dev));
                proof {
                    assert(svc@ == svcg);
                    assert(dev@.services =~= target_dev.services);
                    assert(dev@ == target_dev);
                    assert forall|j: int| 0 <= j < self@.entries.len() implies self@.entries[j]
                        == spec_fold_response(entries, sr@, address@)[j] by {
                        if j < entries.len() {
                            assert(self.entries@[j] == old(self).entries@[j]);
                        }
                    }
                    assert(self@.entries =~= spec_fold_response(entries, sr@, address@));
                }
            },
        }
    }

    /// Closes the session and hands over the inventory, one device per
    /// distinct responder UUID, in the order they first replied. An empty
    /// window or a silent network yields an empty list, not an error.
    pub fn finish(&mut self) -> (r: Vec<Device>)
        requires
            old(self)@.phase == SessionPhase::Collecting,
        ensures
            final (self)@.phase == SessionPhase::Done,
            r@.len() == old(self)@.entries.len(),
            forall|i: int|
                0 <= i < r@.len() ==> (#[trigger] r@[i])@ == old(self)@.entries[i].1,
    {
        self.phase = SessionPhase::Done;
        let ghost entries = self@.entries;
        let mut out: Vec<Device> = Vec::new();
        while self.entries.len() > 0
            invariant
                out@.len() + self@.entries.len() == entries.len(),
                self@.entries == entries.skip(out@.len() as int),
                forall|i: int| 0 <= i < out@.len() ==> (#[trigger] out@[i])@ == entries[i].1,
                self@.phase == SessionPhase::Done,
            decreases self@.entries.len(),
        {
            let ghost k = out@.len() as int;
            let ghost pre = self.entries@;
            let ghost prev_view = self@.entries;
            let pair = self.entries.remove(0);
            out.push(pair.1);
            proof {
                assert(pair == pre[0]);
                assert forall|j: int| 0 <= j < self@.entries.len() implies self@.entries[j]
                    == entries.skip(k + 1)[j] by {
                    assert(self.entries@[j] == pre[j + 1]);
                    assert(prev_view[j + 1] == entries.skip(k)[j + 1]);
                    assert(entries.skip(k)[j + 1] == entries[k + 1 + j]);
                    assert(entries.skip(k + 1)[j] == entries[k + 1 + j]);
                }
                assert(self@.entries =~= entries.skip(k + 1));
                assert(prev_view[0] == entries[k]);
                assert(out@[k]@ == entries[k].1);
            }
        }
        proof {
            assert(out@.len() == entries.len());
        }
        out
    }
}

/// Checks a wait-window argument: a decimal number between 1 and 5.
pub fn validate_secs(v: String) -> (r: Result<(), String>)
    ensures
        match r {
            Result::Ok(_) => exists|n: int|
                spec_parse_uint(v@, 255) == Some(n) && 1 <= n <= 5,
            Result::Err(e) => (match spec_parse_uint(v@, 255) {
                Some(n) => !(1 <= n <= 5),
                None => true,
            }) && e@ == "Please specify a number between 1 and 5"@,
        },
{
    let msg = "Please specify a number between 1 and 5";
    match crate::num::parse_u8(v.as_str()) {
        Some(n) => {
            if 1 <= n && n <= 5 {
                proof {
                    assert(spec_parse_uint(v@, 255) == Some(n as int) && 1 <= n as int <= 5);
                }
                Result::Ok(())
            } else {
                Result::Err(msg.to_owned())
            }
        },
        None => Result::Err(msg.to_owned()),
    }
}

/// Two search responses carrying the same responder UUID, received by a
/// fresh-for-that-UUID inventory, group into one device holding both
/// services, in arrival order; no second device entry appears.
pub proof fn lemma_responses_group_by_uuid(
    entries: SpecInventory,
    sr1: SpecSearchResponse,
    sr2: SpecSearchResponse,
    a1: Seq<char>,
    a2: Seq<char>,
)
    requires
        sr1.unique_service_name.uuid == sr2.unique_service_name.uuid,
        dev_find(entries, sr1.unique_service_name.uuid) is None,
    ensures
        ({
            let after = spec_fold_response(spec_fold_response(entries, sr1, a1), sr2, a2);
            &&& after.len() == entries.len() + 1
            &&& after.last().0 == sr1.unique_service_name.uuid
            &&& after.last().1.services == seq![spec_service_of(sr1), spec_service_of(sr2)]
            &&& after.last().1.server == sr1.server
            &&& after.last().1.address == a1
        }),
{
    let uuid = sr1.unique_service_name.uuid;
    lemma_dev_find_props(entries, uuid);
    let e1 = spec_fold_response(entries, sr1, a1);
    assert(e1.len() == entries.len() + 1);
    assert(e1[entries.len() as int].0 == uuid);
    assert forall|j: int| 0 <= j < entries.len() implies e1[j].0 != uuid by {
        assert(e1[j] == entries[j]);
    }
    lemma_dev_find_is_first(e1, uuid, entries.len() as int);
    let after = spec_fold_response(e1, sr2, a2);
    assert(after.last().1.services =~= seq![spec_service_of(sr1), spec_service_of(sr2)]);
}

} // verus!
