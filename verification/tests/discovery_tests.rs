//! The discovery session: the search message, the response fold, and the
//! inventory it returns.

use yooper::{
    DiscoverySession, Ext, Message, SearchResponse, SearchTarget, UniqueServiceName,
};
use yooper::discovery::validate_secs;

fn response(uuid: &str, st: SearchTarget) -> SearchResponse {
    SearchResponse {
        max_age: "max-age=1800".into(),
        date: None,
        location: "http://192.168.7.1:1900/igd.xml".into(),
        ext: Ext {},
        server: "eeroOS/latest UPnP/1.0 eero/latest".into(),
        secure_location: None,
        target: st,
        unique_service_name: UniqueServiceName { uuid: uuid.into(), search_target: None },
        boot_id: None,
        config_id: None,
        search_port: None,
    }
}

fn collecting_session() -> DiscoverySession {
    let mut s = DiscoverySession::new();
    let _msg = s.start_search(2, Some("unix/5.1 UPnP/2.0 test/1.0".into()), None);
    s.on_sent();
    s
}

#[test]
fn test_start_search_builds_m_search() {
    let mut s = DiscoverySession::new();
    let msg = s.start_search(3, Some("unix/5.1 UPnP/2.0 test/1.0".into()), Some("u".into()));
    match msg {
        Message::MSearch(m) => {
            assert_eq!(m.host, "239.255.255.250:1900");
            assert_eq!(m.max_wait, Some(3));
            assert_eq!(m.target, SearchTarget::All);
            assert_eq!(m.friendly_name, Some("yooper".to_owned()));
            assert_eq!(m.uuid, Some("u".to_owned()));
        },
        other => panic!("expected a search message, got {:?}", other),
    }
}

#[test]
fn test_two_responses_same_uuid_fold_into_one_device() {
    let mut s = collecting_session();
    let uuid = "fcdb9233-a63f-41da-b42c-7cfeb99c8adf";
    s.on_message(
        Message::SearchResponse(response(uuid, SearchTarget::RootDevice)),
        "192.168.7.1:1900".into(),
    );
    s.on_message(
        Message::SearchResponse(response(
            uuid,
            SearchTarget::Service { service_type: "Layer3Forwarding".into(), version: "1".into() },
        )),
        "192.168.7.1:1900".into(),
    );
    let devices = s.finish();
    assert_eq!(devices.len(), 1);
    assert_eq!(devices[0].services.len(), 2);
    assert_eq!(devices[0].services[0].target, SearchTarget::RootDevice);
    assert_eq!(
        devices[0].services[1].target,
        SearchTarget::Service { service_type: "Layer3Forwarding".into(), version: "1".into() }
    );
    assert_eq!(devices[0].server, "eeroOS/latest UPnP/1.0 eero/latest");
    assert_eq!(devices[0].address, "192.168.7.1:1900");
}

#[test]
fn test_distinct_uuids_make_distinct_devices() {
    let mut s = collecting_session();
    s.on_message(
        Message::SearchResponse(response("aaaa", SearchTarget::RootDevice)),
        "192.168.7.1:1900".into(),
    );
    s.on_message(
        Message::SearchResponse(response("bbbb", SearchTarget::RootDevice)),
        "192.168.7.2:1900".into(),
    );
    let devices = s.finish();
    assert_eq!(devices.len(), 2);
    assert_eq!(devices[0].address, "192.168.7.1:1900");
    assert_eq!(devices[1].address, "192.168.7.2:1900");
}

#[test]
fn test_identical_duplicate_responses_both_append() {
    let mut s = collecting_session();
    let sr = response("aaaa", SearchTarget::RootDevice);
    s.on_message(Message::SearchResponse(sr), "a".into());
    let sr = response("aaaa", SearchTarget::RootDevice);
    s.on_message(Message::SearchResponse(sr), "a".into());
    let devices = s.finish();
    assert_eq!(devices.len(), 1);
    assert_eq!(devices[0].services.len(), 2);
}

#[test]
fn test_empty_window_yields_empty_list() {
    let mut s = collecting_session();
    let devices = s.finish();
    assert!(devices.is_empty());
}

#[test]
fn test_secure_location_wins() {
    let mut s = collecting_session();
    let mut sr = response("aaaa", SearchTarget::RootDevice);
    sr.secure_location = Some("https://192.168.7.1/igd.xml".into());
    s.on_message(Message::SearchResponse(sr), "a".into());
    let devices = s.finish();
    assert_eq!(devices[0].location, "https://192.168.7.1/igd.xml");
}

#[test]
fn test_irrelevant_and_malformed_input_is_ignored() {
    let mut s = collecting_session();
    s.on_datagram(b"GARBAGE".to_vec(), "a".into());
    s.on_datagram(b"GET / HTTP/1.1\r\n\r\n".to_vec(), "a".into());
    s.on_datagram(
        b"NOTIFY * HTTP/1.1\r\nNTS: ssdp:byebye\r\n\r\n".to_vec(),
        "a".into(),
    );
    let devices = s.finish();
    assert!(devices.is_empty());
}

#[test]
fn test_datagram_with_response_folds_in() {
    let mut s = collecting_session();
    s.on_datagram(
        b"HTTP/1.1 200 OK\r\n\
CACHE-CONTROL: max-age=1800\r\n\
EXT:\r\n\
LOCATION: http://192.168.7.1:1900/igd.xml\r\n\
SERVER: eeroOS/latest UPnP/1.0 eero/latest\r\n\
ST: upnp:rootdevice\r\n\
USN: uuid:fcdb9233-a63f-41da-b42c-7cfeb99c8adf\r\n\r\n"
            .to_vec(),
        "192.168.7.1:1900".into(),
    );
    let devices = s.finish();
    assert_eq!(devices.len(), 1);
    assert_eq!(devices[0].services[0].target, SearchTarget::RootDevice);
}

#[test]
fn test_validate_secs() {
    assert!(validate_secs("1".to_owned()).is_ok());
    assert!(validate_secs("5".to_owned()).is_ok());
    let msg = "Please specify a number between 1 and 5".to_owned();
    assert_eq!(validate_secs("0".to_owned()), Err(msg.clone()));
    assert_eq!(validate_secs("6".to_owned()), Err(msg.clone()));
    assert_eq!(validate_secs("abc".to_owned()), Err(msg.clone()));
    assert_eq!(validate_secs("".to_owned()), Err(msg));
}
