//! The message mapper and the full codec: packets onto typed messages and
//! back, and the byte-level round trip.

use yooper::{
    Available, Codec, Error, Ext, MSearch, ManDiscover, Message, Packet, PacketType,
    SearchResponse, SearchTarget, UniqueServiceName,
};

fn available_packet() -> Packet {
    Packet::new_from_literal(
        PacketType::Notify,
        vec![
            ("host", "239.255.255.250:1900"),
            ("cache-control", "max-age=3600"),
            ("location", "http://192.168.7.238:54216/RootDevice.xml"),
            ("nt", "urn:schemas-upnp-org:device:MediaServer:1"),
            ("nts", "ssdp:alive"),
            ("server", "Windows 10/10.0 UPnP/1.0 Azureus/5.7.6.0"),
            (
                "usn",
                "uuid:07853410-ccef-9e3c-de6a-410b371182eb::urn:schemas-upnp-org:device:MediaServer:1",
            ),
            ("searchport.upnp.org", "11120"),
        ],
    )
}

fn available() -> Message {
    let st = SearchTarget::Device {
        device_type: "MediaServer".to_string(),
        version: "1".to_string(),
    };

    Message::Available(Available {
        max_age: "max-age=3600".into(),
        location: "http://192.168.7.238:54216/RootDevice.xml".into(),
        notification_type: st.clone(),
        server: "Windows 10/10.0 UPnP/1.0 Azureus/5.7.6.0".into(),
        unique_service_name: UniqueServiceName {
            uuid: "07853410-ccef-9e3c-de6a-410b371182eb".to_string(),
            search_target: Some(st),
        },
        host: "239.255.255.250:1900".into(),

        secure_location: None,
        boot_id: None,
        config_id: None,
        search_port: Some(11120),
    })
}

#[test]
fn tests_test_available_from_packet() {
    let packet = available_packet();
    let expected = available();
    assert_eq!(expected, Message::from_packet(&packet).unwrap())
}

#[test]
fn tests_test_packet_from_availabe() {
    let available = available();
    let expected = available_packet();
    assert_eq!(expected, available.to_packet())
}

const SEARCH_RESPONSE_EXAMPLE: &[u8] = b"HTTP/1.1 200 OK\r\n\
CACHE-CONTROL: max-age=1800\r\n\
DATE: Mon, 25 May 2020 02:39:02 GMT\r\n\
EXT:\r\n\
LOCATION: http://192.168.7.1:1900/igd.xml\r\n\
SERVER: eeroOS/latest UPnP/1.0 eero/latest\r\n\
ST: uuid:fcdb9233-a63f-41da-b42c-7cfeb99c8adf\r\n\
USN: uuid:fcdb9233-a63f-41da-b42c-7cfeb99c8adf\r\n\r\n";

#[test]
fn codec_test_decode_ok() {
    let mut buf: Vec<u8> = SEARCH_RESPONSE_EXAMPLE.to_vec();
    let decoder = Codec::new();
    let message = Message::SearchResponse(SearchResponse {
        max_age: "max-age=1800".into(),
        date: Some("Mon, 25 May 2020 02:39:02 GMT".into()),
        location: "http://192.168.7.1:1900/igd.xml".into(),
        secure_location: None,
        server: "eeroOS/latest UPnP/1.0 eero/latest".into(),
        target: SearchTarget::UUID("fcdb9233-a63f-41da-b42c-7cfeb99c8adf".into()),
        unique_service_name: UniqueServiceName {
            uuid: "fcdb9233-a63f-41da-b42c-7cfeb99c8adf".into(),
            search_target: None,
        },

        ext: Ext {},
        boot_id: None,
        config_id: None,
        search_port: None,
    });

    assert_eq!(message, decoder.decode(&mut buf).unwrap())
}

#[test]
fn test_m_search_end_to_end() {
    let mut buf: Vec<u8> =
        b"M-SEARCH * HTTP/1.1\r\nHOST: 239.255.255.250:1900\r\nMAN: \"ssdp:discover\"\r\nMX: 2\r\nST: ssdp:all\r\n\r\n"
            .to_vec();
    let msg = Codec::new().decode(&mut buf).unwrap();
    match msg {
        Message::MSearch(m) => {
            assert_eq!(m.target, SearchTarget::All);
            assert_eq!(m.max_wait, Some(2));
            assert_eq!(m.host, "239.255.255.250:1900");
        },
        other => panic!("expected a search message, got {:?}", other),
    }
}

#[test]
fn test_notify_with_other_nts_is_unrecognized() {
    let packet = Packet::new_from_literal(
        PacketType::Notify,
        vec![
            ("host", "239.255.255.250:1900"),
            ("cache-control", "max-age=3600"),
            ("location", "http://example.invalid/d.xml"),
            ("nt", "urn:schemas-upnp-org:device:MediaServer:1"),
            ("nts", "ssdp:byebye"),
            ("server", "s"),
            ("usn", "uuid:07853410-ccef-9e3c-de6a-410b371182eb"),
        ],
    );
    assert_eq!(Message::from_packet(&packet), Err(Error::UnrecognizedPacket));
}

#[test]
fn test_notify_without_nts_is_unrecognized() {
    let packet = Packet::new_from_literal(PacketType::Notify, vec![("host", "x")]);
    assert_eq!(Message::from_packet(&packet), Err(Error::UnrecognizedPacket));
}

#[test]
fn test_missing_required_header() {
    let packet = Packet::new_from_literal(
        PacketType::MSearch,
        vec![("host", "239.255.255.250:1900"), ("man", "\"ssdp:discover\"")],
    );
    assert_eq!(
        Message::from_packet(&packet),
        Err(Error::MissingRequiredHeader("st".to_owned()))
    );
}

#[test]
fn test_malformed_numeric_field() {
    let packet = Packet::new_from_literal(
        PacketType::MSearch,
        vec![
            ("host", "239.255.255.250:1900"),
            ("man", "\"ssdp:discover\""),
            ("mx", "abc"),
            ("st", "ssdp:all"),
        ],
    );
    assert_eq!(
        Message::from_packet(&packet),
        Err(Error::MalformedFieldValue("mx".to_owned(), "abc".to_owned()))
    );
}

#[test]
fn test_malformed_marker_field() {
    let packet = Packet::new_from_literal(
        PacketType::MSearch,
        vec![("host", "h"), ("man", "nope"), ("st", "ssdp:all")],
    );
    assert_eq!(
        Message::from_packet(&packet),
        Err(Error::MalformedFieldValue("man".to_owned(), "nope".to_owned()))
    );
}

#[test]
fn test_message_round_trips_through_bytes() {
    let msg = available();
    let codec = Codec::new();
    let mut buf: Vec<u8> = Vec::new();
    codec.encode(&msg, &mut buf);
    let back = codec.decode(&mut buf).unwrap();
    assert_eq!(back, msg);
    assert!(buf.is_empty());
}

#[test]
fn test_search_target_parse_never_fails() {
    let junk = "something: odd !!";
    let t = SearchTarget::from_str(junk).unwrap();
    assert_eq!(t, SearchTarget::Other(junk.to_owned()));
    assert_eq!(t.to_string(), junk);
}

#[test]
fn test_search_target_grammar() {
    assert_eq!(SearchTarget::from_str("ssdp:all").unwrap(), SearchTarget::All);
    assert_eq!(
        SearchTarget::from_str("upnp:rootdevice").unwrap(),
        SearchTarget::RootDevice
    );
    assert_eq!(
        SearchTarget::from_str("urn:schemas-upnp-org:service:Layer3Forwarding:1").unwrap(),
        SearchTarget::Service {
            service_type: "Layer3Forwarding".to_owned(),
            version: "1".to_owned()
        }
    );
    assert_eq!(
        SearchTarget::from_str("urn:dial-multiscreen-org:service:dial:1").unwrap(),
        SearchTarget::VendorService {
            domain_name: "dial-multiscreen-org".to_owned(),
            service_type: "dial".to_owned(),
            version: "1".to_owned()
        }
    );
    assert_eq!(
        SearchTarget::from_str("urn:example-com:device:Light:2").unwrap().to_string(),
        "urn:example-com:device:Light:2"
    );
}

#[test]
fn test_search_target_uuid_is_canonicalized() {
    let t = SearchTarget::from_str("uuid:FCDB9233-A63F-41DA-B42C-7CFEB99C8ADF").unwrap();
    assert_eq!(
        t,
        SearchTarget::UUID("fcdb9233-a63f-41da-b42c-7cfeb99c8adf".to_owned())
    );
    let bad = SearchTarget::from_str("uuid:not-a-uuid").unwrap();
    assert_eq!(bad, SearchTarget::Other("uuid:not-a-uuid".to_owned()));
}

#[test]
fn test_unique_service_name_codec() {
    let plain = UniqueServiceName::from_str("uuid:fcdb9233-a63f-41da-b42c-7cfeb99c8adf").unwrap();
    assert_eq!(plain.uuid, "fcdb9233-a63f-41da-b42c-7cfeb99c8adf");
    assert_eq!(plain.search_target, None);
    assert_eq!(plain.to_string(), "uuid:fcdb9233-a63f-41da-b42c-7cfeb99c8adf");

    let with_target = UniqueServiceName::from_str("uuid:07853410::upnp:rootdevice").unwrap();
    assert_eq!(with_target.uuid, "07853410");
    assert_eq!(with_target.search_target, Some(SearchTarget::RootDevice));
    assert_eq!(with_target.to_string(), "uuid:07853410::upnp:rootdevice");

    assert_eq!(
        UniqueServiceName::from_str("no-prefix"),
        Err(Error::MalformedFieldValue("usn".to_owned(), "no-prefix".to_owned()))
    );
}

#[test]
fn test_marker_codecs() {
    assert!(Ext::from_str("").is_ok());
    assert_eq!(
        Ext::from_str("x"),
        Err(Error::MalformedFieldValue("ext".to_owned(), "x".to_owned()))
    );
    assert_eq!(Ext {}.to_string(), "");

    assert!(ManDiscover::from_str("ssdp:discover").is_ok());
    assert!(ManDiscover::from_str("\"ssdp:discover\"").is_ok());
    assert_eq!(
        ManDiscover::from_str("discover"),
        Err(Error::MalformedFieldValue("man".to_owned(), "discover".to_owned()))
    );
    assert_eq!(ManDiscover {}.to_string(), "\"ssdp:discover\"");
}

#[test]
fn test_numeric_field_boundaries() {
    let packet = Packet::new_from_literal(
        PacketType::MSearch,
        vec![
            ("host", "h"),
            ("man", "\"ssdp:discover\""),
            ("mx", "+5"),
            ("st", "ssdp:all"),
            ("tcpport.upnp.org", "65535"),
        ],
    );
    match Message::from_packet(&packet).unwrap() {
        Message::MSearch(m) => {
            assert_eq!(m.max_wait, Some(5));
            assert_eq!(m.tcp_port, Some(65535));
        },
        other => panic!("expected a search message, got {:?}", other),
    }

    let over = Packet::new_from_literal(
        PacketType::MSearch,
        vec![("host", "h"), ("man", "\"ssdp:discover\""), ("mx", "256"), ("st", "ssdp:all")],
    );
    assert_eq!(
        Message::from_packet(&over),
        Err(Error::MalformedFieldValue("mx".to_owned(), "256".to_owned()))
    );
}

#[test]
fn test_negative_boot_id_round_trips() {
    let msg = Message::SearchResponse(SearchResponse {
        max_age: "max-age=60".into(),
        date: None,
        location: "http://192.168.0.9/d.xml".into(),
        ext: Ext {},
        server: "s/1 UPnP/2.0 p/1".into(),
        secure_location: None,
        target: SearchTarget::RootDevice,
        unique_service_name: UniqueServiceName {
            uuid: "fcdb9233-a63f-41da-b42c-7cfeb99c8adf".into(),
            search_target: None,
        },
        boot_id: Some(-12),
        config_id: Some(2147483647),
        search_port: Some(1901),
    });
    let codec = Codec::new();
    let mut buf: Vec<u8> = Vec::new();
    codec.encode(&msg, &mut buf);
    assert_eq!(codec.decode(&mut buf).unwrap(), msg);
}
