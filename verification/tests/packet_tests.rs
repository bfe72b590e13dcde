//! Packet framing: byte buffers in, request line and headers out, and back.

use yooper::{Decoder, Encoder, Error, Packet, PacketType};

const NOTIFY_EXAMPLE: &[u8] = b"NOTIFY * HTTP/1.1\r\n\
HOST: 239.255.255.250:1900\r\n\
CACHE-CONTROL: max-age=3600\r\n\
LOCATION: http://192.168.7.238:54216/RootDevice.xml\r\n\
NT: urn:schemas-upnp-org:device:MediaServer:1\r\n\
NTS: ssdp:alive\r\n\
SERVER: Windows 10/10.0 UPnP/1.0 Azureus/5.7.6.0\r\n\
USN: uuid:07853410-ccef-9e3c-de6a-410b371182eb::urn:schemas-upnp-org:device:MediaServer:1\r\n\r\n";

const M_SEARCH_EXAMPLE: &[u8] = b"M-SEARCH * HTTP/1.1\r\n\
HOST: 239.255.255.250:1900\r\n\
MAN: \"ssdp:discover\"\r\n\
MX: 1\r\n\
ST: urn:dial-multiscreen-org:service:dial:1\r\n\
USER-AGENT: Chromium/81.0.4044.138 Linux\r\n\r\n";

const SEARCH_RESPONSE_EXAMPLE: &[u8] = b"HTTP/1.1 200 OK\r\n\
CACHE-CONTROL: max-age=1800\r\n\
DATE: Mon, 25 May 2020 02:39:02 GMT\r\n\
EXT:\r\n\
LOCATION: http://192.168.7.1:1900/igd.xml\r\n\
SERVER: eeroOS/latest UPnP/1.0 eero/latest\r\n\
ST: uuid:fcdb9233-a63f-41da-b42c-7cfeb99c8adf\r\n\
USN: uuid:fcdb9233-a63f-41da-b42c-7cfeb99c8adf\r\n\r\n";

#[test]
fn decoder_test_parse_notify() {
    let mut buf: Vec<u8> = NOTIFY_EXAMPLE.to_vec();
    let decoded = Decoder {}.decode(&mut buf).unwrap();
    assert_eq!(
        decoded,
        Packet::new_from_literal(
            PacketType::Notify,
            vec![
                ("host", "239.255.255.250:1900"),
                ("cache-control", "max-age=3600"),
                ("location", "http://192.168.7.238:54216/RootDevice.xml"),
                ("nt", "urn:schemas-upnp-org:device:MediaServer:1"),
                ("nts", "ssdp:alive"),
                ("server", "Windows 10/10.0 UPnP/1.0 Azureus/5.7.6.0"),
                (
                    "usn",
                    "uuid:07853410-ccef-9e3c-de6a-410b371182eb::urn:schemas-upnp-org:device:MediaServer:1"
                ),
            ]
        )
    );
    assert!(buf.is_empty());
}

#[test]
fn test_parse_m_search() {
    let mut buf: Vec<u8> = M_SEARCH_EXAMPLE.to_vec();
    let decoded = Decoder {}.decode(&mut buf).unwrap();
    assert_eq!(
        decoded,
        Packet::new_from_literal(
            PacketType::MSearch,
            vec![
                ("host", "239.255.255.250:1900"),
                ("man", "\"ssdp:discover\""),
                ("mx", "1"),
                ("st", "urn:dial-multiscreen-org:service:dial:1"),
                ("user-agent", "Chromium/81.0.4044.138 Linux"),
            ],
        )
    )
}

#[test]
fn test_parse_search_response() {
    let mut buf: Vec<u8> = SEARCH_RESPONSE_EXAMPLE.to_vec();
    let decoded = Decoder {}.decode(&mut buf).unwrap();
    assert_eq!(
        decoded,
        Packet::new_from_literal(
            PacketType::Okay,
            vec![
                ("cache-control", "max-age=1800"),
                ("date", "Mon, 25 May 2020 02:39:02 GMT"),
                ("ext", ""),
                ("location", "http://192.168.7.1:1900/igd.xml"),
                ("server", "eeroOS/latest UPnP/1.0 eero/latest"),
                ("st", "uuid:fcdb9233-a63f-41da-b42c-7cfeb99c8adf"),
                ("usn", "uuid:fcdb9233-a63f-41da-b42c-7cfeb99c8adf"),
            ],
        )
    )
}

#[test]
fn test_incomplete_leaves_buffer_untouched() {
    let mut buf: Vec<u8> = b"NOTIFY * HTTP/1.1\r\nHOST: 239.255.255.250:1900\r\n".to_vec();
    let before = buf.clone();
    let r = Decoder {}.decode(&mut buf);
    assert_eq!(r, Err(Error::Incomplete));
    assert_eq!(buf, before);
}

#[test]
fn test_empty_buffer_is_incomplete() {
    let mut buf: Vec<u8> = Vec::new();
    assert_eq!(Decoder {}.decode(&mut buf), Err(Error::Incomplete));
}

#[test]
fn test_trailing_bytes_stay_for_next_call() {
    let mut buf: Vec<u8> = b"HTTP/1.1 200 OK\r\n\r\nEXTRA".to_vec();
    let decoded = Decoder {}.decode(&mut buf).unwrap();
    assert_eq!(decoded, Packet::new_from_literal(PacketType::Okay, vec![]));
    assert_eq!(buf, b"EXTRA".to_vec());
}

#[test]
fn test_header_line_without_colon_is_malformed() {
    let mut buf: Vec<u8> = b"NOTIFY * HTTP/1.1\r\nno colon here\r\n\r\n".to_vec();
    let r = Decoder {}.decode(&mut buf);
    assert_eq!(r, Err(Error::MalformedHeaderLine("no colon here".to_owned())));
    assert!(buf.is_empty());
}

#[test]
fn test_unknown_request_line_is_malformed() {
    let mut buf: Vec<u8> = b"GET / HTTP/1.1\r\nHost: x\r\n\r\n".to_vec();
    let r = Decoder {}.decode(&mut buf);
    assert_eq!(r, Err(Error::MalformedRequestLine("GET / HTTP/1.1".to_owned())));
}

#[test]
fn test_keys_match_case_insensitively() {
    let mut buf: Vec<u8> = b"HTTP/1.1 200 OK\r\nLoCaTiOn: somewhere\r\n\r\n".to_vec();
    let p = Decoder {}.decode(&mut buf).unwrap();
    assert_eq!(p.headers.get("LOCATION"), Some("somewhere".to_owned()));
    assert_eq!(p.headers.get("location"), Some("somewhere".to_owned()));
    assert_eq!(p.headers.get("host"), None);
}

#[test]
fn test_duplicate_keys_last_value_wins() {
    let mut buf: Vec<u8> = b"HTTP/1.1 200 OK\r\nST: one\r\nst: two\r\n\r\n".to_vec();
    let p = Decoder {}.decode(&mut buf).unwrap();
    assert_eq!(p.headers.len(), 1);
    assert_eq!(p.headers.get("st"), Some("two".to_owned()));
}

#[test]
fn test_encode_renders_stored_casing_and_order() {
    let p = Packet::new_from_literal(
        PacketType::MSearch,
        vec![("Host", "239.255.255.250:1900"), ("MX", "2")],
    );
    let mut out: Vec<u8> = Vec::new();
    Encoder {}.encode(&p, &mut out);
    assert_eq!(
        out,
        b"M-SEARCH * HTTP/1.1\r\nHost: 239.255.255.250:1900\r\nMX: 2\r\n\r\n".to_vec()
    );
}

#[test]
fn test_packet_round_trips_through_bytes() {
    let p = Packet::new_from_literal(
        PacketType::Notify,
        vec![("host", "x"), ("nts", "ssdp:alive"), ("empty", "")],
    );
    let mut out: Vec<u8> = Vec::new();
    Encoder {}.encode(&p, &mut out);
    let decoded = Decoder {}.decode(&mut out).unwrap();
    assert_eq!(decoded, p);
    assert!(out.is_empty());
}

#[test]
fn test_utf8_value_survives_decoding() {
    let mut buf: Vec<u8> = "HTTP/1.1 200 OK\r\nSERVER: caf\u{e9} server\r\n\r\n".as_bytes().to_vec();
    let p = Decoder {}.decode(&mut buf).unwrap();
    assert_eq!(p.headers.get("server"), Some("caf\u{e9} server".to_owned()));
}

#[test]
fn test_utf8_value_round_trips() {
    let p = Packet::new_from_literal(PacketType::Okay, vec![("server", "caf\u{e9} \u{2615}")]);
    let mut out: Vec<u8> = Vec::new();
    Encoder {}.encode(&p, &mut out);
    let decoded = Decoder {}.decode(&mut out).unwrap();
    assert_eq!(decoded, p);
}

#[test]
fn test_request_line_codec() {
    assert_eq!(PacketType::MSearch.to_string(), "M-SEARCH * HTTP/1.1");
    assert_eq!(PacketType::Notify.to_string(), "NOTIFY * HTTP/1.1");
    assert_eq!(PacketType::Okay.to_string(), "HTTP/1.1 200 OK");
    assert_eq!(PacketType::from_str("HTTP/1.1 200 OK"), Ok(PacketType::Okay));
    assert_eq!(
        PacketType::from_str("http/1.1 200 ok"),
        Err(Error::MalformedRequestLine("http/1.1 200 ok".to_owned()))
    );
}
