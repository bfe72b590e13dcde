//! The typed identifiers of device description documents.

use yooper::{DeviceType, Error, ServiceId, ServiceType, UniqueDeviceName};

#[test]
fn test_device_type_from_str() {
    let s = "urn:schemas-upnp-org:device:deviceType:ver";
    assert_eq!(
        DeviceType {
            vendor_domain: None,
            device_type: "deviceType".into(),
            version: "ver".into()
        },
        DeviceType::from_str(s).unwrap()
    );

    let s2 = "urn:domain-name:device:deviceType:ver";
    assert_eq!(
        DeviceType {
            vendor_domain: Some("domain-name".into()),
            device_type: "deviceType".into(),
            version: "ver".into()
        },
        DeviceType::from_str(s2).unwrap()
    );

    let s3 = "urn:non-matching:service:value";
    match DeviceType::from_str(s3).unwrap_err() {
        Error::MalformedFieldValue(n, v) if n == "service_id" && v == s3 => (),
        e => panic!("Didn't get the error we assumed! {:?}", e),
    };
}

#[test]
fn test_device_type_to_string() {
    let standard = DeviceType {
        vendor_domain: None,
        device_type: "InternetGatewayDevice".into(),
        version: "1".into(),
    };
    assert_eq!(standard.to_string(), "urn:schemas-upnp-org:device:InternetGatewayDevice:1");

    let vendor = DeviceType {
        vendor_domain: Some("example-com".into()),
        device_type: "Light".into(),
        version: "2".into(),
    };
    let rendered = vendor.to_string();
    assert_eq!(rendered, "urn:example-com:device:Light:2");
    assert_eq!(DeviceType::from_str(&rendered).unwrap(), vendor);
}

#[test]
fn test_service_type_from_str() {
    assert_eq!(
        ServiceType::from_str("urn:schemas-upnp-org:service:Layer3Forwarding:1").unwrap(),
        ServiceType {
            vendor_domain: None,
            service_type: "Layer3Forwarding".into(),
            version: "1".into()
        }
    );
    assert_eq!(
        ServiceType::from_str("urn:example-com:service:dimming:2").unwrap(),
        ServiceType {
            vendor_domain: Some("example-com".into()),
            service_type: "dimming".into(),
            version: "2".into()
        }
    );
    assert!(ServiceType::from_str("urn:x:device:y:1").is_err());
}

#[test]
fn test_service_id_from_str() {
    assert_eq!(
        ServiceId::from_str("urn:upnp-org:serviceId:L3Forwarding1").unwrap(),
        ServiceId { vendor_domain: None, service_id: "L3Forwarding1".into() }
    );
    assert_eq!(
        ServiceId::from_str("urn:example-com:serviceId:dim1").unwrap(),
        ServiceId { vendor_domain: Some("example-com".into()), service_id: "dim1".into() }
    );
    assert_eq!(
        ServiceId::from_str("urn:upnp-org:service:oops"),
        Err(Error::MalformedFieldValue(
            "service_id".to_owned(),
            "urn:upnp-org:service:oops".to_owned()
        ))
    );
}

#[test]
fn test_unique_device_name_from_str() {
    assert_eq!(
        UniqueDeviceName::from_str("uuid:fcdb9233-a63f-41da-b42c-7cfeb99c8adf").unwrap(),
        UniqueDeviceName { uuid: "fcdb9233-a63f-41da-b42c-7cfeb99c8adf".into() }
    );
    assert_eq!(
        UniqueDeviceName::from_str("fcdb9233"),
        Err(Error::MalformedFieldValue("udn".to_owned(), "fcdb9233".to_owned()))
    );
}
