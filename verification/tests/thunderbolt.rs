use dnet_p2p::thunderbolt::{JsonValue, ThunderboltData, ThunderboltInstance};

fn to_json(v: &serde_json::Value) -> JsonValue {
    match v {
        serde_json::Value::Null => JsonValue::Null,
        serde_json::Value::Bool(b) => JsonValue::Bool(*b),
        serde_json::Value::Number(n) => JsonValue::Number(n.to_string()),
        serde_json::Value::String(s) => JsonValue::Str(s.clone()),
        serde_json::Value::Array(a) => JsonValue::Array(a.iter().map(to_json).collect()),
        serde_json::Value::Object(o) => {
            JsonValue::Object(o.iter().map(|(k, v)| (k.clone(), to_json(v))).collect())
        }
    }
}

fn parse(text: &str) -> JsonValue {
    to_json(&serde_json::from_str::<serde_json::Value>(text).expect("failed to parse JSON"))
}

#[test]
fn test_ports_parsing_with_sample_data() {
    let sample_json = r#"{
    "SPThunderboltDataType": [
    {
      "_name": "thunderboltusb4_bus_2",
      "_items": [
      {
        "_name": "Device 1",
        "device_id_key": "0xA",
        "device_name_key": "Device15,12",
        "domain_uuid_key": "12345678-1234-5678-9876-543210987654",
        "services_title": [
        {
          "_name": "service_ip",
          "protocol_id_key": 1,
          "protocol_revision_key": 1,
          "protocol_version_key": 1,
          "service_uuid_key": "11111111-2222-3333-4444-555555555555"
        }
        ],
        "vendor_id_key": "0xA27",
        "vendor_name_key": "Company Inc."
      }
      ],

      "device_name_key": "Host Device",
      "domain_uuid_key": "87654321-4321-8765-1234-567890123456",
      "receptacle_1_tag": {
      "current_speed_key": "40 Gb/s",
      "link_status_key": "0x2",
      "receptacle_id_key": "3",
      "receptacle_status_key": "receptacle_connected"
      },
      "route_string_key": "0",
      "switch_uid_key": "0xABCDEF0123456789",
      "vendor_name_key": "Company Inc."
    },
    {
      "_name": "thunderboltusb4_bus_1",
      "_items": [
      {
        "_name": "Device 2",
        "device_id_key": "0xA",
        "device_name_key": "Device18,2",
        "domain_uuid_key": "98765432-5678-9012-3456-789012345678",
        "services_title": [
        {
          "_name": "service_ip",
          "protocol_id_key": 1,
          "protocol_revision_key": 1,
          "protocol_version_key": 1,
          "service_uuid_key": "66666666-7777-8888-9999-AAAAAAAAAAAA"
        }
        ],
        "vendor_id_key": "0xA27",
        "vendor_name_key": "Company Inc."
      }
      ],
      "device_name_key": "Host Device",
      "domain_uuid_key": "FEDCBA98-7654-3210-FEDC-BA9876543210",
      "receptacle_1_tag": {
      "current_speed_key": "40 Gb/s",
      "link_status_key": "0x2",
      "receptacle_id_key": "2",
      "receptacle_status_key": "receptacle_connected"
      },
      "route_string_key": "0",
      "switch_uid_key": "0x1234567890ABCDEF",
      "vendor_name_key": "Company Inc."
    },
    {
      "_items": [
      {
        "_name": "Audio Device",
        "device_id_key": "0xB",
        "device_name_key": "Audio Device",
        "device_revision_key": "0x1",
        "mode_key": "thunderbolt_three",
        "receptacle_upstream_ambiguous_tag": {
        "current_speed_key": "40 Gb/s",
        "lc_version_key": "0.31.0",
        "link_status_key": "0x2",
        "receptacle_status_key": "receptacle_connected"
        },
        "route_string_key": "1",
        "switch_uid_key": "0xAABBCCDDEEFF0011",
        "switch_version_key": "20.1",
        "vendor_id_key": "0x1176",
        "vendor_name_key": "Audio Company, Inc."
      }
      ],
      "_name": "thunderboltusb4_bus_0",
      "device_name_key": "Host Device",
      "domain_uuid_key": "ABCDEF01-2345-6789-ABCD-EF0123456789",
      "receptacle_1_tag": {
      "current_speed_key": "40 Gb/s",
      "link_status_key": "0x2",
      "receptacle_id_key": "1",
      "receptacle_status_key": "receptacle_connected"
      },
      "route_string_key": "0",
      "switch_uid_key": "0x9876543210FEDCBA",
      "vendor_name_key": "Company Inc."
    }
    ],
    "SPNetworkDataType": [
    {
      "_name": "Ethernet",
      "Ethernet": {
      "MAC Address": "aa:bb:cc:dd:ee:ff",
      "MediaOptions": [],
      "MediaSubType": "none"
      },
      "hardware": "Ethernet",
      "interface": "en0",
      "IPv4": {
      "ConfigMethod": "DHCP"
      },
      "IPv6": {
      "ConfigMethod": "Automatic"
      },
      "Proxies": {
      "ExceptionsList": ["*.local", "169.254/16"],
      "FTPPassive": "yes"
      },
      "spnetwork_service_order": 0,
      "type": "Ethernet"
    },
    {
      "_name": "Ethernet Adapter (en5)",
      "Ethernet": {
      "MAC Address": "11:22:33:44:55:66",
      "MediaOptions": [],
      "MediaSubType": "none"
      },
      "hardware": "Ethernet",
      "interface": "en5",
      "IPv4": {
      "ConfigMethod": "DHCP"
      },
      "IPv6": {
      "ConfigMethod": "Automatic"
      },
      "Proxies": {
      "ExceptionsList": ["*.local", "169.254/16"],
      "FTPPassive": "yes"
      },
      "spnetwork_service_order": 1,
      "type": "Ethernet"
    },
    {
      "_name": "Ethernet Adapter (en6)",
      "Ethernet": {
      "MAC Address": "77:88:99:aa:bb:cc",
      "MediaOptions": [],
      "MediaSubType": "none"
      },
      "hardware": "Ethernet",
      "interface": "en6",
      "IPv4": {
      "ConfigMethod": "DHCP"
      },
      "IPv6": {
      "ConfigMethod": "Automatic"
      },
      "Proxies": {
      "ExceptionsList": ["*.local", "169.254/16"],
      "FTPPassive": "yes"
      },
      "spnetwork_service_order": 2,
      "type": "Ethernet"
    },
    {
      "_name": "Ethernet Adapter (en7)",
      "Ethernet": {
      "MAC Address": "dd:ee:ff:00:11:22",
      "MediaOptions": [],
      "MediaSubType": "none"
      },
      "hardware": "Ethernet",
      "interface": "en7",
      "IPv4": {
      "ConfigMethod": "DHCP"
      },
      "IPv6": {
      "ConfigMethod": "Automatic"
      },
      "Proxies": {
      "ExceptionsList": ["*.local", "169.254/16"],
      "FTPPassive": "yes"
      },
      "spnetwork_service_order": 3,
      "type": "Ethernet"
    },
    {
      "_name": "Thunderbolt Bridge",
      "Ethernet": {
      "MediaOptions": [],
      "MediaSubType": "autoselect"
      },
      "hardware": "Ethernet",
      "interface": "bridge0",
      "ip_address": ["169.254.100.50"],
      "IPv4": {
      "AdditionalRoutes": [
        {
        "DestinationAddress": "169.254.100.50",
        "SubnetMask": "255.255.255.255"
        }
      ],
      "Addresses": ["169.254.100.50"],
      "ConfigMethod": "DHCP",
      "ConfirmedInterfaceName": "bridge0",
      "InterfaceName": "bridge0",
      "SubnetMasks": ["255.255.0.0"]
      },
      "IPv6": {
      "ConfigMethod": "Automatic"
      },
      "Proxies": {
      "ExceptionsList": ["*.local", "169.254/16"],
      "FTPPassive": "yes"
      },
      "spnetwork_service_order": 4,
      "type": "Ethernet"
    },
    {
      "_name": "Wi-Fi",
      "dhcp": {
      "dhcp_domain_name_servers": "192.168.1.1",
      "dhcp_lease_duration": 0,
      "dhcp_message_type": "0x05",
      "dhcp_routers": "192.168.1.1",
      "dhcp_server_identifier": "192.168.1.1",
      "dhcp_subnet_mask": "255.255.255.0"
      },
      "DNS": {
      "ServerAddresses": ["192.168.1.1"]
      },
      "Ethernet": {
      "MAC Address": "33:44:55:66:77:88",
      "MediaOptions": [],
      "MediaSubType": "autoselect"
      },
      "hardware": "AirPort",
      "interface": "en1",
      "ip_address": ["192.168.1.100"],
      "IPv4": {
      "AdditionalRoutes": [
        {
        "DestinationAddress": "192.168.1.100",
        "SubnetMask": "255.255.255.255"
        },
        {
        "DestinationAddress": "169.254.0.0",
        "SubnetMask": "255.255.0.0"
        }
      ],
      "Addresses": ["192.168.1.100"],
      "ARPResolvedHardwareAddress": "aa:bb:cc:dd:ee:ff",
      "ARPResolvedIPAddress": "192.168.1.1",
      "ConfigMethod": "DHCP",
      "ConfirmedInterfaceName": "en1",
      "InterfaceName": "en1",
      "NetworkSignature": "IPv4.Router=192.168.1.1;IPv4.RouterHardwareAddress=aa:bb:cc:dd:ee:ff",
      "Router": "192.168.1.1",
      "SubnetMasks": ["255.255.255.0"]
      },
      "IPv6": {
      "Addresses": ["2001:db8::1234:5678:9abc:def0"],
      "ConfigMethod": "Automatic",
      "ConfirmedInterfaceName": "en1",
      "InterfaceName": "en1",
      "PrefixLength": [64]
      },
      "Proxies": {
      "ExceptionsList": ["*.local", "169.254/16"],
      "FTPPassive": "yes"
      },
      "spnetwork_service_order": 5,
      "type": "AirPort"
    }
    ]
  }
  "#;

    let tb_info = ThunderboltData::new_from_slice(sample_json.as_bytes()).unwrap();
    println!("{:#?}", tb_info);

    assert_eq!(tb_info.ip_addrs, vec!["169.254.100.50".to_string()]);
    assert_eq!(tb_info.instances.len(), 3);

    let (port, devices) = &tb_info.instances[0];
    assert_eq!(port.name, "thunderboltusb4_bus_2");
    assert_eq!(port.uuid, "87654321-4321-8765-1234-567890123456");
    assert_eq!(port.device, "Host Device");
    assert_eq!(devices.len(), 1);
    assert_eq!(devices[0].name, "Device 1");
    assert_eq!(devices[0].uuid, "12345678-1234-5678-9876-543210987654");
    assert_eq!(devices[0].device, "Device15,12");

    let (port, devices) = &tb_info.instances[1];
    assert_eq!(port.name, "thunderboltusb4_bus_1");
    assert_eq!(devices.len(), 1);
    assert_eq!(devices[0].device, "Device18,2");

    // the audio device has no domain UUID, so it is left out
    let (port, devices) = &tb_info.instances[2];
    assert_eq!(port.name, "thunderboltusb4_bus_0");
    assert_eq!(port.uuid, "ABCDEF01-2345-6789-ABCD-EF0123456789");
    assert!(devices.is_empty());
}

#[test]
fn invalid_json_gives_none() {
    assert!(ThunderboltData::new_from_slice(b"{not json").is_none());
    assert!(ThunderboltData::new_from_slice(b"").is_none());
    let data = ThunderboltData::new_from_slice(br#"{"SPNetworkDataType": [{"_name": "Thunderbolt Bridge", "ip_address": ["1.2.3.4"]}]}"#).unwrap();
    assert_eq!(data.ip_addrs, vec!["1.2.3.4".to_string()]);
}

#[test]
fn instance_needs_all_three_strings() {
    let full = parse(r#"{"domain_uuid_key": "u", "_name": "n", "device_name_key": "d"}"#);
    let x = ThunderboltInstance::from_value(&full).unwrap();
    assert_eq!((x.uuid.as_str(), x.name.as_str(), x.device.as_str()), ("u", "n", "d"));
    let missing = parse(r#"{"domain_uuid_key": "u", "_name": "n"}"#);
    assert!(ThunderboltInstance::from_value(&missing).is_none());
    let wrong_type = parse(r#"{"domain_uuid_key": "u", "_name": 3, "device_name_key": "d"}"#);
    assert!(ThunderboltInstance::from_value(&wrong_type).is_none());
    assert!(ThunderboltInstance::from_value(&parse("[1, 2]")).is_none());
}

#[test]
fn empty_profile_gives_empty_data() {
    let data = ThunderboltData::from_json(&parse("{}"));
    assert!(data.ip_addrs.is_empty());
    assert!(data.instances.is_empty());
    let data = ThunderboltData::from_json(&parse("null"));
    assert!(data.ip_addrs.is_empty());
}

#[test]
fn bridge_addresses_need_a_list_of_strings() {
    let data = ThunderboltData::from_json(&parse(
        r#"{"SPNetworkDataType": [{"_name": "Wi-Fi", "ip_address": ["1.2.3.4"]},
            {"_name": "Thunderbolt Bridge", "ip_address": ["169.254.0.1", 5]},
            {"_name": "Thunderbolt Bridge", "ip_address": ["169.254.0.2"]}]}"#,
    ));
    // only the first bridge counts, and its list holds a number
    assert!(data.ip_addrs.is_empty());
    let data = ThunderboltData::from_json(&parse(
        r#"{"SPNetworkDataType": [{"_name": 1}, {"_name": "Thunderbolt Bridge", "ip_address": ["a", "b"]}]}"#,
    ));
    assert_eq!(data.ip_addrs, vec!["a".to_string(), "b".to_string()]);
}

#[test]
fn clone_keeps_the_data() {
    let data = ThunderboltData::from_json(&parse(
        r#"{"SPThunderboltDataType": [{"domain_uuid_key": "u", "_name": "n", "device_name_key": "d",
            "_items": [{"domain_uuid_key": "u2", "_name": "n2", "device_name_key": "d2"}]}]}"#,
    ));
    let copy = data.clone();
    assert_eq!(copy.instances.len(), 1);
    assert_eq!(copy.instances[0].1[0].uuid, "u2");
    assert_eq!(format!("{:?}", copy), format!("{:?}", data));
}
