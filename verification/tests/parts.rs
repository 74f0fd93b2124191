use movethebytes::address::{get_local_addr, socket_addr_text, AddressError, Interface, IpAddress};
use movethebytes::announcement::{announced_address, announced_cid, announcement};
use movethebytes::decimal::{parse_u64, to_decimal, NumberError};
use movethebytes::metrics::{metric_text, Metric};
use movethebytes::network::{
    network_settings, Filter, InstanceParams, RoutingPolicy, Setting, SettingError,
};
use movethebytes::plan::{listener_count, Plan, Role};
use movethebytes::protocol::Failure;
use movethebytes::tls::{
    certified_with, configure_server, configured_with, server_config_for, ServerConfigError,
    SkipServerVerification,
};

fn interface(name: &str, ip: IpAddress) -> Interface {
    Interface { name: name.to_string(), ip }
}

fn params(pairs: &[(&str, &str)]) -> InstanceParams {
    let mut params = InstanceParams::new();
    for (name, value) in pairs {
        params = params.with(name.to_string(), value.to_string());
    }
    params
}

#[test]
fn numbers_are_printed_in_decimal() {
    assert_eq!(to_decimal(0), "0");
    assert_eq!(to_decimal(7), "7");
    assert_eq!(to_decimal(10), "10");
    assert_eq!(to_decimal(31131), "31131");
    assert_eq!(to_decimal(u128::MAX), "340282366920938463463374607431768211455");
    for n in 0u128..2000 {
        assert_eq!(to_decimal(n), format!("{}", n));
    }
}

#[test]
fn numbers_are_read_as_the_standard_library_reads_them() {
    let texts = [
        "", "+", "-", "0", "00012", "+5", "++5", "-5", "5+", " 5", "5 ", "1_000", "0x10",
        "18446744073709551615", "18446744073709551616", "99999999999999999999", "1e3",
        "18446744073709551615x", "\u{663}", "+18446744073709551615", "12a", "100",
        "18446744073709551616x", "+99999999999999999999-", "x99999999999999999999", "+\u{663}",
        "00000000000000000000000000000000007", "0000000000000000000000000000000000x", "1+",
    ];
    for text in texts {
        let read = parse_u64(text).map_err(|error| error.message());
        let expected = text.parse::<u64>().map_err(|error| error.to_string());
        assert_eq!(read, expected, "{:?}", text);
    }
    assert_eq!(parse_u64("100"), Ok(100));
    assert_eq!(parse_u64(""), Err(NumberError::Empty));
    assert_eq!(parse_u64("+"), Err(NumberError::InvalidDigit));
    assert_eq!(parse_u64("18446744073709551615x"), Err(NumberError::InvalidDigit));
    assert_eq!(parse_u64("18446744073709551616x"), Err(NumberError::TooLarge));
}

#[test]
fn printed_numbers_read_back() {
    for n in [0u64, 1, 9, 10, 12345, u64::MAX] {
        assert_eq!(parse_u64(&to_decimal(n as u128)), Ok(n));
    }
}

#[test]
fn addresses_are_taken_from_the_data_interface() {
    let interfaces = vec![
        interface("lo", IpAddress::V4(127, 0, 0, 1)),
        interface("eth0", IpAddress::V4(192, 18, 0, 2)),
        interface("eth1", IpAddress::V4(16, 0, 1, 200)),
        interface("eth1", IpAddress::V6),
    ];
    assert_eq!(get_local_addr(&interfaces, 1234), Ok("16.0.1.200:1234".to_string()));
    assert_eq!(get_local_addr(&interfaces, 31131), Ok("16.0.1.200:31131".to_string()));
}

#[test]
fn without_a_data_interface_there_is_no_address() {
    let interfaces = vec![interface("eth0", IpAddress::V4(192, 18, 0, 2))];
    assert_eq!(get_local_addr(&interfaces, 4000), Err(AddressError::NoDataInterface));
    assert_eq!(get_local_addr(&Vec::new(), 4000), Err(AddressError::NoDataInterface));
}

#[test]
fn ipv6_on_the_data_interface_is_unsupported() {
    let interfaces = vec![
        interface("eth1", IpAddress::V6),
        interface("eth1", IpAddress::V4(16, 0, 0, 1)),
    ];
    assert_eq!(get_local_addr(&interfaces, 4000), Err(AddressError::Ipv6Unsupported));
}

#[test]
fn address_texts_tell_endpoints_apart() {
    let texts = [
        socket_addr_text(1, 11, 1, 1, 80),
        socket_addr_text(11, 1, 1, 1, 80),
        socket_addr_text(1, 1, 11, 1, 80),
        socket_addr_text(1, 1, 1, 11, 80),
        socket_addr_text(1, 1, 1, 1, 180),
    ];
    for (i, a) in texts.iter().enumerate() {
        for (j, b) in texts.iter().enumerate() {
            assert_eq!(a == b, i == j);
        }
    }
    assert_eq!(socket_addr_text(0, 0, 0, 0, 0), "0.0.0.0:0");
    assert_eq!(socket_addr_text(255, 255, 255, 255, 65535), "255.255.255.255:65535");
}

#[test]
fn plans_have_their_ports_topics_and_fixtures() {
    assert_eq!(Plan::Tcp.listening_port(), 1234);
    assert_eq!(Plan::Quic.listening_port(), 4000);
    assert_eq!(Plan::Krakensync.listening_port(), 31131);
    assert_eq!(Plan::KrakensyncShaped.listening_port(), 31131);
    assert_eq!(Plan::Tcp.topic(), "server");
    assert_eq!(Plan::Quic.topic(), "server");
    assert_eq!(Plan::Krakensync.topic(), "responders");
    assert_eq!(Plan::KrakensyncShaped.topic(), "responders");
    assert_eq!(Plan::Krakensync.fixture(), "../../../fixtures/10MiB.car");
    assert_eq!(Plan::KrakensyncShaped.fixture(), "/fixtures/10MiB.car");
    assert!(Plan::Krakensync.has_content() && Plan::KrakensyncShaped.has_content());
    assert!(!Plan::Tcp.has_content() && !Plan::Quic.has_content());
    assert_eq!(Plan::Quic.server_name(), Some("localhost".to_string()));
    for plan in [Plan::Tcp, Plan::Krakensync, Plan::KrakensyncShaped] {
        assert_eq!(plan.server_name(), None);
    }
}

#[test]
fn failures_say_what_is_wrong() {
    let failures = [
        (
            Failure::Setting(SettingError::Missing(Setting::Latency)),
            "error getting latency from testground",
            false,
        ),
        (
            Failure::Setting(SettingError::Missing(Setting::Bandwidth)),
            "error getting bandwith from testground",
            false,
        ),
        (
            Failure::Setting(SettingError::NotANumber(Setting::Latency, NumberError::Empty)),
            "cannot parse integer from empty string",
            false,
        ),
        (
            Failure::Setting(SettingError::NotANumber(
                Setting::Bandwidth,
                NumberError::InvalidDigit,
            )),
            "invalid digit found in string",
            false,
        ),
        (
            Failure::Setting(SettingError::NotANumber(Setting::Latency, NumberError::TooLarge)),
            "number too large to fit in target type",
            false,
        ),
        (
            Failure::Setting(SettingError::LatencyTooLong),
            "out of range integral type conversion attempted",
            false,
        ),
        (Failure::Address(AddressError::NoDataInterface), "no interface is called eth1", true),
        (Failure::Address(AddressError::Ipv6Unsupported), "eth1 has an IPv6 address", true),
        (Failure::Roots, "expected /fixtures/10MiB.car file to have one root cid", false),
        (Failure::Announcement, "an announcement is incomplete", true),
        (Failure::Cid, "an announced cid is invalid", false),
        (Failure::Step, "the last step failed", false),
        (Failure::OutOfTurn, "an event came out of turn", false),
    ];
    for (failure, message, panics) in failures {
        assert_eq!(failure.message(), message);
        assert_eq!(failure.panics(), panics, "{:?}", failure);
    }
    let too_long: Result<u64, std::num::TryFromIntError> = u128::MAX.try_into();
    assert_eq!(
        Failure::Setting(SettingError::LatencyTooLong).message(),
        too_long.unwrap_err().to_string()
    );
}

#[test]
fn sequence_numbers_fix_the_roles() {
    assert_eq!(Plan::Tcp.role(0), Role::Dialer);
    assert_eq!(Plan::Tcp.role(1), Role::Listener);
    for plan in [Plan::Quic, Plan::Krakensync, Plan::KrakensyncShaped] {
        assert_eq!(plan.role(1), Role::Dialer);
        assert_eq!(plan.role(2), Role::Listener);
        assert_eq!(plan.role(u64::MAX), Role::Dialer);
    }
}

#[test]
fn dialers_expect_as_many_listeners_as_there_are() {
    assert_eq!(listener_count(0), 0);
    assert_eq!(listener_count(1), 0);
    assert_eq!(listener_count(2), 1);
    assert_eq!(listener_count(7), 3);
    for plan in [Plan::Tcp, Plan::Quic, Plan::Krakensync, Plan::KrakensyncShaped] {
        for n in 1u64..20 {
            let listeners = (1..=n).filter(|seq| plan.role(*seq) == Role::Listener).count();
            let extra = if plan == Plan::Tcp && n % 2 == 1 { 1 } else { 0 };
            assert_eq!(listeners, listener_count(n) + extra);
            assert_ne!(plan.role(n), plan.role(n + 1));
        }
    }
}

#[test]
fn parameters_keep_the_last_value() {
    let params = params(&[("latency", "1"), ("bandwidth", "2"), ("latency", "3")]);
    assert_eq!(params.get(&"latency".to_string()), Some(&"3".to_string()));
    assert_eq!(params.get(&"bandwidth".to_string()), Some(&"2".to_string()));
    assert_eq!(params.get(&"jitter".to_string()), None);
}

#[test]
fn latency_is_counted_in_nanoseconds() {
    let params = params(&[("bandwidth", "1048576"), ("latency", "10"), ("other", "x")]);
    let settings = network_settings(&params, 2).ok().unwrap();
    assert!(settings.enable);
    assert_eq!(settings.latency, 10_000_000);
    assert_eq!(settings.jitter, 0);
    assert_eq!(settings.bandwidth, 1048576);
    assert_eq!(settings.callback_state, "network-configured");
    assert_eq!(settings.callback_target, 2);
    assert_eq!(settings.network, "default");
    assert_eq!(settings.network, testground::network_conf::DEFAULT_DATA_NETWORK);
    assert_eq!((settings.ipv4, settings.ipv6, settings.rules), (None, None, None));
    assert_eq!(settings.filter, Filter::Accept);
    assert_eq!(settings.routing_policy, RoutingPolicy::AllowAll);
}

#[test]
fn networks_are_shaped_by_both_settings_or_not_at_all() {
    let error = |pairs: &[(&str, &str)]| network_settings(&params(pairs), 2).err();
    assert_eq!(error(&[]), Some(SettingError::Missing(Setting::Latency)));
    assert_eq!(error(&[("bandwidth", "1")]), Some(SettingError::Missing(Setting::Latency)));
    assert_eq!(error(&[("latency", "1")]), Some(SettingError::Missing(Setting::Bandwidth)));
    assert_eq!(
        error(&[("latency", "1ms"), ("bandwidth", "1")]),
        Some(SettingError::NotANumber(Setting::Latency, NumberError::InvalidDigit))
    );
    assert_eq!(
        error(&[("latency", "")]),
        Some(SettingError::NotANumber(Setting::Latency, NumberError::Empty))
    );
    assert_eq!(
        error(&[("latency", "1"), ("bandwidth", "-1")]),
        Some(SettingError::NotANumber(Setting::Bandwidth, NumberError::InvalidDigit))
    );
    assert_eq!(
        error(&[("latency", "18446744073710"), ("bandwidth", "1")]),
        Some(SettingError::LatencyTooLong)
    );
    assert_eq!(
        error(&[("latency", "18446744073710"), ("bandwidth", "18446744073709551616")]),
        Some(SettingError::NotANumber(Setting::Bandwidth, NumberError::TooLarge))
    );
    assert_eq!(error(&[("latency", "18446744073709"), ("bandwidth", "1")]), None);
}

#[test]
fn announcements_read_back() {
    let value = announcement(3, "16.0.0.2:1234".to_string(), None);
    assert_eq!(announced_address(&value), Some("16.0.0.2:1234".to_string()));
    assert_eq!(announced_cid(&value), None);

    let value = announcement(4, "16.0.0.3:31131".to_string(), Some("bafy".to_string()));
    assert_eq!(announced_address(&value), Some("16.0.0.3:31131".to_string()));
    assert_eq!(announced_cid(&value), Some("bafy".to_string()));
}

#[test]
fn announcements_are_json_objects() {
    let value = announcement(u64::MAX, "16.0.0.2:1234".to_string(), None);
    assert_eq!(
        value.to_string(),
        "{\"Addrs\":[\"16.0.0.2:1234\"],\"ID\":18446744073709551615}"
    );
    let value = announcement(2, "a".to_string(), Some("c".to_string()));
    assert_eq!(value.to_string(), "{\"Addrs\":[\"a\"],\"Cid\":\"c\",\"ID\":2}");
    assert_eq!(value["ID"].as_u64(), Some(2));
}

#[test]
fn other_json_announces_nothing() {
    let texts = [
        "null", "1", "\"Addrs\"", "[]", "{}", "{\"Addrs\":[]}", "{\"Addrs\":\"a\"}",
        "{\"Addrs\":[1]}", "{\"Addrs\":{\"0\":\"a\"}}", "[{\"Addrs\":[\"a\"]}]",
    ];
    for text in texts {
        let value: serde_json::Value = text.parse().unwrap();
        assert_eq!(announced_address(&value), None, "{}", text);
        assert_eq!(announced_cid(&value), None, "{}", text);
    }
    let value: serde_json::Value = "{\"Addrs\":[\"a\",\"b\"],\"Cid\":7}".parse().unwrap();
    assert_eq!(announced_address(&value), Some("a".to_string()));
    assert_eq!(announced_cid(&value), None);
}

#[test]
fn measurements_are_written_as_name_and_value() {
    assert_eq!(
        metric_text(Metric::RequesterFetchDuration, 10),
        "REQUESTER_FETCH_DURATION=10"
    );
    assert_eq!(metric_text(Metric::RequesterTtfb, 0), "REQUESTER_TTFB=0");
    assert_eq!(metric_text(Metric::MessageReceived, 10), "MESSAGE_RECEIVED=10");
    assert_eq!(metric_text(Metric::MessageSent, 10), "MESSAGE_SENT=10");
}

#[test]
fn servers_make_their_own_certificates() {
    let (config, certificate) = configure_server().ok().unwrap();
    let (_, other) = configure_server().ok().unwrap();
    assert!(certificate.windows(9).any(|window| window == b"localhost"));
    assert_ne!(certificate, other);
    let debug = format!("{:?}", config);
    assert!(debug.contains("max_concurrent_uni_streams: 0"), "{}", debug);
}

#[test]
fn servers_are_configured_with_usable_keys_only() {
    let certificate = rcgen::generate_simple_self_signed(vec!["localhost".to_string()]).unwrap();
    let der = certificate.serialize_der().unwrap();
    let key = certificate.serialize_private_key_der();
    let (_, presented) = server_config_for(der.clone(), key).ok().unwrap();
    assert_eq!(presented, der);
    assert!(matches!(
        server_config_for(der, vec![1, 2, 3]),
        Err(ServerConfigError::Tls(_))
    ));
}

#[test]
fn what_is_made_of_a_certificate_is_handed_on() {
    let certificate = rcgen::generate_simple_self_signed(vec!["localhost".to_string()]).unwrap();
    let der = certificate.serialize_der().unwrap();
    let key = certificate.serialize_private_key_der();
    let made = quinn::ServerConfig::with_single_cert(
        vec![rustls::Certificate(der.clone())],
        rustls::PrivateKey(key.clone()),
    );
    assert!(format!("{:?}", made).contains("max_concurrent_uni_streams: 100"));
    let (config, presented) = configured_with(made, der.clone()).ok().unwrap();
    assert!(format!("{:?}", config).contains("max_concurrent_uni_streams: 0"));
    assert_eq!(presented, der);
    match configured_with(Err(rustls::Error::General("no".to_string())), der.clone()) {
        Err(ServerConfigError::Tls(error)) => {
            assert_eq!(error, rustls::Error::General("no".to_string()))
        }
        _ => panic!("configured without a configuration"),
    }

    let (config, presented) = certified_with(Ok(der.clone()), key.clone()).ok().unwrap();
    assert!(format!("{:?}", config).contains("max_concurrent_uni_streams: 0"));
    assert_eq!(presented, der);
    assert!(matches!(
        certified_with(Ok(der), Vec::new()),
        Err(ServerConfigError::Tls(_))
    ));
    assert!(matches!(
        certified_with(Err(rcgen::RcgenError::KeyGenerationUnavailable), key),
        Err(ServerConfigError::Certificate(rcgen::RcgenError::KeyGenerationUnavailable))
    ));
}

#[test]
fn every_certificate_is_taken_for_valid() {
    let verifier = SkipServerVerification::new();
    assert!(verifier.verify_server_cert(&[], &Vec::new(), &[]));
    assert!(verifier.verify_server_cert(&[1, 2], &vec![vec![3]], &[4]));
}
