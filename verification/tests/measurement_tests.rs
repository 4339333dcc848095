use starla::dns::{
    expand_query_name, expand_query_templates, format_dns_result, format_dns_timeout,
    parse_response, AnswerRecord, DnsError, DnsProtocol,
};
use starla::icmp::{
    build_icmpv4_echo_request, build_icmpv6_echo_request, parse_icmpv4_echo_reply,
    parse_icmpv4_packet, parse_icmpv6_echo_reply, parse_icmpv6_packet, IcmpBuildError,
    IcmpResponse, IcmpStatus,
};
use starla::ntp::{
    leap_text, mode_text, ntp_fraction, ntp_request, ntp_seconds, parse_ntp_header,
    reference_id_text,
};
use starla::tls::{der_to_pem, format_cipher_suite, tls_version_name};
use starla::traceroute::{
    format_traceroute_hops, traceroute_body, ProbeResult, TracerouteBackend, TracerouteHop,
    TracerouteProtocol, TracerouteReport,
};
use starla::http::{default_port, header_lines, header_size, readbuf};
use starla::types::{Error, MeasurementType};

#[test]
fn dns_header_fields() {
    let raw = [0x12, 0x34, 0x81, 0x80, 0, 1, 0, 2, 0, 3, 0, 4, 9, 9];
    assert_eq!(parse_response(&raw), Ok((0x1234, 1, 2, 3, 4)));
    assert_eq!(parse_response(&raw[..11]), Err(DnsError::TooShort(11)));
    assert_eq!(DnsError::TooShort(5).message(), "DNS response too short: 5 bytes");
    assert_eq!(DnsProtocol::TCP.as_str(), "TCP");
}

#[test]
fn query_templates() {
    let randoms = vec!["abcd1234".to_string(), "zzzz0000".to_string(), "q".to_string()];
    assert_eq!(
        expand_query_name("$r-$p.$t.example", 1014036, 1700000000, &randoms),
        "abcd1234-1014036.1700000000.example"
    );
    assert_eq!(expand_query_name("x$r.$r$r", 7, 0, &randoms), "xabcd1234.zzzz0000zzzz0000");
    assert_eq!(expand_query_name("$$p", 7, 0, &randoms), "$7");
    assert_eq!(expand_query_templates(".", 5), ".");
    assert_eq!(expand_query_templates("example.com", 5), "example.com");
    let e = expand_query_templates("$r.$p.example", 42);
    let labels: Vec<&str> = e.split('.').collect();
    assert_eq!(labels.len(), 3);
    assert_eq!(labels[0].len(), 8);
    assert!(labels[0].chars().all(|c| c.is_ascii_lowercase() || c.is_ascii_digit()));
    assert_eq!(labels[1], "42");
}

#[test]
fn dns_result_text() {
    let answers = vec![AnswerRecord {
        record_type: "A".into(),
        name: "example.com.".into(),
        rdata: vec!["93.184.216.34".into()],
    }];
    assert_eq!(
        format_dns_result("12.345", 45, "AAEC", (1, 1, 1, 0, 0), Some(&answers)),
        "{ \"rt\":12.345,\"size\":45, \"abuf\":\"AAEC\",\"ID\":1, \"ANCOUNT\":1, \"QDCOUNT\":1, \"NSCOUNT\":0, \"ARCOUNT\":0,\"answers\":[ {\"TYPE\":\"A\", \"NAME\":\"example.com.\", \"RDATA\":[ \"93.184.216.34\" ]} ] }"
    );
    assert_eq!(
        format_dns_result("1.000", 12, "", (7, 1, 0, 0, 0), None),
        "{ \"rt\":1.000,\"size\":12, \"abuf\":\"\",\"ID\":7, \"ANCOUNT\":0, \"QDCOUNT\":1, \"NSCOUNT\":0, \"ARCOUNT\":0 }"
    );
    assert_eq!(format_dns_timeout(5000), "{ \"error\":{\"timeout\":5000} }");
}

#[test]
fn test_icmpv4_build_parse() {
    let mut buffer = vec![0u8; 64];
    let payload = b"hello";
    let size = build_icmpv4_echo_request(&mut buffer, 1234, 1, payload).unwrap();
    assert_eq!(size, 64);
    assert_eq!(buffer[0], 8);
    let sum = pnet::packet::icmp::checksum(&pnet::packet::icmp::IcmpPacket::new(&buffer).unwrap());
    assert_eq!(u16::from_be_bytes([buffer[2], buffer[3]]), sum);
    assert_ne!(sum, 0);

    // Simulate Echo Reply
    buffer[0] = 0;
    let parsed = parse_icmpv4_packet(&buffer[..size]);
    assert_eq!(parsed, Some(IcmpResponse::EchoReply { identifier: 1234, sequence: 1 }));
    assert_eq!(parse_icmpv4_echo_reply(&buffer), Some((1234, 1)));
}

#[test]
fn test_icmp_error_parsing() {
    let mut buffer = [0u8; 64];
    buffer[0] = 11;
    let parsed = parse_icmpv4_packet(&buffer[..8]);
    assert!(matches!(parsed, Some(IcmpResponse::TimeExceeded(_))));
    buffer[0] = 3;
    let parsed = parse_icmpv4_packet(&buffer[..8]);
    assert!(matches!(parsed, Some(IcmpResponse::DestinationUnreachable(_))));
}

#[test]
fn icmp_lengths_and_v6() {
    assert_eq!(parse_icmpv4_packet(&[0, 0, 0]), None);
    assert_eq!(parse_icmpv4_packet(&[0, 0, 0, 0, 0]), None);
    assert_eq!(parse_icmpv4_packet(&[5, 0, 0, 0]), Some(IcmpResponse::Other));
    assert_eq!(parse_icmpv4_packet(&[11, 0, 0, 0, 0, 0, 0, 0, 7, 8]), Some(IcmpResponse::TimeExceeded(vec![7, 8])));
    let mut b6 = vec![0u8; 16];
    assert_eq!(build_icmpv6_echo_request(&mut b6, 0xabcd, 0x0102, b"hi"), Ok(16));
    assert_eq!(&b6[..10], &[128, 0, 0, 0, 0xab, 0xcd, 1, 2, b'h', b'i']);
    b6[0] = 129;
    assert_eq!(parse_icmpv6_echo_reply(&b6), Some((0xabcd, 0x0102)));
    assert_eq!(parse_icmpv6_packet(&[1, 0, 0, 0, 0, 0, 0, 0]), Some(IcmpResponse::DestinationUnreachable(vec![])));
    assert_eq!(parse_icmpv6_packet(&[3, 0, 0, 0, 0, 0, 0]), None);
    let mut small = vec![0u8; 7];
    assert_eq!(build_icmpv4_echo_request(&mut small, 1, 1, b""), Err(IcmpBuildError::BufferTooSmall));
    assert_eq!(IcmpStatus::from(0u32), IcmpStatus::Success);
    assert_eq!(IcmpStatus::from(11013u32), IcmpStatus::TtlExpired);
    assert_eq!(IcmpStatus::from(11004u32), IcmpStatus::DestUnreachable);
    assert_eq!(IcmpStatus::from(11010u32), IcmpStatus::TimedOut);
    assert_eq!(IcmpStatus::from(42u32), IcmpStatus::Other(42));
}

#[test]
fn traceroute_text() {
    let hops = vec![
        TracerouteHop {
            hop: 1,
            result: vec![
                ProbeResult { from: Some("192.0.2.1".into()), rtt: Some("1.234".into()), ttl: Some(64), size: Some(28), icmptype: Some(11), x: None, err: None },
                ProbeResult { from: None, rtt: None, ttl: None, size: None, icmptype: None, x: Some("*".into()), err: None },
            ],
        },
        TracerouteHop { hop: 2, result: vec![ProbeResult { from: None, rtt: None, ttl: None, size: None, icmptype: None, x: None, err: Some("N".into()) }] },
    ];
    assert_eq!(
        format_traceroute_hops(&hops),
        "[ { \"hop\":1, \"result\": [ { \"from\":\"192.0.2.1\", \"ttl\":64, \"size\":28, \"rtt\":1.234 }, { \"x\":\"*\" } ] }, { \"hop\":2, \"result\": [ { \"error\":\"N\" } ] } ]"
    );
    assert_eq!(format_traceroute_hops(&vec![]), "[  ]");
    let rep = TracerouteReport {
        msm_id: 5001, firmware_version: 5120, start_time: 10, end_time: 12,
        dst: "8.8.8.8".into(), src: "10.0.0.2".into(), protocol: TracerouteProtocol::UDP,
        af: 4, size: 40, paris_id: 0,
    };
    assert_eq!(
        traceroute_body(&rep, &vec![]),
        "\"id\":\"5001\", \"fw\":5120, \"mver\": \"2.6.4\", \"lts\":0, \"time\":10, \"endtime\":12, \"dst_name\":\"8.8.8.8\", \"dst_addr\":\"8.8.8.8\", \"src_addr\":\"10.0.0.2\", \"proto\":\"UDP\", \"af\": 4, \"size\":40, \"paris_id\":0, \"result\": [  ]"
    );
    assert_eq!(TracerouteBackend::default(), TracerouteBackend::Native);
}

#[test]
fn ntp_fields() {
    let req = ntp_request(0x01020304, 0x0a0b0c0d);
    assert_eq!(req.len(), 48);
    assert_eq!(req[0], 0x23);
    assert!(req[1..40].iter().all(|&b| b == 0));
    assert_eq!(&req[40..], &[1, 2, 3, 4, 10, 11, 12, 13]);
    assert_eq!(ntp_seconds(0), 2_208_988_800);
    assert_eq!(ntp_seconds(1_700_000_000), ((1_700_000_000u64 + 2_208_988_800) % (1 << 32)) as u32);
    assert_eq!(ntp_fraction(500_000_000), 1 << 31);
    let mut answer = [0u8; 48];
    answer[0] = 0b01_100_100;
    answer[1] = 2;
    answer[2] = 6;
    answer[3] = 0xe9;
    answer[4..8].copy_from_slice(&[0, 1, 0x80, 0]);
    answer[12..16].copy_from_slice(&[0xc0, 0, 2, 1]);
    answer[16..24].copy_from_slice(&[0, 0, 0, 1, 0, 0, 0, 2]);
    let h = parse_ntp_header(&answer).unwrap();
    assert_eq!((h.leap, h.version, h.mode, h.stratum, h.poll, h.precision), (1, 4, 4, 2, 6, -23));
    assert_eq!(h.root_delay, 0x0001_8000);
    assert_eq!(h.ref_id, 0xc000_0201);
    assert_eq!(h.ref_ts, (1u64 << 32) + 2);
    assert_eq!(parse_ntp_header(&answer[..47]), None);
    assert_eq!(reference_id_text(2, 0xc0000201), "c0000201");
    assert_eq!(reference_id_text(1, u32::from_be_bytes(*b"GPS\0")), "GPS");
    assert_eq!(leap_text(0), "no");
    assert_eq!(leap_text(3), "unknown");
    assert_eq!(mode_text(4), "server");
    assert_eq!(mode_text(7), "unknown");
}

#[test]
fn tls_texts() {
    assert_eq!(format_cipher_suite(0xc030), "0xc030");
    assert_eq!(format_cipher_suite(0x1301), "0x1301");
    assert_eq!(format_cipher_suite(0x000a), "0x000a");
    assert_eq!(tls_version_name(0x0303), Some("1.2"));
    assert_eq!(tls_version_name(0x0304), Some("1.3"));
    assert_eq!(tls_version_name(0x0300), None);
    let der = vec![0x30u8; 60];
    let pem = der_to_pem(&der);
    let lines: Vec<&str> = pem.split('\n').collect();
    assert_eq!(lines[0], "-----BEGIN CERTIFICATE-----");
    assert_eq!(lines[1].len(), 64);
    assert_eq!(lines[2].len(), 16);
    assert_eq!(lines[3], "-----END CERTIFICATE-----");
    assert_eq!(der_to_pem(&[]), "-----BEGIN CERTIFICATE-----\n\n-----END CERTIFICATE-----");
}

#[test]
fn http_sizes_and_texts() {
    assert_eq!(default_port("https"), 443);
    assert_eq!(default_port("http"), 80);
    let h = vec![(b"content-type".to_vec(), b"text/html".to_vec()), (b"x".to_vec(), b"".to_vec())];
    assert_eq!(header_size(&h), 12 + 9 + 4 + 1 + 4);
    assert_eq!(readbuf(b""), None);
    assert_eq!(readbuf(b"hello").as_deref(), Some("hello"));
    assert_eq!(readbuf(&[b'a'; 600]).unwrap().len(), 512);
    assert_eq!(header_lines(&vec![]), None);
    assert_eq!(header_lines(&vec![("Accept".into(), "*/*".into())]), Some(vec!["Accept: */*".to_string()]));
}

#[test]
fn measurement_type_names_and_errors() {
    for t in [MeasurementType::Ping, MeasurementType::Traceroute, MeasurementType::Dns, MeasurementType::Http, MeasurementType::Tls, MeasurementType::Ntp] {
        assert_eq!(MeasurementType::from_name(t.as_str()), Some(t));
    }
    assert_eq!(MeasurementType::Ping.as_str(), "ping");
    assert_eq!(MeasurementType::from_name("sslcert"), None);
    assert_eq!(Error::Config("bad".into()).message(), "Configuration error: bad");
}

#[test]
fn echo_request_checksum_is_the_internet_checksum() {
    // type 8, code 0, id 0x0102, seq 0x0304, payload "ab": words 0x0800,
    // [checksum], 0x0102, 0x0304, 0x6162; sum 0x6d68; complement 0x9297.
    let mut buffer = vec![0u8; 10];
    build_icmpv4_echo_request(&mut buffer, 0x0102, 0x0304, b"ab").unwrap();
    assert_eq!(buffer, vec![8, 0, 0x92, 0x97, 0x01, 0x02, 0x03, 0x04, b'a', b'b']);
}
