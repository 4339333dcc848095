use starla::command::parse_command;
use starla::telnet::{tokenize_cronline, TelnetCommand};

#[test]
fn test_parse_ping_command() {
    let json = r#"{"type":"ping","msm_id":1001,"target":"8.8.8.8","af":4,"packets":3}"#;
    let cmd = parse_command(json);
    match cmd {
        TelnetCommand::Ping(spec) => {
            assert_eq!(spec.msm_id, 1001);
            assert_eq!(spec.target, "8.8.8.8");
            assert_eq!(spec.packets, 3);
            assert_eq!(spec.schedule.interval, 0); // default one-shot
        }
        _ => panic!("Expected Ping command"),
    }
}

#[test]
fn test_parse_recurring_ping_command() {
    let json = r#"{"type":"ping","msm_id":1001,"target":"8.8.8.8","af":4,"packets":3,"interval":300,"start_time":1700000000,"stop_time":1700086400}"#;
    let cmd = parse_command(json);
    match cmd {
        TelnetCommand::Ping(spec) => {
            assert_eq!(spec.msm_id, 1001);
            assert_eq!(spec.schedule.interval, 300);
            assert_eq!(spec.schedule.start_time, 1700000000);
            assert_eq!(spec.schedule.stop_time, 1700086400);
        }
        _ => panic!("Expected Ping command"),
    }
}

#[test]
fn test_parse_dns_command() {
    let json = r#"{"type":"dns","msm_id":1002,"target":"9.9.9.9","query_argument":"example.com","query_type":"A"}"#;
    let cmd = parse_command(json);
    match cmd {
        TelnetCommand::Dns(spec) => {
            assert_eq!(spec.msm_id, 1002);
            assert_eq!(spec.target, "9.9.9.9");
            assert_eq!(spec.query_argument, "example.com");
        }
        _ => panic!("Expected Dns command"),
    }
}

#[test]
fn test_parse_status_command() {
    let cmd = parse_command("STATUS");
    assert!(matches!(cmd, TelnetCommand::Status));
}

#[test]
fn test_parse_stop_command() {
    let cmd = parse_command("STOP 12345");
    match cmd {
        TelnetCommand::Stop(id) => assert_eq!(id, 12345),
        _ => panic!("Expected Stop command"),
    }
}

// CRONLINE tests

#[test]
fn test_tokenize_cronline() {
    let tokens = tokenize_cronline(
        r#"CRONLINE 240 274 1770761451 UNIFORM 3 evping -4 -c 3 -A "1001" -O /home/atlas/data/new/7 193.0.14.129"#,
    );
    assert_eq!(tokens[0], "CRONLINE");
    assert_eq!(tokens[1], "240");
    assert_eq!(tokens[6], "evping");
    assert_eq!(tokens[11], "1001"); // Quoted string without quotes
    assert_eq!(tokens[tokens.len() - 1], "193.0.14.129");
}

#[test]
fn test_parse_cronline_evping() {
    let cmd = parse_command(
        r#"CRONLINE 240 274 1770761451 UNIFORM 3 evping -4 -c 3 -A "1001" -O /home/atlas/data/new/7 193.0.14.129"#,
    );
    match cmd {
        TelnetCommand::Ping(spec) => {
            assert_eq!(spec.msm_id, 1001);
            assert_eq!(spec.target, "193.0.14.129");
            assert_eq!(spec.af, 4);
            assert_eq!(spec.packets, 3);
            assert_eq!(spec.schedule.interval, 240);
            assert_eq!(spec.schedule.stop_time, 1770761451);
            assert_eq!(spec.spread, Some(3));
        }
        _ => panic!("Expected Ping command, got {:?}", cmd),
    }
}

#[test]
fn test_parse_cronline_evping_ipv6() {
    let cmd = parse_command(
        r#"CRONLINE 900 123 1800000000 UNIFORM 5 evping -6 -c 5 -s 128 -A "2001" 2001:4860:4860::8888"#,
    );
    match cmd {
        TelnetCommand::Ping(spec) => {
            assert_eq!(spec.msm_id, 2001);
            assert_eq!(spec.target, "2001:4860:4860::8888");
            assert_eq!(spec.af, 6);
            assert_eq!(spec.packets, 5);
            assert_eq!(spec.size, 128);
            assert_eq!(spec.schedule.interval, 900);
        }
        _ => panic!("Expected Ping command"),
    }
}

#[test]
fn test_parse_cronline_evtraceroute_udp() {
    let cmd = parse_command(
        r#"CRONLINE 1800 331 1925935851 UNIFORM 3 evtraceroute -4 -U -c 3 -w 1000 -A "5001" -O /home/atlas/data/new/7 193.0.14.129"#,
    );
    match cmd {
        TelnetCommand::Traceroute(spec) => {
            assert_eq!(spec.msm_id, 5001);
            assert_eq!(spec.target, "193.0.14.129");
            assert_eq!(spec.af, 4);
            assert_eq!(spec.protocol, "UDP");
            assert_eq!(spec.schedule.interval, 1800);
        }
        _ => panic!("Expected Traceroute command, got {:?}", cmd),
    }
}

#[test]
fn test_parse_cronline_evtraceroute_icmp() {
    let cmd = parse_command(
        r#"CRONLINE 3600 0 0 UNIFORM 10 evtraceroute -4 -I -m 64 -f 1 -A "5002" 8.8.8.8"#,
    );
    match cmd {
        TelnetCommand::Traceroute(spec) => {
            assert_eq!(spec.msm_id, 5002);
            assert_eq!(spec.target, "8.8.8.8");
            assert_eq!(spec.protocol, "ICMP");
            assert_eq!(spec.first_hop, 1);
            assert_eq!(spec.max_hops, 64);
        }
        _ => panic!("Expected Traceroute command"),
    }
}

#[test]
fn test_parse_cronline_evtdig() {
    // Test with --aaaa (Atlas format for AAAA query)
    let cmd = parse_command(
        r#"CRONLINE 900 0 0 UNIFORM 5 evtdig -4 --aaaa example.com. -A "6001" @9.9.9.9"#,
    );
    match cmd {
        TelnetCommand::Dns(spec) => {
            assert_eq!(spec.msm_id, 6001);
            assert_eq!(spec.target, "9.9.9.9");
            assert_eq!(spec.query_argument, "example.com"); // trailing dot stripped
            assert_eq!(spec.query_type, "AAAA");
            assert_eq!(spec.af, 4);
        }
        _ => panic!("Expected Dns command, got {:?}", cmd),
    }
}

#[test]
fn test_parse_cronline_evtdig_dnssec() {
    // Test with -d for DNSSEC and --a for A record query
    let cmd = parse_command(
        r#"CRONLINE 1800 0 0 UNIFORM 3 evtdig -4 -d --a dnssec-test.org. -A "6002" @8.8.8.8"#,
    );
    match cmd {
        TelnetCommand::Dns(spec) => {
            assert_eq!(spec.msm_id, 6002);
            assert!(spec.use_dnssec);
            assert_eq!(spec.query_argument, "dnssec-test.org");
        }
        _ => panic!("Expected Dns command"),
    }
}

#[test]
fn test_parse_cronline_evtdig_soa() {
    // Test real Atlas SOA query format
    let cmd = parse_command(
        r#"CRONLINE 1800 795 1770762780 UNIFORM 3 evtdig -4 --soa . -A "10001" -O /home/atlas/data/new/7 193.0.14.129"#,
    );
    match cmd {
        TelnetCommand::Dns(spec) => {
            assert_eq!(spec.msm_id, 10001);
            assert_eq!(spec.target, "193.0.14.129");
            assert_eq!(spec.query_argument, ".");
            assert_eq!(spec.query_type, "SOA");
            assert_eq!(spec.af, 4);
            assert_eq!(spec.protocol, "UDP");
        }
        _ => panic!("Expected Dns command, got {:?}", cmd),
    }
}

#[test]
fn test_parse_cronline_evtdig_tcp_soa() {
    // Test TCP SOA query (with -t for TCP)
    let cmd = parse_command(
        r#"CRONLINE 1800 1945 1770762780 UNIFORM 3 evtdig -4 -t --soa . -A "10101" -O /home/atlas/data/new/7 193.0.14.129"#,
    );
    match cmd {
        TelnetCommand::Dns(spec) => {
            assert_eq!(spec.msm_id, 10101);
            assert_eq!(spec.target, "193.0.14.129");
            assert_eq!(spec.query_type, "SOA");
            assert_eq!(spec.protocol, "TCP");
        }
        _ => panic!("Expected Dns command, got {:?}", cmd),
    }
}

#[test]
fn test_parse_cronline_evtdig_hostname() {
    // Test -h for hostname.bind query
    let cmd = parse_command(
        r#"CRONLINE 240 659 1770762780 UNIFORM 3 evtdig -4 -h -A "10301" -O /home/atlas/data/new/7 193.0.14.129"#,
    );
    match cmd {
        TelnetCommand::Dns(spec) => {
            assert_eq!(spec.msm_id, 10301);
            assert_eq!(spec.target, "193.0.14.129");
            assert_eq!(spec.query_argument, "hostname.bind");
            assert_eq!(spec.query_type, "TXT");
            assert_eq!(spec.query_class, "CH");
        }
        _ => panic!("Expected Dns command, got {:?}", cmd),
    }
}

#[test]
fn test_parse_cronline_evhttpget() {
    let cmd = parse_command(
        r#"CRONLINE 3600 0 0 UNIFORM 60 evhttpget -4 -A "7001" http://example.com/path"#,
    );
    match cmd {
        TelnetCommand::Http(spec) => {
            assert_eq!(spec.msm_id, 7001);
            assert_eq!(spec.url, "http://example.com/path");
            assert_eq!(spec.method, "GET");
            assert_eq!(spec.af, 4);
        }
        _ => panic!("Expected Http command, got {:?}", cmd),
    }
}

#[test]
fn test_parse_cronline_evsslgetcert() {
    let cmd = parse_command(
        r#"CRONLINE 1800 0 0 UNIFORM 10 evsslgetcert -4 -p 443 -A "8001" example.com"#,
    );
    match cmd {
        TelnetCommand::Tls(spec) => {
            assert_eq!(spec.msm_id, 8001);
            assert_eq!(spec.target, "example.com");
            assert_eq!(spec.port, 443);
            assert_eq!(spec.af, 4);
        }
        _ => panic!("Expected Tls command, got {:?}", cmd),
    }
}

#[test]
fn test_parse_cronline_evsslgetcert_custom_port() {
    let cmd = parse_command(
        r#"CRONLINE 900 0 0 UNIFORM 5 evsslgetcert -6 -p 8443 -A "8002" secure.example.com"#,
    );
    match cmd {
        TelnetCommand::Tls(spec) => {
            assert_eq!(spec.msm_id, 8002);
            assert_eq!(spec.target, "secure.example.com");
            assert_eq!(spec.port, 8443);
            assert_eq!(spec.af, 6);
        }
        _ => panic!("Expected Tls command"),
    }
}

#[test]
fn test_parse_cronline_evntp() {
    let cmd =
        parse_command(r#"CRONLINE 1800 0 0 UNIFORM 3 evntp -4 -c 5 -A "9001" pool.ntp.org"#);
    match cmd {
        TelnetCommand::Ntp(spec) => {
            assert_eq!(spec.msm_id, 9001);
            assert_eq!(spec.target, "pool.ntp.org");
            assert_eq!(spec.packets, 5);
            assert_eq!(spec.af, 4);
        }
        _ => panic!("Expected Ntp command, got {:?}", cmd),
    }
}

#[test]
fn evtdig_resolv_asks_the_system_resolver() {
    let args: Vec<String> = ["-6", "--resolv", "--type", "28", "--class", "3", "example.org."]
        .iter()
        .map(|s| s.to_string())
        .collect();
    match starla::telnet::parse_evtdig(&args, 60, 0, 1) {
        TelnetCommand::Dns(spec) => {
            assert!(spec.system_resolver);
            assert_eq!(spec.target, "");
            assert_eq!(spec.af, 6);
            assert_eq!(spec.query_type, "AAAA");
            assert_eq!(spec.query_class, "CH");
            assert_eq!(spec.query_argument, "example.org");
            assert_eq!(spec.spread, Some(1));
            assert_eq!(spec.schedule.interval, 60);
        }
        other => panic!("Expected Dns command, got {:?}", other),
    }
    let named: Vec<String> = ["--resolv", "@9.9.9.9", "example.org"].iter().map(|s| s.to_string()).collect();
    match starla::telnet::parse_evtdig(&named, 60, 0, 1) {
        TelnetCommand::Dns(spec) => {
            assert!(!spec.system_resolver);
            assert_eq!(spec.target, "9.9.9.9");
        }
        other => panic!("Expected Dns command, got {:?}", other),
    }
}

#[test]
fn system_nameserver_reads_resolv_conf() {
    let conf = "# generated\nsearch example.org\nnameserver 2001:db8::53\nnameserver 192.0.2.53\nnameserver 198.51.100.1\n";
    assert_eq!(starla::resolver::system_nameserver(conf, 4), Some("192.0.2.53".to_string()));
    assert_eq!(starla::resolver::system_nameserver(conf, 6), Some("2001:db8::53".to_string()));
    assert_eq!(starla::resolver::system_nameserver("#nameserver 192.0.2.1\n", 4), None);
}
