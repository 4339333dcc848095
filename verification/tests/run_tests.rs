use starla::cleanup::{CleanupCycle, CleanupStats, CleanupStep, SizeCleanup};
use starla::icmp::IcmpResponse;
use starla::ntp::{ntp_body, parse_ntp_header, sample_timestamps, NtpNext, NtpReport, NtpRun};
use starla::ping::{
    echo_sizes, ping_stats, replies_from_rtts, reply_matches, results_json,
    scamper_total_timeout_ms, PingReplyOrTimeout, PingRun, PingStats,
};
use starla::probe::{
    assigned_probe_id, controller_address, controller_step, dispatch, endpoint_path, job_names,
    uptime_secs, Backoff, ControllerStep, Dispatch, JobTiming, Registration, RegistrationStep,
    KEY_NOT_APPROVED,
};
use starla::queries::{expired_count, key_less, listing, measurement_stats, tally};
use starla::ssh::{ControllerInfo, InitError, InitResponse};
use starla::store::{measurement_key, CleanupConfig, StoredMeasurement};
use starla::telnet::{PingSpec, ScheduleSpec, TelnetCommand};
use starla::tls::{cert_list, tls_body, TlsReport};
use starla::traceroute::{
    classify_error, classify_response, probe_result, probe_sequence, traceroute_method,
    udp_probe_port, ProbeOutcome, TracerouteBackend, TracerouteMethod, TracerouteProtocol,
    TracerouteRun,
};
use starla::tray::{active_pause, Instant, PauseState};
use starla::tunnel::{ChannelHealth, ExecMessage, ExecOutput, OpenOutcome, Relay, RelayAction, RelayEvent};

// ---------------------------------------------------------------- ping

#[test]
fn ping_reply_objects() {
    assert_eq!(PingReplyOrTimeout::Reply { rtt_ns: 1_672_125 }.to_json(), "{\"rtt\":1.672125}");
    assert_eq!(
        PingReplyOrTimeout::Reply { rtt_ns: 12_000_000_500 }.to_json(),
        "{\"rtt\":12000.000500}"
    );
    assert_eq!(PingReplyOrTimeout::Reply { rtt_ns: 7 }.to_json(), "{\"rtt\":0.000007}");
    assert_eq!(PingReplyOrTimeout::Timeout.to_json(), "{\"x\":\"*\"}");
    let rs = vec![PingReplyOrTimeout::Reply { rtt_ns: 1_000_000 }, PingReplyOrTimeout::Timeout];
    assert_eq!(results_json(&rs), "[{\"rtt\":1.000000},{\"x\":\"*\"}]");
    assert_eq!(results_json(&vec![]), "[]");
}

#[test]
fn ping_statistics() {
    let rs = vec![
        PingReplyOrTimeout::Reply { rtt_ns: 3_000_000 },
        PingReplyOrTimeout::Timeout,
        PingReplyOrTimeout::Reply { rtt_ns: 1_000_000 },
    ];
    assert_eq!(
        ping_stats(&rs),
        PingStats { sent: 3, rcvd: 2, min_ns: Some(1_000_000), max_ns: Some(3_000_000), sum_ns: 4_000_000 }
    );
    let none = vec![PingReplyOrTimeout::Timeout, PingReplyOrTimeout::Timeout];
    assert_eq!(
        ping_stats(&none),
        PingStats { sent: 2, rcvd: 0, min_ns: None, max_ns: None, sum_ns: 0 }
    );
}

#[test]
fn ping_requests_and_matching() {
    assert_eq!(echo_sizes(4), (64, 56));
    assert_eq!(echo_sizes(8), (8, 0));
    assert_eq!(echo_sizes(100), (100, 92));
    assert!(reply_matches(Some((5, 2)), false, 5, 2));
    assert!(!reply_matches(Some((6, 2)), false, 5, 2));
    assert!(reply_matches(Some((6, 2)), true, 5, 2));
    assert!(!reply_matches(Some((5, 3)), true, 5, 2));
    assert!(!reply_matches(None, true, 5, 2));
}

#[test]
fn ping_run_sends_count_requests() {
    let mut run = PingRun::new(3);
    assert_eq!(run.next_request(), Some(0));
    assert!(run.record(PingReplyOrTimeout::Timeout));
    assert_eq!(run.next_request(), Some(1));
    assert!(run.record(PingReplyOrTimeout::Reply { rtt_ns: 5 }));
    assert_eq!(run.next_request(), Some(2));
    assert!(!run.record(PingReplyOrTimeout::Timeout));
    assert_eq!(run.next_request(), None);
    assert_eq!(run.results.len(), 3);
    assert_eq!(PingRun::new(0).next_request(), None);
}

#[test]
fn scamper_helpers() {
    assert_eq!(scamper_total_timeout_ms(100, 3), 1000);
    assert_eq!(scamper_total_timeout_ms(1000, 5), 5000);
    assert_eq!(scamper_total_timeout_ms(u64::MAX, 2), u64::MAX);
    assert_eq!(replies_from_rtts(&vec![]), None);
    assert_eq!(
        replies_from_rtts(&vec![Some(10), None]),
        Some(vec![PingReplyOrTimeout::Reply { rtt_ns: 10 }, PingReplyOrTimeout::Timeout])
    );
}

// ---------------------------------------------------------------- tunnel

#[test]
fn third_failure_signals_reconnect() {
    let mut h = ChannelHealth::new();
    assert!(!h.record_failure());
    assert!(!h.record_failure());
    assert!(h.record_failure());
    h.record_success();
    assert_eq!(h.failures, 0);
    assert!(!h.record_failure());
    let mut full = ChannelHealth { failures: u32::MAX };
    assert!(!full.record_failure());
    assert_eq!(full.failures, 0);
}

#[test]
fn opening_channels() {
    let mut h = ChannelHealth::new();
    assert_eq!(starla::tunnel::after_open(&mut h, OpenOutcome::Failed), (false, false));
    assert_eq!(starla::tunnel::after_open(&mut h, OpenOutcome::TimedOut), (false, false));
    assert_eq!(starla::tunnel::after_open(&mut h, OpenOutcome::SessionClosed), (false, true));
    assert_eq!(starla::tunnel::after_open(&mut h, OpenOutcome::Opened), (true, false));
    assert_eq!(h.failures, 0);
}

#[test]
fn relaying_a_connection() {
    let mut h = ChannelHealth { failures: 2 };
    let mut r = Relay::new();
    assert!(r.reads_local());
    assert_eq!(r.step(&mut h, RelayEvent::LocalData), (RelayAction::ToRemote, false));
    assert_eq!(r.step(&mut h, RelayEvent::LocalEnd), (RelayAction::HalfClose, false));
    assert!(!r.reads_local());
    assert_eq!(r.step(&mut h, RelayEvent::RemoteData), (RelayAction::ToLocal, false));
    assert_eq!(h.failures, 0);
    assert_eq!(r.step(&mut h, RelayEvent::RemoteOther), (RelayAction::Wait, false));
    assert_eq!(r.step(&mut h, RelayEvent::RemoteEnd), (RelayAction::Close, false));
    let mut h2 = ChannelHealth { failures: 2 };
    assert_eq!(Relay::new().step(&mut h2, RelayEvent::RemoteWriteFailed), (RelayAction::Close, true));
}

#[test]
fn collecting_command_output() {
    let mut out = ExecOutput::new();
    out.on_message(&ExecMessage::Data(b"OK\n".to_vec()));
    out.on_message(&ExecMessage::ExitStatus(1));
    out.on_message(&ExecMessage::Data(vec![b'a', 0xff]));
    assert!(!out.done);
    out.on_message(&ExecMessage::Eof);
    assert!(out.done);
    assert_eq!(out.text, "OK\na\u{fffd}");
    assert!(starla::tunnel::sends_stdin("x"));
    assert!(!starla::tunnel::sends_stdin(""));
}

// ---------------------------------------------------------------- store queries

fn record(id: u64, msm_type: &str, status: &str, started_at: i64, completed_at: i64, json: Option<&str>) -> StoredMeasurement {
    StoredMeasurement {
        id,
        msm_id: 1,
        msm_type: msm_type.to_string(),
        target: "192.0.2.1".to_string(),
        started_at,
        completed_at,
        status: status.to_string(),
        result_json: json.map(|s| s.to_string()),
        error: None,
    }
}

#[test]
fn key_order_and_expiry() {
    assert!(key_less(&[1, 2], &[1, 3]));
    assert!(key_less(&[1], &[1, 0]));
    assert!(!key_less(&[1, 0], &[1]));
    assert!(!key_less(&[2], &[2]));
    let keys = vec![
        measurement_key(-5, 1),
        measurement_key(10, 7),
        measurement_key(99, 2),
        measurement_key(100, 0),
        measurement_key(150, 3),
    ];
    assert_eq!(expired_count(&keys, 100), 3);
    assert_eq!(expired_count(&keys, -5), 0);
    assert_eq!(expired_count(&keys, 1000), 5);
}

#[test]
fn listings_stop_at_the_limit() {
    let rs = vec![
        record(1, "ping", "completed", 1, 2, Some("a")),
        record(2, "ping", "failed", 1, 2, Some("b")),
        record(3, "dns", "completed", 1, 2, None),
        record(4, "dns", "completed", 1, 2, Some("c")),
        record(5, "dns", "completed", 1, 2, Some("d")),
    ];
    assert_eq!(listing(&rs, 2), vec!["a".to_string(), "c".to_string()]);
    assert_eq!(listing(&rs, 10), vec!["a".to_string(), "c".to_string(), "d".to_string()]);
    assert_eq!(listing(&rs, 0), vec!["a".to_string()]);
    assert_eq!(listing(&rs, -1), vec!["a".to_string(), "c".to_string(), "d".to_string()]);
}

#[test]
fn tallies_and_statistics() {
    let t = tally(&vec![("b".to_string(), 2), ("a".to_string(), 5), ("b".to_string(), -1)]);
    assert_eq!(t, vec![("b".to_string(), 2, 1), ("a".to_string(), 1, 5)]);
    let rs = vec![
        record(1, "ping", "completed", 10, 14, Some("a")),
        record(2, "ping", "failed", 10, 0, None),
        record(3, "dns", "completed", 10, 11, Some("c")),
        record(4, "ping", "completed", 20, 26, Some("d")),
    ];
    let s = measurement_stats(&rs);
    assert_eq!(s.count_by_type, vec![("ping".to_string(), 3, 0), ("dns".to_string(), 1, 0)]);
    assert_eq!(s.count_by_status, vec![("completed".to_string(), 3, 0), ("failed".to_string(), 1, 0)]);
    assert_eq!(s.durations_by_type, vec![("ping".to_string(), 2, 10), ("dns".to_string(), 1, 1)]);
}

// ---------------------------------------------------------------- cleanup

fn cleanup_config() -> CleanupConfig {
    CleanupConfig { retention_days: 30, max_database_size_mb: 1, cleanup_interval_hours: 24 }
}

#[test]
fn cleanup_cycle_under_the_limit() {
    let now = 10_000_000;
    let (mut c, first) = CleanupCycle::start(&cleanup_config(), now);
    assert_eq!(first, CleanupStep::MeasureSize);
    let threshold = now - 30 * 86400;
    assert_eq!(c.on_size(2_000_000), CleanupStep::DeleteOlderThan(threshold));
    assert_eq!(c.on_deleted(4), CleanupStep::MeasureSize);
    assert_eq!(c.on_size(1_048_576), CleanupStep::DeleteQueueOlderThan(threshold));
    assert_eq!(c.on_deleted(2), CleanupStep::MeasureSize);
    assert_eq!(
        c.on_size(900_000),
        CleanupStep::Done(CleanupStats {
            deleted_by_time: 4,
            deleted_by_size: 0,
            queue_deleted: 2,
            size_before_bytes: 2_000_000,
            size_after_bytes: 900_000,
        })
    );
}

#[test]
fn cleanup_cycle_over_the_limit() {
    let (mut c, _) = CleanupCycle::start(&cleanup_config(), 86400 * 31);
    assert_eq!(c.on_size(5_000_000), CleanupStep::DeleteOlderThan(86400));
    assert_eq!(c.on_deleted(0), CleanupStep::MeasureSize);
    assert_eq!(c.on_size(1_048_577), CleanupStep::DeleteBySize(1));
    assert_eq!(c.on_deleted(100), CleanupStep::DeleteQueueOlderThan(86400));
    assert_eq!(c.on_deleted(0), CleanupStep::MeasureSize);
    match c.on_size(1_000) {
        CleanupStep::Done(s) => assert_eq!(s.deleted_by_size, 100),
        other => panic!("unexpected step {:?}", other),
    }
}

#[test]
fn size_cleanup_batches() {
    let mut s = SizeCleanup::new(2);
    assert_eq!(s.target_bytes, 2 * 1024 * 1024);
    assert!(s.over_target(2 * 1024 * 1024 + 1));
    assert!(!s.over_target(2 * 1024 * 1024));
    assert_eq!(s.batch_limit(), 100);
    assert!(s.on_batch(100));
    assert!(s.on_batch(7));
    assert!(!s.on_batch(0));
    assert_eq!(s.total_deleted, 107);
}

// ---------------------------------------------------------------- ntp

#[test]
fn ntp_samples_and_run() {
    let mut buf = vec![0u8; 48];
    buf[0] = 0x24;
    buf[1] = 2;
    buf[32..40].copy_from_slice(&0x0102_0304_0506_0708u64.to_be_bytes());
    buf[40..48].copy_from_slice(&0x1112_1314_1516_1718u64.to_be_bytes());
    assert_eq!(sample_timestamps(&buf), Some((0x0102_0304_0506_0708, 0x1112_1314_1516_1718)));
    assert_eq!(sample_timestamps(&buf[..47]), None);

    let mut run = NtpRun::new(3);
    assert_eq!(run.first(), NtpNext::Query);
    assert_eq!(run.on_error(), NtpNext::Fail);
    assert!(run.keeps_header());
    assert_eq!(run.on_sample(), NtpNext::Query);
    assert!(!run.keeps_header());
    assert_eq!(run.on_error(), NtpNext::Finish);
    assert_eq!(run.on_sample(), NtpNext::Query);
    assert_eq!(run.on_sample(), NtpNext::Finish);
    assert_eq!(NtpRun::new(0).first(), NtpNext::Finish);
}

#[test]
fn ntp_result_line() {
    let mut buf = vec![0u8; 48];
    buf[0] = 0x24; // no leap, version 4, server
    buf[1] = 2;
    buf[2] = 6;
    buf[12..16].copy_from_slice(&[0xc0, 0x00, 0x02, 0x01]);
    let header = parse_ntp_header(&buf).unwrap();
    let rep = NtpReport {
        msm_id: 1001,
        firmware_version: 6000,
        time: 1700000000,
        dst: "192.0.2.1".to_string(),
        src: "192.0.2.9".to_string(),
        af: 4,
        header,
        precision: "1e0".to_string(),
        root_delay: "0".to_string(),
        root_dispersion: "0".to_string(),
        ref_ts: "0.000000000".to_string(),
        samples: "S".to_string(),
    };
    assert_eq!(
        ntp_body(&rep),
        "\"id\":\"1001\", \"fw\":6000, \"mver\": \"2.6.4\", \"lts\":0, \"time\":1700000000, \
         \"dst_addr\":\"192.0.2.1\", \"src_addr\":\"192.0.2.9\", \"proto\":\"UDP\", \"af\": 4, \
         \"li\":\"no\", \"version\":4, \"mode\":\"server\", \"stratum\":2, \"poll\":6, \
         \"precision\":1e0, \"root-delay\":0, \"root-dispersion\":0, \"ref-id\":\"c0000201\", \
         \"ref-ts\":0.000000000, \"result\": [ S ]"
    );
}

// ---------------------------------------------------------------- traceroute

#[test]
fn traceroute_probes() {
    assert_eq!(probe_sequence(2, 1), 7);
    assert_eq!(probe_sequence(255, 2), 767);
    assert_eq!(udp_probe_port(1, 0), 33434);
    assert_eq!(udp_probe_port(3, 2), 33442);
    let te = Some(IcmpResponse::TimeExceeded(vec![]));
    let du = Some(IcmpResponse::DestinationUnreachable(vec![]));
    let echo = Some(IcmpResponse::EchoReply { identifier: 9, sequence: 7 });
    assert_eq!(classify_response(&te, false, 9, 7), Some((11, false)));
    assert_eq!(classify_response(&du, false, 9, 7), Some((3, true)));
    assert_eq!(classify_response(&echo, false, 9, 7), Some((0, true)));
    assert_eq!(classify_response(&echo, false, 8, 7), None);
    assert_eq!(classify_response(&echo, true, 8, 7), Some((0, true)));
    assert_eq!(classify_response(&Some(IcmpResponse::Other), false, 9, 7), None);
    assert_eq!(classify_error(&te), Some((11, false)));
    assert_eq!(classify_error(&echo), None);
    let r = probe_result(ProbeOutcome::SocketError("boom".to_string()));
    assert_eq!(r.err.as_deref(), Some("Socket error: boom"));
    let t = probe_result(ProbeOutcome::Timeout);
    assert_eq!(t.x.as_deref(), Some("*"));
    let a = probe_result(ProbeOutcome::Answer {
        from: "192.0.2.1".to_string(),
        rtt: "1.500".to_string(),
        size: 56,
        icmp_type: 11,
    });
    assert_eq!(a.from.as_deref(), Some("192.0.2.1"));
    assert_eq!(a.size, Some(56));
    assert_eq!(a.icmptype, Some(11));
}

#[test]
fn traceroute_run_stops_at_target() {
    let mut run = TracerouteRun::new(1, 30);
    assert_eq!(run.next_probe(), Some((1, 3)));
    for _ in 0..3 {
        run.record(probe_result(ProbeOutcome::Timeout), false);
    }
    assert_eq!(run.next_probe(), Some((2, 6)));
    run.record(probe_result(ProbeOutcome::Timeout), false);
    run.record(probe_result(ProbeOutcome::Timeout), true);
    assert_eq!(run.next_probe(), Some((2, 8)));
    run.record(probe_result(ProbeOutcome::Timeout), false);
    assert_eq!(run.next_probe(), None);
    assert_eq!(run.hops.len(), 2);
    assert_eq!(run.hops[1].hop, 2);
    assert_eq!(run.hops[1].result.len(), 3);
    assert_eq!(TracerouteRun::new(5, 4).next_probe(), None);
    let mut last = TracerouteRun::new(255, 255);
    for _ in 0..3 {
        last.record(probe_result(ProbeOutcome::Timeout), false);
    }
    assert!(last.done);
}

// ---------------------------------------------------------------- tls

#[test]
fn tls_result_line() {
    assert_eq!(cert_list(&vec!["a\nb".to_string(), "c".to_string()]), "\"a\\nb\", \"c\"");
    let rep = TlsReport {
        msm_id: 7,
        firmware_version: 6000,
        time: 5,
        hostname: "example.com".to_string(),
        port: 443,
        ttr: "0.1".to_string(),
        ver: "1.3".to_string(),
        dst: "192.0.2.1".to_string(),
        af: 4,
        src: "".to_string(),
        ttc: "0.05".to_string(),
        rt: "0.1".to_string(),
        cipher: "0x1301".to_string(),
        certs: vec!["X\nY".to_string()],
    };
    assert_eq!(
        tls_body(&rep),
        "\"id\":\"7\", \"fw\":6000, \"mver\": \"2.6.4\", \"lts\":0, \"time\":5, \
         \"dst_name\":\"example.com\", \"dst_port\":\"443\", \"ttr\":0.1, \"method\":\"TLS\", \
         \"ver\":\"1.3\", \"dst_addr\":\"192.0.2.1\", \"af\": 4, \"src_addr\":\"\", \"ttc\":0.05, \
         \"rt\":0.1, \"server_cipher\":\"0x1301\", \"cert\":[ \"X\\nY\" ]"
    );
}

// ---------------------------------------------------------------- probe

fn ping_command(interval: u64, spread: Option<u32>) -> TelnetCommand {
    TelnetCommand::Ping(PingSpec {
        msm_id: 1001,
        target: "192.0.2.1".to_string(),
        af: 4,
        packets: 3,
        size: 48,
        packet_interval: 1000,
        spread,
        schedule: ScheduleSpec { interval, start_time: 10, stop_time: 20 },
    })
}

#[test]
fn commands_to_the_scheduler() {
    let t = JobTiming { msm_id: 1001, interval: 240, start_time: 10, end_time: 20, spread: 5 };
    assert_eq!(dispatch(&ping_command(240, Some(5))), Dispatch::Schedule(t));
    let once = JobTiming { msm_id: 1001, interval: 0, start_time: 10, end_time: 20, spread: 0 };
    assert_eq!(dispatch(&ping_command(0, None)), Dispatch::ExecuteNow(once));
    assert_eq!(dispatch(&TelnetCommand::Stop(9)), Dispatch::Stop(9));
    assert_eq!(dispatch(&TelnetCommand::Status), Dispatch::Nothing);
    assert_eq!(dispatch(&TelnetCommand::Unknown("x".to_string())), Dispatch::Nothing);
    assert_eq!(job_names(&ping_command(0, None)), Some(("ping", "ping")));
    assert_eq!(job_names(&TelnetCommand::Status), None);
}

#[test]
fn backoff_doubles_up_to_the_limit() {
    let mut b = Backoff::new(60);
    assert_eq!(b.wait(), 5);
    assert_eq!(b.wait(), 10);
    assert_eq!(b.wait(), 20);
    assert_eq!(b.wait(), 40);
    assert_eq!(b.wait(), 60);
    assert_eq!(b.wait(), 60);
    b.reset();
    assert_eq!(b.wait(), 5);
    let mut odd = Backoff::new(7);
    assert_eq!(odd.wait(), 5);
    assert_eq!(odd.wait(), 7);
}

#[test]
fn registration_follow_up() {
    let mut reg = Registration::new();
    match reg.on_connect_failed("refused".to_string()) {
        RegistrationStep::Retry { secs, show_key, note } => {
            assert_eq!(secs, 5);
            assert!(show_key);
            assert_eq!(note.as_deref(), Some("refused"));
        }
        _ => panic!("expected a retry"),
    }
    match reg.on_init(Ok(InitResponse::Acknowledged)) {
        RegistrationStep::Retry { secs, show_key, note } => {
            assert_eq!(secs, 10);
            assert!(!show_key);
            assert_eq!(note.as_deref(), Some(KEY_NOT_APPROVED));
        }
        _ => panic!("expected a retry"),
    }
    match reg.on_init(Err(InitError::Empty)) {
        RegistrationStep::Retry { secs, show_key, note } => {
            assert_eq!(secs, 20);
            assert!(!show_key);
            assert!(note.is_none());
        }
        _ => panic!("expected a retry"),
    }
    reg.on_connected();
    let info = ControllerInfo { host: "ctr-ams01.atlas.ripe.net".to_string(), port: 443, probe_id: 77 };
    match reg.on_init(Ok(InitResponse::Controller(info.clone()))) {
        RegistrationStep::UseController(i) => assert_eq!(i.host, info.host),
        _ => panic!("expected the controller"),
    }
    assert_eq!(controller_address(&info), "ctr-ams01.atlas.ripe.net:443");
    assert_eq!(assigned_probe_id(5, 77), 77);
    assert_eq!(assigned_probe_id(5, 0), 5);
}

#[test]
fn controller_follow_up() {
    match controller_step(Ok(InitResponse::ControllerReady { remote_port: 2023, session_id: "abc".to_string() })) {
        ControllerStep::Ready { remote_port, session_id } => {
            assert_eq!(remote_port, 2023);
            assert_eq!(session_id, "abc");
        }
        _ => panic!("expected ready"),
    }
    assert!(matches!(controller_step(Ok(InitResponse::Wait { timeout_secs: 9 })), ControllerStep::AskAgainAfter(9)));
    assert!(matches!(controller_step(Ok(InitResponse::Acknowledged)), ControllerStep::AskAgainAfter(30)));
    assert!(matches!(controller_step(Err(InitError::Empty)), ControllerStep::GiveUp));
    assert_eq!(endpoint_path(1234, "s1"), "/?PROBE_ID=1234&SESSION_ID=s1");
    assert_eq!(uptime_secs(100, 40), 60);
    assert_eq!(uptime_secs(10, 40), 0);
}

// ---------------------------------------------------------------- tray

#[test]
fn pause_in_effect() {
    let now = Instant { secs: 100, nanos: 0 };
    let later = PauseState::Until(Instant { secs: 200, nanos: 0 });
    let earlier = PauseState::Until(Instant { secs: 50, nanos: 0 });
    assert_eq!(active_pause(Some(later), now), Some(later));
    assert_eq!(active_pause(Some(earlier), now), None);
    assert_eq!(active_pause(Some(PauseState::Indefinite), now), Some(PauseState::Indefinite));
    assert_eq!(active_pause(None, now), None);
}

// ---------------------------------------------------------------- result queue

#[test]
fn result_queue_drops_oldest_when_full() {
    let mut q = starla::results::ResultQueue::new(2);
    assert_eq!(q.capacity(), 2);
    assert_eq!(q.push("a"), None);
    assert_eq!(q.push("b"), None);
    assert_eq!(q.len(), 2);
    assert_eq!(q.push("c"), Some("a"));
    assert_eq!(q.len(), 2);
    assert_eq!(q.pop(), Some("b"));
    assert_eq!(q.pop(), Some("c"));
    assert_eq!(q.pop(), None);
}

#[test]
fn choosing_how_to_trace() {
    assert_eq!(
        traceroute_method(TracerouteBackend::Native, TracerouteProtocol::UDP, false, true),
        Ok(TracerouteMethod::Native(TracerouteProtocol::UDP))
    );
    assert_eq!(
        traceroute_method(TracerouteBackend::Native, TracerouteProtocol::TCP, true, false),
        Err("UDP and TCP traceroute are not supported on this platform; use ICMP")
    );
    assert_eq!(
        traceroute_method(TracerouteBackend::Native, TracerouteProtocol::ICMP, false, false),
        Ok(TracerouteMethod::Native(TracerouteProtocol::ICMP))
    );
    assert_eq!(traceroute_method(TracerouteBackend::Scamper, TracerouteProtocol::ICMP, true, true), Ok(TracerouteMethod::Scamper));
    assert!(traceroute_method(TracerouteBackend::Scamper, TracerouteProtocol::ICMP, false, true).is_err());
    assert_eq!(
        starla::ssh::servers_unreachable_message(6),
        "failed to connect to any of 6 registration servers"
    );
    assert_eq!(starla::ssh::servers_unreachable_message(0), "no registration servers configured");
}
