use starla::daemon::{
    launchd_target, plist_path, restart, start, stop, supported, DaemonStep, Platform,
};
use starla::tray::{
    atlas_url, build_menu, format_pause, format_uptime, menu_action, parse_pause_state,
    pause_file_text, pause_for, pause_options, status_equivalent, status_lines, tooltip,
    uptime_line, Instant, MenuAction, MenuEntry, PauseState, ProbeStatus,
};

fn status() -> ProbeStatus {
    ProbeStatus {
        probe_id: 1014036,
        connected: true,
        controller: Some("ctr".into()),
        uptime_secs: 3 * 3600 + 12 * 60 + 5,
        measurements: vec![("ping".into(), 2), ("dns".into(), 5), ("ntp".into(), 2)],
        queue_depth: 4,
        public_key: Some("ssh-ed25519 AAAA starla".into()),
        last_connection_error: None,
        pause: None,
    }
}

#[test]
fn arguments_render_without_isolation_marks() {
    let rendered = uptime_line("3h 12m");
    assert_eq!(rendered, "Uptime: 3h 12m");
}

#[test]
fn uptimes() {
    assert_eq!(format_uptime(0), "0m");
    assert_eq!(format_uptime(59), "0m");
    assert_eq!(format_uptime(3 * 3600 + 12 * 60), "3h 12m");
    assert_eq!(format_uptime(2 * 86400 + 5 * 60), "2d 0h 5m");
}

#[test]
fn parses_indefinite() {
    assert_eq!(parse_pause_state("indefinite"), Some(PauseState::Indefinite));
    assert_eq!(parse_pause_state("INDEFINITE"), Some(PauseState::Indefinite));
}

#[test]
fn parses_rfc3339() {
    let s = "2030-01-01T00:00:00Z";
    match parse_pause_state(s) {
        Some(PauseState::Until(t)) => assert_eq!(t, Instant { secs: 1_893_456_000, nanos: 0 }),
        other => panic!("expected Until, got {:?}", other),
    }
}

#[test]
fn rejects_garbage() {
    assert_eq!(parse_pause_state(""), None);
    assert_eq!(parse_pause_state("nope"), None);
}

#[test]
fn is_active_indefinite() {
    assert!(PauseState::Indefinite.is_active(Instant { secs: 1_700_000_000, nanos: 0 }));
}

#[test]
fn is_active_until() {
    let now = Instant { secs: 1_700_000_000, nanos: 500 };
    let past = Instant { secs: now.secs - 3600, nanos: 0 };
    let future = Instant { secs: now.secs + 3600, nanos: 0 };
    assert!(!PauseState::Until(past).is_active(now));
    assert!(PauseState::Until(future).is_active(now));
    assert!(!PauseState::Until(now).is_active(now));
}

#[test]
fn pause_file_round_trip() {
    assert_eq!(pause_file_text(PauseState::Indefinite), "indefinite\n");
    let t = Instant { secs: 1_893_456_000, nanos: 0 };
    let text = pause_file_text(PauseState::Until(t));
    assert_eq!(text, "2030-01-01T00:00:00+00:00\n");
    assert_eq!(parse_pause_state(text.trim()), Some(PauseState::Until(t)));
    assert_eq!(format_pause(&PauseState::Indefinite), "Paused indefinitely");
    assert!(format_pause(&PauseState::Until(t)).starts_with("Paused until "));
}

#[test]
fn pause_choices() {
    let opts = pause_options();
    assert_eq!(opts.len(), 6);
    assert_eq!(opts[0], ("pause_30m", "30 minutes", Some(30)));
    assert_eq!(opts[5], ("pause_indefinite", "Indefinitely", None));
    let now = Instant { secs: 1000, nanos: 7 };
    assert_eq!(pause_for(Some(30), now), PauseState::Until(Instant { secs: 2800, nanos: 7 }));
    assert_eq!(pause_for(None, now), PauseState::Indefinite);
    assert_eq!(menu_action("pause_4h"), MenuAction::Pause(Some(240)));
    assert_eq!(menu_action("pause_indefinite"), MenuAction::Pause(None));
    assert_eq!(menu_action("quit"), MenuAction::Quit);
    assert_eq!(menu_action("stop_daemon"), MenuAction::StopDaemon);
    assert_eq!(menu_action("bogus"), MenuAction::Nothing);
}

#[test]
fn status_texts() {
    let mut s = status();
    assert_eq!(status_lines(&s, "Paused indefinitely"), ("Connected".to_string(), None));
    s.connected = false;
    assert_eq!(status_lines(&s, "-"), ("Disconnected".to_string(), Some("controller unreachable".to_string())));
    s.last_connection_error = Some("auth failed".into());
    assert_eq!(status_lines(&s, "-").1.as_deref(), Some("auth failed"));
    s.probe_id = 0;
    assert_eq!(status_lines(&s, "-").0, "Not registered");
    s.pause = Some(PauseState::Indefinite);
    assert_eq!(status_lines(&s, "Paused indefinitely"), ("Paused indefinitely".to_string(), None));
    assert_eq!(tooltip(Some(&status()), "Connected"), "Starla 1014036: Connected");
    assert_eq!(tooltip(Some(&s), "Not registered"), "Starla: Not registered");
    assert_eq!(tooltip(None, ""), "Starla: probe not running");
    assert_eq!(atlas_url(5), "https://atlas.ripe.net/probes/5/");
    assert_eq!(atlas_url(0), "https://atlas.ripe.net/apply/swprobe/");
}

fn label(e: &MenuEntry) -> String {
    match e {
        MenuEntry::Label(s) => s.clone(),
        MenuEntry::Action(id, s) => format!("[{}] {}", id, s),
        MenuEntry::Separator => "---".into(),
        MenuEntry::Submenu(s, items) => format!("{} > {}", s, items.len()),
    }
}

#[test]
fn menu_for_a_running_probe() {
    let menu = build_menu(Some(&status()), "-", true);
    let texts: Vec<String> = menu.iter().map(label).collect();
    assert_eq!(
        texts,
        vec![
            "Connected", "Probe 1014036", "Uptime: 3h 12m", "---", "Measurements: 9",
            "  dns: 5", "  ping: 2", "  ntp: 2", "---", "Pause measurements > 6", "---",
            "[restart_daemon] Restart probe", "[stop_daemon] Stop probe", "---",
            "[copy_key] Copy Public Key", "[open_atlas] Open RIPE Atlas", "---", "[quit] Quit",
        ]
    );
}

#[test]
fn menu_without_a_probe() {
    let menu = build_menu(None, "-", false);
    let texts: Vec<String> = menu.iter().map(label).collect();
    assert_eq!(
        texts,
        vec!["Probe not running", "---", "[copy_key] Copy Public Key", "[open_atlas] Open RIPE Atlas", "---", "[quit] Quit"]
    );
    let mut paused = status();
    paused.pause = Some(PauseState::Indefinite);
    let menu = build_menu(Some(&paused), "Paused indefinitely", false);
    assert!(menu.iter().map(label).any(|t| t == "[resume] Resume measurements"));
}

#[test]
fn redraw_only_on_visible_change() {
    let a = status();
    let mut b = status();
    b.queue_depth = 99;
    b.uptime_secs += 30;
    b.measurements.reverse();
    assert!(status_equivalent(&a, &b));
    b.uptime_secs += 60;
    assert!(!status_equivalent(&a, &b));
    let mut c = status();
    c.measurements[0].1 = 3;
    assert!(!status_equivalent(&a, &c));
}

fn run_task(mut task: starla::daemon::DaemonTask, results: &[bool]) -> Vec<String> {
    let mut seen = Vec::new();
    let mut ok = true;
    let mut i = 0;
    loop {
        match task.next(ok) {
            DaemonStep::Run(cmd) => {
                seen.push(format!("{} {}", cmd.program, cmd.args.join(" ")));
                ok = results[i];
                i += 1;
            }
            DaemonStep::Done => {
                seen.push("done".into());
                return seen;
            }
            DaemonStep::CommandFailed => {
                seen.push("failed".into());
                return seen;
            }
            DaemonStep::Failed(m) => {
                seen.push(m);
                return seen;
            }
        }
    }
}

#[test]
fn daemon_controls() {
    assert!(supported(Platform::Linux) && supported(Platform::MacOs) && !supported(Platform::Other));
    assert_eq!(launchd_target(501), "gui/501/com.ananthb.starla");
    assert_eq!(plist_path("/Users/me"), "/Users/me/Library/LaunchAgents/com.ananthb.starla.plist");
    assert_eq!(run_task(start(Platform::Linux, 0, None), &[true]), vec!["systemctl --user start starla", "done"]);
    assert_eq!(run_task(stop(Platform::Linux, 0, None), &[false]), vec!["systemctl --user stop starla", "failed"]);
    assert_eq!(
        run_task(start(Platform::MacOs, 501, Some("/p.plist".into())), &[false, true]),
        vec!["launchctl kickstart gui/501/com.ananthb.starla", "launchctl bootstrap gui/501 /p.plist", "done"]
    );
    assert_eq!(
        run_task(start(Platform::MacOs, 501, None), &[false]),
        vec!["launchctl kickstart gui/501/com.ananthb.starla", "no LaunchAgent plist found at ~/Library/LaunchAgents/com.ananthb.starla.plist"]
    );
    assert_eq!(
        run_task(restart(Platform::MacOs, 501, None), &[false, false, true]),
        vec![
            "launchctl kickstart -k gui/501/com.ananthb.starla",
            "launchctl bootout gui/501/com.ananthb.starla",
            "launchctl kickstart gui/501/com.ananthb.starla",
            "done"
        ]
    );
    assert_eq!(run_task(restart(Platform::Other, 0, None), &[]), vec!["daemon controls are not supported on this platform"]);
}

#[test]
fn counts_sort_stably_from_most_to_fewest() {
    let m = vec![
        ("ping".to_string(), 1u64),
        ("dns".to_string(), 3),
        ("ntp".to_string(), 1),
        ("tls".to_string(), 3),
    ];
    let sorted = starla::tray::by_count_descending(&m);
    let names: Vec<&str> = sorted.iter().map(|(n, _)| n.as_str()).collect();
    assert_eq!(names, vec!["dns", "tls", "ping", "ntp"]);
}

#[test]
fn writable_spans_the_years_chrono_handles() {
    assert!(starla::tray::is_writable(starla::tray::Instant { secs: -8_334_601_315_200, nanos: 0 }));
    assert!(!starla::tray::is_writable(starla::tray::Instant { secs: -8_334_601_315_201, nanos: 0 }));
    assert!(starla::tray::is_writable(starla::tray::Instant { secs: 8_210_266_876_799, nanos: 999_999_999 }));
    assert!(!starla::tray::is_writable(starla::tray::Instant { secs: 8_210_266_876_800, nanos: 0 }));
    assert!(!starla::tray::is_writable(starla::tray::Instant { secs: 0, nanos: 1_000_000_000 }));
}
