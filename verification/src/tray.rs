//! The tray application's decisions: the probe status it shows, the
//! pause state shared with the probe, the menu, and what each menu entry
//! does. Drawing the menu and talking to the system are the caller's.
use crate::text::{concat, decimal, push_decimal, str_eq, chars_of, ascii_lower, ascii_lower_exec};
use vstd::prelude::*;

verus! {

// ---------------------------------------------------------------------
// Pause state
// ---------------------------------------------------------------------

/// An instant in UTC: seconds since the Unix epoch and nanoseconds.
#[derive(Debug, Clone, Copy, PartialEq, Eq, Structural)]
pub struct Instant {
    pub secs: i64,
    pub nanos: u32,
}

/// Whether `a` comes after `b`.
pub open spec fn later(a: Instant, b: Instant) -> bool {
    a.secs > b.secs || (a.secs == b.secs && a.nanos > b.nanos)
}

/// Whether measurements are paused, and until when.
#[derive(Debug, Clone, Copy, PartialEq, Eq, Structural)]
pub enum PauseState {
    Indefinite,
    Until(Instant),
}

impl PauseState {
    /// Whether the pause is still in effect at `now`.
    pub fn is_active(&self, now: Instant) -> (r: bool)
        ensures
            r == (match self {
                PauseState::Indefinite => true,
                PauseState::Until(t) => later(*t, now),
            }),
    {
        match self {
            PauseState::Indefinite => true,
            PauseState::Until(t) => t.secs > now.secs || (t.secs == now.secs && t.nanos > now.nanos),
        }
    }
}

/// The pause that is in effect at `now`: the stored pause state if it is
/// still active, else none.
pub fn active_pause(stored: Option<PauseState>, now: Instant) -> (r: Option<PauseState>)
    ensures
        r == (match stored {
            Some(p) => if (match p {
                PauseState::Indefinite => true,
                PauseState::Until(t) => later(t, now),
            }) {
                Some(p)
            } else {
                None
            },
            None => None,
        }),
{
    match stored {
        Some(p) => if p.is_active(now) {
            Some(p)
        } else {
            None
        },
        None => None,
    }
}

/// The instant an RFC 3339 timestamp names, as `chrono` reads it
/// (`DateTime::parse_from_rfc3339`, in UTC), or `None` when the text is
/// not such a timestamp.
pub uninterp spec fn spec_parse_rfc3339(s: Seq<char>) -> Option<Instant>;

/// Reads an RFC 3339 timestamp with `chrono`.
#[verifier::external_body]
fn parse_rfc3339(s: &str) -> (r: Option<Instant>)
    ensures
        r == spec_parse_rfc3339(s@),
{
    match chrono::DateTime::parse_from_rfc3339(s) {
        Ok(t) => Some(Instant { secs: t.timestamp(), nanos: t.timestamp_subsec_nanos() }),
        Err(_) => None,
    }
}

/// Whether `s` is `indefinite` in any mix of ASCII case.
pub open spec fn is_indefinite_word(s: Seq<char>) -> bool {
    s.len() == 10 && forall|i: int| 0 <= i < 10 ==> ascii_lower(#[trigger] s[i]) == "indefinite"@[i]
}

/// What the (trimmed) text of the pause file means: nothing when empty,
/// an indefinite pause for `indefinite` in any case, else a pause until
/// the RFC 3339 time it holds (nothing when it holds none).
pub open spec fn spec_parse_pause_state(s: Seq<char>) -> Option<PauseState> {
    if s.len() == 0 {
        None
    } else if is_indefinite_word(s) {
        Some(PauseState::Indefinite)
    } else {
        match spec_parse_rfc3339(s) {
            Some(t) => Some(PauseState::Until(t)),
            None => None,
        }
    }
}

fn is_indefinite_word_exec(s: &str) -> (r: bool)
    ensures
        r == is_indefinite_word(s@),
{
    let v = chars_of(s);
    let w = chars_of("indefinite");
    proof {
        reveal_strlit("indefinite");
    }
    if v.len() != 10 {
        return false;
    }
    let mut i: usize = 0;
    while i < 10
        invariant
            v@ == s@,
            w@ == "indefinite"@,
            v@.len() == 10,
            w@.len() == 10,
            i <= 10,
            forall|j: int| 0 <= j < i ==> ascii_lower(#[trigger] s@[j]) == "indefinite"@[j],
        decreases 10 - i,
    {
        if ascii_lower_exec(v[i]) != w[i] {
            return false;
        }
        i = i + 1;
    }
    true
}

/// Reads the (trimmed) text of the pause file.
pub fn parse_pause_state(s: &str) -> (r: Option<PauseState>)
    ensures
        r == spec_parse_pause_state(s@),
{
    if s.unicode_len() == 0 {
        return None;
    }
    if is_indefinite_word_exec(s) {
        return Some(PauseState::Indefinite);
    }
    match parse_rfc3339(s) {
        Some(t) => Some(PauseState::Until(t)),
        None => None,
    }
}

/// The RFC 3339 text of an instant in UTC, as `chrono`'s `to_rfc3339`
/// writes it.
pub uninterp spec fn spec_rfc3339(t: Instant) -> Seq<char>;

/// Writes an instant in RFC 3339 with `chrono`.
#[verifier::external_body]
fn rfc3339_text(t: Instant) -> (r: String)
    requires
        t.nanos < 1_000_000_000,
        -8_334_601_315_200 <= t.secs <= 8_210_266_876_799,
    ensures
        r@ == spec_rfc3339(t),
{
    chrono::DateTime::from_timestamp(t.secs, t.nanos).unwrap().to_rfc3339()
}

/// Whether `t` lies in the range of times that `chrono` can write: from
/// the start of its first year, -262143, to the end of its last, 262142.
pub open spec fn writable(t: Instant) -> bool {
    t.nanos < 1_000_000_000 && -8_334_601_315_200 <= t.secs <= 8_210_266_876_799
}

/// Whether `t` lies in the range of times that `chrono` can write: the
/// years -262143 to 262142.
pub fn is_writable(t: Instant) -> (r: bool)
    ensures
        r == writable(t),
{
    t.nanos < 1_000_000_000 && -8_334_601_315_200 <= t.secs && t.secs <= 8_210_266_876_799
}

/// The text of the pause file for a pause: `indefinite` or the end time,
/// then a line break.
pub fn pause_file_text(state: PauseState) -> (r: String)
    requires
        state matches PauseState::Until(t) ==> writable(t),
    ensures
        r@ == (match state {
            PauseState::Indefinite => "indefinite\n"@,
            PauseState::Until(t) => spec_rfc3339(t) + "\n"@,
        }),
{
    match state {
        PauseState::Indefinite => String::from_str("indefinite\n"),
        PauseState::Until(t) => {
            let s = rfc3339_text(t);
            concat(s.as_str(), "\n")
        },
    }
}

/// The pause read back from the text written for it, when `chrono` reads
/// its own RFC 3339 text back as the same instant.
pub proof fn lemma_pause_file_roundtrip(state: PauseState)
    requires
        state matches PauseState::Until(t) ==> spec_parse_rfc3339(spec_rfc3339(t)) == Some(t),
        state matches PauseState::Until(t) ==> spec_rfc3339(t).len() > 0 && !is_indefinite_word(
            spec_rfc3339(t),
        ),
    ensures
        spec_parse_pause_state(
            match state {
                PauseState::Indefinite => "indefinite"@,
                PauseState::Until(t) => spec_rfc3339(t),
            },
        ) == Some(state),
{
    reveal_strlit("indefinite");
    if state is Indefinite {
        assert(is_indefinite_word("indefinite"@));
    }
}

/// The clock time of `t` in the machine's time zone, as `HH:MM`. It depends
/// on the machine's time zone.
#[verifier::external_body]
fn local_clock_time(t: Instant) -> (r: String)
    requires
        writable(t),
{
    let utc = chrono::DateTime::from_timestamp(t.secs, t.nanos).unwrap();
    let local: chrono::DateTime<chrono::Local> = utc.into();
    local.format("%H:%M").to_string()
}

/// The pause line of the menu, given the end time as the clock shows it.
pub open spec fn spec_pause_text(state: PauseState, clock: Seq<char>) -> Seq<char> {
    match state {
        PauseState::Indefinite => "Paused indefinitely"@,
        PauseState::Until(_) => "Paused until "@ + clock,
    }
}

/// The pause line of the menu: `Paused indefinitely`, or `Paused until`
/// and the end time on the local clock.
pub fn format_pause(state: &PauseState) -> (r: String)
    requires
        *state matches PauseState::Until(t) ==> writable(t),
    ensures
        exists|clock: Seq<char>| r@ == #[trigger] spec_pause_text(*state, clock),
{
    match state {
        PauseState::Indefinite => {
            let r = String::from_str("Paused indefinitely");
            assert(r@ == spec_pause_text(*state, seq![]));
            r
        },
        PauseState::Until(t) => {
            let clock = local_clock_time(*t);
            let r = concat("Paused until ", clock.as_str());
            assert(r@ == spec_pause_text(*state, clock@));
            r
        },
    }
}

// ---------------------------------------------------------------------
// Probe status
// ---------------------------------------------------------------------

/// The probe's status as the tray receives it.
#[derive(Debug, Clone)]
pub struct ProbeStatus {
    /// Probe id (0 while not registered)
    pub probe_id: u32,
    /// Whether connected to the controller
    pub connected: bool,
    /// Controller host name, when connected
    pub controller: Option<String>,
    /// Seconds since the probe started
    pub uptime_secs: u64,
    /// Scheduled measurements by type
    pub measurements: Vec<(String, u64)>,
    /// Results waiting to be uploaded
    pub queue_depth: usize,
    /// The public key to register
    pub public_key: Option<String>,
    /// The last controller or registration error
    pub last_connection_error: Option<String>,
    /// The active pause
    pub pause: Option<PauseState>,
}

/// An uptime as the menu shows it: days, hours and minutes; hours and
/// minutes under a day; minutes under an hour.
pub open spec fn spec_format_uptime(secs: u64) -> Seq<char> {
    let days = secs / 86400;
    let hours = (secs % 86400) / 3600;
    let mins = (secs % 3600) / 60;
    if days > 0 {
        decimal(days as nat) + "d "@ + decimal(hours as nat) + "h "@ + decimal(mins as nat) + "m"@
    } else if hours > 0 {
        decimal(hours as nat) + "h "@ + decimal(mins as nat) + "m"@
    } else {
        decimal(mins as nat) + "m"@
    }
}

/// Formats an uptime: `3d 4h 5m`, `4h 5m` or `5m`.
pub fn format_uptime(secs: u64) -> (r: String)
    ensures
        r@ == spec_format_uptime(secs),
{
    let days = secs / 86400;
    let hours = (secs % 86400) / 3600;
    let mins = (secs % 3600) / 60;
    let mut s = String::new();
    if days > 0 {
        push_decimal(&mut s, days);
        s.append("d ");
        push_decimal(&mut s, hours);
        s.append("h ");
        push_decimal(&mut s, mins);
        s.append("m");
    } else if hours > 0 {
        push_decimal(&mut s, hours);
        s.append("h ");
        push_decimal(&mut s, mins);
        s.append("m");
    } else {
        push_decimal(&mut s, mins);
        s.append("m");
    }
    assert(s@ =~= spec_format_uptime(secs));
    s
}

/// The uptime line of the menu.
pub fn uptime_line(uptime: &str) -> (r: String)
    ensures
        r@ == "Uptime: "@ + uptime@,
{
    concat("Uptime: ", uptime)
}

/// The status lines of the menu: a header, and a second line that says
/// why the probe is not connected.
pub open spec fn spec_status_lines(s: ProbeStatus, pause_text: Seq<char>) -> (Seq<char>, Option<Seq<char>>) {
    if s.pause is Some {
        (pause_text, None)
    } else if s.connected {
        ("Connected"@, None)
    } else if s.probe_id == 0 {
        ("Not registered"@, Some("Register the public key at atlas.ripe.net/apply/swprobe"@))
    } else {
        (
            "Disconnected"@,
            Some(
                match s.last_connection_error {
                    Some(e) => e@,
                    None => "controller unreachable"@,
                },
            ),
        )
    }
}

/// The status lines of the menu; `pause_text` is the pause line shown
/// while measurements are paused.
pub fn status_lines(s: &ProbeStatus, pause_text: &str) -> (r: (String, Option<String>))
    ensures
        (r.0@, match r.1 {
            Some(d) => Some(d@),
            None => None,
        }) == spec_status_lines(*s, pause_text@),
{
    if s.pause.is_some() {
        return (String::from_str(pause_text), None);
    }
    if s.connected {
        return (String::from_str("Connected"), None);
    }
    if s.probe_id == 0 {
        return (
            String::from_str("Not registered"),
            Some(String::from_str("Register the public key at atlas.ripe.net/apply/swprobe")),
        );
    }
    let detail = match &s.last_connection_error {
        Some(e) => e.clone(),
        None => String::from_str("controller unreachable"),
    };
    (String::from_str("Disconnected"), Some(detail))
}

/// The tooltip of the tray icon.
pub open spec fn spec_tooltip(s: Option<ProbeStatus>, header: Seq<char>) -> Seq<char> {
    match s {
        Some(st) => if st.probe_id != 0 {
            "Starla "@ + decimal(st.probe_id as nat) + ": "@ + header
        } else {
            "Starla: "@ + header
        },
        None => "Starla: probe not running"@,
    }
}

/// The tooltip of the tray icon: the probe id, when there is one, and the
/// status header; or that the probe is not running.
pub fn tooltip(s: Option<&ProbeStatus>, header: &str) -> (r: String)
    ensures
        r@ == spec_tooltip(
            match s {
                Some(x) => Some(*x),
                None => None,
            },
            header@,
        ),
{
    match s {
        Some(st) => {
            if st.probe_id != 0 {
                let mut t = String::from_str("Starla ");
                push_decimal(&mut t, st.probe_id as u64);
                t.append(": ");
                t.append(header);
                t
            } else {
                concat("Starla: ", header)
            }
        },
        None => String::from_str("Starla: probe not running"),
    }
}

/// The page that `Open RIPE Atlas` opens: the probe's page, or the
/// registration page while the probe has no id.
pub fn atlas_url(probe_id: u32) -> (r: String)
    ensures
        r@ == (if probe_id != 0 {
            "https://atlas.ripe.net/probes/"@ + decimal(probe_id as nat) + "/"@
        } else {
            "https://atlas.ripe.net/apply/swprobe/"@
        }),
{
    if probe_id != 0 {
        let mut s = String::from_str("https://atlas.ripe.net/probes/");
        push_decimal(&mut s, probe_id as u64);
        s.append("/");
        s
    } else {
        String::from_str("https://atlas.ripe.net/apply/swprobe/")
    }
}

/// The sum of the counts.
pub open spec fn total_count(m: Seq<(String, u64)>) -> int
    decreases m.len(),
{
    if m.len() == 0 {
        0
    } else {
        total_count(m.drop_last()) + m.last().1
    }
}

proof fn lemma_total_count_mono(m: Seq<(String, u64)>, i: int)
    requires
        0 <= i <= m.len(),
    ensures
        0 <= total_count(m.take(i)) <= total_count(m),
    decreases m.len() - i,
{
    if i < m.len() {
        lemma_total_count_mono(m, i + 1);
        assert(m.take(i + 1).drop_last() =~= m.take(i));
    } else {
        assert(m.take(i) =~= m);
    }
    lemma_total_nonneg(m.take(i));
}

proof fn lemma_total_nonneg(m: Seq<(String, u64)>)
    ensures
        total_count(m) >= 0,
    decreases m.len(),
{
    if m.len() > 0 {
        lemma_total_nonneg(m.drop_last());
    }
}

/// How many measurements are scheduled in all.
pub fn total_measurements(m: &Vec<(String, u64)>) -> (r: u64)
    requires
        total_count(m@) <= u64::MAX,
    ensures
        r == total_count(m@),
{
    let mut total: u64 = 0;
    let mut i: usize = 0;
    while i < m.len()
        invariant
            i <= m@.len(),
            total_count(m@) <= u64::MAX,
            total == total_count(m@.take(i as int)),
        decreases m.len() - i,
    {
        proof {
            lemma_total_count_mono(m@, i + 1);
            assert(m@.take(i as int + 1).drop_last() =~= m@.take(i as int));
        }
        total = total + m[i].1;
        i = i + 1;
    }
    assert(m@.take(m@.len() as int) =~= m@);
    total
}

/// Whether the counts go down (or stay) along the list.
pub open spec fn descending(m: Seq<(String, u64)>) -> bool {
    forall|i: int, j: int| 0 <= i < j < m.len() ==> m[i].1 >= m[j].1
}

/// How many entries of `s` count at least `c`.
pub open spec fn ge_count(s: Seq<(String, u64)>, c: u64) -> nat
    decreases s.len(),
{
    if s.len() == 0 {
        0
    } else {
        ge_count(s.drop_last(), c) + if s.last().1 >= c {
            1nat
        } else {
            0nat
        }
    }
}

/// The entries of `m` in a stable order from most to fewest: each entry in
/// turn goes after every earlier one that counts at least as much.
pub open spec fn stable_by_count(m: Seq<(String, u64)>) -> Seq<(String, u64)>
    decreases m.len(),
{
    if m.len() == 0 {
        seq![]
    } else {
        let s = stable_by_count(m.drop_last());
        s.insert(ge_count(s, m.last().1) as int, m.last())
    }
}

/// Where the entries that count at least `c` are the first `k`, there are
/// `k` of them.
proof fn lemma_ge_count_prefix(s: Seq<(String, u64)>, c: u64, k: int)
    requires
        0 <= k <= s.len(),
        forall|j: int| 0 <= j < k ==> s[j].1 >= c,
        forall|j: int| k <= j < s.len() ==> s[j].1 < c,
    ensures
        ge_count(s, c) == k,
    decreases s.len(),
{
    if s.len() > 0 {
        if k == s.len() {
            lemma_ge_count_prefix(s.drop_last(), c, k - 1);
        } else {
            lemma_ge_count_prefix(s.drop_last(), c, k);
        }
    }
}

/// The counts ordered from most to fewest measurements; equal counts keep
/// their order (a stable sort).
pub fn by_count_descending(m: &Vec<(String, u64)>) -> (r: Vec<(String, u64)>)
    ensures
        r@ == stable_by_count(m@),
        descending(r@),
        r@.len() == m@.len(),
        r@.to_multiset() =~= m@.to_multiset(),
{
    let mut out: Vec<(String, u64)> = Vec::new();
    let mut i: usize = 0;
    assert(m@.take(0) =~= Seq::<(String, u64)>::empty());
    assert(out@ =~= Seq::<(String, u64)>::empty());
    while i < m.len()
        invariant
            i <= m@.len(),
            descending(out@),
            out@.len() == i,
            out@.to_multiset() =~= m@.take(i as int).to_multiset(),
            out@ == stable_by_count(m@.take(i as int)),
        decreases m.len() - i,
    {
        let item = (m[i].0.clone(), m[i].1);
        assert(item == m@[i as int]);
        let mut k: usize = out.len();
        while k > 0 && out[k - 1].1 < item.1
            invariant
                k <= out@.len(),
                descending(out@),
                forall|j: int| k <= j < out@.len() ==> out@[j].1 < item.1,
            decreases k,
        {
            k = k - 1;
        }
        let ghost before = out@;
        proof {
            assert forall|j: int| 0 <= j < k implies before[j].1 >= item.1 by {
                assert(before[j].1 >= before[k - 1].1);
            }
            lemma_ge_count_prefix(before, item.1, k as int);
            assert(m@.take(i as int + 1).drop_last() =~= m@.take(i as int));
            assert(m@.take(i as int + 1).last() == item);
        }
        out.insert(k, item);
        proof {
            assert forall|a: int, b: int| 0 <= a < b < out@.len() implies out@[a].1 >= out@[b].1 by {
                if a < k && b == k {
                    if k > 0 {
                        assert(before[k - 1].1 >= item.1);
                        assert(before[a].1 >= before[k - 1].1 || a == k - 1);
                    }
                } else if a == k && b > k {
                    assert(out@[b] == before[b - 1]);
                } else if a < k && b > k {
                    assert(out@[b] == before[b - 1]);
                } else if a > k {
                    assert(out@[a] == before[a - 1]);
                    assert(out@[b] == before[b - 1]);
                }
            }
            assert(out@ =~= before.insert(k as int, item));
            vstd::seq_lib::to_multiset_insert(before, k as int, item);
            assert(m@.take(i as int + 1) =~= m@.take(i as int).push(item));
            vstd::seq_lib::to_multiset_build(m@.take(i as int), item);
        }
        i = i + 1;
    }
    assert(m@.take(m@.len() as int) =~= m@);
    out
}

// ---------------------------------------------------------------------
// Pause choices
// ---------------------------------------------------------------------

/// The pause durations offered, in order: menu id, label, and minutes
/// (none for an indefinite pause).
pub open spec fn spec_pause_options() -> Seq<(Seq<char>, Seq<char>, Option<u32>)> {
    seq![
        ("pause_30m"@, "30 minutes"@, Some(30u32)),
        ("pause_1h"@, "1 hour"@, Some(60u32)),
        ("pause_4h"@, "4 hours"@, Some(240u32)),
        ("pause_8h"@, "8 hours"@, Some(480u32)),
        ("pause_24h"@, "24 hours"@, Some(1440u32)),
        ("pause_indefinite"@, "Indefinitely"@, None),
    ]
}

/// The pause durations offered, in order.
pub fn pause_options() -> (r: Vec<(&'static str, &'static str, Option<u32>)>)
    ensures
        r@.len() == 6,
        forall|i: int|
            0 <= i < 6 ==> (#[trigger] r@[i]).0@ == spec_pause_options()[i].0 && r@[i].1@
                == spec_pause_options()[i].1 && r@[i].2 == spec_pause_options()[i].2,
{
    let mut v: Vec<(&'static str, &'static str, Option<u32>)> = Vec::new();
    v.push(("pause_30m", "30 minutes", Some(30)));
    v.push(("pause_1h", "1 hour", Some(60)));
    v.push(("pause_4h", "4 hours", Some(240)));
    v.push(("pause_8h", "8 hours", Some(480)));
    v.push(("pause_24h", "24 hours", Some(1440)));
    v.push(("pause_indefinite", "Indefinitely", None));
    v
}

/// The pause that a choice starts at `now`: until `now` plus its minutes,
/// or without end.
pub fn pause_for(minutes: Option<u32>, now: Instant) -> (r: PauseState)
    requires
        minutes matches Some(m) ==> now.secs + m * 60 <= i64::MAX,
    ensures
        r == (match minutes {
            Some(m) => PauseState::Until(Instant { secs: (now.secs + m * 60) as i64, nanos: now.nanos }),
            None => PauseState::Indefinite,
        }),
{
    match minutes {
        Some(m) => {
            let add: i64 = (m as i64) * 60;
            PauseState::Until(Instant { secs: now.secs + add, nanos: now.nanos })
        },
        None => PauseState::Indefinite,
    }
}

// ---------------------------------------------------------------------
// The menu
// ---------------------------------------------------------------------

/// An entry of the tray menu.
#[derive(Debug, Clone)]
pub enum MenuEntry {
    /// Text that cannot be chosen.
    Label(String),
    /// A choice: its id and label.
    Action(String, String),
    /// A line between groups.
    Separator,
    /// A submenu of choices: its label, then each choice's id and label.
    Submenu(String, Vec<(String, String)>),
}

/// A menu entry as its text reads.
pub enum EntryView {
    Label(Seq<char>),
    Action(Seq<char>, Seq<char>),
    Separator,
    Submenu(Seq<char>, Seq<(Seq<char>, Seq<char>)>),
}

impl View for MenuEntry {
    type V = EntryView;

    open spec fn view(&self) -> EntryView {
        match self {
            MenuEntry::Label(s) => EntryView::Label(s@),
            MenuEntry::Action(id, s) => EntryView::Action(id@, s@),
            MenuEntry::Separator => EntryView::Separator,
            MenuEntry::Submenu(s, items) => EntryView::Submenu(
                s@,
                Seq::new(items@.len(), |i: int| (items@[i].0@, items@[i].1@)),
            ),
        }
    }
}

/// The menu entries, as text.
pub open spec fn entries_view(v: Seq<MenuEntry>) -> Seq<EntryView> {
    Seq::new(v.len(), |i: int| v[i]@)
}

/// The lines that list scheduled measurements by type: `  <type>: <count>`.
pub open spec fn count_lines(m: Seq<(String, u64)>) -> Seq<EntryView> {
    Seq::new(m.len(), |i: int| EntryView::Label("  "@ + m[i].0@ + ": "@ + decimal(m[i].1 as nat)))
}

/// The entries shown about a running probe, given its status lines, the
/// uptime text, the total, the counts in the order shown.
pub open spec fn status_entries(
    s: ProbeStatus,
    header: Seq<char>,
    detail: Option<Seq<char>>,
    uptime: Seq<char>,
    total: u64,
    counts: Seq<(String, u64)>,
    daemon_supported: bool,
) -> Seq<EntryView> {
    seq![EntryView::Label(header)] + (match detail {
        Some(d) => seq![EntryView::Label(d)],
        None => seq![],
    }) + (if s.probe_id != 0 {
        seq![EntryView::Label("Probe "@ + decimal(s.probe_id as nat))]
    } else {
        seq![]
    }) + seq![
        EntryView::Label("Uptime: "@ + uptime),
        EntryView::Separator,
        EntryView::Label("Measurements: "@ + decimal(total as nat)),
    ] + count_lines(counts) + seq![EntryView::Separator] + (if s.pause is Some {
        seq![EntryView::Action("resume"@, "Resume measurements"@)]
    } else {
        seq![
            EntryView::Submenu(
                "Pause measurements"@,
                Seq::new(6, |i: int| (spec_pause_options()[i].0, spec_pause_options()[i].1)),
            ),
        ]
    }) + (if daemon_supported {
        seq![
            EntryView::Separator,
            EntryView::Action("restart_daemon"@, "Restart probe"@),
            EntryView::Action("stop_daemon"@, "Stop probe"@),
        ]
    } else {
        seq![]
    })
}

/// The entries at the end of every menu.
pub open spec fn common_entries() -> Seq<EntryView> {
    seq![
        EntryView::Separator,
        EntryView::Action("copy_key"@, "Copy Public Key"@),
        EntryView::Action("open_atlas"@, "Open RIPE Atlas"@),
        EntryView::Separator,
        EntryView::Action("quit"@, "Quit"@),
    ]
}

/// The entries shown while the probe is not running.
pub open spec fn not_running_entries(daemon_supported: bool) -> Seq<EntryView> {
    seq![EntryView::Label("Probe not running"@)] + if daemon_supported {
        seq![EntryView::Action("start_daemon"@, "Start probe"@)]
    } else {
        seq![]
    }
}

fn push_label(menu: &mut Vec<MenuEntry>, text: String)
    ensures
        entries_view(final(menu)@) == entries_view(old(menu)@).push(EntryView::Label(text@)),
{
    menu.push(MenuEntry::Label(text));
    assert(entries_view(menu@) =~= entries_view(old(menu)@).push(EntryView::Label(text@)));
}

fn push_action(menu: &mut Vec<MenuEntry>, id: &str, text: &str)
    ensures
        entries_view(final(menu)@) == entries_view(old(menu)@).push(EntryView::Action(id@, text@)),
{
    menu.push(MenuEntry::Action(String::from_str(id), String::from_str(text)));
    assert(entries_view(menu@) =~= entries_view(old(menu)@).push(EntryView::Action(id@, text@)));
}

fn push_separator(menu: &mut Vec<MenuEntry>)
    ensures
        entries_view(final(menu)@) == entries_view(old(menu)@).push(EntryView::Separator),
{
    menu.push(MenuEntry::Separator);
    assert(entries_view(menu@) =~= entries_view(old(menu)@).push(EntryView::Separator));
}

fn push_count_lines(menu: &mut Vec<MenuEntry>, counts: &Vec<(String, u64)>)
    ensures
        entries_view(final(menu)@) == entries_view(old(menu)@) + count_lines(counts@),
{
    let ghost head = entries_view(menu@);
    let mut i: usize = 0;
    assert(count_lines(counts@.take(0)) =~= Seq::<EntryView>::empty());
    assert(head + Seq::<EntryView>::empty() =~= head);
    while i < counts.len()
        invariant
            i <= counts@.len(),
            head == entries_view(old(menu)@),
            entries_view(menu@) == head + count_lines(counts@.take(i as int)),
        decreases counts.len() - i,
    {
        let mut line = String::from_str("  ");
        line.append(counts[i].0.as_str());
        line.append(": ");
        push_decimal(&mut line, counts[i].1);
        push_label(menu, line);
        assert(count_lines(counts@.take(i as int + 1)) =~= count_lines(counts@.take(i as int)).push(
            EntryView::Label("  "@ + counts@[i as int].0@ + ": "@ + decimal(counts@[i as int].1 as nat)),
        ));
        i = i + 1;
    }
    assert(counts@.take(counts@.len() as int) =~= counts@);
}

/// The submenu of pause choices.
pub open spec fn pause_submenu() -> EntryView {
    EntryView::Submenu(
        "Pause measurements"@,
        Seq::new(6, |i: int| (spec_pause_options()[i].0, spec_pause_options()[i].1)),
    )
}

fn pause_submenu_exec() -> (r: MenuEntry)
    ensures
        r@ == pause_submenu(),
{
    let options = pause_options();
    let mut items: Vec<(String, String)> = Vec::new();
    let mut j: usize = 0;
    while j < options.len()
        invariant
            options@.len() == 6,
            forall|i: int|
                0 <= i < 6 ==> (#[trigger] options@[i]).0@ == spec_pause_options()[i].0
                    && options@[i].1@ == spec_pause_options()[i].1,
            j <= 6,
            items@.len() == j,
            forall|k: int|
                0 <= k < j ==> (#[trigger] items@[k]).0@ == spec_pause_options()[k].0
                    && items@[k].1@ == spec_pause_options()[k].1,
        decreases 6 - j,
    {
        items.push((String::from_str(options[j].0), String::from_str(options[j].1)));
        j = j + 1;
    }
    let r = MenuEntry::Submenu(String::from_str("Pause measurements"), items);
    assert(Seq::new(items@.len(), |i: int| (items@[i].0@, items@[i].1@)) =~= Seq::new(
        6,
        |i: int| (spec_pause_options()[i].0, spec_pause_options()[i].1),
    ));
    r
}

fn push_status_head(menu: &mut Vec<MenuEntry>, s: &ProbeStatus, pause_text: &str)
    requires
        total_count(s.measurements@) <= u64::MAX,
    ensures
        entries_view(final(menu)@) == entries_view(old(menu)@) + seq![
            EntryView::Label(spec_status_lines(*s, pause_text@).0),
        ] + (match spec_status_lines(*s, pause_text@).1 {
            Some(d) => seq![EntryView::Label(d)],
            None => seq![],
        }) + (if s.probe_id != 0 {
            seq![EntryView::Label("Probe "@ + decimal(s.probe_id as nat))]
        } else {
            seq![]
        }) + seq![
            EntryView::Label("Uptime: "@ + spec_format_uptime(s.uptime_secs)),
            EntryView::Separator,
            EntryView::Label("Measurements: "@ + decimal(total_count(s.measurements@) as u64 as nat)),
        ],
{
    let (header, detail) = status_lines(s, pause_text);
    push_label(menu, header);
    let ghost a = entries_view(menu@);
    if let Some(line) = detail {
        push_label(menu, line);
    }
    let ghost b = entries_view(menu@);
    if s.probe_id != 0 {
        let mut t = String::from_str("Probe ");
        push_decimal(&mut t, s.probe_id as u64);
        push_label(menu, t);
    }
    let ghost c = entries_view(menu@);
    let up = format_uptime(s.uptime_secs);
    push_label(menu, uptime_line(up.as_str()));
    push_separator(menu);
    let total = total_measurements(&s.measurements);
    let mut t = String::from_str("Measurements: ");
    push_decimal(&mut t, total);
    push_label(menu, t);
    proof {
        let d = spec_status_lines(*s, pause_text@).1;
        assert(b =~= a + (match d {
            Some(x) => seq![EntryView::Label(x)],
            None => Seq::<EntryView>::empty(),
        }));
        assert(c =~= b + (if s.probe_id != 0 {
            seq![EntryView::Label("Probe "@ + decimal(s.probe_id as nat))]
        } else {
            Seq::<EntryView>::empty()
        }));
    }
    assert(entries_view(menu@) =~= entries_view(old(menu)@) + seq![
        EntryView::Label(spec_status_lines(*s, pause_text@).0),
    ] + (match spec_status_lines(*s, pause_text@).1 {
        Some(d) => seq![EntryView::Label(d)],
        None => seq![],
    }) + (if s.probe_id != 0 {
        seq![EntryView::Label("Probe "@ + decimal(s.probe_id as nat))]
    } else {
        seq![]
    }) + seq![
        EntryView::Label("Uptime: "@ + spec_format_uptime(s.uptime_secs)),
        EntryView::Separator,
        EntryView::Label("Measurements: "@ + decimal(total_count(s.measurements@) as u64 as nat)),
    ]);
}

fn push_status_tail(menu: &mut Vec<MenuEntry>, paused: bool, daemon_supported: bool)
    ensures
        entries_view(final(menu)@) == entries_view(old(menu)@) + seq![EntryView::Separator] + (if paused {
            seq![EntryView::Action("resume"@, "Resume measurements"@)]
        } else {
            seq![pause_submenu()]
        }) + (if daemon_supported {
            seq![
                EntryView::Separator,
                EntryView::Action("restart_daemon"@, "Restart probe"@),
                EntryView::Action("stop_daemon"@, "Stop probe"@),
            ]
        } else {
            seq![]
        }),
{
    push_separator(menu);
    let ghost a = entries_view(menu@);
    if paused {
        push_action(menu, "resume", "Resume measurements");
    } else {
        let e = pause_submenu_exec();
        menu.push(e);
        assert(entries_view(menu@) =~= a.push(pause_submenu()));
    }
    let ghost b = entries_view(menu@);
    if daemon_supported {
        push_separator(menu);
        push_action(menu, "restart_daemon", "Restart probe");
        push_action(menu, "stop_daemon", "Stop probe");
    }
    assert(entries_view(menu@) =~= entries_view(old(menu)@) + seq![EntryView::Separator] + (if paused {
        seq![EntryView::Action("resume"@, "Resume measurements"@)]
    } else {
        seq![pause_submenu()]
    }) + (if daemon_supported {
        seq![
            EntryView::Separator,
            EntryView::Action("restart_daemon"@, "Restart probe"@),
            EntryView::Action("stop_daemon"@, "Stop probe"@),
        ]
    } else {
        seq![]
    }));
}

fn push_common(menu: &mut Vec<MenuEntry>)
    ensures
        entries_view(final(menu)@) == entries_view(old(menu)@) + common_entries(),
{
    push_separator(menu);
    push_action(menu, "copy_key", "Copy Public Key");
    push_action(menu, "open_atlas", "Open RIPE Atlas");
    push_separator(menu);
    push_action(menu, "quit", "Quit");
    assert(entries_view(menu@) =~= entries_view(old(menu)@) + common_entries());
}

/// The menu entries for a status: the status lines, probe id, uptime, the
/// scheduled measurements (most first), pause or resume, the daemon
/// controls where the platform has them, then the entries every menu has.
/// `pause_text` is the pause line; `daemon_supported` whether the daemon
/// can be started and stopped from here.
pub fn build_menu(status: Option<&ProbeStatus>, pause_text: &str, daemon_supported: bool) -> (r: Vec<
    MenuEntry,
>)
    requires
        status matches Some(s) ==> total_count(s.measurements@) <= u64::MAX,
    ensures
        match status {
            Some(s) => exists|counts: Seq<(String, u64)>|
                #![trigger descending(counts)]
                descending(counts) && counts.to_multiset() =~= s.measurements@.to_multiset()
                    && entries_view(r@) == status_entries(
                    *s,
                    spec_status_lines(*s, pause_text@).0,
                    spec_status_lines(*s, pause_text@).1,
                    spec_format_uptime(s.uptime_secs),
                    total_count(s.measurements@) as u64,
                    counts,
                    daemon_supported,
                ) + common_entries(),
            None => entries_view(r@) == not_running_entries(daemon_supported) + common_entries(),
        },
{
    let mut menu: Vec<MenuEntry> = Vec::new();
    assert(entries_view(menu@) =~= Seq::<EntryView>::empty());
    match status {
        Some(s) => {
            push_status_head(&mut menu, s, pause_text);
            let counts = by_count_descending(&s.measurements);
            push_count_lines(&mut menu, &counts);
            push_status_tail(&mut menu, s.pause.is_some(), daemon_supported);
            push_common(&mut menu);
            assert(entries_view(menu@) =~= status_entries(
                *s,
                spec_status_lines(*s, pause_text@).0,
                spec_status_lines(*s, pause_text@).1,
                spec_format_uptime(s.uptime_secs),
                total_count(s.measurements@) as u64,
                counts@,
                daemon_supported,
            ) + common_entries());
            assert(descending(counts@));
        },
        None => {
            push_label(&mut menu, String::from_str("Probe not running"));
            if daemon_supported {
                push_action(&mut menu, "start_daemon", "Start probe");
            }
            push_common(&mut menu);
            assert(entries_view(menu@) =~= not_running_entries(daemon_supported) + common_entries());
        },
    }
    menu
}

// ---------------------------------------------------------------------
// Menu choices
// ---------------------------------------------------------------------

/// What choosing a menu entry asks for.
#[derive(Debug, Clone, Copy, PartialEq, Eq, Structural)]
pub enum MenuAction {
    Quit,
    CopyKey,
    OpenAtlas,
    Resume,
    StartDaemon,
    RestartDaemon,
    StopDaemon,
    /// Pause for this many minutes, or without end.
    Pause(Option<u32>),
    /// The id is not one of the menu's.
    Nothing,
}

/// What the menu entry with id `id` asks for.
pub open spec fn spec_menu_action(id: Seq<char>) -> MenuAction {
    if id == "quit"@ {
        MenuAction::Quit
    } else if id == "copy_key"@ {
        MenuAction::CopyKey
    } else if id == "open_atlas"@ {
        MenuAction::OpenAtlas
    } else if id == "resume"@ {
        MenuAction::Resume
    } else if id == "start_daemon"@ {
        MenuAction::StartDaemon
    } else if id == "restart_daemon"@ {
        MenuAction::RestartDaemon
    } else if id == "stop_daemon"@ {
        MenuAction::StopDaemon
    } else if id == spec_pause_options()[0].0 {
        MenuAction::Pause(spec_pause_options()[0].2)
    } else if id == spec_pause_options()[1].0 {
        MenuAction::Pause(spec_pause_options()[1].2)
    } else if id == spec_pause_options()[2].0 {
        MenuAction::Pause(spec_pause_options()[2].2)
    } else if id == spec_pause_options()[3].0 {
        MenuAction::Pause(spec_pause_options()[3].2)
    } else if id == spec_pause_options()[4].0 {
        MenuAction::Pause(spec_pause_options()[4].2)
    } else if id == spec_pause_options()[5].0 {
        MenuAction::Pause(spec_pause_options()[5].2)
    } else {
        MenuAction::Nothing
    }
}

/// What the menu entry with id `id` asks for.
pub fn menu_action(id: &str) -> (r: MenuAction)
    ensures
        r == spec_menu_action(id@),
{
    if str_eq(id, "quit") {
        return MenuAction::Quit;
    } else if str_eq(id, "copy_key") {
        return MenuAction::CopyKey;
    } else if str_eq(id, "open_atlas") {
        return MenuAction::OpenAtlas;
    } else if str_eq(id, "resume") {
        return MenuAction::Resume;
    } else if str_eq(id, "start_daemon") {
        return MenuAction::StartDaemon;
    } else if str_eq(id, "restart_daemon") {
        return MenuAction::RestartDaemon;
    } else if str_eq(id, "stop_daemon") {
        return MenuAction::StopDaemon;
    }
    let options = pause_options();
    if str_eq(options[0].0, id) {
        return MenuAction::Pause(options[0].2);
    } else if str_eq(options[1].0, id) {
        return MenuAction::Pause(options[1].2);
    } else if str_eq(options[2].0, id) {
        return MenuAction::Pause(options[2].2);
    } else if str_eq(options[3].0, id) {
        return MenuAction::Pause(options[3].2);
    } else if str_eq(options[4].0, id) {
        return MenuAction::Pause(options[4].2);
    } else if str_eq(options[5].0, id) {
        return MenuAction::Pause(options[5].2);
    }
    MenuAction::Nothing
}

// ---------------------------------------------------------------------
// When to redraw
// ---------------------------------------------------------------------

/// Whether `m` lists `name` with `count`.
pub open spec fn lists(m: Seq<(String, u64)>, name: Seq<char>, count: u64) -> bool {
    exists|j: int| 0 <= j < m.len() && m[j].0@ == name && m[j].1 == count
}

/// Whether two lists of counts hold the same names with the same counts.
pub open spec fn same_counts(a: Seq<(String, u64)>, b: Seq<(String, u64)>) -> bool {
    &&& forall|i: int| 0 <= i < a.len() ==> #[trigger] lists(b, a[i].0@, a[i].1)
    &&& forall|i: int| 0 <= i < b.len() ==> #[trigger] lists(a, b[i].0@, b[i].1)
}

fn lists_exec(m: &Vec<(String, u64)>, name: &String, count: u64) -> (r: bool)
    ensures
        r == lists(m@, name@, count),
{
    let mut j: usize = 0;
    while j < m.len()
        invariant
            j <= m@.len(),
            forall|k: int| 0 <= k < j ==> !(m@[k].0@ == name@ && m@[k].1 == count),
        decreases m.len() - j,
    {
        if m[j].1 == count && str_eq(m[j].0.as_str(), name.as_str()) {
            return true;
        }
        j = j + 1;
    }
    false
}

fn all_listed(a: &Vec<(String, u64)>, b: &Vec<(String, u64)>) -> (r: bool)
    ensures
        r == forall|i: int| 0 <= i < a@.len() ==> #[trigger] lists(b@, a@[i].0@, a@[i].1),
{
    let mut i: usize = 0;
    while i < a.len()
        invariant
            i <= a@.len(),
            forall|k: int| 0 <= k < i ==> #[trigger] lists(b@, a@[k].0@, a@[k].1),
        decreases a.len() - i,
    {
        if !lists_exec(b, &a[i].0, a[i].1) {
            return false;
        }
        i = i + 1;
    }
    true
}

fn same_text(a: &Option<String>, b: &Option<String>) -> (r: bool)
    ensures
        r == (crate::paths::opt_seq(*a) == crate::paths::opt_seq(*b)),
{
    match (a, b) {
        (Some(x), Some(y)) => str_eq(x.as_str(), y.as_str()),
        (None, None) => true,
        _ => false,
    }
}

/// Whether two statuses show the same menu: same id, connection, pause,
/// error, key, uptime in minutes, and counts. The queue depth is not
/// shown and not compared.
pub open spec fn spec_status_equivalent(a: ProbeStatus, b: ProbeStatus) -> bool {
    &&& a.probe_id == b.probe_id
    &&& a.connected == b.connected
    &&& a.pause == b.pause
    &&& crate::paths::opt_seq(a.last_connection_error) == crate::paths::opt_seq(b.last_connection_error)
    &&& crate::paths::opt_seq(a.public_key) == crate::paths::opt_seq(b.public_key)
    &&& a.uptime_secs / 60 == b.uptime_secs / 60
    &&& same_counts(a.measurements@, b.measurements@)
}

/// Whether two statuses show the same menu.
pub fn status_equivalent(a: &ProbeStatus, b: &ProbeStatus) -> (r: bool)
    ensures
        r == spec_status_equivalent(*a, *b),
{
    a.probe_id == b.probe_id && a.connected == b.connected && a.pause == b.pause && same_text(
        &a.last_connection_error,
        &b.last_connection_error,
    ) && same_text(&a.public_key, &b.public_key) && a.uptime_secs / 60 == b.uptime_secs / 60
        && all_listed(&a.measurements, &b.measurements) && all_listed(
        &b.measurements,
        &a.measurements,
    )
}

/// A status shows the same menu as itself.
pub proof fn lemma_status_equivalent_reflexive(a: ProbeStatus)
    ensures
        spec_status_equivalent(a, a),
{
    assert forall|i: int| 0 <= i < a.measurements@.len() implies #[trigger] lists(
        a.measurements@,
        a.measurements@[i].0@,
        a.measurements@[i].1,
    ) by {
        assert(a.measurements@[i].0@ == a.measurements@[i].0@);
    }
}

} // verus!
