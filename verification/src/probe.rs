//! The probe's own decisions around its connections and commands: what a
//! command from the controller asks the scheduler, how registration and the
//! controller's INIT answers are followed up, and how long to wait before
//! trying again.
use crate::ssh::{ControllerInfo, InitError, InitResponse};
use crate::telnet::{ScheduleSpec, TelnetCommand};
use crate::text::{decimal, push_decimal};
use vstd::prelude::*;

verus! {

// ---------------------------------------------------------------------
// Commands to the scheduler
// ---------------------------------------------------------------------

/// When a measurement runs: its id, the interval (0 for once), the start
/// and end times, and the spread in seconds.
#[derive(Debug, Clone, Copy, PartialEq, Eq, Structural)]
pub struct JobTiming {
    pub msm_id: u64,
    pub interval: u64,
    pub start_time: i64,
    pub end_time: i64,
    pub spread: u64,
}

/// What a command asks of the scheduler.
#[derive(Debug, Clone, Copy, PartialEq, Eq, Structural)]
pub enum Dispatch {
    /// Add a recurring measurement.
    Schedule(JobTiming),
    /// Run a measurement once, now.
    ExecuteNow(JobTiming),
    /// Stop the measurement with this id.
    Stop(u64),
    /// Nothing (a status query, an ignored or unknown command).
    Nothing,
}

/// The timing of a measurement command.
pub open spec fn spec_timing(msm_id: u64, schedule: ScheduleSpec, spread: Option<u32>) -> JobTiming {
    JobTiming {
        msm_id,
        interval: schedule.interval,
        start_time: schedule.start_time,
        end_time: schedule.stop_time,
        spread: match spread {
            Some(s) => s as u64,
            None => 0,
        },
    }
}

/// A measurement recurs when it has an interval; else it runs once.
pub open spec fn spec_job(t: JobTiming) -> Dispatch {
    if t.interval > 0 {
        Dispatch::Schedule(t)
    } else {
        Dispatch::ExecuteNow(t)
    }
}

/// What `cmd` asks of the scheduler.
pub open spec fn spec_dispatch(cmd: TelnetCommand) -> Dispatch {
    match cmd {
        TelnetCommand::Ping(s) => spec_job(spec_timing(s.msm_id, s.schedule, s.spread)),
        TelnetCommand::Traceroute(s) => spec_job(spec_timing(s.msm_id, s.schedule, s.spread)),
        TelnetCommand::Dns(s) => spec_job(spec_timing(s.msm_id, s.schedule, s.spread)),
        TelnetCommand::Http(s) => spec_job(spec_timing(s.msm_id, s.schedule, s.spread)),
        TelnetCommand::Tls(s) => spec_job(spec_timing(s.msm_id, s.schedule, s.spread)),
        TelnetCommand::Ntp(s) => spec_job(spec_timing(s.msm_id, s.schedule, s.spread)),
        TelnetCommand::Stop(id) => Dispatch::Stop(id),
        _ => Dispatch::Nothing,
    }
}

fn timing(msm_id: u64, schedule: ScheduleSpec, spread: Option<u32>) -> (r: JobTiming)
    ensures
        r == spec_timing(msm_id, schedule, spread),
{
    JobTiming {
        msm_id,
        interval: schedule.interval,
        start_time: schedule.start_time,
        end_time: schedule.stop_time,
        spread: match spread {
            Some(s) => s as u64,
            None => 0,
        },
    }
}

fn job(t: JobTiming) -> (r: Dispatch)
    ensures
        r == spec_job(t),
{
    if t.interval > 0 {
        Dispatch::Schedule(t)
    } else {
        Dispatch::ExecuteNow(t)
    }
}

/// Decides what the scheduler is asked for a command from the controller.
pub fn dispatch(cmd: &TelnetCommand) -> (r: Dispatch)
    ensures
        r == spec_dispatch(*cmd),
{
    match cmd {
        TelnetCommand::Ping(s) => job(timing(s.msm_id, s.schedule, s.spread)),
        TelnetCommand::Traceroute(s) => job(timing(s.msm_id, s.schedule, s.spread)),
        TelnetCommand::Dns(s) => job(timing(s.msm_id, s.schedule, s.spread)),
        TelnetCommand::Http(s) => job(timing(s.msm_id, s.schedule, s.spread)),
        TelnetCommand::Tls(s) => job(timing(s.msm_id, s.schedule, s.spread)),
        TelnetCommand::Ntp(s) => job(timing(s.msm_id, s.schedule, s.spread)),
        TelnetCommand::Stop(id) => Dispatch::Stop(*id),
        _ => Dispatch::Nothing,
    }
}

/// The names under which a measurement command is counted: the name in the
/// log of scheduled measurements, and the name in the metrics (TLS counts as
/// `sslcert` there).
pub open spec fn spec_job_names(cmd: TelnetCommand) -> Option<(Seq<char>, Seq<char>)> {
    match cmd {
        TelnetCommand::Ping(_) => Some(("ping"@, "ping"@)),
        TelnetCommand::Traceroute(_) => Some(("traceroute"@, "traceroute"@)),
        TelnetCommand::Dns(_) => Some(("dns"@, "dns"@)),
        TelnetCommand::Http(_) => Some(("http"@, "http"@)),
        TelnetCommand::Tls(_) => Some(("tls"@, "sslcert"@)),
        TelnetCommand::Ntp(_) => Some(("ntp"@, "ntp"@)),
        _ => None,
    }
}

/// The log and metric names of a measurement command; `None` for other
/// commands.
pub fn job_names(cmd: &TelnetCommand) -> (r: Option<(&'static str, &'static str)>)
    ensures
        match r {
            Some((a, b)) => spec_job_names(*cmd) == Some((a@, b@)),
            None => spec_job_names(*cmd) is None,
        },
{
    match cmd {
        TelnetCommand::Ping(_) => Some(("ping", "ping")),
        TelnetCommand::Traceroute(_) => Some(("traceroute", "traceroute")),
        TelnetCommand::Dns(_) => Some(("dns", "dns")),
        TelnetCommand::Http(_) => Some(("http", "http")),
        TelnetCommand::Tls(_) => Some(("tls", "sslcert")),
        TelnetCommand::Ntp(_) => Some(("ntp", "ntp")),
        _ => None,
    }
}

// ---------------------------------------------------------------------
// Waiting before another try
// ---------------------------------------------------------------------

/// A delay that doubles after each wait, up to a limit, and starts over
/// from five seconds after a success.
#[derive(Debug, Clone, Copy, PartialEq, Eq, Structural)]
pub struct Backoff {
    pub delay_secs: u64,
    pub max_secs: u64,
}

/// The first delay of a backoff.
pub const INITIAL_DELAY_SECS: u64 = 5;

/// The delay after `d`: doubled, at most `max`.
pub open spec fn doubled(d: u64, max: u64) -> u64 {
    if d * 2 < max {
        (d * 2) as u64
    } else {
        max
    }
}

impl Backoff {
    /// A backoff from five seconds up to `max_secs`.
    pub fn new(max_secs: u64) -> (r: Self)
        requires
            max_secs >= INITIAL_DELAY_SECS,
        ensures
            r.delay_secs == INITIAL_DELAY_SECS,
            r.max_secs == max_secs,
    {
        Backoff { delay_secs: INITIAL_DELAY_SECS, max_secs }
    }

    /// The delay to wait now; the next one is doubled, up to the limit.
    pub fn wait(&mut self) -> (secs: u64)
        requires
            old(self).delay_secs <= old(self).max_secs,
        ensures
            secs == old(self).delay_secs,
            final(self).max_secs == old(self).max_secs,
            final(self).delay_secs == doubled(old(self).delay_secs, old(self).max_secs),
            final(self).delay_secs <= final(self).max_secs,
    {
        let secs = self.delay_secs;
        self.delay_secs = if self.delay_secs < self.max_secs / 2 + self.max_secs % 2 {
            self.delay_secs * 2
        } else {
            self.max_secs
        };
        secs
    }

    /// A success: the next delay is five seconds again.
    pub fn reset(&mut self)
        requires
            old(self).max_secs >= INITIAL_DELAY_SECS,
        ensures
            final(self).delay_secs == INITIAL_DELAY_SECS,
            final(self).max_secs == old(self).max_secs,
    {
        self.delay_secs = INITIAL_DELAY_SECS;
    }
}

/// However many failures come in a row, the delay never exceeds its limit
/// and, from the start, it is at least five seconds.
pub proof fn lemma_backoff_bounded(d: u64, max: u64)
    requires
        INITIAL_DELAY_SECS <= d <= max,
    ensures
        INITIAL_DELAY_SECS <= doubled(d, max) <= max,
{
}

// ---------------------------------------------------------------------
// Registration
// ---------------------------------------------------------------------

/// The longest wait between attempts to register.
pub const MAX_REGISTRATION_DELAY_SECS: u64 = 300;

/// The status text while the probe key waits for approval.
pub const KEY_NOT_APPROVED: &'static str =
    "Probe key not yet approved by RIPE Atlas \u{2014} register the public key above";

/// What the probe does after an attempt to register.
#[derive(Debug, Clone)]
pub enum RegistrationStep {
    /// Go on with the controller that was assigned.
    UseController(ControllerInfo),
    /// Wait this many seconds and try again; show the public key first when
    /// `show_key` (only the first time), and report `note` as the last
    /// connection problem when there is one.
    Retry { secs: u64, show_key: bool, note: Option<String> },
}

/// Registration with the registration servers: the wait before the next
/// attempt, and whether the public key was shown already.
#[derive(Debug, Clone, Copy, PartialEq, Eq, Structural)]
pub struct Registration {
    pub backoff: Backoff,
    pub key_shown: bool,
}

/// Whether an INIT answer assigns a controller.
pub open spec fn assigns_controller(a: Result<InitResponse, InitError>) -> bool {
    match a {
        Ok(InitResponse::Controller(_)) => true,
        _ => false,
    }
}

/// Whether an INIT answer says that the key is known but not approved yet:
/// a plain OK or a WAIT.
pub open spec fn means_not_approved(a: Result<InitResponse, InitError>) -> bool {
    match a {
        Ok(InitResponse::Acknowledged) => true,
        Ok(InitResponse::Wait { .. }) => true,
        _ => false,
    }
}

impl Registration {
    /// Nothing tried yet.
    pub fn new() -> (r: Self)
        ensures
            r.backoff == (Backoff { delay_secs: INITIAL_DELAY_SECS, max_secs: MAX_REGISTRATION_DELAY_SECS }),
            !r.key_shown,
    {
        Registration { backoff: Backoff::new(MAX_REGISTRATION_DELAY_SECS), key_shown: false }
    }

    /// The invariant: the delay lies between five seconds and the limit.
    pub open spec fn wf(&self) -> bool {
        &&& self.backoff.max_secs == MAX_REGISTRATION_DELAY_SECS
        &&& INITIAL_DELAY_SECS <= self.backoff.delay_secs <= MAX_REGISTRATION_DELAY_SECS
    }

    fn retry(&mut self, note: Option<String>) -> (r: RegistrationStep)
        requires
            old(self).wf(),
        ensures
            final(self).wf(),
            final(self).key_shown,
            final(self).backoff.delay_secs == doubled(old(self).backoff.delay_secs, MAX_REGISTRATION_DELAY_SECS),
            r matches RegistrationStep::Retry { secs, show_key, note: n } && secs == old(self).backoff.delay_secs
                && show_key == !old(self).key_shown && n == note,
    {
        let show_key = !self.key_shown;
        self.key_shown = true;
        let secs = self.backoff.wait();
        RegistrationStep::Retry { secs, show_key, note }
    }

    /// No registration server could be reached (the error's text is
    /// `error`): wait and try again.
    pub fn on_connect_failed(&mut self, error: String) -> (r: RegistrationStep)
        requires
            old(self).wf(),
        ensures
            final(self).wf(),
            final(self).key_shown,
            final(self).backoff.delay_secs == doubled(old(self).backoff.delay_secs, MAX_REGISTRATION_DELAY_SECS),
            r matches RegistrationStep::Retry { secs, show_key, note } && secs == old(self).backoff.delay_secs
                && show_key == !old(self).key_shown && note == Some(error),
    {
        self.retry(Some(error))
    }

    /// A registration server was reached: the wait starts over.
    pub fn on_connected(&mut self)
        requires
            old(self).wf(),
        ensures
            final(self).wf(),
            final(self).key_shown == old(self).key_shown,
            final(self).backoff.delay_secs == INITIAL_DELAY_SECS,
    {
        self.backoff.reset();
    }

    /// The server's answer to INIT. A controller assignment ends
    /// registration. A plain OK or a WAIT means that the key is not approved
    /// yet; any other answer is passed over; in both cases the probe waits and
    /// tries again.
    pub fn on_init(&mut self, answer: Result<InitResponse, InitError>) -> (r: RegistrationStep)
        requires
            old(self).wf(),
        ensures
            final(self).wf(),
            answer matches Ok(InitResponse::Controller(info)) ==> r matches RegistrationStep::UseController(i)
                && i.host@ == info.host@ && i.port == info.port && i.probe_id == info.probe_id
                && *final(self) == *old(self),
            !assigns_controller(answer) ==> {
                &&& r is Retry
                &&& r->secs == old(self).backoff.delay_secs
                &&& final(self).backoff.delay_secs == doubled(
                    old(self).backoff.delay_secs,
                    MAX_REGISTRATION_DELAY_SECS,
                )
                &&& means_not_approved(answer) ==> r->show_key == !old(self).key_shown
                    && final(self).key_shown && r->note is Some && r->note.unwrap()@
                    == KEY_NOT_APPROVED@
                &&& !means_not_approved(answer) ==> !r->show_key && final(self).key_shown
                    == old(self).key_shown && r->note is None
            },
    {
        match answer {
            Ok(InitResponse::Controller(info)) => RegistrationStep::UseController(info),
            Ok(InitResponse::Acknowledged) | Ok(InitResponse::Wait { .. }) => {
                self.retry(Some(String::from_str(KEY_NOT_APPROVED)))
            },
            _ => {
                let secs = self.backoff.wait();
                RegistrationStep::Retry { secs, show_key: false, note: None }
            },
        }
    }
}

/// The controller's address as the status shows it: `host:port`.
pub fn controller_address(info: &ControllerInfo) -> (r: String)
    ensures
        r@ == info.host@ + ":"@ + decimal(info.port as nat),
{
    let mut s = info.host.clone();
    s.append(":");
    push_decimal(&mut s, info.port as u64);
    s
}

// ---------------------------------------------------------------------
// The controller's INIT
// ---------------------------------------------------------------------

/// What the probe does after the controller answered INIT.
#[derive(Debug, Clone)]
pub enum ControllerStep {
    /// The controller is ready: open the reverse tunnel on this port and
    /// use this session id.
    Ready { remote_port: u16, session_id: String },
    /// Wait this many seconds, then ask again if still connected.
    AskAgainAfter(u64),
    /// Give up: the answer cannot be followed.
    GiveUp,
}

/// Seconds to wait after a plain OK from the controller.
pub const CONTROLLER_OK_WAIT_SECS: u64 = 30;

/// Follows up the controller's answer to INIT: ready, wait as told (30
/// seconds after a plain OK), or give up on a controller assignment (a
/// controller does not assign one) or an unreadable answer.
pub fn controller_step(answer: Result<InitResponse, InitError>) -> (r: ControllerStep)
    ensures
        match answer {
            Ok(InitResponse::ControllerReady { remote_port, session_id }) => r matches ControllerStep::Ready {
                remote_port: p,
                session_id: s,
            } && p == remote_port && s@ == session_id@,
            Ok(InitResponse::Wait { timeout_secs }) => r == ControllerStep::AskAgainAfter(timeout_secs as u64),
            Ok(InitResponse::Acknowledged) => r == ControllerStep::AskAgainAfter(CONTROLLER_OK_WAIT_SECS),
            _ => r is GiveUp,
        },
{
    match answer {
        Ok(InitResponse::ControllerReady { remote_port, session_id }) => ControllerStep::Ready {
            remote_port,
            session_id,
        },
        Ok(InitResponse::Wait { timeout_secs }) => ControllerStep::AskAgainAfter(timeout_secs as u64),
        Ok(InitResponse::Acknowledged) => ControllerStep::AskAgainAfter(CONTROLLER_OK_WAIT_SECS),
        _ => ControllerStep::GiveUp,
    }
}

/// The path under which results are posted to the controller:
/// `/?PROBE_ID=<id>&SESSION_ID=<session>`.
pub fn endpoint_path(probe_id: u32, session_id: &str) -> (r: String)
    ensures
        r@ == "/?PROBE_ID="@ + decimal(probe_id as nat) + "&SESSION_ID="@ + session_id@,
{
    let mut s = String::from_str("/?PROBE_ID=");
    push_decimal(&mut s, probe_id as u64);
    s.append("&SESSION_ID=");
    s.append(session_id);
    s
}

/// The probe id kept after a controller assignment: the assigned one, unless
/// it is 0.
pub fn assigned_probe_id(current: u32, assigned: u32) -> (r: u32)
    ensures
        r == (if assigned != 0 {
            assigned
        } else {
            current
        }),
{
    if assigned != 0 {
        assigned
    } else {
        current
    }
}

/// The probe's uptime in seconds: from its start to `now`, 0 if the clock
/// went back.
pub fn uptime_secs(now: u64, start: u64) -> (r: u64)
    ensures
        r == (if now >= start {
            (now - start) as u64
        } else {
            0
        }),
{
    if now >= start {
        now - start
    } else {
        0
    }
}

} // verus!
