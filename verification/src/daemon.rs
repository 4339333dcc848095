//! Starting, stopping and restarting the probe daemon from the tray.
//!
//! The daemon runs under the platform's service manager (launchd on
//! macOS, `systemd --user` on Linux), so these controls drive that manager
//! and never own the daemon process. Each control is a short task: it
//! names a service manager command to run, and what comes next depends on
//! whether that command succeeded. The caller runs the commands.
use crate::text::{decimal, push_decimal};
use vstd::prelude::*;

verus! {

/// The platform the tray runs on, as far as daemon controls care.
#[derive(Debug, Clone, Copy, PartialEq, Eq, Structural)]
pub enum Platform {
    MacOs,
    Linux,
    Other,
}

/// Whether the daemon can be controlled on `p`.
pub fn supported(p: Platform) -> (r: bool)
    ensures
        r == (p == Platform::MacOs || p == Platform::Linux),
{
    match p {
        Platform::MacOs => true,
        Platform::Linux => true,
        Platform::Other => false,
    }
}

/// The launchd label of the probe's LaunchAgent.
pub open spec fn launchd_label() -> Seq<char> {
    "com.ananthb.starla"@
}

/// The launchd domain of the user: `gui/<uid>`.
pub open spec fn spec_launchd_domain(uid: u32) -> Seq<char> {
    "gui/"@ + decimal(uid as nat)
}

/// The launchd service target: `gui/<uid>/com.ananthb.starla`.
pub open spec fn spec_launchd_target(uid: u32) -> Seq<char> {
    spec_launchd_domain(uid) + "/"@ + launchd_label()
}

/// The launchd domain of the user.
pub fn launchd_domain(uid: u32) -> (r: String)
    ensures
        r@ == spec_launchd_domain(uid),
{
    let mut s = String::from_str("gui/");
    push_decimal(&mut s, uid as u64);
    s
}

/// The launchd service target of the probe's agent.
pub fn launchd_target(uid: u32) -> (r: String)
    ensures
        r@ == spec_launchd_target(uid),
{
    let mut s = launchd_domain(uid);
    s.append("/");
    s.append("com.ananthb.starla");
    s
}

/// Where the probe's LaunchAgent plist lies under the home directory.
pub fn plist_path(home: &str) -> (r: String)
    ensures
        r@ == crate::paths::spec_join(
            crate::paths::spec_join(home@, "Library/LaunchAgents"@),
            "com.ananthb.starla.plist"@,
        ),
{
    let dir = crate::paths::join_path(home, "Library/LaunchAgents");
    crate::paths::join_path(dir.as_str(), "com.ananthb.starla.plist")
}

/// A service manager command: the program and its arguments.
#[derive(Debug, Clone)]
pub struct ServiceCommand {
    pub program: String,
    pub args: Vec<String>,
}

/// A `ServiceCommand` as text.
pub struct CommandView {
    pub program: Seq<char>,
    pub args: Seq<Seq<char>>,
}

impl View for ServiceCommand {
    type V = CommandView;

    open spec fn view(&self) -> CommandView {
        CommandView { program: self.program@, args: self.args.deep_view() }
    }
}

/// A `launchctl` command.
pub open spec fn launchctl(args: Seq<Seq<char>>) -> CommandView {
    CommandView { program: "launchctl"@, args }
}

/// A `systemctl --user` command on the probe's unit.
pub open spec fn systemctl(action: Seq<char>) -> CommandView {
    CommandView { program: "systemctl"@, args: seq!["--user"@, action, "starla"@] }
}

fn launchctl_exec(args: Vec<String>) -> (r: ServiceCommand)
    ensures
        r@ == launchctl(args.deep_view()),
{
    ServiceCommand { program: String::from_str("launchctl"), args }
}

/// Runs `systemctl --user <action> starla`, preferring the user unit: a
/// system unit would ask for a password from the tray.
pub fn run_systemctl(action: &str) -> (r: ServiceCommand)
    ensures
        r@ == systemctl(action@),
{
    let mut args: Vec<String> = Vec::new();
    args.push(String::from_str("--user"));
    args.push(String::from_str(action));
    args.push(String::from_str("starla"));
    let r = ServiceCommand { program: String::from_str("systemctl"), args };
    assert(r@.args =~= seq!["--user"@, action@, "starla"@]);
    r
}

/// Runs `launchctl` with `args`.
pub fn run_launchctl(args: Vec<String>) -> (r: ServiceCommand)
    ensures
        r@ == launchctl(args.deep_view()),
{
    launchctl_exec(args)
}

/// Which control a task carries out.
#[derive(Debug, Clone, Copy, PartialEq, Eq, Structural)]
pub enum DaemonOp {
    Start,
    Stop,
    Restart,
}

/// Where a task stands: which command it last asked for.
#[derive(Debug, Clone, Copy, PartialEq, Eq, Structural)]
pub enum Stage {
    /// Nothing asked for yet.
    Begin,
    /// `launchctl kickstart`, starting the agent if loaded.
    Kickstart,
    /// `launchctl bootstrap`, loading the agent.
    Bootstrap,
    /// `launchctl bootout` to stop.
    Bootout,
    /// `launchctl kickstart -k`, restarting a loaded agent.
    KickRestart,
    /// `launchctl bootout` before starting again.
    BootoutForRestart,
    /// The one `systemctl` command.
    Systemctl,
    /// Finished.
    End,
}

/// What to do next.
#[derive(Debug, Clone)]
pub enum DaemonStep {
    /// Run this command and report whether it succeeded.
    Run(ServiceCommand),
    /// The control succeeded.
    Done,
    /// The control failed: the command just run failed, and its failure is
    /// the answer.
    CommandFailed,
    /// The control failed for this reason.
    Failed(String),
}

/// A `DaemonStep` as text.
pub enum StepView {
    Run(CommandView),
    Done,
    CommandFailed,
    Failed(Seq<char>),
}

impl View for DaemonStep {
    type V = StepView;

    open spec fn view(&self) -> StepView {
        match self {
            DaemonStep::Run(c) => StepView::Run(c@),
            DaemonStep::Done => StepView::Done,
            DaemonStep::CommandFailed => StepView::CommandFailed,
            DaemonStep::Failed(s) => StepView::Failed(s@),
        }
    }
}

/// A daemon control in progress.
#[derive(Debug, Clone)]
pub struct DaemonTask {
    pub op: DaemonOp,
    pub platform: Platform,
    /// The user id (launchd's domain is the user's)
    pub uid: u32,
    /// The LaunchAgent plist, when it exists
    pub plist: Option<String>,
    pub stage: Stage,
}

/// The message when no LaunchAgent plist can be loaded.
pub open spec fn no_plist_message() -> Seq<char> {
    "no LaunchAgent plist found at ~/Library/LaunchAgents/com.ananthb.starla.plist"@
}

/// The message on platforms without daemon controls.
pub open spec fn unsupported_message() -> Seq<char> {
    "daemon controls are not supported on this platform"@
}

/// The next stage and step of a task, given whether the command of the
/// current stage succeeded.
pub open spec fn spec_next(t: DaemonTask, ok: bool) -> (Stage, StepView) {
    let target = spec_launchd_target(t.uid);
    match t.stage {
        Stage::Begin => match t.platform {
            Platform::MacOs => match t.op {
                DaemonOp::Start => (Stage::Kickstart, StepView::Run(launchctl(seq!["kickstart"@, target]))),
                DaemonOp::Stop => (Stage::Bootout, StepView::Run(launchctl(seq!["bootout"@, target]))),
                DaemonOp::Restart => (
                    Stage::KickRestart,
                    StepView::Run(launchctl(seq!["kickstart"@, "-k"@, target])),
                ),
            },
            Platform::Linux => (
                Stage::Systemctl,
                StepView::Run(
                    systemctl(
                        match t.op {
                            DaemonOp::Start => "start"@,
                            DaemonOp::Stop => "stop"@,
                            DaemonOp::Restart => "restart"@,
                        },
                    ),
                ),
            ),
            Platform::Other => (Stage::End, StepView::Failed(unsupported_message())),
        },
        Stage::Kickstart => if ok {
            (Stage::End, StepView::Done)
        } else {
            match t.plist {
                Some(p) => (
                    Stage::Bootstrap,
                    StepView::Run(launchctl(seq!["bootstrap"@, spec_launchd_domain(t.uid), p@])),
                ),
                None => (Stage::End, StepView::Failed(no_plist_message())),
            }
        },
        Stage::KickRestart => if ok {
            (Stage::End, StepView::Done)
        } else {
            (Stage::BootoutForRestart, StepView::Run(launchctl(seq!["bootout"@, target])))
        },
        Stage::BootoutForRestart => (
            Stage::Kickstart,
            StepView::Run(launchctl(seq!["kickstart"@, target])),
        ),
        Stage::End => (Stage::End, StepView::Done),
        _ => if ok {
            (Stage::End, StepView::Done)
        } else {
            (Stage::End, StepView::CommandFailed)
        },
    }
}

fn args2(a: &str, b: String) -> (r: Vec<String>)
    ensures
        r.deep_view() == seq![a@, b@],
{
    let mut v: Vec<String> = Vec::new();
    v.push(String::from_str(a));
    v.push(b);
    assert(v.deep_view() =~= seq![a@, b@]);
    v
}

fn args3(a: &str, b: String, c: String) -> (r: Vec<String>)
    ensures
        r.deep_view() == seq![a@, b@, c@],
{
    let mut v: Vec<String> = Vec::new();
    v.push(String::from_str(a));
    v.push(b);
    v.push(c);
    assert(v.deep_view() =~= seq![a@, b@, c@]);
    v
}

/// Starts (or loads) the probe daemon: on macOS `kickstart`s the agent,
/// and when that fails `bootstrap`s its plist; on Linux
/// `systemctl --user start starla`.
pub fn start(platform: Platform, uid: u32, plist: Option<String>) -> (r: DaemonTask)
    ensures
        r.op == DaemonOp::Start && r.platform == platform && r.uid == uid && r.plist == plist
            && r.stage == Stage::Begin,
{
    DaemonTask { op: DaemonOp::Start, platform, uid, plist, stage: Stage::Begin }
}

/// Stops the probe daemon: on macOS `bootout`s the agent, so that launchd
/// does not start it again until the user does; on Linux
/// `systemctl --user stop starla`.
pub fn stop(platform: Platform, uid: u32, plist: Option<String>) -> (r: DaemonTask)
    ensures
        r.op == DaemonOp::Stop && r.platform == platform && r.uid == uid && r.plist == plist
            && r.stage == Stage::Begin,
{
    DaemonTask { op: DaemonOp::Stop, platform, uid, plist, stage: Stage::Begin }
}

/// Restarts the probe daemon: on macOS `kickstart -k`, and when the agent
/// is not loaded a stop and a start; on Linux
/// `systemctl --user restart starla`.
pub fn restart(platform: Platform, uid: u32, plist: Option<String>) -> (r: DaemonTask)
    ensures
        r.op == DaemonOp::Restart && r.platform == platform && r.uid == uid && r.plist == plist
            && r.stage == Stage::Begin,
{
    DaemonTask { op: DaemonOp::Restart, platform, uid, plist, stage: Stage::Begin }
}

impl DaemonTask {
    /// The next step, given whether the command last run succeeded (read
    /// only in stages that ran a command).
    pub fn next(&mut self, ok: bool) -> (r: DaemonStep)
        ensures
            (final(self).stage, r@) == spec_next(*old(self), ok),
            final(self).op == old(self).op,
            final(self).platform == old(self).platform,
            final(self).uid == old(self).uid,
            final(self).plist == old(self).plist,
    {
        match self.stage {
            Stage::Begin => match self.platform {
                Platform::MacOs => match self.op {
                    DaemonOp::Start => {
                        self.stage = Stage::Kickstart;
                        DaemonStep::Run(launchctl_exec(args2("kickstart", launchd_target(self.uid))))
                    },
                    DaemonOp::Stop => {
                        self.stage = Stage::Bootout;
                        DaemonStep::Run(launchctl_exec(args2("bootout", launchd_target(self.uid))))
                    },
                    DaemonOp::Restart => {
                        self.stage = Stage::KickRestart;
                        let v = args3("kickstart", String::from_str("-k"), launchd_target(self.uid));
                        DaemonStep::Run(launchctl_exec(v))
                    },
                },
                Platform::Linux => {
                    self.stage = Stage::Systemctl;
                    let action = match self.op {
                        DaemonOp::Start => "start",
                        DaemonOp::Stop => "stop",
                        DaemonOp::Restart => "restart",
                    };
                    DaemonStep::Run(run_systemctl(action))
                },
                Platform::Other => {
                    self.stage = Stage::End;
                    DaemonStep::Failed(
                        String::from_str("daemon controls are not supported on this platform"),
                    )
                },
            },
            Stage::Kickstart => {
                if ok {
                    self.stage = Stage::End;
                    DaemonStep::Done
                } else {
                    match &self.plist {
                        Some(p) => {
                            let step = DaemonStep::Run(
                                launchctl_exec(
                                    args3("bootstrap", launchd_domain(self.uid), p.clone()),
                                ),
                            );
                            self.stage = Stage::Bootstrap;
                            step
                        },
                        None => {
                            self.stage = Stage::End;
                            DaemonStep::Failed(
                                String::from_str(
                                    "no LaunchAgent plist found at ~/Library/LaunchAgents/com.ananthb.starla.plist",
                                ),
                            )
                        },
                    }
                }
            },
            Stage::KickRestart => {
                if ok {
                    self.stage = Stage::End;
                    DaemonStep::Done
                } else {
                    self.stage = Stage::BootoutForRestart;
                    DaemonStep::Run(launchctl_exec(args2("bootout", launchd_target(self.uid))))
                }
            },
            Stage::BootoutForRestart => {
                self.stage = Stage::Kickstart;
                DaemonStep::Run(launchctl_exec(args2("kickstart", launchd_target(self.uid))))
            },
            Stage::End => DaemonStep::Done,
            _ => {
                self.stage = Stage::End;
                if ok {
                    DaemonStep::Done
                } else {
                    DaemonStep::CommandFailed
                }
            },
        }
    }
}

/// How many more commands a task can ask for at most from a stage.
pub open spec fn commands_left(s: Stage) -> nat {
    match s {
        Stage::Begin => 4,
        Stage::KickRestart => 3,
        Stage::BootoutForRestart => 2,
        Stage::Kickstart => 1,
        _ => 0,
    }
}

/// Every control finishes: each step that asks for a command leaves fewer
/// commands to ask for, so a task asks for at most four and then ends.
pub proof fn lemma_task_finishes(t: DaemonTask, ok: bool)
    ensures
        spec_next(t, ok).1 is Run ==> commands_left(spec_next(t, ok).0) < commands_left(t.stage),
        !(spec_next(t, ok).1 is Run) ==> spec_next(t, ok).0 == Stage::End,
{
}

} // verus!
