//! One telnet connection from the controller, as a state machine: the
//! login name, the password (the session id that the controller handed
//! out), then command lines. The caller does the reading and writing and
//! hands over what arrived; each line gives back what to do.
use crate::command::{parse_command, spec_command};
use crate::telnet::{
    filter_telnet_bytes, telnet_data_from, CommandView, TelnetCommand, DO, IAC, TELOPT_ECHO,
    TELOPT_NAWS, TELOPT_SGA, WILL,
};
use crate::text::{
    chars_of, concat, decimal, push_decimal, spec_trim, spec_utf8_lossy, str_eq,
    string_of_range, trim, utf8_lossy,
};
use vstd::prelude::*;

verus! {

/// Where a connection stands in the Atlas login.
#[derive(Debug, Clone, Copy, PartialEq, Eq, Structural)]
pub enum ConnectionState {
    /// Waiting for the login name
    AwaitingLoginName,
    /// Waiting for the password (the session id)
    AwaitingPassword,
    /// Logged in; lines are commands
    Authenticated,
}

/// What to do after a line.
#[derive(Debug)]
pub enum LineOutcome {
    /// Nothing: the line was empty.
    Nothing,
    /// Send the text and read on.
    Reply(String),
    /// Send the text, then close the connection.
    ReplyAndClose(String),
    /// Close the connection without a word.
    Close,
    /// Send the text and hand the command to the measurement side.
    Forward(String, TelnetCommand),
}

/// A `LineOutcome` as its text reads.
pub enum OutcomeView {
    Nothing,
    Reply(Seq<char>),
    ReplyAndClose(Seq<char>),
    Close,
    Forward(Seq<char>, CommandView),
}

impl View for LineOutcome {
    type V = OutcomeView;

    open spec fn view(&self) -> OutcomeView {
        match self {
            LineOutcome::Nothing => OutcomeView::Nothing,
            LineOutcome::Reply(s) => OutcomeView::Reply(s@),
            LineOutcome::ReplyAndClose(s) => OutcomeView::ReplyAndClose(s@),
            LineOutcome::Close => OutcomeView::Close,
            LineOutcome::Forward(s, c) => OutcomeView::Forward(s@, c@),
        }
    }
}

/// The login name the Atlas controller uses.
pub open spec fn atlas_login() -> Seq<char> {
    "C_TO_P_TEST_V1"@
}

/// The prompt for the password.
pub open spec fn password_prompt() -> Seq<char> {
    "\r\nPassword: "@
}

/// The answer to an accepted password or command.
pub open spec fn result_ok() -> Seq<char> {
    "OK\r\n\r\n"@
}

/// The answer to a wrong password.
pub open spec fn bad_password() -> Seq<char> {
    "BAD_PASSWORD\r\n\r\n"@
}

/// The answer to a command that is not understood.
pub open spec fn unknown_reply(c: CommandView) -> Seq<char> {
    match c {
        CommandView::Unknown(s) => "ERROR: Unknown command: "@ + s + "\r\n\r\n"@,
        _ => result_ok(),
    }
}

/// What a (trimmed) line does in state `st`, given the session id the
/// controller handed out: the next state and the outcome.
pub open spec fn spec_on_line(st: ConnectionState, line: Seq<char>, sid: Option<Seq<char>>) -> (
    ConnectionState,
    OutcomeView,
) {
    if line.len() == 0 {
        (st, OutcomeView::Nothing)
    } else {
        match st {
            ConnectionState::AwaitingLoginName => if line == atlas_login() {
                (ConnectionState::AwaitingPassword, OutcomeView::Reply(password_prompt()))
            } else {
                (st, OutcomeView::Close)
            },
            ConnectionState::AwaitingPassword => if sid == Some(line) {
                (ConnectionState::Authenticated, OutcomeView::Reply(result_ok()))
            } else {
                (st, OutcomeView::ReplyAndClose(bad_password()))
            },
            ConnectionState::Authenticated => {
                let c = spec_command(line);
                (st, OutcomeView::Forward(unknown_reply(c), c))
            },
        }
    }
}

/// Where the first line break (`\n` or `\r`) at or after `i` stands, or
/// the length when there is none.
pub open spec fn line_end_from(p: Seq<char>, i: int) -> int
    decreases p.len() - i,
{
    if i < 0 || i >= p.len() {
        p.len() as int
    } else if p[i] == '\n' || p[i] == '\r' {
        i
    } else {
        line_end_from(p, i + 1)
    }
}

proof fn lemma_line_end_from(p: Seq<char>, i: int)
    requires
        0 <= i <= p.len(),
    ensures
        i <= line_end_from(p, i) <= p.len(),
    decreases p.len() - i,
{
    if i < p.len() && !(p[i] == '\n' || p[i] == '\r') {
        lemma_line_end_from(p, i + 1);
    }
}

/// The text that a chunk of the telnet stream adds: its data bytes, read
/// as UTF-8.
pub open spec fn chunk_text(data: Seq<u8>) -> Seq<char> {
    spec_utf8_lossy(telnet_data_from(data, 0))
}

/// A session as seen from outside: its state and the text received but
/// not yet taken as lines.
pub struct SessionView {
    pub state: ConnectionState,
    pub pending: Seq<char>,
}

/// One controller connection.
pub struct TelnetSession {
    state: ConnectionState,
    buffer: String,
}

impl View for TelnetSession {
    type V = SessionView;

    closed spec fn view(&self) -> SessionView {
        SessionView { state: self.state, pending: self.buffer@ }
    }
}

/// Filters telnet command sequences out of raw data and reads the rest as
/// text; bytes that are all ASCII read as the characters with their codes.
pub fn filter_telnet_commands(data: &[u8]) -> (r: String)
    ensures
        r@ == chunk_text(data@),
        (forall|i: int| 0 <= i < telnet_data_from(data@, 0).len() ==> #[trigger] telnet_data_from(data@, 0)[i] < 128)
            ==> r@ == telnet_data_from(data@, 0).map_values(|x: u8| x as char),
{
    let bytes = filter_telnet_bytes(data);
    utf8_lossy(&bytes)
}

impl TelnetSession {
    /// A fresh connection, waiting for the login name.
    pub fn new() -> (s: Self)
        ensures
            s@.state == ConnectionState::AwaitingLoginName,
            s@.pending == Seq::<char>::empty(),
    {
        TelnetSession { state: ConnectionState::AwaitingLoginName, buffer: String::new() }
    }

    /// The current state.
    pub fn state(&self) -> (r: ConnectionState)
        ensures
            r == self@.state,
    {
        self.state
    }

    /// Takes in a chunk read from the connection.
    pub fn feed(&mut self, data: &[u8])
        ensures
            final(self)@.state == old(self)@.state,
            final(self)@.pending == old(self)@.pending + chunk_text(data@),
    {
        let text = filter_telnet_commands(data);
        self.buffer.append(text.as_str());
    }

    /// Takes the next complete line (up to and with the first `\n` or
    /// `\r`) out of what was received, trimmed; `None` while no line is
    /// complete.
    pub fn next_line(&mut self) -> (r: Option<String>)
        ensures
            final(self)@.state == old(self)@.state,
            ({
                let p = old(self)@.pending;
                let k = line_end_from(p, 0);
                if k < p.len() {
                    &&& r matches Some(line) && line@ == spec_trim(p.take(k + 1))
                    &&& final(self)@.pending == p.skip(k + 1)
                } else {
                    &&& r is None
                    &&& final(self)@.pending == p
                }
            }),
    {
        let v = chars_of(self.buffer.as_str());
        let ghost p = v@;
        let mut k: usize = 0;
        while k < v.len() && v[k] != '\n' && v[k] != '\r'
            invariant
                p == v@,
                k <= v@.len(),
                line_end_from(p, 0) == line_end_from(p, k as int),
            decreases v.len() - k,
        {
            k = k + 1;
        }
        if k == v.len() {
            return None;
        }
        let head = string_of_range(&v, 0, k + 1);
        let rest = string_of_range(&v, k + 1, v.len());
        assert(p.take(k + 1) =~= p.subrange(0, k + 1));
        assert(p.skip(k + 1) =~= p.subrange(k + 1, p.len() as int));
        self.buffer = rest;
        Some(trim(head.as_str()))
    }

    /// Acts on one line, given the session id the controller handed out
    /// (`None` while there is none).
    pub fn on_line(&mut self, line: &str, session_id: Option<&String>) -> (r: LineOutcome)
        ensures
            final(self)@.pending == old(self)@.pending,
            (final(self)@.state, r@) == spec_on_line(
                old(self)@.state,
                line@,
                match session_id {
                    Some(s) => Some(s@),
                    None => None,
                },
            ),
    {
        if line.is_empty() {
            return LineOutcome::Nothing;
        }
        match self.state {
            ConnectionState::AwaitingLoginName => {
                if str_eq(line, "C_TO_P_TEST_V1") {
                    self.state = ConnectionState::AwaitingPassword;
                    LineOutcome::Reply(String::from_str("\r\nPassword: "))
                } else {
                    LineOutcome::Close
                }
            },
            ConnectionState::AwaitingPassword => {
                let valid = match session_id {
                    Some(s) => str_eq(s.as_str(), line),
                    None => false,
                };
                if valid {
                    self.state = ConnectionState::Authenticated;
                    LineOutcome::Reply(String::from_str("OK\r\n\r\n"))
                } else {
                    LineOutcome::ReplyAndClose(String::from_str("BAD_PASSWORD\r\n\r\n"))
                }
            },
            ConnectionState::Authenticated => {
                let command = parse_command(line);
                let reply = match &command {
                    TelnetCommand::Unknown(s) => {
                        let head = concat("ERROR: Unknown command: ", s.as_str());
                        concat(head.as_str(), "\r\n\r\n")
                    },
                    _ => String::from_str("OK\r\n\r\n"),
                };
                LineOutcome::Forward(reply, command)
            },
        }
    }
}

/// The telnet options the probe announces when a connection opens: it asks
/// the client to echo and to report its window size, and offers to echo
/// and to suppress go-ahead.
pub fn initial_negotiation() -> (r: Vec<u8>)
    ensures
        r@ == seq![
            IAC,
            DO,
            TELOPT_ECHO,
            IAC,
            DO,
            TELOPT_NAWS,
            IAC,
            WILL,
            TELOPT_ECHO,
            IAC,
            WILL,
            TELOPT_SGA,
        ],
{
    let r = vec![
        IAC,
        DO,
        TELOPT_ECHO,
        IAC,
        DO,
        TELOPT_NAWS,
        IAC,
        WILL,
        TELOPT_ECHO,
        IAC,
        WILL,
        TELOPT_SGA,
    ];
    r
}

/// The login banner text.
pub open spec fn spec_banner(probe_id: u32, hostname: Seq<char>) -> Seq<char> {
    "Atlas probe, see http://atlas.ripe.net/\r\n\r\n"@ + "Probe "@ + decimal(probe_id as nat)
        + " ("@ + hostname + ")"@ + " login: "@
}

/// The login banner: `Atlas probe, see ...`, then `Probe <id> (<host>) login: `.
pub fn login_banner(probe_id: u32, hostname: &str) -> (r: String)
    ensures
        r@ == spec_banner(probe_id, hostname@),
{
    let mut s = concat("Atlas probe, see http://atlas.ripe.net/\r\n\r\n", "Probe ");
    push_decimal(&mut s, probe_id as u64);
    s.append(" (");
    s.append(hostname);
    s.append(")");
    s.append(" login: ");
    assert(s@ =~= spec_banner(probe_id, hostname@));
    s
}

/// The machine's host name as the `hostname` crate reports it, or `None`
/// when it cannot be read. What it is depends on the machine.
#[verifier::external_body]
fn system_hostname() -> (r: Option<String>) {
    match hostname::get() {
        Ok(h) => Some(h.to_string_lossy().into_owned()),
        Err(_) => None,
    }
}

/// The banner for this machine: its host name, or `unknown` when that
/// cannot be read.
pub fn local_login_banner(probe_id: u32) -> (r: String)
    ensures
        exists|h: Seq<char>| r@ == #[trigger] spec_banner(probe_id, h),
{
    let host = match system_hostname() {
        Some(h) => h,
        None => String::from_str("unknown"),
    };
    login_banner(probe_id, host.as_str())
}

// ---------------------------------------------------------------------
// What the login guarantees
// ---------------------------------------------------------------------

/// No command is handed on before the login is complete: a line forwards
/// a command only in the `Authenticated` state.
pub proof fn lemma_forward_only_when_authenticated(
    st: ConnectionState,
    line: Seq<char>,
    sid: Option<Seq<char>>,
)
    ensures
        spec_on_line(st, line, sid).1 is Forward ==> st == ConnectionState::Authenticated,
{
}

/// The session becomes authenticated only by a password equal to the
/// session id, right after the login name, and once authenticated it
/// stays so.
pub proof fn lemma_authentication_needs_session_id(
    st: ConnectionState,
    line: Seq<char>,
    sid: Option<Seq<char>>,
)
    ensures
        spec_on_line(st, line, sid).0 == ConnectionState::Authenticated ==> (st
            == ConnectionState::Authenticated || (st == ConnectionState::AwaitingPassword && sid
            == Some(line))),
        st == ConnectionState::Authenticated ==> spec_on_line(st, line, sid).0
            == ConnectionState::Authenticated,
{
}

/// A wrong password always ends the connection, with `BAD_PASSWORD`.
pub proof fn lemma_wrong_password_closes(line: Seq<char>, sid: Option<Seq<char>>)
    requires
        line.len() > 0,
        sid != Some(line),
    ensures
        spec_on_line(ConnectionState::AwaitingPassword, line, sid) == (
            ConnectionState::AwaitingPassword,
            OutcomeView::ReplyAndClose(bad_password()),
        ),
{
}

} // verus!
