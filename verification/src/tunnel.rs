//! The decisions of the SSH tunnels: when the forwarding of local HTTP
//! connections takes the session for dead, how one forwarded connection
//! relays data, and how the output of a remote command is collected.
use crate::text::{spec_utf8_lossy, utf8_lossy};
use vstd::prelude::*;

verus! {

/// Consecutive channel failures after which the session is taken for dead.
pub const MAX_CONSECUTIVE_FAILURES: u32 = 3;

/// The count of consecutive failures to use the session for a forwarded
/// connection, shared by all forwarded connections.
#[derive(Debug, Clone, Copy, PartialEq, Eq, Structural)]
pub struct ChannelHealth {
    pub failures: u32,
}

/// The count after one more failure (wrapping at 2^32, as an atomic add
/// does).
pub open spec fn bumped(n: u32) -> u32 {
    if n == u32::MAX {
        0
    } else {
        (n + 1) as u32
    }
}

impl ChannelHealth {
    /// No failure yet.
    pub fn new() -> (r: Self)
        ensures
            r.failures == 0,
    {
        ChannelHealth { failures: 0 }
    }

    /// Counts a failure: the session was closed, opening a channel failed or
    /// timed out, or writing to the channel failed. Returns whether the
    /// caller must be told to reconnect: when the count reaches the limit.
    pub fn record_failure(&mut self) -> (reconnect: bool)
        ensures
            final(self).failures == bumped(old(self).failures),
            reconnect == (final(self).failures >= MAX_CONSECUTIVE_FAILURES),
    {
        self.failures = if self.failures == u32::MAX {
            0
        } else {
            self.failures + 1
        };
        self.failures >= MAX_CONSECUTIVE_FAILURES
    }

    /// A channel opened, or data came from the controller: the count starts
    /// over.
    pub fn record_success(&mut self)
        ensures
            final(self).failures == 0,
    {
        self.failures = 0;
    }
}

/// From no failure, the reconnection signal comes with the third failure in
/// a row and not before; a success in between starts the count over.
pub proof fn lemma_third_failure_signals(h0: ChannelHealth)
    requires
        h0.failures == 0,
    ensures
        bumped(h0.failures) < MAX_CONSECUTIVE_FAILURES,
        bumped(bumped(h0.failures)) < MAX_CONSECUTIVE_FAILURES,
        bumped(bumped(bumped(h0.failures))) >= MAX_CONSECUTIVE_FAILURES,
{
}

/// How an attempt to open a forwarding channel ended.
#[derive(Debug, Clone, Copy, PartialEq, Eq, Structural)]
pub enum OpenOutcome {
    /// The session was already closed.
    SessionClosed,
    /// The channel opened.
    Opened,
    /// The controller refused or the session failed.
    Failed,
    /// No answer within ten seconds.
    TimedOut,
}

/// What to do after an attempt to open a channel: whether to relay the
/// connection, and whether to signal that the session must be reconnected.
pub fn after_open(health: &mut ChannelHealth, outcome: OpenOutcome) -> (r: (bool, bool))
    ensures
        outcome == OpenOutcome::Opened ==> r == (true, false) && final(health).failures == 0,
        outcome != OpenOutcome::Opened ==> !r.0 && final(health).failures == bumped(
            old(health).failures,
        ) && r.1 == (final(health).failures >= MAX_CONSECUTIVE_FAILURES),
{
    match outcome {
        OpenOutcome::Opened => {
            health.record_success();
            (true, false)
        },
        _ => {
            let reconnect = health.record_failure();
            (false, reconnect)
        },
    }
}

/// What happened on a relayed connection. The controller's side is served
/// first when both have something.
#[derive(Debug, Clone, Copy, PartialEq, Eq, Structural)]
pub enum RelayEvent {
    /// Data came from the controller.
    RemoteData,
    /// The controller's side ended (end of data, or the channel closed).
    RemoteEnd,
    /// Any other message of the channel.
    RemoteOther,
    /// The local client sent data.
    LocalData,
    /// The local client finished sending.
    LocalEnd,
    /// Reading from the local client failed.
    LocalError,
    /// Writing to the local client failed.
    LocalWriteFailed,
    /// Writing to the controller failed.
    RemoteWriteFailed,
}

/// What the relay does.
#[derive(Debug, Clone, Copy, PartialEq, Eq, Structural)]
pub enum RelayAction {
    /// Write the controller's data to the local client.
    ToLocal,
    /// Send the local client's data to the controller.
    ToRemote,
    /// Tell the controller that the client is done sending, and keep
    /// reading its answer.
    HalfClose,
    /// Nothing to do.
    Wait,
    /// End the relay.
    Close,
}

/// One relayed connection: whether the local client has finished sending
/// (after which the local side is no longer read).
#[derive(Debug, Clone, Copy, PartialEq, Eq, Structural)]
pub struct Relay {
    pub local_done: bool,
}

/// The action for `e`, and whether the local client is then done.
pub open spec fn spec_relay_step(local_done: bool, e: RelayEvent) -> (RelayAction, bool) {
    match e {
        RelayEvent::RemoteData => (RelayAction::ToLocal, local_done),
        RelayEvent::RemoteEnd => (RelayAction::Close, local_done),
        RelayEvent::RemoteOther => (RelayAction::Wait, local_done),
        RelayEvent::LocalData => (RelayAction::ToRemote, local_done),
        RelayEvent::LocalEnd => (RelayAction::HalfClose, true),
        RelayEvent::LocalError => (RelayAction::Close, local_done),
        RelayEvent::LocalWriteFailed => (RelayAction::Close, local_done),
        RelayEvent::RemoteWriteFailed => (RelayAction::Close, local_done),
    }
}

impl Relay {
    /// A relay that has just started.
    pub fn new() -> (r: Self)
        ensures
            !r.local_done,
    {
        Relay { local_done: false }
    }

    /// Whether the local client is still read.
    pub fn reads_local(&self) -> (r: bool)
        ensures
            r == !self.local_done,
    {
        !self.local_done
    }

    /// Handles an event. Data from the controller counts as a success for
    /// the session's health and a failed write to it as a failure; the
    /// second result says whether to signal reconnection.
    pub fn step(&mut self, health: &mut ChannelHealth, e: RelayEvent) -> (r: (RelayAction, bool))
        ensures
            (r.0, final(self).local_done) == spec_relay_step(old(self).local_done, e),
            e == RelayEvent::RemoteData ==> final(health).failures == 0 && !r.1,
            e == RelayEvent::RemoteWriteFailed ==> final(health).failures == bumped(
                old(health).failures,
            ) && r.1 == (final(health).failures >= MAX_CONSECUTIVE_FAILURES),
            e != RelayEvent::RemoteData && e != RelayEvent::RemoteWriteFailed ==> *final(health)
                == *old(health) && !r.1,
    {
        match e {
            RelayEvent::RemoteData => {
                health.record_success();
                (RelayAction::ToLocal, false)
            },
            RelayEvent::RemoteEnd => (RelayAction::Close, false),
            RelayEvent::RemoteOther => (RelayAction::Wait, false),
            RelayEvent::LocalData => (RelayAction::ToRemote, false),
            RelayEvent::LocalEnd => {
                self.local_done = true;
                (RelayAction::HalfClose, false)
            },
            RelayEvent::LocalError => (RelayAction::Close, false),
            RelayEvent::LocalWriteFailed => (RelayAction::Close, false),
            RelayEvent::RemoteWriteFailed => {
                let reconnect = health.record_failure();
                (RelayAction::Close, reconnect)
            },
        }
    }
}

// ---------------------------------------------------------------------
// Remote commands
// ---------------------------------------------------------------------

/// A message of the channel that runs a remote command.
#[derive(Debug, Clone)]
pub enum ExecMessage {
    /// Output of the command.
    Data(Vec<u8>),
    /// The end of the output.
    Eof,
    /// The command's exit status.
    ExitStatus(u32),
    /// Any other message.
    Other,
}

/// The output of a remote command collected so far, and whether it has
/// ended.
#[derive(Debug, Clone)]
pub struct ExecOutput {
    pub text: String,
    pub done: bool,
}

impl ExecOutput {
    /// Nothing collected yet.
    pub fn new() -> (r: Self)
        ensures
            r.text@ == Seq::<char>::empty(),
            !r.done,
    {
        ExecOutput { text: String::new(), done: false }
    }

    /// Takes one message: output is appended (decoded as lossy UTF-8), the
    /// end of the output ends the collection, anything else is passed over
    /// (a non-zero exit status is only worth a log line).
    pub fn on_message(&mut self, m: &ExecMessage)
        requires
            !old(self).done,
        ensures
            match m {
                ExecMessage::Data(d) => final(self).text@ == old(self).text@ + spec_utf8_lossy(d@)
                    && !final(self).done,
                ExecMessage::Eof => final(self).text@ == old(self).text@ && final(self).done,
                _ => final(self).text@ == old(self).text@ && !final(self).done,
            },
    {
        match m {
            ExecMessage::Data(d) => {
                let piece = utf8_lossy(d);
                self.text.append(piece.as_str());
            },
            ExecMessage::Eof => {
                self.done = true;
            },
            _ => {},
        }
    }
}

/// Whether the command's input is sent (followed by the end of input): only
/// when there is some.
pub fn sends_stdin(stdin_data: &str) -> (r: bool)
    ensures
        r == (stdin_data@.len() > 0),
{
    stdin_data.unicode_len() > 0
}

} // verus!
