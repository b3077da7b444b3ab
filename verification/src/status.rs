//! What the front end gets to see: the outcome of each attempt, the status
//! line that tells of it, and the flag that says whether a tunnel is up.

use crate::request::ValidationError;
use vstd::prelude::*;

verus! {

/// Why an attempt to connect failed, as plain values.
pub enum FailureModel {
    Validation(ValidationError),
    HelperCreation,
    Spawn(Seq<char>),
    EarlyExit(Seq<char>),
}

/// How an attempt to connect ended, as plain values.
pub enum OutcomeModel {
    Connected(Seq<char>),
    Failed(FailureModel),
    AlreadyConnected,
}

/// What the front end sees, as plain values.
pub struct ReporterModel {
    pub text: Seq<char>,
    pub connected: bool,
}

/// Why an attempt to connect failed.
#[derive(Debug, PartialEq, Eq)]
pub enum FailureReason {
    /// The form was turned down; nothing was started.
    Validation(ValidationError),
    /// The credential helper could not be written or protected; nothing was
    /// started.
    HelperCreation,
    /// The tunnel tool could not be started; the text is the system's error.
    Spawn(String),
    /// The tunnel tool ended within the grace period; the text is its exit
    /// status.
    EarlyExit(String),
}

/// How an attempt to connect ended.
#[derive(Debug, PartialEq, Eq)]
pub enum ConnectionOutcome {
    /// The tunnel is up; the text is the name shown for it.
    Connected(String),
    /// The attempt failed.
    Failed(FailureReason),
    /// A tunnel was up already; nothing was touched.
    AlreadyConnected,
}

/// The sink for status lines and for the connected flag.
pub struct StatusReporter {
    text: String,
    connected: bool,
}

impl View for FailureReason {
    type V = FailureModel;

    open spec fn view(&self) -> FailureModel {
        match *self {
            FailureReason::Validation(e) => FailureModel::Validation(e),
            FailureReason::HelperCreation => FailureModel::HelperCreation,
            FailureReason::Spawn(text) => FailureModel::Spawn(text@),
            FailureReason::EarlyExit(text) => FailureModel::EarlyExit(text@),
        }
    }
}

impl View for ConnectionOutcome {
    type V = OutcomeModel;

    open spec fn view(&self) -> OutcomeModel {
        match *self {
            ConnectionOutcome::Connected(name) => OutcomeModel::Connected(name@),
            ConnectionOutcome::Failed(reason) => OutcomeModel::Failed(reason@),
            ConnectionOutcome::AlreadyConnected => OutcomeModel::AlreadyConnected,
        }
    }
}

impl View for StatusReporter {
    type V = ReporterModel;

    closed spec fn view(&self) -> ReporterModel {
        ReporterModel { text: self.text@, connected: self.connected }
    }
}

/// The status line for a failure.
pub open spec fn failure_text(reason: FailureModel) -> Seq<char> {
    match reason {
        FailureModel::Validation(_) => "Server and Username required"@,
        FailureModel::HelperCreation => "Failed to create askpass helper"@,
        FailureModel::Spawn(error) => "Failed to start sshuttle: "@ + error,
        FailureModel::EarlyExit(status) => "Connection failed: "@ + status,
    }
}

/// The status line for the end of an attempt to connect.
pub open spec fn outcome_text(outcome: OutcomeModel) -> Seq<char> {
    match outcome {
        OutcomeModel::Connected(name) => "Connected via sshuttle: "@ + name,
        OutcomeModel::Failed(reason) => failure_text(reason),
        OutcomeModel::AlreadyConnected => "Already connected. Disconnect first."@,
    }
}

/// The status line for the start of an attempt to connect.
pub open spec fn connecting_text(name: Seq<char>) -> Seq<char> {
    "Connecting to "@ + name + "..."@
}

/// The status line for the end of a disconnect.
pub open spec fn disconnected_text() -> Seq<char> {
    "Disconnected"@
}

impl ReporterModel {
    /// The reporter with `text` as its status line.
    pub open spec fn with_text(self, text: Seq<char>) -> ReporterModel {
        ReporterModel { text, ..self }
    }

    /// The reporter with `connected` as its flag.
    pub open spec fn with_connected(self, connected: bool) -> ReporterModel {
        ReporterModel { connected, ..self }
    }
}

impl FailureReason {
    /// The status line for this failure.
    pub fn status_text(&self) -> (r: String)
        ensures
            r@ == failure_text(self@),
    {
        match self {
            FailureReason::Validation(_) => String::from_str("Server and Username required"),
            FailureReason::HelperCreation => String::from_str("Failed to create askpass helper"),
            FailureReason::Spawn(error) => {
                let mut r = String::from_str("Failed to start sshuttle: ");
                r.append(error.as_str());
                r
            },
            FailureReason::EarlyExit(status) => {
                let mut r = String::from_str("Connection failed: ");
                r.append(status.as_str());
                r
            },
        }
    }
}

impl ConnectionOutcome {
    /// The status line for this outcome.
    pub fn status_text(&self) -> (r: String)
        ensures
            r@ == outcome_text(self@),
    {
        match self {
            ConnectionOutcome::Connected(name) => {
                let mut r = String::from_str("Connected via sshuttle: ");
                r.append(name.as_str());
                r
            },
            ConnectionOutcome::Failed(reason) => reason.status_text(),
            ConnectionOutcome::AlreadyConnected => String::from_str(
                "Already connected. Disconnect first.",
            ),
        }
    }
}

/// Writes the status line for the start of an attempt to connect to `name`.
pub fn connecting_status(name: &str) -> (r: String)
    ensures
        r@ == connecting_text(name@),
{
    let mut r = String::from_str("Connecting to ");
    r.append(name);
    r.append("...");
    r
}

/// Writes the status line for the end of a disconnect.
pub fn disconnected_status() -> (r: String)
    ensures
        r@ == disconnected_text(),
{
    String::from_str("Disconnected")
}

impl StatusReporter {
    /// A reporter with an empty status line and the flag down.
    pub fn new() -> (r: StatusReporter)
        ensures
            r@ == (ReporterModel { text: Seq::empty(), connected: false }),
    {
        StatusReporter { text: String::new(), connected: false }
    }

    /// Replaces the status line.
    pub fn publish(&mut self, text: String)
        ensures
            final(self)@ == old(self)@.with_text(text@),
    {
        self.text = text;
    }

    /// Sets the connected flag.
    pub fn set_connected(&mut self, connected: bool)
        ensures
            final(self)@ == old(self)@.with_connected(connected),
    {
        self.connected = connected;
    }

    /// The status line.
    pub fn text(&self) -> (r: &str)
        ensures
            r@ == self@.text,
    {
        self.text.as_str()
    }

    /// The connected flag.
    pub fn is_connected(&self) -> (b: bool)
        ensures
            b == self@.connected,
    {
        self.connected
    }
}

} // verus!
