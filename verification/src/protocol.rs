//! What passes between the library and its caller while an operation runs:
//! the tasks that an operation is made of, the actions that the library asks
//! for, and the replies that the caller gives.

use vstd::prelude::*;
use vstd::string::*;
use crate::command::{
    config_report, node_logs_command, node_logs_line, node_logs_report, oracle_logs_command,
    probe_program_command, probe_services_command, program_report, read_config_command,
    read_config_line, services_report,
};
use crate::identity::{identities_view, Identity, IdentityView};

verus! {

/// What the front end sees: the text of the last operation's outcome, and
/// the configuration last read from the remote host.
pub ghost struct MainView {
    pub output: Seq<char>,
    pub config: Seq<char>,
}

/// One piece of an operation: the work of one session.
#[derive(Clone, Debug, PartialEq, Eq)]
pub enum Task {
    /// Runs one command and waits for it, without reading what it prints.
    Command(String),
    /// Asks where the node's program is, then which services there are, and
    /// shows both answers.
    CheckInstallation,
    /// Shows the log of the node of the given type.
    NodeLogs(String),
    /// Shows the log of the oracle.
    OracleLogs,
    /// Reads the configuration file.
    ReadConfig,
}

/// What a `Task` stands for.
pub ghost enum TaskView {
    Command(Seq<char>),
    CheckInstallation,
    NodeLogs(Seq<char>),
    OracleLogs,
    ReadConfig,
}

impl View for Task {
    type V = TaskView;

    open spec fn view(&self) -> TaskView {
        match self {
            Task::Command(c) => TaskView::Command(c@),
            Task::CheckInstallation => TaskView::CheckInstallation,
            Task::NodeLogs(n) => TaskView::NodeLogs(n@),
            Task::OracleLogs => TaskView::OracleLogs,
            Task::ReadConfig => TaskView::ReadConfig,
        }
    }
}

impl TaskView {
    /// How many commands the task runs, one after the other.
    pub open spec fn steps(self) -> nat {
        match self {
            TaskView::CheckInstallation => 2,
            _ => 1,
        }
    }

    /// The `k`-th command of the task.
    pub open spec fn command(self, k: nat) -> Seq<char> {
        match self {
            TaskView::Command(c) => c,
            TaskView::CheckInstallation => if k == 0 {
                probe_program_command()
            } else {
                probe_services_command()
            },
            TaskView::NodeLogs(n) => node_logs_command(n),
            TaskView::OracleLogs => oracle_logs_command(),
            TaskView::ReadConfig => read_config_command(),
        }
    }

    /// Whether the task reads what its commands print.
    pub open spec fn captures(self) -> bool {
        !(self is Command)
    }

    /// Whether the task writes the output text.
    pub open spec fn writes_output(self) -> bool {
        self is CheckInstallation || self is NodeLogs || self is OracleLogs
    }

    /// Whether the task writes the configuration text.
    pub open spec fn writes_config(self) -> bool {
        self is ReadConfig
    }

    /// What the front end sees once the `k`-th command of the task has
    /// printed `text`.
    pub open spec fn apply(self, k: nat, text: Seq<char>, m: MainView) -> MainView {
        match self {
            TaskView::Command(_) => m,
            TaskView::CheckInstallation => if k == 0 {
                MainView { output: program_report(text), ..m }
            } else {
                MainView { output: m.output + services_report(text), ..m }
            },
            TaskView::NodeLogs(_) => MainView { output: node_logs_report(text), ..m },
            TaskView::OracleLogs => MainView { output: text, ..m },
            TaskView::ReadConfig => MainView { config: config_report(text), ..m },
        }
    }
}

/// What the caller is to do next.
#[derive(Clone, Debug, PartialEq, Eq)]
pub enum Action {
    /// Connect to the host, giving up after `timeout_secs` seconds.
    Connect { host: [u8; 4], port: u16, timeout_secs: u64 },
    /// Do the protocol handshake on the connection.
    Handshake,
    /// Log in with a password.
    PasswordLogin { user: String, password: String },
    /// Connect to the local agent and list its identities.
    ListIdentities,
    /// Log in with the identity at `index` of the list just reported.
    IdentityLogin { user: String, index: usize },
    /// Open a channel, run the command on it, read all that it prints if
    /// `capture` is set, else wait for its end, and wait for the channel to
    /// close.
    Execute { command: String, capture: bool },
    /// Close the session and the connection.
    Disconnect,
    /// Nothing: the operation is over. Observers of the output and of the
    /// configuration are to be told if the flag of either is set.
    Finish { output_changed: bool, config_changed: bool },
}

/// What an `Action` stands for.
pub ghost enum ActionView {
    Connect { host: Seq<u8>, port: u16, timeout_secs: u64 },
    Handshake,
    PasswordLogin { user: Seq<char>, password: Seq<char> },
    ListIdentities,
    IdentityLogin { user: Seq<char>, index: int },
    Execute { command: Seq<char>, capture: bool },
    Disconnect,
    Finish { output_changed: bool, config_changed: bool },
}

impl View for Action {
    type V = ActionView;

    open spec fn view(&self) -> ActionView {
        match self {
            Action::Connect { host, port, timeout_secs } => ActionView::Connect {
                host: host@,
                port: *port,
                timeout_secs: *timeout_secs,
            },
            Action::Handshake => ActionView::Handshake,
            Action::PasswordLogin { user, password } => ActionView::PasswordLogin {
                user: user@,
                password: password@,
            },
            Action::ListIdentities => ActionView::ListIdentities,
            Action::IdentityLogin { user, index } => ActionView::IdentityLogin {
                user: user@,
                index: *index as int,
            },
            Action::Execute { command, capture } => ActionView::Execute {
                command: command@,
                capture: *capture,
            },
            Action::Disconnect => ActionView::Disconnect,
            Action::Finish { output_changed, config_changed } => ActionView::Finish {
                output_changed: *output_changed,
                config_changed: *config_changed,
            },
        }
    }
}

/// What came of the last action.
#[derive(Clone, Debug, PartialEq, Eq)]
pub enum Reply {
    /// It was done, and there is nothing to tell.
    Done,
    /// The command ran, and printed this.
    Output(String),
    /// The agent offers these identities, in this order.
    Identities(Vec<Identity>),
    /// It failed; the text says why.
    Failed(String),
}

/// What a `Reply` stands for.
pub ghost enum ReplyView {
    Done,
    Output(Seq<char>),
    Identities(Seq<IdentityView>),
    Failed(Seq<char>),
}

impl View for Reply {
    type V = ReplyView;

    open spec fn view(&self) -> ReplyView {
        match self {
            Reply::Done => ReplyView::Done,
            Reply::Output(t) => ReplyView::Output(t@),
            Reply::Identities(ids) => ReplyView::Identities(identities_view(ids@)),
            Reply::Failed(detail) => ReplyView::Failed(detail@),
        }
    }
}

impl ReplyView {
    /// What a command printed, as far as the reply tells.
    pub open spec fn text(self) -> Seq<char> {
        match self {
            ReplyView::Output(t) => t,
            _ => Seq::empty(),
        }
    }

    /// The identities that the agent offers, as far as the reply tells.
    pub open spec fn identities(self) -> Seq<IdentityView> {
        match self {
            ReplyView::Identities(ids) => ids,
            _ => Seq::empty(),
        }
    }
}

/// Where a run stands: which answer it waits for.
#[derive(Clone, Copy, Debug, PartialEq, Eq, Structural)]
pub enum Stage {
    /// For the connection.
    Connecting,
    /// For the handshake.
    Handshaking,
    /// For the agent's identities.
    Listing,
    /// For the login.
    LoggingIn,
    /// For the command of this number of the task at hand.
    Running(usize),
    /// For the session to close; the next task follows.
    Closing,
    /// For the session to close; the run ends there.
    Aborting,
    /// For nothing: the run is over.
    Finished,
}

impl Stage {
    /// Whether a connection is open that no `Disconnect` has been asked for.
    pub open spec fn holds_session(self) -> bool {
        self is Handshaking || self is Listing || self is LoggingIn || self is Running
    }
}

impl Task {
    /// How many commands the task runs.
    pub fn steps(&self) -> (n: usize)
        ensures
            n == self@.steps(),
    {
        match self {
            Task::CheckInstallation => 2,
            _ => 1,
        }
    }

    /// The `k`-th command of the task.
    pub fn command(&self, k: usize) -> (c: String)
        ensures
            c@ == self@.command(k as nat),
    {
        match self {
            Task::Command(c) => c.clone(),
            Task::CheckInstallation => if k == 0 {
                "command -v duniter2".to_owned()
            } else {
                "systemctl list-unit-files | grep -iE 'duniter|distance-oracle'".to_owned()
            },
            Task::NodeLogs(n) => node_logs_line(n.as_str()),
            Task::OracleLogs => "journalctl -ru distance-oracle -n 100".to_owned(),
            Task::ReadConfig => read_config_line(),
        }
    }

    /// Whether the task reads what its commands print.
    pub fn captures(&self) -> (b: bool)
        ensures
            b == self@.captures(),
    {
        match self {
            Task::Command(_) => false,
            _ => true,
        }
    }

    /// Whether the task writes the output text.
    pub fn writes_output(&self) -> (b: bool)
        ensures
            b == self@.writes_output(),
    {
        match self {
            Task::CheckInstallation => true,
            Task::NodeLogs(_) => true,
            Task::OracleLogs => true,
            _ => false,
        }
    }

    /// Whether the task writes the configuration text.
    pub fn writes_config(&self) -> (b: bool)
        ensures
            b == self@.writes_config(),
    {
        match self {
            Task::ReadConfig => true,
            _ => false,
        }
    }
}

} // verus!
