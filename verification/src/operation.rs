//! The named operations, each as a run of steps: the library says what to do
//! next, the caller does it on the transport and reports what came of it.

use vstd::prelude::*;
use vstd::string::*;
use crate::address::{parse_address, parse_address_spec, ConnectionParamsView, ParseError};
use crate::command::{
    failure_report, report_failure, report_node_logs, report_program, report_services,
    start_node_command, start_node_line, start_oracle_command, stop_node_command,
    stop_node_line, stop_oracle_command, write_config_command, write_config_line,
};
use crate::credential::{classify_credential, classify_spec, Credential, CredentialView};
use crate::identity::{
    identities_view, list_identities, select_identity, select_spec, tokens_of, Identity,
};
use crate::protocol::{
    Action, ActionView, MainView, Reply, ReplyView, Stage, Task, TaskView,
};
use crate::session::{
    auth_error_text, parse_error_text, AuthError, ChannelError, SessionError,
    CONNECT_TIMEOUT_SECS,
};
use crate::trim::trimmed;

verus! {

/// What the front end sees: the text of the last operation's outcome, and
/// the configuration last read from the remote host.
#[derive(Clone, Debug, PartialEq, Eq)]
pub struct Main {
    pub output: String,
    pub config: String,
}

impl View for Main {
    type V = MainView;

    open spec fn view(&self) -> MainView {
        MainView { output: self.output@, config: self.config@ }
    }
}

/// An operation under way. It holds the credential for as long as it
/// lasts, and has no printed form.
pub struct Run {
    params: String,
    pass: String,
    tasks: Vec<Task>,
    next: usize,
    stage: Stage,
    user: String,
    output_changed: bool,
    config_changed: bool,
}

/// What a `Run` stands for.
pub ghost struct RunView {
    /// The address text that each session is opened with.
    pub params: Seq<char>,
    /// The credential text that each session is opened with.
    pub pass: Seq<char>,
    /// The tasks of the operation, in order.
    pub tasks: Seq<TaskView>,
    /// The number of the task at hand.
    pub next: nat,
    pub stage: Stage,
    /// The user of the session at hand.
    pub user: Seq<char>,
    /// Whether the run has written the output text.
    pub output_changed: bool,
    /// Whether the run has written the configuration text.
    pub config_changed: bool,
}

impl RunView {
    /// A run that is not over has a task at hand, and waits for one of that
    /// task's commands only.
    pub open spec fn wf(self) -> bool {
        &&& self.next <= self.tasks.len()
        &&& !(self.stage is Finished) ==> self.next < self.tasks.len()
        &&& self.stage matches Stage::Running(k) ==> k < self.tasks[self.next as int].steps()
    }

    /// The end of the run.
    pub open spec fn finish(self) -> (RunView, ActionView) {
        (
            RunView { stage: Stage::Finished, ..self },
            ActionView::Finish {
                output_changed: self.output_changed,
                config_changed: self.config_changed,
            },
        )
    }
}

/// What the front end sees when a failure has been told.
pub open spec fn failed(m: MainView, detail: Seq<char>) -> MainView {
    MainView { output: failure_report(detail), ..m }
}

/// Turns to the task at hand, and to the tasks behind it until one of them
/// has something to ask of the caller. Each task opens a session of its
/// own, so each reads the address; a task whose address is refused tells
/// the failure and gives way to the next.
pub open spec fn begin_spec(m: MainView, r: RunView) -> (MainView, RunView, ActionView)
    decreases r.tasks.len() - r.next,
{
    if r.next >= r.tasks.len() {
        (m, r.finish().0, r.finish().1)
    } else {
        match parse_address_spec(r.params) {
            Ok(p) => (
                m,
                RunView { stage: Stage::Connecting, user: p.user, ..r },
                ActionView::Connect {
                    host: p.host,
                    port: p.port,
                    timeout_secs: CONNECT_TIMEOUT_SECS,
                },
            ),
            Err(e) => begin_spec(
                failed(m, parse_error_text(e)),
                RunView { next: r.next + 1, output_changed: true, ..r },
            ),
        }
    }
}

/// The start of an operation made of `tasks`.
pub open spec fn start_spec(
    m: MainView,
    params: Seq<char>,
    pass: Seq<char>,
    tasks: Seq<TaskView>,
) -> (MainView, RunView, ActionView) {
    begin_spec(
        m,
        RunView {
            params,
            pass,
            tasks,
            next: 0,
            stage: Stage::Finished,
            user: Seq::empty(),
            output_changed: false,
            config_changed: false,
        },
    )
}

/// A failure while the session is opened, after the connection was made:
/// it is told, the session is closed, and the next task follows.
pub open spec fn give_up_session(m: MainView, r: RunView, detail: Seq<char>) -> (
    MainView,
    RunView,
    ActionView,
) {
    (
        failed(m, detail),
        RunView { stage: Stage::Closing, output_changed: true, ..r },
        ActionView::Disconnect,
    )
}

/// How a session is logged in to once the handshake is done: with the
/// credential as the password, or, where it selects an agent identity, by
/// asking the agent for its identities first.
pub open spec fn login_spec(m: MainView, r: RunView) -> (MainView, RunView, ActionView) {
    match classify_spec(r.pass) {
        CredentialView::Password(password) => (
            m,
            RunView { stage: Stage::LoggingIn, ..r },
            ActionView::PasswordLogin { user: r.user, password },
        ),
        CredentialView::AgentSelector(_) => (
            m,
            RunView { stage: Stage::Listing, ..r },
            ActionView::ListIdentities,
        ),
    }
}

/// Opening a session, for a run that waits for the connection or for the
/// handshake. A connection that fails is told, and the next task follows;
/// nothing is open then. A handshake that fails is told, and the
/// connection is closed. After the handshake comes the login.
pub open spec fn open_session_spec(m: MainView, r: RunView, reply: ReplyView) -> (
    MainView,
    RunView,
    ActionView,
) {
    match reply {
        ReplyView::Failed(detail) => if r.stage is Connecting {
            begin_spec(
                failed(m, detail),
                RunView { next: r.next + 1, output_changed: true, ..r },
            )
        } else {
            give_up_session(m, r, detail)
        },
        _ => if r.stage is Connecting {
            (m, RunView { stage: Stage::Handshaking, ..r }, ActionView::Handshake)
        } else {
            login_spec(m, r)
        },
    }
}

/// Logging in, for a run that waits for the agent's identities or for the
/// login. Of the identities, the first that the credential chooses is
/// logged in with; where it chooses none, or the agent or the login fails,
/// that is told and the session is closed. After the login comes the first
/// command of the task at hand.
pub open spec fn authenticate_spec(m: MainView, r: RunView, reply: ReplyView) -> (
    MainView,
    RunView,
    ActionView,
) {
    match reply {
        ReplyView::Failed(detail) => give_up_session(m, r, detail),
        _ => if r.stage is Listing {
            match select_spec(reply.identities(), r.pass) {
                Some(index) => (
                    m,
                    RunView { stage: Stage::LoggingIn, ..r },
                    ActionView::IdentityLogin { user: r.user, index },
                ),
                None => give_up_session(m, r, auth_error_text(AuthError::IdentityNotFound)),
            }
        } else {
            (
                m,
                RunView { stage: Stage::Running(0), ..r },
                ActionView::Execute {
                    command: r.tasks[r.next as int].command(0),
                    capture: r.tasks[r.next as int].captures(),
                },
            )
        },
    }
}

/// Running commands, for a run that waits for the `k`-th command of the
/// task at hand. A command that fails ends the operation: the failure is
/// told in place of all that the operation has shown, the session is
/// closed, and no task follows. Else the task takes in what the command
/// printed; then its next command is run, or the session is closed behind
/// its last.
pub open spec fn execute_spec(m: MainView, r: RunView, k: usize, reply: ReplyView) -> (
    MainView,
    RunView,
    ActionView,
) {
    match reply {
        ReplyView::Failed(detail) => (
            failed(m, detail),
            RunView { stage: Stage::Aborting, output_changed: true, ..r },
            ActionView::Disconnect,
        ),
        _ => {
            let task = r.tasks[r.next as int];
            let seen = task.apply(k as nat, reply.text(), m);
            let told = RunView {
                output_changed: r.output_changed || task.writes_output(),
                config_changed: r.config_changed || task.writes_config(),
                ..r
            };
            if k + 1 < task.steps() {
                (
                    seen,
                    RunView { stage: Stage::Running((k + 1) as usize), ..told },
                    ActionView::Execute {
                        command: task.command((k + 1) as nat),
                        capture: task.captures(),
                    },
                )
            } else {
                (seen, RunView { stage: Stage::Closing, ..told }, ActionView::Disconnect)
            }
        },
    }
}

/// The step of a run: what the front end sees, where the run stands and
/// what the caller is to do next, once `reply` has come to the action that
/// the run was waiting for. Once the session is closed the next task
/// follows, whatever the reply; a run that is over stays as it is.
pub open spec fn step_spec(m: MainView, r: RunView, reply: ReplyView) -> (
    MainView,
    RunView,
    ActionView,
) {
    match r.stage {
        Stage::Connecting => open_session_spec(m, r, reply),
        Stage::Handshaking => open_session_spec(m, r, reply),
        Stage::Listing => authenticate_spec(m, r, reply),
        Stage::LoggingIn => authenticate_spec(m, r, reply),
        Stage::Running(k) => execute_spec(m, r, k, reply),
        Stage::Closing => begin_spec(m, RunView { next: r.next + 1, ..r }),
        Stage::Aborting => (m, r.finish().0, r.finish().1),
        Stage::Finished => (m, r.finish().0, r.finish().1),
    }
}

/// What a vector of tasks stands for.
pub open spec fn tasks_view(tasks: Seq<Task>) -> Seq<TaskView> {
    Seq::new(tasks.len(), |i: int| tasks[i]@)
}

/// The tasks of `check_installation`.
pub open spec fn check_installation_tasks() -> Seq<TaskView> {
    seq![TaskView::CheckInstallation]
}

/// The tasks of `see_logs`.
pub open spec fn see_logs_tasks(node_type: Seq<char>) -> Seq<TaskView> {
    seq![TaskView::NodeLogs(node_type)]
}

/// The tasks of `command`.
pub open spec fn command_tasks(command: Seq<char>) -> Seq<TaskView> {
    seq![TaskView::Command(command)]
}

/// The tasks of `start_node`: the node is started in a session of its own,
/// then its log is shown as `see_logs` shows it.
pub open spec fn start_node_tasks(node_type: Seq<char>) -> Seq<TaskView> {
    command_tasks(start_node_command(node_type)) + see_logs_tasks(node_type)
}

/// The tasks of `stop_node`.
pub open spec fn stop_node_tasks(node_type: Seq<char>) -> Seq<TaskView> {
    command_tasks(stop_node_command(node_type)) + see_logs_tasks(node_type)
}

/// The tasks of `start_oracle`.
pub open spec fn start_oracle_tasks() -> Seq<TaskView> {
    seq![TaskView::Command(start_oracle_command()), TaskView::OracleLogs]
}

/// The tasks of `stop_oracle`.
pub open spec fn stop_oracle_tasks() -> Seq<TaskView> {
    seq![TaskView::Command(stop_oracle_command()), TaskView::OracleLogs]
}

/// The tasks of `get_config`.
pub open spec fn get_config_tasks() -> Seq<TaskView> {
    seq![TaskView::ReadConfig]
}

/// The tasks of `write_config`.
pub open spec fn write_config_tasks(config: Seq<char>) -> Seq<TaskView> {
    command_tasks(write_config_command(config))
}

/// `begin_spec` does not ask where the run stood.
pub proof fn lemma_begin_ignores_stage(m: MainView, r: RunView, stage: Stage)
    ensures
        begin_spec(m, RunView { stage, ..r }) == begin_spec(m, r),
    decreases r.tasks.len() - r.next,
{
    if r.next < r.tasks.len() {
        match parse_address_spec(r.params) {
            Ok(p) => {},
            Err(e) => {
                lemma_begin_ignores_stage(
                    failed(m, parse_error_text(e)),
                    RunView { next: r.next + 1, output_changed: true, ..r },
                    stage,
                );
            },
        }
    }
}

/// With an address that is refused, no task has anything to ask: the run
/// is over at once, and the failure is told.
pub proof fn lemma_begin_refused(m: MainView, r: RunView, e: ParseError)
    requires
        r.next < r.tasks.len(),
        parse_address_spec(r.params) == Err::<ConnectionParamsView, ParseError>(e),
    ensures
        begin_spec(m, r) == (
            failed(m, parse_error_text(e)),
            RunView { next: r.tasks.len(), stage: Stage::Finished, output_changed: true, ..r },
            ActionView::Finish { output_changed: true, config_changed: r.config_changed },
        ),
    decreases r.tasks.len() - r.next,
{
    let m1 = failed(m, parse_error_text(e));
    let r1 = RunView { next: r.next + 1, output_changed: true, ..r };
    assert(begin_spec(m, r) == begin_spec(m1, r1));
    if r1.next < r1.tasks.len() {
        lemma_begin_refused(m1, r1, e);
        assert(failed(m1, parse_error_text(e)) == m1);
    } else {
        assert(begin_spec(m1, r1) == (m1, r1.finish().0, r1.finish().1));
    }
}

impl View for Run {
    type V = RunView;

    closed spec fn view(&self) -> RunView {
        RunView {
            params: self.params@,
            pass: self.pass@,
            tasks: tasks_view(self.tasks@),
            next: self.next as nat,
            stage: self.stage,
            user: self.user@,
            output_changed: self.output_changed,
            config_changed: self.config_changed,
        }
    }
}

impl Run {
    #[verifier::type_invariant]
    spec fn well_formed(self) -> bool {
        self@.wf()
    }

    /// Whether the run is over.
    pub fn is_finished(&self) -> (b: bool)
        ensures
            b == (self@.stage is Finished),
    {
        match self.stage {
            Stage::Finished => true,
            _ => false,
        }
    }

    /// Where the run stands.
    pub fn stage(&self) -> (s: Stage)
        ensures
            s == self@.stage,
    {
        self.stage
    }

    /// The end of the run.
    fn finish(&mut self) -> (action: Action)
        ensures
            (final(self)@, action@) == old(self)@.finish(),
    {
        proof {
            use_type_invariant(&*self);
        }
        self.stage = Stage::Finished;
        Action::Finish { output_changed: self.output_changed, config_changed: self.config_changed }
    }
}

impl Main {
    /// Nothing shown, nothing read.
    pub fn new() -> (m: Main)
        ensures
            m@ == (MainView { output: Seq::empty(), config: Seq::empty() }),
    {
        Main { output: String::new(), config: String::new() }
    }

    /// Tells a failure.
    fn fail(&mut self, run: &mut Run, detail: &str)
        ensures
            final(self)@ == failed(old(self)@, detail@),
            final(run)@ == (RunView { output_changed: true, ..old(run)@ }),
    {
        proof {
            use_type_invariant(&*run);
        }
        self.output = report_failure(detail);
        run.output_changed = true;
    }

    /// Turns to the task at hand.
    fn begin(&mut self, run: &mut Run) -> (action: Action)
        requires
            old(run).stage is Finished,
        ensures
            (final(self)@, final(run)@, action@) == begin_spec(old(self)@, old(run)@),
    {
        if run.next >= run.tasks.len() {
            return run.finish();
        }
        match parse_address(run.params.as_str()) {
            Ok(p) => {
                let action = Action::Connect {
                    host: p.host,
                    port: p.port,
                    timeout_secs: CONNECT_TIMEOUT_SECS,
                };
                run.user = p.user;
                run.stage = Stage::Connecting;
                action
            },
            Err(e) => {
                proof {
                    lemma_begin_refused(old(self)@, old(run)@, e);
                }
                let detail = SessionError::Parse(e).message();
                self.fail(run, detail.as_str());
                run.next = run.tasks.len();
                run.finish()
            },
        }
    }

    /// Starts an operation made of `tasks`.
    fn start(&mut self, params: String, pass: String, tasks: Vec<Task>) -> (r: (Run, Action))
        ensures
            (final(self)@, r.0@, r.1@) == start_spec(
                old(self)@,
                params@,
                pass@,
                tasks_view(tasks@),
            ),
    {
        let mut run = Run {
            params,
            pass,
            tasks,
            next: 0,
            stage: Stage::Finished,
            user: String::new(),
            output_changed: false,
            config_changed: false,
        };
        let action = self.begin(&mut run);
        (run, action)
    }

    /// A failure after the connection was made and before a command was
    /// run: it is told, and the session is to be closed.
    fn give_up_session(&mut self, run: &mut Run, detail: &str) -> (action: Action)
        requires
            !(old(run).stage is Finished),
        ensures
            (final(self)@, final(run)@, action@) == give_up_session(
                old(self)@,
                old(run)@,
                detail@,
            ),
    {
        proof {
            use_type_invariant(&*run);
        }
        self.fail(run, detail);
        run.stage = Stage::Closing;
        Action::Disconnect
    }

    /// Leaves the task at hand and turns to the next.
    fn advance(&mut self, run: &mut Run) -> (action: Action)
        requires
            !(old(run).stage is Finished),
        ensures
            (final(self)@, final(run)@, action@) == begin_spec(
                old(self)@,
                RunView { next: old(run)@.next + 1, ..old(run)@ },
            ),
    {
        proof {
            use_type_invariant(&*run);
            lemma_begin_ignores_stage(
                old(self)@,
                RunView { next: old(run)@.next + 1, ..old(run)@ },
                Stage::Finished,
            );
        }
        assert(run.next < run.tasks.len());
        run.stage = Stage::Finished;
        run.next = run.next + 1;
        self.begin(run)
    }

    /// Takes in what the `k`-th command of the task at hand has printed.
    fn take_in(&mut self, run: &mut Run, k: usize, text: String)
        requires
            old(run).stage == Stage::Running(k),
        ensures
            final(self)@ == old(run)@.tasks[old(run)@.next as int].apply(
                k as nat,
                text@,
                old(self)@,
            ),
            final(run)@ == (RunView {
                output_changed: old(run)@.output_changed || old(run)@.tasks[old(
                    run,
                )@.next as int].writes_output(),
                config_changed: old(run)@.config_changed || old(run)@.tasks[old(
                    run,
                )@.next as int].writes_config(),
                ..old(run)@
            }),
    {
        proof {
            use_type_invariant(&*run);
        }
        let task = &run.tasks[run.next];
        let writes_output = task.writes_output();
        let writes_config = task.writes_config();
        match task {
            Task::Command(_) => {},
            Task::CheckInstallation => {
                if k == 0 {
                    self.output = report_program(text.as_str());
                } else {
                    let line = report_services(text.as_str());
                    self.output.append(line.as_str());
                }
            },
            Task::NodeLogs(_) => {
                self.output = report_node_logs(text.as_str());
            },
            Task::OracleLogs => {
                self.output = text;
            },
            Task::ReadConfig => {
                self.config = trimmed(text.as_str());
            },
        }
        if writes_output {
            run.output_changed = true;
        }
        if writes_config {
            run.config_changed = true;
        }
    }

    /// Opens a session: takes the reply to the connection or to the
    /// handshake.
    fn open_session(&mut self, run: &mut Run, reply: Reply) -> (action: Action)
        requires
            old(run).stage is Connecting || old(run).stage is Handshaking,
        ensures
            (final(self)@, final(run)@, action@) == open_session_spec(
                old(self)@,
                old(run)@,
                reply@,
            ),
    {
        proof {
            use_type_invariant(&*run);
        }
        let connecting = match run.stage {
            Stage::Connecting => true,
            _ => false,
        };
        match reply {
            Reply::Failed(detail) => {
                if connecting {
                    let detail = SessionError::Connect(detail).message();
                    self.fail(run, detail.as_str());
                    self.advance(run)
                } else {
                    let detail = SessionError::Handshake(detail).message();
                    self.give_up_session(run, detail.as_str())
                }
            },
            _ => {
                if connecting {
                    run.stage = Stage::Handshaking;
                    Action::Handshake
                } else {
                    match classify_credential(run.pass.as_str()) {
                        Credential::Password(password) => {
                            run.stage = Stage::LoggingIn;
                            Action::PasswordLogin { user: run.user.clone(), password }
                        },
                        Credential::AgentSelector(_) => {
                            run.stage = Stage::Listing;
                            Action::ListIdentities
                        },
                    }
                }
            },
        }
    }

    /// Logs in: takes the reply to the listing of the agent's identities or
    /// to the login.
    fn authenticate(&mut self, run: &mut Run, reply: Reply) -> (action: Action)
        requires
            old(run).stage is Listing || old(run).stage is LoggingIn,
        ensures
            (final(self)@, final(run)@, action@) == authenticate_spec(
                old(self)@,
                old(run)@,
                reply@,
            ),
    {
        proof {
            use_type_invariant(&*run);
        }
        let listing = match run.stage {
            Stage::Listing => true,
            _ => false,
        };
        match reply {
            Reply::Failed(detail) => {
                let detail = SessionError::Auth(AuthError::Rejected(detail)).message();
                self.give_up_session(run, detail.as_str())
            },
            Reply::Identities(ids) => {
                if listing {
                    self.choose_identity(run, &ids)
                } else {
                    self.first_command(run)
                }
            },
            _ => {
                if listing {
                    let none: Vec<Identity> = Vec::new();
                    assert(identities_view(none@) =~= reply@.identities());
                    self.choose_identity(run, &none)
                } else {
                    self.first_command(run)
                }
            },
        }
    }

    /// Logs in with the first of `ids` that the credential chooses, or
    /// gives the session up where it chooses none.
    fn choose_identity(&mut self, run: &mut Run, ids: &Vec<Identity>) -> (action: Action)
        requires
            old(run).stage is Listing,
        ensures
            (final(self)@, final(run)@, action@) == (match select_spec(
                identities_view(ids@),
                old(run)@.pass,
            ) {
                Some(index) => (
                    old(self)@,
                    RunView { stage: Stage::LoggingIn, ..old(run)@ },
                    ActionView::IdentityLogin { user: old(run)@.user, index },
                ),
                None => give_up_session(
                    old(self)@,
                    old(run)@,
                    auth_error_text(AuthError::IdentityNotFound),
                ),
            }),
    {
        proof {
            use_type_invariant(&*run);
        }
        match select_identity(ids, run.pass.as_str()) {
            Some(index) => {
                run.stage = Stage::LoggingIn;
                Action::IdentityLogin { user: run.user.clone(), index }
            },
            None => {
                let detail = SessionError::Auth(AuthError::IdentityNotFound).message();
                self.give_up_session(run, detail.as_str())
            },
        }
    }

    /// Runs the first command of the task at hand.
    fn first_command(&mut self, run: &mut Run) -> (action: Action)
        requires
            old(run).stage is LoggingIn,
        ensures
            final(self)@ == old(self)@,
            final(run)@ == (RunView { stage: Stage::Running(0), ..old(run)@ }),
            action@ == (ActionView::Execute {
                command: old(run)@.tasks[old(run)@.next as int].command(0),
                capture: old(run)@.tasks[old(run)@.next as int].captures(),
            }),
    {
        proof {
            use_type_invariant(&*run);
        }
        let task = &run.tasks[run.next];
        let action = Action::Execute { command: task.command(0), capture: task.captures() };
        run.stage = Stage::Running(0);
        action
    }

    /// Runs commands: takes the reply to the `k`-th command of the task at
    /// hand.
    fn execute(&mut self, run: &mut Run, k: usize, reply: Reply) -> (action: Action)
        requires
            old(run).stage == Stage::Running(k),
        ensures
            (final(self)@, final(run)@, action@) == execute_spec(
                old(self)@,
                old(run)@,
                k,
                reply@,
            ),
    {
        proof {
            use_type_invariant(&*run);
        }
        let text = match reply {
            Reply::Failed(detail) => {
                let detail = ChannelError { detail }.message();
                self.fail(run, detail.as_str());
                run.stage = Stage::Aborting;
                return Action::Disconnect;
            },
            Reply::Output(text) => text,
            _ => String::new(),
        };
        self.take_in(run, k, text);
        let task = &run.tasks[run.next];
        if k + 1 < task.steps() {
            let action = Action::Execute { command: task.command(k + 1), capture: task.captures() };
            run.stage = Stage::Running(k + 1);
            action
        } else {
            run.stage = Stage::Closing;
            Action::Disconnect
        }
    }

    /// Takes the reply to the action that `run` was waiting for, and says
    /// what to do next.
    pub fn step(&mut self, run: &mut Run, reply: Reply) -> (action: Action)
        ensures
            (final(self)@, final(run)@, action@) == step_spec(old(self)@, old(run)@, reply@),
            final(run)@.wf(),
    {
        proof {
            use_type_invariant(&*run);
        }
        let action = match run.stage {
            Stage::Connecting => self.open_session(run, reply),
            Stage::Handshaking => self.open_session(run, reply),
            Stage::Listing => self.authenticate(run, reply),
            Stage::LoggingIn => self.authenticate(run, reply),
            Stage::Running(k) => self.execute(run, k, reply),
            Stage::Closing => self.advance(run),
            Stage::Aborting => run.finish(),
            Stage::Finished => run.finish(),
        };
        proof {
            use_type_invariant(&*run);
        }
        action
    }
}

impl Main {
    /// Runs one command on the remote host and waits for it, without
    /// reading what it prints. Nothing is shown unless it fails.
    pub fn command(&mut self, params: String, pass: String, cmd: String) -> (r: (Run, Action))
        ensures
            (final(self)@, r.0@, r.1@) == start_spec(
                old(self)@,
                params@,
                pass@,
                command_tasks(cmd@),
            ),
            r.0@.wf(),
    {
        let mut tasks: Vec<Task> = Vec::new();
        tasks.push(Task::Command(cmd));
        assert(tasks_view(tasks@) =~= command_tasks(cmd@));
        let r = self.start(params, pass, tasks);
        proof {
            use_type_invariant(&r.0);
        }
        r
    }

    /// Finds out whether the node's program and its services are installed
    /// on the remote host, and shows both findings.
    pub fn check_installation(&mut self, params: String, pass: String) -> (r: (Run, Action))
        ensures
            (final(self)@, r.0@, r.1@) == start_spec(
                old(self)@,
                params@,
                pass@,
                check_installation_tasks(),
            ),
            r.0@.wf(),
    {
        let mut tasks: Vec<Task> = Vec::new();
        tasks.push(Task::CheckInstallation);
        assert(tasks_view(tasks@) =~= check_installation_tasks());
        let r = self.start(params, pass, tasks);
        proof {
            use_type_invariant(&r.0);
        }
        r
    }

    /// Shows the log of the node of the given type, and of the oracle.
    pub fn see_logs(&mut self, params: String, pass: String, node_type: String) -> (r: (
        Run,
        Action,
    ))
        ensures
            (final(self)@, r.0@, r.1@) == start_spec(
                old(self)@,
                params@,
                pass@,
                see_logs_tasks(node_type@),
            ),
            r.0@.wf(),
    {
        let mut tasks: Vec<Task> = Vec::new();
        tasks.push(Task::NodeLogs(node_type));
        assert(tasks_view(tasks@) =~= see_logs_tasks(node_type@));
        let r = self.start(params, pass, tasks);
        proof {
            use_type_invariant(&r.0);
        }
        r
    }

    /// Starts the node of the given type, then shows its log.
    pub fn start_node(&mut self, params: String, pass: String, node_type: String) -> (r: (
        Run,
        Action,
    ))
        ensures
            (final(self)@, r.0@, r.1@) == start_spec(
                old(self)@,
                params@,
                pass@,
                start_node_tasks(node_type@),
            ),
            r.0@.wf(),
    {
        let mut tasks: Vec<Task> = Vec::new();
        tasks.push(Task::Command(start_node_line(node_type.as_str())));
        tasks.push(Task::NodeLogs(node_type));
        assert(tasks_view(tasks@) =~= start_node_tasks(node_type@));
        let r = self.start(params, pass, tasks);
        proof {
            use_type_invariant(&r.0);
        }
        r
    }

    /// Stops the node of the given type, then shows its log.
    pub fn stop_node(&mut self, params: String, pass: String, node_type: String) -> (r: (
        Run,
        Action,
    ))
        ensures
            (final(self)@, r.0@, r.1@) == start_spec(
                old(self)@,
                params@,
                pass@,
                stop_node_tasks(node_type@),
            ),
            r.0@.wf(),
    {
        let mut tasks: Vec<Task> = Vec::new();
        tasks.push(Task::Command(stop_node_line(node_type.as_str())));
        tasks.push(Task::NodeLogs(node_type));
        assert(tasks_view(tasks@) =~= stop_node_tasks(node_type@));
        let r = self.start(params, pass, tasks);
        proof {
            use_type_invariant(&r.0);
        }
        r
    }

    /// Starts the oracle, then shows its log.
    pub fn start_oracle(&mut self, params: String, pass: String) -> (r: (Run, Action))
        ensures
            (final(self)@, r.0@, r.1@) == start_spec(
                old(self)@,
                params@,
                pass@,
                start_oracle_tasks(),
            ),
            r.0@.wf(),
    {
        let mut tasks: Vec<Task> = Vec::new();
        tasks.push(Task::Command("sudo systemctl start distance-oracle.service".to_owned()));
        tasks.push(Task::OracleLogs);
        assert(tasks_view(tasks@) =~= start_oracle_tasks());
        let r = self.start(params, pass, tasks);
        proof {
            use_type_invariant(&r.0);
        }
        r
    }

    /// Stops the oracle, then shows its log.
    pub fn stop_oracle(&mut self, params: String, pass: String) -> (r: (Run, Action))
        ensures
            (final(self)@, r.0@, r.1@) == start_spec(
                old(self)@,
                params@,
                pass@,
                stop_oracle_tasks(),
            ),
            r.0@.wf(),
    {
        let mut tasks: Vec<Task> = Vec::new();
        tasks.push(Task::Command("sudo systemctl stop distance-oracle.service".to_owned()));
        tasks.push(Task::OracleLogs);
        assert(tasks_view(tasks@) =~= stop_oracle_tasks());
        let r = self.start(params, pass, tasks);
        proof {
            use_type_invariant(&r.0);
        }
        r
    }

    /// Reads the configuration file of the remote host.
    pub fn get_config(&mut self, params: String, pass: String) -> (r: (Run, Action))
        ensures
            (final(self)@, r.0@, r.1@) == start_spec(
                old(self)@,
                params@,
                pass@,
                get_config_tasks(),
            ),
            r.0@.wf(),
    {
        let mut tasks: Vec<Task> = Vec::new();
        tasks.push(Task::ReadConfig);
        assert(tasks_view(tasks@) =~= get_config_tasks());
        let r = self.start(params, pass, tasks);
        proof {
            use_type_invariant(&r.0);
        }
        r
    }

    /// Writes `config`, trimmed, to the configuration file of the remote
    /// host.
    pub fn write_config(&mut self, params: String, pass: String, config: String) -> (r: (
        Run,
        Action,
    ))
        ensures
            (final(self)@, r.0@, r.1@) == start_spec(
                old(self)@,
                params@,
                pass@,
                write_config_tasks(config@),
            ),
            r.0@.wf(),
    {
        self.command(params, pass, write_config_line(config.as_str()))
    }

    /// The tokens of the identities that the agent has listed, for the
    /// front end to offer. Where the listing failed there are none.
    pub fn get_keys(&self, listing: &Reply) -> (r: Vec<String>)
        ensures
            Seq::new(r@.len(), |i: int| r@[i]@) == tokens_of(listing@.identities()),
    {
        match listing {
            Reply::Identities(ids) => list_identities(ids),
            _ => {
                let none: Vec<String> = Vec::new();
                assert(Seq::new(none@.len(), |i: int| none@[i]@) =~= tokens_of(
                    listing@.identities(),
                ));
                none
            },
        }
    }
}

} // verus!
