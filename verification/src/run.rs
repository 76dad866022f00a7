//! Whole runs: what holds of every step of an operation, and what an
//! operation comes to on a given transport.

use vstd::prelude::*;
use crate::address::{parse_address_spec, ConnectionParamsView, ParseError};
use crate::command::{
    lemma_config_round_trip, node_logs_command, node_logs_report, probe_program_command,
    probe_services_command, program_report, read_config_command, services_report,
    start_node_command, write_config_command, written_config,
};
use crate::identity::select_spec;
use crate::credential::MARKER;
use crate::operation::{
    begin_spec, check_installation_tasks, failed, get_config_tasks, lemma_begin_ignores_stage,
    lemma_begin_refused, see_logs_tasks, start_node_tasks, start_spec, step_spec,
    write_config_tasks, RunView,
};
use crate::protocol::{ActionView, MainView, ReplyView, Stage, TaskView};
use crate::search::count_char;
use crate::session::{parse_error_text, CONNECT_TIMEOUT_SECS};
use crate::trim::{all_whitespace, trim};

verus! {

/// Whether `a` is the action that a run at `stage` waits for the reply to.
pub open spec fn awaits(stage: Stage, a: ActionView) -> bool {
    match a {
        ActionView::Connect { .. } => stage is Connecting,
        ActionView::Handshake => stage is Handshaking,
        ActionView::PasswordLogin { .. } => stage is LoggingIn,
        ActionView::ListIdentities => stage is Listing,
        ActionView::IdentityLogin { .. } => stage is LoggingIn,
        ActionView::Execute { .. } => stage is Running,
        ActionView::Disconnect => stage is Closing || stage is Aborting,
        ActionView::Finish { .. } => stage is Finished,
    }
}

/// How much of its way a stage has before it, within one session.
pub open spec fn rank(stage: Stage) -> nat {
    match stage {
        Stage::Connecting => 7,
        Stage::Handshaking => 6,
        Stage::Listing => 5,
        Stage::LoggingIn => 4,
        Stage::Running(k) => if k == 0 {
            3
        } else {
            2
        },
        Stage::Closing => 1,
        Stage::Aborting => 1,
        Stage::Finished => 0,
    }
}

/// A bound on the number of steps that a run has before it: seven for
/// each task that is yet to come, and the rank of the stage for the task at
/// hand.
pub open spec fn distance(r: RunView) -> nat {
    if r.stage is Finished || r.next >= r.tasks.len() {
        0
    } else {
        ((r.tasks.len() - r.next - 1) * 7 + rank(r.stage)) as nat
    }
}

/// Whether `after` is a later state of the operation that `before` is a
/// state of: address, credential and tasks are the same, no task is gone
/// back to, and what was written stays noted.
pub open spec fn follows(before: RunView, after: RunView) -> bool {
    &&& after.params == before.params
    &&& after.pass == before.pass
    &&& after.tasks == before.tasks
    &&& after.next >= before.next
    &&& before.output_changed ==> after.output_changed
    &&& before.config_changed ==> after.config_changed
}

/// Whether the writes between `m` and `after` are noted in `r`, for the
/// observers to be told.
pub open spec fn noted(m: MainView, after: MainView, r: RunView) -> bool {
    &&& after.output != m.output ==> r.output_changed
    &&& after.config != m.config ==> r.config_changed
}

/// Turning to a task either asks for a connection or ends the run; it
/// opens nothing by itself, and notes what it writes.
pub proof fn lemma_begin(m: MainView, r: RunView)
    requires
        r.next <= r.tasks.len(),
    ensures
        ({
            let (m2, r2, a) = begin_spec(m, r);
            &&& r2.wf()
            &&& follows(r, r2)
            &&& noted(m, m2, r2)
            &&& awaits(r2.stage, a)
            &&& a is Connect || a is Finish
            &&& a is Connect ==> m2 == m && r2.next == r.next
            &&& a matches ActionView::Finish { output_changed, config_changed } ==> output_changed
                == r2.output_changed && config_changed == r2.config_changed
            &&& distance(r2) <= (r.tasks.len() - r.next) * 7
        }),
{
    if r.next < r.tasks.len() {
        match parse_address_spec(r.params) {
            Ok(p) => {},
            Err(e) => {
                lemma_begin_refused(m, r, e);
            },
        }
    }
}

/// What holds of every step of every run. The run stays well formed and
/// stays the same operation. Whatever the step writes is noted for the
/// observers, and the end of the run reports what was noted. The action
/// asked for is the one that the new stage waits for. A session that is
/// open stays open or is closed by this very step: no connection is asked
/// for, and no run ends, while one is open. And each step brings the run
/// nearer to its end.
pub proof fn lemma_step(m: MainView, r: RunView, reply: ReplyView)
    requires
        r.wf(),
    ensures
        ({
            let (m2, r2, a) = step_spec(m, r, reply);
            &&& r2.wf()
            &&& follows(r, r2)
            &&& noted(m, m2, r2)
            &&& awaits(r2.stage, a)
            &&& a matches ActionView::Finish { output_changed, config_changed } ==> output_changed
                == r2.output_changed && config_changed == r2.config_changed
            &&& r.stage.holds_session() ==> r2.stage.holds_session() || a is Disconnect
            &&& a is Disconnect ==> r.stage.holds_session()
            &&& a is Connect || a is Finish ==> !r.stage.holds_session()
            &&& !(r.stage is Finished) ==> distance(r2) < distance(r)
            &&& r.stage is Finished ==> m2 == m && r2 == r
        }),
{
    let next = RunView { next: r.next + 1, ..r };
    match r.stage {
        Stage::Connecting => match reply {
            ReplyView::Failed(detail) => {
                lemma_begin(
                    failed(m, detail),
                    RunView { output_changed: true, ..next },
                );
            },
            _ => {},
        },
        Stage::Closing => {
            lemma_begin(m, next);
        },
        _ => {},
    }
}

/// What a run comes to when `transport` gives the replies: what the front
/// end sees at the end, and every action that was asked for, the last one
/// included. `a` is the action that the run waits for, and `i` the number
/// of actions answered before; the transport is asked by that number and by
/// the action.
pub open spec fn run_spec(
    m: MainView,
    r: RunView,
    a: ActionView,
    transport: spec_fn(nat, ActionView) -> ReplyView,
    i: nat,
) -> (MainView, Seq<ActionView>)
    decreases distance(r),
    when r.wf()
    via run_spec_ends
{
    if r.stage is Finished {
        (m, seq![a])
    } else {
        let (m2, r2, a2) = step_spec(m, r, transport(i, a));
        let (end, rest) = run_spec(m2, r2, a2, transport, i + 1);
        (end, seq![a] + rest)
    }
}

#[via_fn]
proof fn run_spec_ends(
    m: MainView,
    r: RunView,
    a: ActionView,
    transport: spec_fn(nat, ActionView) -> ReplyView,
    i: nat,
) {
    lemma_step(m, r, transport(i, a));
}

/// Whether `transport` never reports a failure.
pub open spec fn never_fails(transport: spec_fn(nat, ActionView) -> ReplyView) -> bool {
    forall|i: nat, a: ActionView| !(#[trigger] transport(i, a) is Failed)
}

/// The connection that is asked for to the address `p`.
pub open spec fn connect_to(p: ConnectionParamsView) -> ActionView {
    ActionView::Connect { host: p.host, port: p.port, timeout_secs: CONNECT_TIMEOUT_SECS }
}

/// The actions of a session in which `user` logs in with a password and
/// one command is run.
pub open spec fn password_session(
    p: ConnectionParamsView,
    pass: Seq<char>,
    command: Seq<char>,
    capture: bool,
) -> Seq<ActionView> {
    seq![
        connect_to(p),
        ActionView::Handshake,
        ActionView::PasswordLogin { user: p.user, password: pass },
        ActionView::Execute { command, capture },
        ActionView::Disconnect,
    ]
}

/// The end of a run.
pub open spec fn finish_with(output_changed: bool, config_changed: bool) -> Seq<ActionView> {
    seq![ActionView::Finish { output_changed, config_changed }]
}

/// A run that is over asks for nothing more.
pub proof fn lemma_run_finished(
    m: MainView,
    r: RunView,
    a: ActionView,
    transport: spec_fn(nat, ActionView) -> ReplyView,
    i: nat,
)
    requires
        r.wf(),
        r.stage is Finished,
    ensures
        run_spec(m, r, a, transport, i) == (m, seq![a]),
{
}

/// One step of a run that is not over.
pub proof fn lemma_run_step(
    m: MainView,
    r: RunView,
    a: ActionView,
    transport: spec_fn(nat, ActionView) -> ReplyView,
    i: nat,
)
    requires
        r.wf(),
        !(r.stage is Finished),
    ensures
        ({
            let (m2, r2, a2) = step_spec(m, r, transport(i, a));
            let (end, rest) = run_spec(m2, r2, a2, transport, i + 1);
            &&& r2.wf()
            &&& run_spec(m, r, a, transport, i) == (end, seq![a] + rest)
        }),
{
    lemma_step(m, r, transport(i, a));
}

/// A session with a password and one command, on a transport that does
/// not fail: the five actions of the session are asked for, the task
/// takes in what the command printed, and the run goes on with the next
/// task.
pub proof fn lemma_password_session(
    m: MainView,
    r: RunView,
    p: ConnectionParamsView,
    transport: spec_fn(nat, ActionView) -> ReplyView,
    i: nat,
)
    requires
        r.wf(),
        r.stage is Connecting,
        r.user == p.user,
        !r.pass.contains(MARKER),
        r.tasks[r.next as int].steps() == 1,
        never_fails(transport),
    ensures
        ({
            let task = r.tasks[r.next as int];
            let run_it = ActionView::Execute { command: task.command(0), capture: task.captures() };
            let seen = task.apply(0, transport(i + 3, run_it).text(), m);
            let told = RunView {
                next: r.next + 1,
                output_changed: r.output_changed || task.writes_output(),
                config_changed: r.config_changed || task.writes_config(),
                ..r
            };
            let (m2, r2, a2) = begin_spec(seen, told);
            let (end, rest) = run_spec(m2, r2, a2, transport, i + 5);
            run_spec(m, r, connect_to(p), transport, i) == (
                end,
                password_session(p, r.pass, task.command(0), task.captures()) + rest,
            )
        }),
{
    let task = r.tasks[r.next as int];
    let a0 = connect_to(p);
    lemma_run_step(m, r, a0, transport, i);
    let (m1, r1, a1) = step_spec(m, r, transport(i, a0));
    assert(a1 == ActionView::Handshake && m1 == m);
    lemma_run_step(m1, r1, a1, transport, i + 1);
    let (m2, r2, a2) = step_spec(m1, r1, transport(i + 1, a1));
    assert(a2 == (ActionView::PasswordLogin { user: p.user, password: r.pass }) && m2 == m);
    lemma_run_step(m2, r2, a2, transport, i + 2);
    let (m3, r3, a3) = step_spec(m2, r2, transport(i + 2, a2));
    let run_it = ActionView::Execute { command: task.command(0), capture: task.captures() };
    assert(a3 == run_it && m3 == m);
    lemma_run_step(m3, r3, a3, transport, i + 3);
    let (m4, r4, a4) = step_spec(m3, r3, transport(i + 3, a3));
    assert(a4 == ActionView::Disconnect);
    assert(m4 == task.apply(0, transport(i + 3, run_it).text(), m));
    lemma_run_step(m4, r4, a4, transport, i + 4);
    let (m5, r5, a5) = step_spec(m4, r4, transport(i + 4, a4));
    let told = RunView {
        next: r.next + 1,
        output_changed: r.output_changed || task.writes_output(),
        config_changed: r.config_changed || task.writes_config(),
        ..r
    };
    lemma_begin_ignores_stage(m4, told, Stage::Closing);
    assert(RunView { next: r4.next + 1, ..r4 } == RunView { stage: Stage::Closing, ..told });
    assert((m5, r5, a5) == begin_spec(m4, told));
    let rest = run_spec(m5, r5, a5, transport, i + 5).1;
    assert(seq![a0] + (seq![a1] + (seq![a2] + (seq![a3] + (seq![a4] + rest))))
        =~= password_session(p, r.pass, task.command(0), task.captures()) + rest);
}

/// The end that a whole operation comes to, and all that it asks for, when
/// `transport` gives the replies.
pub open spec fn operation_spec(
    m: MainView,
    params: Seq<char>,
    pass: Seq<char>,
    tasks: Seq<TaskView>,
    transport: spec_fn(nat, ActionView) -> ReplyView,
) -> (MainView, Seq<ActionView>) {
    let (m0, r0, a0) = start_spec(m, params, pass, tasks);
    run_spec(m0, r0, a0, transport, 0)
}

/// The command that a task of one command runs.
pub open spec fn run_of(task: TaskView) -> ActionView {
    ActionView::Execute { command: task.command(0), capture: task.captures() }
}

/// Whether `a` is the end of a run that has written at least what `r`
/// has noted.
pub open spec fn reports(a: ActionView, r: RunView) -> bool {
    a matches ActionView::Finish { output_changed, config_changed } && (r.output_changed
        ==> output_changed) && (r.config_changed ==> config_changed)
}

/// Every run ends, whatever the transport replies: the actions asked for
/// are no more than the run's distance, and the last of them, and no other,
/// is the end. Whatever the run has written by then, the end reports it.
pub proof fn lemma_run_ends(
    m: MainView,
    r: RunView,
    a: ActionView,
    transport: spec_fn(nat, ActionView) -> ReplyView,
    i: nat,
)
    requires
        r.wf(),
        awaits(r.stage, a),
        r.stage is Finished ==> reports(a, r),
    ensures
        ({
            let (end, asked) = run_spec(m, r, a, transport, i);
            &&& 1 <= asked.len() <= distance(r) + 1
            &&& asked[0] == a
            &&& reports(asked.last(), r)
            &&& forall|j: int| 0 <= j < asked.len() - 1 ==> !(#[trigger] asked[j] is Finish)
            &&& end.output != m.output ==> asked.last()->Finish_output_changed
            &&& end.config != m.config ==> asked.last()->Finish_config_changed
        }),
    decreases distance(r),
{
    if !(r.stage is Finished) {
        let (m2, r2, a2) = step_spec(m, r, transport(i, a));
        lemma_step(m, r, transport(i, a));
        lemma_run_step(m, r, a, transport, i);
        lemma_run_ends(m2, r2, a2, transport, i + 1);
        let (end, rest) = run_spec(m2, r2, a2, transport, i + 1);
        let asked = seq![a] + rest;
        assert(asked.last() == rest.last());
        assert forall|j: int| 0 <= j < asked.len() - 1 implies !(#[trigger] asked[j] is Finish) by {
            if j > 0 {
                assert(asked[j] == rest[j - 1]);
            }
        }
    }
}

/// Every operation ends, whatever the address, the credential and the
/// replies: it asks for seven actions a task at most, the last action
/// asked for, and no other, is the end, and it reports whatever the
/// operation has written.
pub proof fn lemma_operation_ends(
    m: MainView,
    params: Seq<char>,
    pass: Seq<char>,
    tasks: Seq<TaskView>,
    transport: spec_fn(nat, ActionView) -> ReplyView,
)
    ensures
        ({
            let (end, asked) = operation_spec(m, params, pass, tasks, transport);
            &&& 1 <= asked.len() <= tasks.len() * 7 + 1
            &&& asked.last() is Finish
            &&& forall|j: int| 0 <= j < asked.len() - 1 ==> !(#[trigger] asked[j] is Finish)
            &&& end.output != m.output ==> asked.last()->Finish_output_changed
            &&& end.config != m.config ==> asked.last()->Finish_config_changed
        }),
{
    let first = RunView {
        params,
        pass,
        tasks,
        next: 0,
        stage: Stage::Finished,
        user: Seq::empty(),
        output_changed: false,
        config_changed: false,
    };
    lemma_begin(m, first);
    let (m0, r0, a0) = start_spec(m, params, pass, tasks);
    lemma_run_ends(m0, r0, a0, transport, 0);
}

/// With an address that is refused, an operation asks for nothing: it is
/// over at once, and the front end is told why. A text without exactly one
/// `@` is refused for its format.
pub proof fn lemma_refused_address(
    m: MainView,
    params: Seq<char>,
    pass: Seq<char>,
    tasks: Seq<TaskView>,
    transport: spec_fn(nat, ActionView) -> ReplyView,
)
    requires
        tasks.len() > 0,
        parse_address_spec(params) is Err,
    ensures
        operation_spec(m, params, pass, tasks, transport) == (
            failed(m, parse_error_text(parse_address_spec(params)->Err_0)),
            finish_with(true, false),
        ),
        count_char(params, '@') != 1 ==> parse_address_spec(params)->Err_0
            == ParseError::BadFormat,
{
    let (m0, r0, a0) = start_spec(m, params, pass, tasks);
    let first = RunView {
        params,
        pass,
        tasks,
        next: 0,
        stage: Stage::Finished,
        user: Seq::empty(),
        output_changed: false,
        config_changed: false,
    };
    lemma_begin_refused(m, first, parse_address_spec(params)->Err_0);
    lemma_run_finished(m0, r0, a0, transport, 0);
}

/// An operation of one task of one command, with a password, on a
/// transport that does not fail: one session, and the task takes in what
/// its command printed.
pub proof fn lemma_one_session(
    m: MainView,
    params: Seq<char>,
    pass: Seq<char>,
    task: TaskView,
    transport: spec_fn(nat, ActionView) -> ReplyView,
)
    requires
        parse_address_spec(params) is Ok,
        !pass.contains(MARKER),
        task.steps() == 1,
        never_fails(transport),
    ensures
        ({
            let p = parse_address_spec(params)->Ok_0;
            operation_spec(m, params, pass, seq![task], transport) == (
                task.apply(0, transport(3, run_of(task)).text(), m),
                password_session(p, pass, task.command(0), task.captures()) + finish_with(
                    task.writes_output(),
                    task.writes_config(),
                ),
            )
        }),
{
    let p = parse_address_spec(params)->Ok_0;
    let (m0, r0, a0) = start_spec(m, params, pass, seq![task]);
    assert(a0 == connect_to(p) && m0 == m);
    lemma_password_session(m0, r0, p, transport, 0);
    let seen = task.apply(0, transport(3, run_of(task)).text(), m);
    let told = RunView {
        next: 1,
        output_changed: task.writes_output(),
        config_changed: task.writes_config(),
        ..r0
    };
    let (m1, r1, a1) = begin_spec(seen, told);
    lemma_run_finished(m1, r1, a1, transport, 5);
}

/// An operation of two tasks of one command each, with a password, on a
/// transport that does not fail: two sessions, one after the other, each
/// opened and closed for itself; the second task takes in what its command
/// printed, after the first.
pub proof fn lemma_two_sessions(
    m: MainView,
    params: Seq<char>,
    pass: Seq<char>,
    first: TaskView,
    second: TaskView,
    transport: spec_fn(nat, ActionView) -> ReplyView,
)
    requires
        parse_address_spec(params) is Ok,
        !pass.contains(MARKER),
        first.steps() == 1,
        second.steps() == 1,
        never_fails(transport),
    ensures
        ({
            let p = parse_address_spec(params)->Ok_0;
            let between = first.apply(0, transport(3, run_of(first)).text(), m);
            operation_spec(m, params, pass, seq![first, second], transport) == (
                second.apply(0, transport(8, run_of(second)).text(), between),
                password_session(p, pass, first.command(0), first.captures()) + password_session(
                    p,
                    pass,
                    second.command(0),
                    second.captures(),
                ) + finish_with(
                    first.writes_output() || second.writes_output(),
                    first.writes_config() || second.writes_config(),
                ),
            )
        }),
{
    let p = parse_address_spec(params)->Ok_0;
    let tasks = seq![first, second];
    let (m0, r0, a0) = start_spec(m, params, pass, tasks);
    assert(a0 == connect_to(p) && m0 == m);
    lemma_password_session(m0, r0, p, transport, 0);
    let between = first.apply(0, transport(3, run_of(first)).text(), m);
    let told = RunView {
        next: 1,
        output_changed: first.writes_output(),
        config_changed: first.writes_config(),
        ..r0
    };
    let (m1, r1, a1) = begin_spec(between, told);
    assert(a1 == connect_to(p) && m1 == between);
    lemma_password_session(m1, r1, p, transport, 5);
    let seen = second.apply(0, transport(8, run_of(second)).text(), between);
    let told2 = RunView {
        next: 2,
        output_changed: r1.output_changed || second.writes_output(),
        config_changed: r1.config_changed || second.writes_config(),
        ..r1
    };
    let (m2, r2, a2) = begin_spec(seen, told2);
    lemma_run_finished(m2, r2, a2, transport, 10);
    let s1 = password_session(p, pass, first.command(0), first.captures());
    let s2 = password_session(p, pass, second.command(0), second.captures());
    let end = finish_with(
        first.writes_output() || second.writes_output(),
        first.writes_config() || second.writes_config(),
    );
    assert(s1 + (s2 + end) =~= s1 + s2 + end);
}

/// `start_node` starts the node in a session of its own and then does all
/// that `see_logs` does, in the same order and with the same command; the
/// log is shown behind a line break.
pub proof fn lemma_start_node_then_see_logs(
    m: MainView,
    params: Seq<char>,
    pass: Seq<char>,
    node_type: Seq<char>,
    transport: spec_fn(nat, ActionView) -> ReplyView,
)
    requires
        parse_address_spec(params) is Ok,
        !pass.contains(MARKER),
        never_fails(transport),
    ensures
        ({
            let p = parse_address_spec(params)->Ok_0;
            let started = operation_spec(m, params, pass, start_node_tasks(node_type), transport);
            let seen = operation_spec(m, params, pass, see_logs_tasks(node_type), transport);
            let show = ActionView::Execute { command: node_logs_command(node_type), capture: true };
            &&& started.1 == password_session(p, pass, start_node_command(node_type), false)
                + seen.1
            &&& seen.1 == password_session(p, pass, node_logs_command(node_type), true)
                + finish_with(true, false)
            &&& started.0.output == node_logs_report(transport(8, show).text())
            &&& seen.0.output == node_logs_report(transport(3, show).text())
            &&& started.0.config == m.config
            &&& seen.0.config == m.config
        }),
{
    let p = parse_address_spec(params)->Ok_0;
    let start = TaskView::Command(start_node_command(node_type));
    let show = TaskView::NodeLogs(node_type);
    assert(start_node_tasks(node_type) =~= seq![start, show]);
    lemma_two_sessions(m, params, pass, start, show, transport);
    lemma_one_session(m, params, pass, show, transport);
    let s1 = password_session(p, pass, start_node_command(node_type), false);
    let s2 = password_session(p, pass, node_logs_command(node_type), true);
    assert(s1 + s2 + finish_with(true, false) =~= s1 + (s2 + finish_with(true, false)));
}

/// A configuration that `write_config` has written is read back by
/// `get_config` as it was written, trimmed: if the remote host prints what
/// the command carried, with any whitespace around it, the configuration
/// that is kept is the trimmed text. `write_config` itself shows nothing.
pub proof fn lemma_write_then_get_config(
    m: MainView,
    params: Seq<char>,
    pass: Seq<char>,
    text: Seq<char>,
    lead: Seq<char>,
    trail: Seq<char>,
    writing: spec_fn(nat, ActionView) -> ReplyView,
    reading: spec_fn(nat, ActionView) -> ReplyView,
)
    requires
        parse_address_spec(params) is Ok,
        !pass.contains(MARKER),
        never_fails(writing),
        never_fails(reading),
        all_whitespace(lead),
        all_whitespace(trail),
        reading(3, ActionView::Execute { command: read_config_command(), capture: true }).text()
            == lead + written_config(write_config_command(text)) + trail,
    ensures
        ({
            let p = parse_address_spec(params)->Ok_0;
            let written = operation_spec(m, params, pass, write_config_tasks(text), writing);
            let read = operation_spec(written.0, params, pass, get_config_tasks(), reading);
            &&& written.0 == m
            &&& written.1 == password_session(p, pass, write_config_command(text), false)
                + finish_with(false, false)
            &&& read.1 == password_session(p, pass, read_config_command(), true) + finish_with(
                false,
                true,
            )
            &&& read.0.config == trim(text)
            &&& read.0.output == m.output
        }),
{
    let write = TaskView::Command(write_config_command(text));
    assert(write_config_tasks(text) =~= seq![write]);
    lemma_one_session(m, params, pass, write, writing);
    assert(get_config_tasks() =~= seq![TaskView::ReadConfig]);
    lemma_one_session(m, params, pass, TaskView::ReadConfig, reading);
    lemma_config_round_trip(text, lead, trail);
}

/// `check_installation` with a password, on a transport that does not fail:
/// one session in which both questions are asked, and both answers shown,
/// the second on a line of its own. Where both answers are empty the two
/// lines say that nothing is installed; where the first is not, the text
/// shown begins with the place of the program.
pub proof fn lemma_check_installation(
    m: MainView,
    params: Seq<char>,
    pass: Seq<char>,
    transport: spec_fn(nat, ActionView) -> ReplyView,
)
    requires
        parse_address_spec(params) is Ok,
        !pass.contains(MARKER),
        never_fails(transport),
    ensures
        ({
            let p = parse_address_spec(params)->Ok_0;
            let ask_program = ActionView::Execute {
                command: probe_program_command(),
                capture: true,
            };
            let ask_services = ActionView::Execute {
                command: probe_services_command(),
                capture: true,
            };
            let program = transport(3, ask_program).text();
            let services = transport(4, ask_services).text();
            let (end, asked) = operation_spec(
                m,
                params,
                pass,
                check_installation_tasks(),
                transport,
            );
            &&& asked == seq![
                connect_to(p),
                ActionView::Handshake,
                ActionView::PasswordLogin { user: p.user, password: pass },
                ask_program,
                ask_services,
                ActionView::Disconnect,
                ActionView::Finish { output_changed: true, config_changed: false },
            ]
            &&& end.output == program_report(program) + services_report(services)
            &&& end.config == m.config
            &&& program.len() == 0 && services.len() == 0 ==> end.output
                == "No duniter on the system"@ + "\nNo duniter services on the system"@
            &&& program.len() > 0 ==> ("Duniter detected at "@ + program).is_prefix_of(end.output)
        }),
{
    let p = parse_address_spec(params)->Ok_0;
    let (m0, r0, a0) = start_spec(m, params, pass, check_installation_tasks());
    assert(a0 == connect_to(p) && m0 == m);
    lemma_run_step(m0, r0, a0, transport, 0);
    let (m1, r1, a1) = step_spec(m0, r0, transport(0, a0));
    lemma_run_step(m1, r1, a1, transport, 1);
    let (m2, r2, a2) = step_spec(m1, r1, transport(1, a1));
    lemma_run_step(m2, r2, a2, transport, 2);
    let (m3, r3, a3) = step_spec(m2, r2, transport(2, a2));
    lemma_run_step(m3, r3, a3, transport, 3);
    let (m4, r4, a4) = step_spec(m3, r3, transport(3, a3));
    lemma_run_step(m4, r4, a4, transport, 4);
    let (m5, r5, a5) = step_spec(m4, r4, transport(4, a4));
    lemma_run_step(m5, r5, a5, transport, 5);
    let (m6, r6, a6) = step_spec(m5, r5, transport(5, a5));
    lemma_run_finished(m6, r6, a6, transport, 6);
    assert(seq![a0] + (seq![a1] + (seq![a2] + (seq![a3] + (seq![a4] + (seq![a5] + seq![a6])))))
        =~= seq![a0, a1, a2, a3, a4, a5, a6]);
    let program = transport(3, a3).text();
    let shown = "Duniter detected at "@ + program;
    if program.len() > 0 {
        assert(m6.output.subrange(0, shown.len() as int) =~= shown);
    }
}

/// A selector that chooses none of the agent's identities: an operation of
/// one task asks for the identities, is told them, closes the session
/// without a login, and tells that the identity was not found.
pub proof fn lemma_identity_not_found(
    m: MainView,
    params: Seq<char>,
    pass: Seq<char>,
    task: TaskView,
    transport: spec_fn(nat, ActionView) -> ReplyView,
)
    requires
        parse_address_spec(params) is Ok,
        pass.contains(MARKER),
        never_fails(transport),
        select_spec(transport(2, ActionView::ListIdentities).identities(), pass) is None,
    ensures
        operation_spec(m, params, pass, seq![task], transport) == (
            failed(m, "Identity not found"@),
            seq![
                connect_to(parse_address_spec(params)->Ok_0),
                ActionView::Handshake,
                ActionView::ListIdentities,
                ActionView::Disconnect,
                ActionView::Finish { output_changed: true, config_changed: false },
            ],
        ),
{
    let (m0, r0, a0) = start_spec(m, params, pass, seq![task]);
    lemma_run_step(m0, r0, a0, transport, 0);
    let (m1, r1, a1) = step_spec(m0, r0, transport(0, a0));
    lemma_run_step(m1, r1, a1, transport, 1);
    let (m2, r2, a2) = step_spec(m1, r1, transport(1, a1));
    assert(a2 == ActionView::ListIdentities);
    lemma_run_step(m2, r2, a2, transport, 2);
    let (m3, r3, a3) = step_spec(m2, r2, transport(2, a2));
    lemma_run_step(m3, r3, a3, transport, 3);
    let (m4, r4, a4) = step_spec(m3, r3, transport(3, a3));
    lemma_run_finished(m4, r4, a4, transport, 4);
    assert(seq![a0] + (seq![a1] + (seq![a2] + (seq![a3] + seq![a4]))) =~= seq![
        a0,
        a1,
        a2,
        a3,
        a4,
    ]);
}

} // verus!
