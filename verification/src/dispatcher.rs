//! The dispatcher: the single consumer that owns the one remote session,
//! takes tasks strictly in submission order, decides for each what the
//! transport must do, folds the transport's outcome into the next session
//! state, and produces exactly one result per task.
//!
//! The transport itself lives outside this crate. The dispatcher's contract
//! is a state machine: `plan` says what remote work a task needs given the
//! current session state, and `step` consumes the outcome of that work,
//! moves the state, and returns the task's result. The surrounding loop
//! performs the remote work between the two.

use vstd::prelude::*;

use crate::errors::{not_connected_detail, ErrorKind, TaskError, TaskErrorV};
use crate::listing::{sort_entries, sort_entries_spec, DirEntry, EntryV};
use crate::task::{
    is_operation, result_matches_task, unit_result_view, Task, TaskResult, TaskResultV, TaskV,
};

verus! {

/// The mathematical model of an adopted session: where it points.
pub struct SessionInfoV {
    pub host: Seq<char>,
    pub username: Seq<char>,
    pub port: u16,
}

/// The connection an adopted session was made with. The credential is not
/// retained here: it is used during the connection attempt and kept only by
/// the transport.
#[derive(Debug)]
pub struct SessionInfo {
    pub host: String,
    pub username: String,
    pub port: u16,
}

impl View for SessionInfo {
    type V = SessionInfoV;

    open spec fn view(&self) -> SessionInfoV {
        SessionInfoV { host: self.host@, username: self.username@, port: self.port }
    }
}

/// The mathematical model of the dispatcher: the adopted session, if any.
pub struct DispatcherV {
    pub session: Option<SessionInfoV>,
}

/// The dispatcher state: `None` until a `Connect` task succeeds, dropped
/// again by `Disconnect`, by a failed `Connect`, and by nothing else.
#[derive(Debug)]
pub struct Dispatcher {
    pub session: Option<SessionInfo>,
}

impl View for Dispatcher {
    type V = DispatcherV;

    open spec fn view(&self) -> DispatcherV {
        DispatcherV {
            session: match self.session {
                Some(s) => Some(s@),
                None => None,
            },
        }
    }
}

/// The mathematical model of one piece of remote work.
pub enum RemoteOpV {
    Connect { host: Seq<char>, username: Seq<char>, credential: Seq<char>, port: u16 },
    ListDirectory { path: Seq<char> },
    CreateDirectory { path: Seq<char> },
    CreateFile { path: Seq<char> },
    DownloadFile { remote_path: Seq<char>, local_path: Seq<char> },
    UploadFile { local_path: Seq<char>, remote_path: Seq<char> },
    DeleteFile { path: Seq<char> },
    RenameFile { old_path: Seq<char>, new_path: Seq<char> },
    ReadFile { path: Seq<char> },
    WriteFile { path: Seq<char>, content: Seq<char> },
}

/// One piece of remote work the transport must perform for a task.
#[derive(Debug)]
pub enum RemoteOp {
    Connect(String, String, String, u16),
    ListDirectory(String),
    CreateDirectory(String),
    CreateFile(String),
    DownloadFile(String, String),
    UploadFile(String, String),
    DeleteFile(String),
    RenameFile(String, String),
    ReadFile(String),
    WriteFile(String, String),
}

impl View for RemoteOp {
    type V = RemoteOpV;

    open spec fn view(&self) -> RemoteOpV {
        match self {
            RemoteOp::Connect(h, u, c, p) => RemoteOpV::Connect {
                host: h@,
                username: u@,
                credential: c@,
                port: *p,
            },
            RemoteOp::ListDirectory(p) => RemoteOpV::ListDirectory { path: p@ },
            RemoteOp::CreateDirectory(p) => RemoteOpV::CreateDirectory { path: p@ },
            RemoteOp::CreateFile(p) => RemoteOpV::CreateFile { path: p@ },
            RemoteOp::DownloadFile(r, l) => RemoteOpV::DownloadFile {
                remote_path: r@,
                local_path: l@,
            },
            RemoteOp::UploadFile(l, r) => RemoteOpV::UploadFile {
                local_path: l@,
                remote_path: r@,
            },
            RemoteOp::DeleteFile(p) => RemoteOpV::DeleteFile { path: p@ },
            RemoteOp::RenameFile(o, n) => RemoteOpV::RenameFile { old_path: o@, new_path: n@ },
            RemoteOp::ReadFile(p) => RemoteOpV::ReadFile { path: p@ },
            RemoteOp::WriteFile(p, c) => RemoteOpV::WriteFile { path: p@, content: c@ },
        }
    }
}

/// The mathematical model of what a task needs from the outside.
pub enum PlanV {
    /// Answered on the spot, without touching the transport.
    Reply(TaskResultV),
    /// The transport must perform this piece of remote work first.
    Remote(RemoteOpV),
    /// Drop the session handles, then acknowledge.
    Teardown,
}

/// What a task needs from the outside, given the current session state.
#[derive(Debug)]
pub enum Plan {
    Reply(TaskResult),
    Remote(RemoteOp),
    Teardown,
}

impl View for Plan {
    type V = PlanV;

    open spec fn view(&self) -> PlanV {
        match self {
            Plan::Reply(r) => PlanV::Reply(r@),
            Plan::Remote(op) => PlanV::Remote(op@),
            Plan::Teardown => PlanV::Teardown,
        }
    }
}

/// The mathematical model of a successful remote outcome's payload.
pub enum PayloadV {
    Ack,
    Listing(Seq<EntryV>),
    Content(Seq<char>),
}

/// What a successful piece of remote work handed back: an acknowledgement,
/// the raw entries of a directory, or the text of a file.
#[derive(Debug)]
pub enum RemotePayload {
    Ack,
    Listing(Vec<DirEntry>),
    Content(String),
}

impl View for RemotePayload {
    type V = PayloadV;

    open spec fn view(&self) -> PayloadV {
        match self {
            RemotePayload::Ack => PayloadV::Ack,
            RemotePayload::Listing(v) => PayloadV::Listing(crate::listing::views(v@)),
            RemotePayload::Content(s) => PayloadV::Content(s@),
        }
    }
}

/// The view of a remote outcome.
pub open spec fn outcome_view(o: Result<RemotePayload, TaskError>) -> Result<
    PayloadV,
    TaskErrorV,
> {
    match o {
        Ok(p) => Ok(p@),
        Err(e) => Err(e@),
    }
}

/// The error every operation receives while no session is live.
pub open spec fn not_connected_error() -> TaskErrorV {
    TaskErrorV { kind: ErrorKind::NotConnected, detail: not_connected_detail() }
}

/// Whether a successful payload is of the shape the task's remote work hands
/// back: entries for a listing, text for a read, an acknowledgement for the
/// rest. Errors fit every task.
pub open spec fn outcome_fits(t: TaskV, o: Result<PayloadV, TaskErrorV>) -> bool {
    match o {
        Err(_) => true,
        Ok(p) => match t {
            TaskV::ListDirectory { .. } => p is Listing,
            TaskV::ReadFile { .. } => p is Content,
            _ => p is Ack,
        },
    }
}

/// What remote work a task needs, given the session state: `Connect` always
/// dials out; `Disconnect` always tears down on the spot; every other task
/// is answered `NotConnected` on the spot unless a session is adopted.
pub open spec fn spec_plan(d: DispatcherV, t: TaskV) -> PlanV {
    match t {
        TaskV::Connect { host, username, credential, port } => PlanV::Remote(
            RemoteOpV::Connect { host, username, credential, port },
        ),
        TaskV::Disconnect => PlanV::Teardown,
        TaskV::ListDirectory { path } => if d.session is Some {
            PlanV::Remote(RemoteOpV::ListDirectory { path })
        } else {
            PlanV::Reply(TaskResultV::ListDirectoryResult(Err(not_connected_error())))
        },
        TaskV::CreateDirectory { path } => if d.session is Some {
            PlanV::Remote(RemoteOpV::CreateDirectory { path })
        } else {
            PlanV::Reply(TaskResultV::CreateDirectoryResult(Err(not_connected_error())))
        },
        TaskV::CreateFile { path } => if d.session is Some {
            PlanV::Remote(RemoteOpV::CreateFile { path })
        } else {
            PlanV::Reply(TaskResultV::CreateFileResult(Err(not_connected_error())))
        },
        TaskV::DownloadFile { remote_path, local_path } => if d.session is Some {
            PlanV::Remote(RemoteOpV::DownloadFile { remote_path, local_path })
        } else {
            PlanV::Reply(TaskResultV::DownloadFileResult(Err(not_connected_error())))
        },
        TaskV::UploadFile { local_path, remote_path } => if d.session is Some {
            PlanV::Remote(RemoteOpV::UploadFile { local_path, remote_path })
        } else {
            PlanV::Reply(TaskResultV::UploadFileResult(Err(not_connected_error())))
        },
        TaskV::DeleteFile { path } => if d.session is Some {
            PlanV::Remote(RemoteOpV::DeleteFile { path })
        } else {
            PlanV::Reply(TaskResultV::DeleteFileResult(Err(not_connected_error())))
        },
        TaskV::RenameFile { old_path, new_path } => if d.session is Some {
            PlanV::Remote(RemoteOpV::RenameFile { old_path, new_path })
        } else {
            PlanV::Reply(TaskResultV::RenameFileResult(Err(not_connected_error())))
        },
        TaskV::ReadFile { path } => if d.session is Some {
            PlanV::Remote(RemoteOpV::ReadFile { path })
        } else {
            PlanV::Reply(TaskResultV::ReadFileResult(Err(not_connected_error())))
        },
        TaskV::WriteFile { path, content } => if d.session is Some {
            PlanV::Remote(RemoteOpV::WriteFile { path, content })
        } else {
            PlanV::Reply(TaskResultV::WriteFileResult(Err(not_connected_error())))
        },
    }
}

/// How one task moves the session state and what result it produces, given
/// the outcome the transport reported for its remote work (ignored wherever
/// the plan needed none):
/// - a successful `Connect` adopts a session pointing where the task said;
///   a failed one leaves the dispatcher without an adopted session;
/// - `Disconnect` always drops the session and always acknowledges;
/// - every other task leaves the state alone; it is answered `NotConnected`
///   while no session is adopted, and otherwise relays the outcome, with a
///   directory listing sorted into the listing order.
pub open spec fn spec_step(d: DispatcherV, t: TaskV, o: Result<PayloadV, TaskErrorV>) -> (
    DispatcherV,
    TaskResultV,
) {
    match t {
        TaskV::Connect { host, username, credential, port } => match o {
            Ok(_) => (
                DispatcherV { session: Some(SessionInfoV { host, username, port }) },
                TaskResultV::ConnectResult(Ok(())),
            ),
            Err(e) => (DispatcherV { session: None }, TaskResultV::ConnectResult(Err(e))),
        },
        TaskV::Disconnect => (DispatcherV { session: None }, TaskResultV::DisconnectResult),
        TaskV::ListDirectory { .. } => (
            d,
            TaskResultV::ListDirectoryResult(
                if d.session is None {
                    Err(not_connected_error())
                } else {
                    match o {
                        Ok(PayloadV::Listing(es)) => Ok(sort_entries_spec(es)),
                        // excluded by outcome_fits: a listing's remote work hands back entries
                        Ok(_) => Err(not_connected_error()),
                        Err(e) => Err(e),
                    }
                },
            ),
        ),
        TaskV::CreateDirectory { .. } => (
            d,
            TaskResultV::CreateDirectoryResult(relay_ack(d.session is Some, o)),
        ),
        TaskV::CreateFile { .. } => (d, TaskResultV::CreateFileResult(relay_ack(d.session is Some, o))),
        TaskV::DownloadFile { .. } => (d, TaskResultV::DownloadFileResult(relay_ack(d.session is Some, o))),
        TaskV::UploadFile { .. } => (d, TaskResultV::UploadFileResult(relay_ack(d.session is Some, o))),
        TaskV::DeleteFile { .. } => (d, TaskResultV::DeleteFileResult(relay_ack(d.session is Some, o))),
        TaskV::RenameFile { .. } => (d, TaskResultV::RenameFileResult(relay_ack(d.session is Some, o))),
        TaskV::ReadFile { .. } => (
            d,
            TaskResultV::ReadFileResult(
                if d.session is None {
                    Err(not_connected_error())
                } else {
                    match o {
                        Ok(PayloadV::Content(s)) => Ok(s),
                        // excluded by outcome_fits: a read's remote work hands back text
                        Ok(_) => Err(not_connected_error()),
                        Err(e) => Err(e),
                    }
                },
            ),
        ),
        TaskV::WriteFile { .. } => (d, TaskResultV::WriteFileResult(relay_ack(d.session is Some, o))),
    }
}

/// The acknowledgement an operation relays: `NotConnected` while no session
/// is adopted, otherwise the outcome as the transport reported it.
pub open spec fn relay_ack(live: bool, o: Result<PayloadV, TaskErrorV>) -> Result<
    (),
    TaskErrorV,
> {
    if !live {
        Err(not_connected_error())
    } else {
        match o {
            Ok(_) => Ok(()),
            Err(e) => Err(e),
        }
    }
}

impl Dispatcher {
    /// A dispatcher that has never connected.
    pub fn new() -> (d: Dispatcher)
        ensures
            d@.session is None,
    {
        Dispatcher { session: None }
    }

    /// Whether a session is currently adopted.
    pub fn connected(&self) -> (b: bool)
        ensures
            b == (self@.session is Some),
    {
        self.session.is_some()
    }

    /// The remote work one task needs, given the current session state.
    pub fn plan(&self, t: &Task) -> (p: Plan)
        ensures
            p@ == spec_plan(self@, t@),
    {
        let live = self.session.is_some();
        match t {
            Task::Connect(h, u, c, p) => Plan::Remote(
                RemoteOp::Connect(h.clone(), u.clone(), c.clone(), *p),
            ),
            Task::Disconnect => Plan::Teardown,
            Task::ListDirectory(p) => if live {
                Plan::Remote(RemoteOp::ListDirectory(p.clone()))
            } else {
                Plan::Reply(TaskResult::ListDirectoryResult(Err(TaskError::not_connected())))
            },
            Task::CreateDirectory(p) => if live {
                Plan::Remote(RemoteOp::CreateDirectory(p.clone()))
            } else {
                Plan::Reply(TaskResult::CreateDirectoryResult(Err(TaskError::not_connected())))
            },
            Task::CreateFile(p) => if live {
                Plan::Remote(RemoteOp::CreateFile(p.clone()))
            } else {
                Plan::Reply(TaskResult::CreateFileResult(Err(TaskError::not_connected())))
            },
            Task::DownloadFile(r, l) => if live {
                Plan::Remote(RemoteOp::DownloadFile(r.clone(), l.clone()))
            } else {
                Plan::Reply(TaskResult::DownloadFileResult(Err(TaskError::not_connected())))
            },
            Task::UploadFile(l, r) => if live {
                Plan::Remote(RemoteOp::UploadFile(l.clone(), r.clone()))
            } else {
                Plan::Reply(TaskResult::UploadFileResult(Err(TaskError::not_connected())))
            },
            Task::DeleteFile(p) => if live {
                Plan::Remote(RemoteOp::DeleteFile(p.clone()))
            } else {
                Plan::Reply(TaskResult::DeleteFileResult(Err(TaskError::not_connected())))
            },
            Task::RenameFile(o, n) => if live {
                Plan::Remote(RemoteOp::RenameFile(o.clone(), n.clone()))
            } else {
                Plan::Reply(TaskResult::RenameFileResult(Err(TaskError::not_connected())))
            },
            Task::ReadFile(p) => if live {
                Plan::Remote(RemoteOp::ReadFile(p.clone()))
            } else {
                Plan::Reply(TaskResult::ReadFileResult(Err(TaskError::not_connected())))
            },
            Task::WriteFile(p, c) => if live {
                Plan::Remote(RemoteOp::WriteFile(p.clone(), c.clone()))
            } else {
                Plan::Reply(TaskResult::WriteFileResult(Err(TaskError::not_connected())))
            },
        }
    }

    /// Consume one task and the outcome of its remote work: move the session
    /// state and produce the task's result, exactly as `spec_step` says.
    pub fn step(&mut self, t: Task, o: Result<RemotePayload, TaskError>) -> (r: TaskResult)
        requires
            outcome_fits(t@, outcome_view(o)),
        ensures
            final(self)@ == spec_step(old(self)@, t@, outcome_view(o)).0,
            r@ == spec_step(old(self)@, t@, outcome_view(o)).1,
    {
        let live = self.session.is_some();
        match t {
            Task::Connect(h, u, _c, p) => match o {
                Ok(_) => {
                    self.session = Some(SessionInfo { host: h, username: u, port: p });
                    TaskResult::ConnectResult(Ok(()))
                },
                Err(e) => {
                    self.session = None;
                    TaskResult::ConnectResult(Err(e))
                },
            },
            Task::Disconnect => {
                self.session = None;
                TaskResult::DisconnectResult
            },
            Task::ListDirectory(_) => TaskResult::ListDirectoryResult(
                if !live {
                    Err(TaskError::not_connected())
                } else {
                    match o {
                        Ok(RemotePayload::Listing(es)) => Ok(sort_entries(es)),
                        Ok(_) => vstd::pervasive::unreached(),
                        Err(e) => Err(e),
                    }
                },
            ),
            Task::CreateDirectory(_) => TaskResult::CreateDirectoryResult(Self::ack(live, o)),
            Task::CreateFile(_) => TaskResult::CreateFileResult(Self::ack(live, o)),
            Task::DownloadFile(_, _) => TaskResult::DownloadFileResult(Self::ack(live, o)),
            Task::UploadFile(_, _) => TaskResult::UploadFileResult(Self::ack(live, o)),
            Task::DeleteFile(_) => TaskResult::DeleteFileResult(Self::ack(live, o)),
            Task::RenameFile(_, _) => TaskResult::RenameFileResult(Self::ack(live, o)),
            Task::ReadFile(_) => TaskResult::ReadFileResult(
                if !live {
                    Err(TaskError::not_connected())
                } else {
                    match o {
                        Ok(RemotePayload::Content(s)) => Ok(s),
                        Ok(_) => vstd::pervasive::unreached(),
                        Err(e) => Err(e),
                    }
                },
            ),
            Task::WriteFile(_, _) => TaskResult::WriteFileResult(Self::ack(live, o)),
        }
    }

    fn ack(live: bool, o: Result<RemotePayload, TaskError>) -> (r: Result<(), TaskError>)
        ensures
            unit_result_view(r) == relay_ack(live, outcome_view(o)),
    {
        if !live {
            Err(TaskError::not_connected())
        } else {
            match o {
                Ok(_) => Ok(()),
                Err(e) => Err(e),
            }
        }
    }
}

/// The views of a sequence of tasks.
pub open spec fn task_views(ts: Seq<Task>) -> Seq<TaskV> {
    ts.map_values(|t: Task| t@)
}

/// The views of a sequence of remote outcomes.
pub open spec fn outcome_views(os: Seq<Result<RemotePayload, TaskError>>) -> Seq<
    Result<PayloadV, TaskErrorV>,
> {
    os.map_values(|o: Result<RemotePayload, TaskError>| outcome_view(o))
}

/// The views of a sequence of results.
pub open spec fn result_views(rs: Seq<TaskResult>) -> Seq<TaskResultV> {
    rs.map_values(|r: TaskResult| r@)
}

/// A whole run: the tasks taken strictly in order, each stepped in the state
/// its predecessors left behind, each contributing exactly one result, in
/// that same order.
pub open spec fn spec_run(
    d: DispatcherV,
    ts: Seq<TaskV>,
    os: Seq<Result<PayloadV, TaskErrorV>>,
) -> (DispatcherV, Seq<TaskResultV>)
    decreases ts.len(),
{
    if ts.len() == 0 {
        (d, Seq::empty())
    } else {
        let first = spec_step(d, ts[0], os[0]);
        let rest = spec_run(first.0, ts.drop_first(), os.drop_first());
        (rest.0, seq![first.1] + rest.1)
    }
}

/// Extending a run by one task appends exactly that task's result.
pub proof fn lemma_spec_run_snoc(
    d: DispatcherV,
    ts: Seq<TaskV>,
    os: Seq<Result<PayloadV, TaskErrorV>>,
    t: TaskV,
    o: Result<PayloadV, TaskErrorV>,
)
    requires
        ts.len() == os.len(),
    ensures
        spec_run(d, ts.push(t), os.push(o)).0 == spec_step(spec_run(d, ts, os).0, t, o).0,
        spec_run(d, ts.push(t), os.push(o)).1 == spec_run(d, ts, os).1.push(
            spec_step(spec_run(d, ts, os).0, t, o).1,
        ),
    decreases ts.len(),
{
    let first = spec_step(d, ts.push(t)[0], os.push(o)[0]);
    if ts.len() == 0 {
        assert(ts.push(t)[0] == t);
        assert(os.push(o)[0] == o);
        assert(ts.push(t).drop_first() =~= Seq::<TaskV>::empty());
        assert(os.push(o).drop_first() =~= Seq::<Result<PayloadV, TaskErrorV>>::empty());
        assert(spec_run(first.0, Seq::<TaskV>::empty(), Seq::<Result<PayloadV, TaskErrorV>>::empty())
            == (first.0, Seq::<TaskResultV>::empty()));
        assert(spec_run(d, ts.push(t), os.push(o)).0 == first.0);
        assert(spec_run(d, ts, os) == (d, Seq::<TaskResultV>::empty()));
        assert(spec_run(d, ts.push(t), os.push(o)).1 =~= spec_run(d, ts, os).1.push(
            spec_step(spec_run(d, ts, os).0, t, o).1,
        ));
    } else {
        let d1 = spec_step(d, ts[0], os[0]).0;
        lemma_spec_run_snoc(d1, ts.drop_first(), os.drop_first(), t, o);
        assert(ts.push(t)[0] == ts[0]);
        assert(os.push(o)[0] == os[0]);
        assert(ts.push(t).drop_first() =~= ts.drop_first().push(t));
        assert(os.push(o).drop_first() =~= os.drop_first().push(o));
        assert(spec_run(d, ts.push(t), os.push(o)).0 == spec_run(
            d1,
            ts.drop_first().push(t),
            os.drop_first().push(o),
        ).0);
        assert(spec_run(d, ts.push(t), os.push(o)).1 =~= seq![first.1] + spec_run(
            d1,
            ts.drop_first().push(t),
            os.drop_first().push(o),
        ).1);
        assert(spec_run(d, ts, os).1 =~= seq![first.1] + spec_run(
            d1,
            ts.drop_first(),
            os.drop_first(),
        ).1);
        assert(spec_run(d, ts.push(t), os.push(o)).1 =~= spec_run(d, ts, os).1.push(
            spec_step(spec_run(d, ts, os).0, t, o).1,
        ));
    }
}

/// Strict FIFO serialization: a run over any sequence of submitted tasks
/// yields exactly one result per task, in submission order; the result at
/// position `i` is the response to the task at position `i`, executed in the
/// state the first `i` tasks left behind. No reordering, no lost or
/// duplicated results.
pub proof fn lemma_fifo(d: DispatcherV, ts: Seq<TaskV>, os: Seq<Result<PayloadV, TaskErrorV>>)
    requires
        ts.len() == os.len(),
    ensures
        spec_run(d, ts, os).1.len() == ts.len(),
        forall|i: int|
            0 <= i < ts.len() ==> spec_run(d, ts, os).1[i] == spec_step(
                spec_run(d, ts.take(i), os.take(i)).0,
                ts[i],
                os[i],
            ).1,
    decreases ts.len(),
{
    if ts.len() == 0 {
    } else {
        let d1 = spec_step(d, ts[0], os[0]).0;
        lemma_fifo(d1, ts.drop_first(), os.drop_first());
        assert forall|i: int|
            0 <= i < ts.len() implies spec_run(d, ts, os).1[i] == spec_step(
            spec_run(d, ts.take(i), os.take(i)).0,
            ts[i],
            os[i],
        ).1 by {
            if i == 0 {
                assert(ts.take(0) =~= Seq::<TaskV>::empty());
                assert(os.take(0) =~= Seq::<Result<PayloadV, TaskErrorV>>::empty());
            } else {
                assert(spec_run(d, ts, os).1[i] == spec_run(
                    d1,
                    ts.drop_first(),
                    os.drop_first(),
                ).1[i - 1]);
                assert(ts.drop_first()[i - 1] == ts[i]);
                assert(os.drop_first()[i - 1] == os[i]);
                assert(ts.take(i)[0] == ts[0]);
                assert(os.take(i)[0] == os[0]);
                assert(ts.take(i).drop_first() =~= ts.drop_first().take(i - 1));
                assert(os.take(i).drop_first() =~= os.drop_first().take(i - 1));
            }
        }
    }
}

/// Every task is answered by a result of its own kind: the operation surface
/// pairs tasks and results one-to-one, keyed by variant kind.
pub proof fn lemma_result_matches(d: DispatcherV, t: TaskV, o: Result<PayloadV, TaskErrorV>)
    ensures
        result_matches_task(t, spec_step(d, t, o).1),
{
}

/// Whether a result reports the refusal produced while no session is live.
pub open spec fn result_is_not_connected(r: TaskResultV) -> bool {
    crate::task::result_error(r) == Some(not_connected_error())
}

/// An operation reaching the dispatcher while no session is adopted is
/// answered `NotConnected` — whatever the outcome argument holds — and
/// moves nothing: the dispatcher survives it unchanged.
pub proof fn lemma_not_connected(d: DispatcherV, t: TaskV, o: Result<PayloadV, TaskErrorV>)
    requires
        d.session is None,
        is_operation(t),
    ensures
        spec_step(d, t, o).0 == d,
        result_is_not_connected(spec_step(d, t, o).1),
        result_matches_task(t, spec_step(d, t, o).1),
{
}

/// A listing executed over a live session is answered with exactly the
/// entries the transport handed back, sorted into the listing order:
/// directories before files, each group lexicographically by codepoint,
/// nothing added and nothing lost.
pub proof fn lemma_listing_sorted(d: DispatcherV, path: Seq<char>, es: Seq<EntryV>)
    requires
        d.session is Some,
    ensures
        ({
            let t = TaskV::ListDirectory { path };
            let r = spec_step(d, t, Ok(PayloadV::Listing(es))).1;
            &&& spec_step(d, t, Ok(PayloadV::Listing(es))).0 == d
            &&& r == TaskResultV::ListDirectoryResult(Ok(crate::listing::sort_entries_spec(es)))
            &&& crate::listing::entries_sorted(crate::listing::sort_entries_spec(es))
            &&& crate::listing::sort_entries_spec(es).to_multiset() == es.to_multiset()
        }),
{
    crate::listing::lemma_sort_entries_spec(es);
}

/// The dispatcher alters no content on its way through: a write hands the
/// transport exactly the text the task carried, and a read answers with
/// exactly the text the transport handed back. Whether a read then returns
/// what was last written is the remote filesystem's affair; nothing is
/// changed on the way.
pub proof fn lemma_content_relayed(
    d: DispatcherV,
    path: Seq<char>,
    content: Seq<char>,
    got: Seq<char>,
)
    requires
        d.session is Some,
    ensures
        spec_plan(d, TaskV::WriteFile { path, content }) == PlanV::Remote(
            RemoteOpV::WriteFile { path, content },
        ),
        spec_step(d, TaskV::WriteFile { path, content }, Ok(PayloadV::Ack)).1
            == TaskResultV::WriteFileResult(Ok(())),
        spec_plan(d, TaskV::ReadFile { path }) == PlanV::Remote(RemoteOpV::ReadFile { path }),
        spec_step(d, TaskV::ReadFile { path }, Ok(PayloadV::Content(got))).1
            == TaskResultV::ReadFileResult(Ok(got)),
{
}

/// A rename hands the transport exactly the two paths the task carried, and
/// a listing afterwards shows exactly the entries the transport reports for
/// the parent: sorting neither adds, drops nor renames an entry. Whether
/// the new name is then present and the old one absent is the remote
/// filesystem's affair.
pub proof fn lemma_rename_relayed_and_listing_faithful(
    d: DispatcherV,
    old_path: Seq<char>,
    new_path: Seq<char>,
    es: Seq<EntryV>,
    e: EntryV,
)
    requires
        d.session is Some,
    ensures
        spec_plan(d, TaskV::RenameFile { old_path, new_path }) == PlanV::Remote(
            RemoteOpV::RenameFile { old_path, new_path },
        ),
        crate::listing::sort_entries_spec(es).contains(e) <==> es.contains(e),
{
    broadcast use vstd::seq_lib::group_to_multiset_ensures;

    crate::listing::lemma_sort_entries_spec(es);
    let sorted = crate::listing::sort_entries_spec(es);
    assert(sorted.to_multiset() == es.to_multiset());
    assert(sorted.contains(e) <==> sorted.to_multiset().count(e) > 0);
    assert(es.contains(e) <==> es.to_multiset().count(e) > 0);
}

/// Teardown is total and idempotent: a `Disconnect` always acknowledges and
/// always leaves the dispatcher without an adopted session, from any state —
/// never connected, connected, or already disconnected — and a second
/// `Disconnect` right after acknowledges again and changes nothing.
pub proof fn lemma_disconnect_idempotent(
    d: DispatcherV,
    o1: Result<PayloadV, TaskErrorV>,
    o2: Result<PayloadV, TaskErrorV>,
)
    ensures
        spec_step(d, TaskV::Disconnect, o1).0.session is None,
        spec_step(d, TaskV::Disconnect, o1).1 == TaskResultV::DisconnectResult,
        spec_step(spec_step(d, TaskV::Disconnect, o1).0, TaskV::Disconnect, o2).0 == spec_step(
            d,
            TaskV::Disconnect,
            o1,
        ).0,
        spec_step(spec_step(d, TaskV::Disconnect, o1).0, TaskV::Disconnect, o2).1
            == TaskResultV::DisconnectResult,
{
}

/// A failed connection attempt reports its cause and leaves no adopted
/// session; every operation submitted while it stands is answered
/// `NotConnected` and moves nothing.
pub proof fn lemma_failed_connect_blocks(
    d: DispatcherV,
    host: Seq<char>,
    username: Seq<char>,
    credential: Seq<char>,
    port: u16,
    e: TaskErrorV,
    t: TaskV,
    o: Result<PayloadV, TaskErrorV>,
)
    requires
        is_operation(t),
    ensures
        ({
            let c = TaskV::Connect { host, username, credential, port };
            let d1 = spec_step(d, c, Err(e)).0;
            &&& d1.session is None
            &&& spec_step(d, c, Err(e)).1 == TaskResultV::ConnectResult(Err(e))
            &&& spec_step(d1, t, o).0 == d1
            &&& result_is_not_connected(spec_step(d1, t, o).1)
        }),
{
}

/// A successful connection attempt adopts a session pointing where the task
/// said, and normal operation resumes: an operation whose remote work
/// succeeds is answered with its success payload, not an error — no restart
/// is needed after an earlier failure.
pub proof fn lemma_connect_restores(
    d: DispatcherV,
    host: Seq<char>,
    username: Seq<char>,
    credential: Seq<char>,
    port: u16,
    t: TaskV,
    p: PayloadV,
)
    requires
        is_operation(t),
        outcome_fits(t, Ok(p)),
    ensures
        ({
            let c = TaskV::Connect { host, username, credential, port };
            let d1 = spec_step(d, c, Ok(PayloadV::Ack)).0;
            &&& d1.session == Some(SessionInfoV { host, username, port })
            &&& spec_step(d, c, Ok(PayloadV::Ack)).1 == TaskResultV::ConnectResult(Ok(()))
            &&& spec_step(d1, t, Ok(p)).0 == d1
            &&& crate::task::result_error(spec_step(d1, t, Ok(p)).1) is None
            &&& result_matches_task(t, spec_step(d1, t, Ok(p)).1)
        }),
{
}

impl Dispatcher {
    /// Drain a whole submission sequence in order: step every task against
    /// the outcome provided for it, collecting exactly one result per task,
    /// in submission order.
    pub fn run_all(
        &mut self,
        tasks: Vec<Task>,
        outcomes: Vec<Result<RemotePayload, TaskError>>,
    ) -> (results: Vec<TaskResult>)
        requires
            tasks@.len() == outcomes@.len(),
            forall|i: int|
                0 <= i < tasks@.len() ==> outcome_fits(
                    #[trigger] tasks@[i]@,
                    outcome_view(outcomes@[i]),
                ),
        ensures
            results@.len() == tasks@.len(),
            final(self)@ == spec_run(old(self)@, task_views(tasks@), outcome_views(outcomes@)).0,
            result_views(results@) == spec_run(
                old(self)@,
                task_views(tasks@),
                outcome_views(outcomes@),
            ).1,
    {
        let ghost d0 = self@;
        let ghost all_tasks = tasks@;
        let ghost all_outcomes = outcomes@;
        let mut tasks = tasks;
        let mut outcomes = outcomes;
        let mut results: Vec<TaskResult> = Vec::new();
        let ghost mut i: int = 0;
        while tasks.len() > 0
            invariant
                0 <= i <= all_tasks.len(),
                all_tasks.len() == all_outcomes.len(),
                tasks@ =~= all_tasks.skip(i),
                outcomes@ =~= all_outcomes.skip(i),
                results@.len() == i,
                forall|j: int|
                    0 <= j < all_tasks.len() ==> outcome_fits(
                        #[trigger] all_tasks[j]@,
                        outcome_view(all_outcomes[j]),
                    ),
                self@ == spec_run(d0, task_views(all_tasks.take(i)), outcome_views(
                    all_outcomes.take(i),
                )).0,
                result_views(results@) == spec_run(d0, task_views(all_tasks.take(i)),
                outcome_views(all_outcomes.take(i))).1,
            decreases tasks@.len(),
        {
            let t = tasks.remove(0);
            let o = outcomes.remove(0);
            proof {
                assert(t == all_tasks[i]);
                assert(o == all_outcomes[i]);
                assert(tasks@ =~= all_tasks.skip(i + 1));
                assert(outcomes@ =~= all_outcomes.skip(i + 1));
            }
            let r = self.step(t, o);
            results.push(r);
            proof {
                lemma_spec_run_snoc(
                    d0,
                    task_views(all_tasks.take(i)),
                    outcome_views(all_outcomes.take(i)),
                    all_tasks[i]@,
                    outcome_view(all_outcomes[i]),
                );
                assert(task_views(all_tasks.take(i + 1)) =~= task_views(all_tasks.take(i)).push(
                    all_tasks[i]@,
                ));
                assert(outcome_views(all_outcomes.take(i + 1)) =~= outcome_views(
                    all_outcomes.take(i),
                ).push(outcome_view(all_outcomes[i])));
                assert(result_views(results@) =~= spec_run(d0, task_views(all_tasks.take(i + 1)),
                outcome_views(all_outcomes.take(i + 1))).1);
                i = i + 1;
            }
        }
        proof {
            assert(all_tasks.take(i) =~= all_tasks);
            assert(all_outcomes.take(i) =~= all_outcomes);
        }
        results
    }
}

} // verus!
