//! The operation surface: one `Task` variant per operation a caller may
//! submit, one `TaskResult` variant per outcome it receives back, paired
//! one-to-one by kind.

use vstd::prelude::*;

use crate::errors::{TaskError, TaskErrorV};
use crate::listing::{DirEntry, EntryV};

verus! {

/// The mathematical model of a `Task`.
pub enum TaskV {
    Connect { host: Seq<char>, username: Seq<char>, credential: Seq<char>, port: u16 },
    ListDirectory { path: Seq<char> },
    CreateDirectory { path: Seq<char> },
    CreateFile { path: Seq<char> },
    DownloadFile { remote_path: Seq<char>, local_path: Seq<char> },
    UploadFile { local_path: Seq<char>, remote_path: Seq<char> },
    DeleteFile { path: Seq<char> },
    RenameFile { old_path: Seq<char>, new_path: Seq<char> },
    ReadFile { path: Seq<char> },
    WriteFile { path: Seq<char>, content: Seq<char> },
    Disconnect,
}

/// One requested operation, immutable once constructed, consumed exactly
/// once by the dispatcher. `Connect` carries host, username, credential and
/// port; the file operations carry the paths and content they act on.
#[derive(Debug)]
pub enum Task {
    Connect(String, String, String, u16),
    ListDirectory(String),
    CreateDirectory(String),
    CreateFile(String),
    DownloadFile(String, String),
    UploadFile(String, String),
    DeleteFile(String),
    RenameFile(String, String),
    ReadFile(String),
    WriteFile(String, String),
    Disconnect,
}

impl View for Task {
    type V = TaskV;

    open spec fn view(&self) -> TaskV {
        match self {
            Task::Connect(h, u, c, p) => TaskV::Connect {
                host: h@,
                username: u@,
                credential: c@,
                port: *p,
            },
            Task::ListDirectory(p) => TaskV::ListDirectory { path: p@ },
            Task::CreateDirectory(p) => TaskV::CreateDirectory { path: p@ },
            Task::CreateFile(p) => TaskV::CreateFile { path: p@ },
            Task::DownloadFile(r, l) => TaskV::DownloadFile { remote_path: r@, local_path: l@ },
            Task::UploadFile(l, r) => TaskV::UploadFile { local_path: l@, remote_path: r@ },
            Task::DeleteFile(p) => TaskV::DeleteFile { path: p@ },
            Task::RenameFile(o, n) => TaskV::RenameFile { old_path: o@, new_path: n@ },
            Task::ReadFile(p) => TaskV::ReadFile { path: p@ },
            Task::WriteFile(p, c) => TaskV::WriteFile { path: p@, content: c@ },
            Task::Disconnect => TaskV::Disconnect,
        }
    }
}

/// The mathematical model of a `TaskResult`.
pub enum TaskResultV {
    ConnectResult(Result<(), TaskErrorV>),
    ListDirectoryResult(Result<Seq<EntryV>, TaskErrorV>),
    CreateDirectoryResult(Result<(), TaskErrorV>),
    CreateFileResult(Result<(), TaskErrorV>),
    DownloadFileResult(Result<(), TaskErrorV>),
    UploadFileResult(Result<(), TaskErrorV>),
    DeleteFileResult(Result<(), TaskErrorV>),
    RenameFileResult(Result<(), TaskErrorV>),
    ReadFileResult(Result<Seq<char>, TaskErrorV>),
    WriteFileResult(Result<(), TaskErrorV>),
    DisconnectResult,
}

/// The outcome of exactly one task, success or typed error, mirroring the
/// task kinds one-to-one.
#[derive(Debug)]
pub enum TaskResult {
    ConnectResult(Result<(), TaskError>),
    ListDirectoryResult(Result<Vec<DirEntry>, TaskError>),
    CreateDirectoryResult(Result<(), TaskError>),
    CreateFileResult(Result<(), TaskError>),
    DownloadFileResult(Result<(), TaskError>),
    UploadFileResult(Result<(), TaskError>),
    DeleteFileResult(Result<(), TaskError>),
    RenameFileResult(Result<(), TaskError>),
    ReadFileResult(Result<String, TaskError>),
    WriteFileResult(Result<(), TaskError>),
    DisconnectResult,
}

/// The view of an acknowledgement-or-error outcome.
pub open spec fn unit_result_view(r: Result<(), TaskError>) -> Result<(), TaskErrorV> {
    match r {
        Ok(u) => Ok(u),
        Err(e) => Err(e@),
    }
}

/// The view of a listing-or-error outcome.
pub open spec fn listing_result_view(r: Result<Vec<DirEntry>, TaskError>) -> Result<
    Seq<EntryV>,
    TaskErrorV,
> {
    match r {
        Ok(v) => Ok(crate::listing::views(v@)),
        Err(e) => Err(e@),
    }
}

/// The view of a content-or-error outcome.
pub open spec fn content_result_view(r: Result<String, TaskError>) -> Result<
    Seq<char>,
    TaskErrorV,
> {
    match r {
        Ok(s) => Ok(s@),
        Err(e) => Err(e@),
    }
}

impl View for TaskResult {
    type V = TaskResultV;

    open spec fn view(&self) -> TaskResultV {
        match self {
            TaskResult::ConnectResult(r) => TaskResultV::ConnectResult(unit_result_view(*r)),
            TaskResult::ListDirectoryResult(r) => TaskResultV::ListDirectoryResult(
                listing_result_view(*r),
            ),
            TaskResult::CreateDirectoryResult(r) => TaskResultV::CreateDirectoryResult(
                unit_result_view(*r),
            ),
            TaskResult::CreateFileResult(r) => TaskResultV::CreateFileResult(unit_result_view(*r)),
            TaskResult::DownloadFileResult(r) => TaskResultV::DownloadFileResult(
                unit_result_view(*r),
            ),
            TaskResult::UploadFileResult(r) => TaskResultV::UploadFileResult(unit_result_view(*r)),
            TaskResult::DeleteFileResult(r) => TaskResultV::DeleteFileResult(unit_result_view(*r)),
            TaskResult::RenameFileResult(r) => TaskResultV::RenameFileResult(unit_result_view(*r)),
            TaskResult::ReadFileResult(r) => TaskResultV::ReadFileResult(content_result_view(*r)),
            TaskResult::WriteFileResult(r) => TaskResultV::WriteFileResult(unit_result_view(*r)),
            TaskResult::DisconnectResult => TaskResultV::DisconnectResult,
        }
    }
}

/// Whether a result is of the kind that answers the given task: the pairing
/// of the operation surface, keyed by variant kind.
pub open spec fn result_matches_task(t: TaskV, r: TaskResultV) -> bool {
    match t {
        TaskV::Connect { .. } => r is ConnectResult,
        TaskV::ListDirectory { .. } => r is ListDirectoryResult,
        TaskV::CreateDirectory { .. } => r is CreateDirectoryResult,
        TaskV::CreateFile { .. } => r is CreateFileResult,
        TaskV::DownloadFile { .. } => r is DownloadFileResult,
        TaskV::UploadFile { .. } => r is UploadFileResult,
        TaskV::DeleteFile { .. } => r is DeleteFileResult,
        TaskV::RenameFile { .. } => r is RenameFileResult,
        TaskV::ReadFile { .. } => r is ReadFileResult,
        TaskV::WriteFile { .. } => r is WriteFileResult,
        TaskV::Disconnect => r is DisconnectResult,
    }
}

/// Whether a task is a filesystem operation: everything but session
/// management (`Connect` and `Disconnect`).
pub open spec fn is_operation(t: TaskV) -> bool {
    !(t is Connect) && !(t is Disconnect)
}

/// The error a result carries, if it reports one.
pub open spec fn result_error(r: TaskResultV) -> Option<TaskErrorV> {
    match r {
        TaskResultV::ConnectResult(Err(e)) => Some(e),
        TaskResultV::ListDirectoryResult(Err(e)) => Some(e),
        TaskResultV::CreateDirectoryResult(Err(e)) => Some(e),
        TaskResultV::CreateFileResult(Err(e)) => Some(e),
        TaskResultV::DownloadFileResult(Err(e)) => Some(e),
        TaskResultV::UploadFileResult(Err(e)) => Some(e),
        TaskResultV::DeleteFileResult(Err(e)) => Some(e),
        TaskResultV::RenameFileResult(Err(e)) => Some(e),
        TaskResultV::ReadFileResult(Err(e)) => Some(e),
        TaskResultV::WriteFileResult(Err(e)) => Some(e),
        _ => None,
    }
}

} // verus!
