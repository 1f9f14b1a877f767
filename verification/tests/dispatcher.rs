use sshfm::dispatcher::{Dispatcher, Plan, RemoteOp, RemotePayload};
use sshfm::errors::{ErrorKind, TaskError};
use sshfm::listing::DirEntry;
use sshfm::task::{Task, TaskResult};

fn io_error(detail: &str) -> TaskError {
    TaskError::new(ErrorKind::Io, detail.to_string())
}

fn entry(name: &str, is_dir: bool) -> DirEntry {
    DirEntry { name: name.to_string(), is_dir }
}

#[test]
fn never_connected_listing_is_not_connected() {
    let mut d = Dispatcher::new();
    assert!(!d.connected());
    let r = d.step(
        Task::ListDirectory("/".to_string()),
        Ok(RemotePayload::Listing(Vec::new())),
    );
    match r {
        TaskResult::ListDirectoryResult(Err(e)) => {
            assert_eq!(e.kind, ErrorKind::NotConnected);
            assert_eq!(e.detail, "Not connected");
        }
        _ => panic!("expected a NotConnected listing error"),
    }
    assert!(!d.connected());
}

#[test]
fn listing_after_connect_is_sorted() {
    let mut d = Dispatcher::new();
    let r = d.step(
        Task::Connect(
            "example.com".to_string(),
            "alice".to_string(),
            "pw".to_string(),
            22,
        ),
        Ok(RemotePayload::Ack),
    );
    assert!(matches!(r, TaskResult::ConnectResult(Ok(()))));
    assert!(d.connected());

    let raw = vec![
        entry("b.txt", false),
        entry("A", true),
        entry("a.txt", false),
        entry("Z", true),
    ];
    let r = d.step(
        Task::ListDirectory("/".to_string()),
        Ok(RemotePayload::Listing(raw)),
    );
    match r {
        TaskResult::ListDirectoryResult(Ok(entries)) => {
            let got: Vec<(String, bool)> =
                entries.iter().map(|e| (e.name.clone(), e.is_dir)).collect();
            // directories first, each group lexicographic by codepoint
            assert_eq!(
                got,
                vec![
                    ("A".to_string(), true),
                    ("Z".to_string(), true),
                    ("a.txt".to_string(), false),
                    ("b.txt".to_string(), false),
                ]
            );
        }
        _ => panic!("expected a listing"),
    }
}

#[test]
fn disconnect_is_idempotent() {
    let mut d = Dispatcher::new();
    let r1 = d.step(Task::Disconnect, Ok(RemotePayload::Ack));
    assert!(matches!(r1, TaskResult::DisconnectResult));
    assert!(!d.connected());
    let r2 = d.step(Task::Disconnect, Ok(RemotePayload::Ack));
    assert!(matches!(r2, TaskResult::DisconnectResult));
    assert!(!d.connected());
}

#[test]
fn disconnect_after_connect_drops_the_session() {
    let mut d = Dispatcher::new();
    d.step(
        Task::Connect(
            "example.com".to_string(),
            "alice".to_string(),
            "pw".to_string(),
            22,
        ),
        Ok(RemotePayload::Ack),
    );
    assert!(d.connected());
    let r = d.step(Task::Disconnect, Ok(RemotePayload::Ack));
    assert!(matches!(r, TaskResult::DisconnectResult));
    assert!(!d.connected());
}

#[test]
fn failed_connect_blocks_until_a_successful_one() {
    let mut d = Dispatcher::new();
    // a refused credential leaves no adopted session
    let r = d.step(
        Task::Connect(
            "example.com".to_string(),
            "alice".to_string(),
            "pw".to_string(),
            22,
        ),
        Err(TaskError::new(
            ErrorKind::Auth,
            "Authentication failed. Check your username and password.".to_string(),
        )),
    );
    match r {
        TaskResult::ConnectResult(Err(e)) => assert_eq!(e.kind, ErrorKind::Auth),
        _ => panic!("expected a failed connect"),
    }
    assert!(!d.connected());

    // every operation submitted now is refused with NotConnected
    let r = d.step(
        Task::WriteFile("/tmp/x".to_string(), "hello".to_string()),
        Ok(RemotePayload::Ack),
    );
    match r {
        TaskResult::WriteFileResult(Err(e)) => assert_eq!(e.kind, ErrorKind::NotConnected),
        _ => panic!("expected NotConnected"),
    }

    // a later successful connect restores normal operation
    let r = d.step(
        Task::Connect(
            "example.com".to_string(),
            "alice".to_string(),
            "pw".to_string(),
            22,
        ),
        Ok(RemotePayload::Ack),
    );
    assert!(matches!(r, TaskResult::ConnectResult(Ok(()))));
    let r = d.step(
        Task::ReadFile("/tmp/x".to_string()),
        Ok(RemotePayload::Content("hello".to_string())),
    );
    match r {
        TaskResult::ReadFileResult(Ok(content)) => assert_eq!(content, "hello"),
        _ => panic!("expected the file content"),
    }
}

#[test]
fn run_all_is_fifo_one_result_per_task() {
    let mut d = Dispatcher::new();
    let tasks = vec![
        Task::ReadFile("/a".to_string()),
        Task::Connect(
            "example.com".to_string(),
            "alice".to_string(),
            "pw".to_string(),
            2222,
        ),
        Task::CreateDirectory("/dir".to_string()),
        Task::RenameFile("/a".to_string(), "/b".to_string()),
        Task::Disconnect,
        Task::DeleteFile("/b".to_string()),
    ];
    let outcomes = vec![
        Ok(RemotePayload::Content("ignored".to_string())),
        Ok(RemotePayload::Ack),
        Ok(RemotePayload::Ack),
        Err(io_error("Failed to rename: no such file")),
        Ok(RemotePayload::Ack),
        Ok(RemotePayload::Ack),
    ];
    let results = d.run_all(tasks, outcomes);
    assert_eq!(results.len(), 6);
    // each result answers the task at the same position, in submission order
    match &results[0] {
        TaskResult::ReadFileResult(Err(e)) => assert_eq!(e.kind, ErrorKind::NotConnected),
        _ => panic!("task 0 must be refused: nothing was connected yet"),
    }
    assert!(matches!(&results[1], TaskResult::ConnectResult(Ok(()))));
    assert!(matches!(&results[2], TaskResult::CreateDirectoryResult(Ok(()))));
    match &results[3] {
        TaskResult::RenameFileResult(Err(e)) => {
            assert_eq!(e.kind, ErrorKind::Io);
            assert_eq!(e.detail, "Failed to rename: no such file");
        }
        _ => panic!("task 3 must relay the remote failure"),
    }
    assert!(matches!(&results[4], TaskResult::DisconnectResult));
    match &results[5] {
        TaskResult::DeleteFileResult(Err(e)) => assert_eq!(e.kind, ErrorKind::NotConnected),
        _ => panic!("task 5 follows the disconnect and must be refused"),
    }
    assert!(!d.connected());
}

#[test]
fn an_operation_failure_does_not_stop_the_dispatcher() {
    let mut d = Dispatcher::new();
    d.step(
        Task::Connect(
            "example.com".to_string(),
            "alice".to_string(),
            "pw".to_string(),
            22,
        ),
        Ok(RemotePayload::Ack),
    );
    let r = d.step(
        Task::CreateFile("/no/such/dir/f".to_string()),
        Err(io_error("Failed to create file: no such directory")),
    );
    assert!(matches!(r, TaskResult::CreateFileResult(Err(_))));
    // still connected, the next task runs normally
    assert!(d.connected());
    let r = d.step(Task::CreateFile("/tmp/f".to_string()), Ok(RemotePayload::Ack));
    assert!(matches!(r, TaskResult::CreateFileResult(Ok(()))));
}

#[test]
fn plan_refuses_operations_while_disconnected() {
    let d = Dispatcher::new();
    match d.plan(&Task::ListDirectory("/".to_string())) {
        Plan::Reply(TaskResult::ListDirectoryResult(Err(e))) => {
            assert_eq!(e.kind, ErrorKind::NotConnected)
        }
        _ => panic!("a listing needs a session"),
    }
    match d.plan(&Task::Connect(
        "h".to_string(),
        "u".to_string(),
        "pw".to_string(),
        22,
    )) {
        Plan::Remote(RemoteOp::Connect(h, u, _, p)) => {
            assert_eq!(h, "h");
            assert_eq!(u, "u");
            assert_eq!(p, 22);
        }
        _ => panic!("a connect always dials out"),
    }
    assert!(matches!(d.plan(&Task::Disconnect), Plan::Teardown));
}

#[test]
fn plan_sends_operations_to_the_transport_while_connected() {
    let mut d = Dispatcher::new();
    d.step(
        Task::Connect(
            "example.com".to_string(),
            "alice".to_string(),
            "pw".to_string(),
            22,
        ),
        Ok(RemotePayload::Ack),
    );
    match d.plan(&Task::UploadFile("/local".to_string(), "/remote".to_string())) {
        Plan::Remote(RemoteOp::UploadFile(l, r)) => {
            assert_eq!(l, "/local");
            assert_eq!(r, "/remote");
        }
        _ => panic!("an upload goes to the transport"),
    }
    match d.plan(&Task::WriteFile("/f".to_string(), "text".to_string())) {
        Plan::Remote(RemoteOp::WriteFile(p, c)) => {
            assert_eq!(p, "/f");
            assert_eq!(c, "text");
        }
        _ => panic!("a write goes to the transport"),
    }
}

#[test]
fn write_then_read_relays_the_transport_outcomes() {
    let mut d = Dispatcher::new();
    d.step(
        Task::Connect(
            "example.com".to_string(),
            "alice".to_string(),
            "pw".to_string(),
            22,
        ),
        Ok(RemotePayload::Ack),
    );
    let r = d.step(
        Task::WriteFile("/f".to_string(), "round trip".to_string()),
        Ok(RemotePayload::Ack),
    );
    assert!(matches!(r, TaskResult::WriteFileResult(Ok(()))));
    let r = d.step(
        Task::ReadFile("/f".to_string()),
        Ok(RemotePayload::Content("round trip".to_string())),
    );
    match r {
        TaskResult::ReadFileResult(Ok(content)) => assert_eq!(content, "round trip"),
        _ => panic!("expected the written content back"),
    }
}

#[test]
fn each_connect_failure_cause_is_relayed() {
    for kind in [
        ErrorKind::Transport,
        ErrorKind::Handshake,
        ErrorKind::Auth,
        ErrorKind::SubsystemInit,
    ] {
        let mut d = Dispatcher::new();
        let r = d.step(
            Task::Connect("h".to_string(), "u".to_string(), "pw".to_string(), 22),
            Err(TaskError::new(kind, "the attempt failed".to_string())),
        );
        match r {
            TaskResult::ConnectResult(Err(e)) => assert_eq!(e.kind, kind),
            _ => panic!("expected the failure cause back"),
        }
        assert!(!d.connected());
    }
}
