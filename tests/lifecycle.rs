use spirit_tokio::builder::{register_socket, Builder};
use spirit_tokio::config::{Empty, Task, TcpExtra, TcpListen};
use spirit_tokio::diagnostic::{any_fatal, Diagnostic, Severity};
use spirit_tokio::listen::Listen;
use spirit_tokio::remote_drop::{on_task_event, DropState, RemoteDrop, TaskAction, TaskEvent, TaskState};
use spirit_tokio::runtime::Runtime;
use spirit_tokio::scale::{default_scale, Scale, Scaled, Singleton};

#[test]
fn scale_zero_is_coerced_with_warning() {
    let (n, ds) = Scale::new(0).scaled(&"sock".to_string());
    assert_eq!(n, 1);
    assert_eq!(ds.len(), 1);
    assert_eq!(ds[0].severity(), Severity::Warning);
    assert_eq!(ds[0].name(), "sock");
}

#[test]
fn scale_positive_is_kept() {
    let (n, ds) = Scale::new(5).scaled(&"sock".to_string());
    assert_eq!(n, 5);
    assert!(ds.is_empty());
    let (n, ds) = Scale::default().scaled(&"sock".to_string());
    assert_eq!(n, 1);
    assert!(ds.is_empty());
    assert_eq!(default_scale(), 1);
}

#[test]
fn singleton_scale_is_one() {
    let (n, ds) = Singleton {}.scaled(&"x".to_string());
    assert_eq!(n, 1);
    assert!(ds.is_empty());
}

#[test]
fn scaling_is_repeatable() {
    let s = Scale::new(0);
    let a = s.scaled(&"x".to_string());
    let b = s.scaled(&"x".to_string());
    assert_eq!(a.0, b.0);
    assert_eq!(a.1.len(), b.1.len());
}

#[test]
fn errors_are_found() {
    let warn = Diagnostic::ScaleCoerced { name: "a".to_string() };
    let err = Diagnostic::BuildFailed { name: "b".to_string(), descriptor: Listen::on_port(1) };
    let fatal = Diagnostic::Invalid { name: "c".to_string(), message: "m".to_string() };
    assert_eq!(err.severity(), Severity::Error);
    assert_eq!(fatal.severity(), Severity::Fatal);
    assert!(!any_fatal(&vec![]));
    assert!(!any_fatal(&vec![warn, err]));
    let warn = Diagnostic::ScaleCoerced { name: "a".to_string() };
    assert!(any_fatal(&vec![warn, fatal]));
}

#[test]
fn handle_handshake() {
    let mut h = RemoteDrop::new();
    assert_eq!(h.state(), DropState::Armed);
    h.confirm();
    assert_eq!(h.state(), DropState::Armed);
    assert!(h.request_drop());
    assert_eq!(h.state(), DropState::DropRequested);
    assert!(!h.is_done());
    assert!(!h.request_drop());
    h.confirm();
    assert!(h.is_done());
    assert_eq!(h.state(), DropState::Confirmed);
}

#[test]
fn release_precedes_confirmation() {
    for ev in [TaskEvent::WorkDone, TaskEvent::DropRequested, TaskEvent::RequestLost] {
        let (st, acts) = on_task_event(TaskState::Running, ev);
        assert_eq!(st, TaskState::Terminated);
        assert_eq!(acts, vec![TaskAction::ReleaseWork, TaskAction::SendConfirmation]);
    }
    let (_, acts) = on_task_event(TaskState::Running, TaskEvent::WorkFailed);
    assert_eq!(
        acts,
        vec![TaskAction::LogFailure, TaskAction::ReleaseWork, TaskAction::SendConfirmation]
    );
    let (st, acts) = on_task_event(TaskState::Terminated, TaskEvent::DropRequested);
    assert_eq!(st, TaskState::Terminated);
    assert!(acts.is_empty());
}

#[test]
fn singleton_first_call_wins() {
    let mut b = Builder::new();
    assert!(b.singleton("x"));
    assert!(!b.singleton("x"));
    assert!(b.singleton("y"));
    assert!(b.has_singleton("x"));
    assert!(!b.has_singleton("z"));
}

#[test]
fn first_runtime_wins() {
    let b = Builder::new().with_singleton("runtime", Runtime::CurrentThread);
    let b = b.with_singleton("runtime", Runtime::ThreadPool);
    assert_eq!(b.runtime(), Some(Runtime::CurrentThread));
    let b = register_socket("sock".to_string(), b);
    assert_eq!(b.runtime(), Some(Runtime::CurrentThread));
    assert_eq!(b.components(), &vec!["sock".to_string()]);
}

#[test]
fn socket_helper_brings_default_runtime() {
    let task: Task<TcpExtra<Empty>> = Task::new("a".to_string());
    let b = Builder::new().with(task);
    assert_eq!(b.runtime(), Some(Runtime::ThreadPool));
    let b = b.with(Runtime::Custom);
    assert_eq!(b.runtime(), Some(Runtime::Custom));
    let b = b.config_helper(vec![TcpListen::new(Listen::on_port(1), Scale::new(1), Empty {})], "b".to_string());
    assert_eq!(b.runtime(), Some(Runtime::Custom));
    assert_eq!(b.components(), &vec!["a".to_string(), "b".to_string()]);
    assert_eq!(Runtime::default(), Runtime::ThreadPool);
}

#[test]
fn task_registers_and_keeps_its_reconciler() {
    let task = TcpListen::<Empty, Scale>::helper("web".to_string());
    let b = task.register(Builder::new());
    assert_eq!(b.components(), &vec!["web".to_string()]);
    assert_eq!(b.runtime(), Some(Runtime::ThreadPool));
    assert!(b.has_singleton("runtime"));
    assert!(task.reconciler.cache.entries.is_empty());
    let one = Builder::new().config_helper(TcpListen::new(Listen::on_port(1), Scale::new(1), Empty {}), "s".to_string());
    let list = Builder::new().config_helper(vec![TcpListen::new(Listen::on_port(1), Scale::new(1), Empty {})], "s".to_string());
    assert_eq!(one.components(), list.components());
    assert_eq!(one.runtime(), list.runtime());
}

#[test]
fn tcp_default_has_one_instance() {
    let t: TcpListen<Empty, Scale> = TcpListen::default();
    assert_eq!(t.scale.value(), 1);
    assert_eq!(t.listen.port(), 0);
    assert_eq!(t.max_conn, 1000);
}
