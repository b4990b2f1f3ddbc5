use fresh_editor::cache::UriCache;
use fresh_editor::ledger::{EditorRequest, PendingRequest, RequestLedger};
use fresh_editor::lifecycle::{
    disable_buffer, edit_buffer, enable_buffer, mark_opened, reopen_after_restart,
    reopen_buffers_for_language, requests_after_open, toggle_buffer, BufferLsp, DocNotice,
    OpenBuffer, ToggleOutcome,
};
use fresh_editor::manager::{LanguageConfig, LspManager, LspSpawnResult};
use fresh_editor::session::{
    log_level, notification_action, BridgeMessage, LogLevel, NotificationAction, ResponseAction,
    Session, SessionError, SessionState, ShutdownAction,
};
use fresh_editor::versions::DocumentVersions;

fn s(x: &str) -> String {
    x.to_string()
}

fn config(enabled: bool, auto_start: bool) -> LanguageConfig {
    LanguageConfig { command: s("rust-analyzer"), args: vec![], enabled, auto_start }
}

/// A session that went through the initialize handshake.
fn ready_session(language: &str) -> Session {
    let mut session = Session::new(s(language));
    let id = session.begin_initialize().unwrap();
    assert_eq!(session.on_response(id, false), ResponseAction::Initialized);
    assert_eq!(session.state(), SessionState::Ready);
    session
}

/// What a session sends for a document notice, as a line of a wire log.
/// Sends a notice the way the editor does, recording a sent didOpen.
fn send(
    session: &mut Session,
    path: &String,
    notice: Option<DocNotice>,
    buf: &mut BufferLsp,
    log: &mut Vec<String>,
) {
    match notice {
        Some(DocNotice::Open { text, handle }) => {
            let v = session.did_open(path).unwrap();
            mark_opened(buf, handle);
            log.push(format!("didOpen {} v{} {}", path, v, text));
        }
        Some(DocNotice::Change) => {
            if let Some(v) = session.did_change(path).unwrap() {
                log.push(format!("didChange {} v{}", path, v));
            }
        }
        Some(DocNotice::Close) => {
            session.did_close(path).unwrap();
            log.push(format!("didClose {}", path));
        }
        None => {}
    }
}

#[test]
fn versions_count_up_from_one() {
    let mut table = DocumentVersions::new();
    let p = s("/w/a.rs");
    assert_eq!(table.open(&p), 1);
    let mut seen = vec![1];
    for _ in 0..5 {
        seen.push(table.change(&p).unwrap());
    }
    assert_eq!(seen, vec![1, 2, 3, 4, 5, 6]);
    assert_eq!(table.version_of(&p), Some(6));
}

#[test]
fn close_then_open_resets_to_one() {
    let mut table = DocumentVersions::new();
    let p = s("/w/a.rs");
    table.open(&p);
    table.change(&p);
    table.change(&p);
    table.close(&p);
    assert!(!table.is_open(&p));
    assert_eq!(table.change(&p), None);
    assert_eq!(table.open(&p), 1);
    assert_eq!(table.change(&p), Some(2));
    // Opening an open document also starts it over.
    assert_eq!(table.open(&p), 1);
    // Closing a path that is not open does nothing.
    table.close(&s("/w/other.rs"));
    assert_eq!(table.version_of(&p), Some(1));
}

#[test]
fn ledger_ids_start_at_zero_and_resolve_once() {
    let mut ledger = RequestLedger::new();
    assert_eq!(ledger.register(PendingRequest::Initialize), Some(0));
    let diag = PendingRequest::Editor(EditorRequest::DocumentDiagnostic { request_id: 7 });
    assert_eq!(ledger.register(diag), Some(1));
    assert_eq!(ledger.outstanding(), 2);
    assert_eq!(ledger.resolve(1), Some(diag));
    assert_eq!(ledger.resolve(1), None);
    assert_eq!(ledger.resolve(42), None);
    assert_eq!(ledger.outstanding(), 1);
    assert!(ledger.is_pending(0));
    ledger.drop_all();
    assert_eq!(ledger.outstanding(), 0);
    assert_eq!(ledger.register(PendingRequest::Shutdown), Some(2));
}

#[test]
fn unmatched_response_is_dropped() {
    let mut session = ready_session("rust");
    let id = session
        .begin_request(EditorRequest::FoldingRange { request_id: 3 })
        .unwrap();
    assert_eq!(session.on_response(id + 100, false), ResponseAction::Unmatched);
    assert_eq!(session.outstanding_requests(), 1);
    assert_eq!(
        session.on_response(id, true),
        ResponseAction::Deliver { request: EditorRequest::FoldingRange { request_id: 3 }, is_error: true }
    );
    assert_eq!(session.outstanding_requests(), 0);
    assert_eq!(session.on_response(id, false), ResponseAction::Unmatched);
    assert_eq!(session.state(), SessionState::Ready);
}

#[test]
fn commands_before_initialize_fail() {
    let mut session = Session::new(s("rust"));
    let p = s("/w/a.rs");
    assert_eq!(session.did_open(&p), Err(SessionError::NotInitialized));
    assert_eq!(session.did_change(&p), Err(SessionError::NotInitialized));
    assert_eq!(
        session.begin_request(EditorRequest::InlayHints { request_id: 1 }),
        Err(SessionError::NotInitialized)
    );
    assert_eq!(session.begin_initialize(), Ok(0));
    assert_eq!(session.state(), SessionState::Initializing);
    assert_eq!(session.begin_initialize(), Err(SessionError::AlreadyInitialized));
    assert_eq!(session.did_open(&p), Err(SessionError::NotInitialized));
}

#[test]
fn change_of_unopened_document_is_not_sent() {
    let mut session = ready_session("rust");
    assert_eq!(session.did_change(&s("/w/never.rs")), Ok(None));
    assert_eq!(session.version_of(&s("/w/never.rs")), None);
}

#[test]
fn failed_initialize_resolves_only_its_request() {
    let mut session = Session::new(s("rust"));
    let id = session.begin_initialize().unwrap();
    assert_eq!(session.on_response(id, true), ResponseAction::InitializeFailed);
    assert_eq!(session.state(), SessionState::Unstarted);
    assert_eq!(session.outstanding_requests(), 0);
    assert_eq!(session.did_open(&s("/w/a.rs")), Err(SessionError::NotInitialized));
    // The handshake can be tried again, with a fresh id.
    assert_eq!(session.begin_initialize(), Ok(id + 1));
    assert_eq!(session.on_response(id + 1, false), ResponseAction::Initialized);
    assert_eq!(session.state(), SessionState::Ready);
}

#[test]
fn shutdown_is_idempotent() {
    let mut session = ready_session("rust");
    session.begin_request(EditorRequest::DocumentDiagnostic { request_id: 1 }).unwrap();
    let action = session.begin_shutdown();
    assert_eq!(action, ShutdownAction::SendShutdown { id: 2 });
    assert_eq!(session.state(), SessionState::ShuttingDown);
    assert_eq!(session.begin_shutdown(), ShutdownAction::Nothing);
    assert_eq!(session.on_response(2, false), ResponseAction::ShutdownAcknowledged);
    assert_eq!(session.state(), SessionState::Terminated);
    assert_eq!(session.outstanding_requests(), 0);
    assert_eq!(session.begin_shutdown(), ShutdownAction::Nothing);
    assert_eq!(session.did_open(&s("/w/a.rs")), Err(SessionError::ChannelClosed));

    let mut fresh = Session::new(s("go"));
    assert_eq!(fresh.begin_shutdown(), ShutdownAction::Terminate);
    assert_eq!(fresh.state(), SessionState::Terminated);
}

#[test]
fn notifications_and_log_levels() {
    assert_eq!(
        notification_action(&s("textDocument/publishDiagnostics")),
        NotificationAction::ForwardDiagnostics
    );
    assert_eq!(notification_action(&s("window/showMessage")), NotificationAction::Log);
    assert_eq!(notification_action(&s("window/logMessage")), NotificationAction::Log);
    assert_eq!(notification_action(&s("$/progress")), NotificationAction::Ignore);
    assert_eq!(log_level(1), LogLevel::Error);
    assert_eq!(log_level(2), LogLevel::Warn);
    assert_eq!(log_level(3), LogLevel::Info);
    assert_eq!(log_level(4), LogLevel::Debug);
    assert_eq!(log_level(0), LogLevel::Trace);
    assert_eq!(log_level(9), LogLevel::Trace);
}

#[test]
fn try_spawn_twice_spawns_once() {
    let mut manager = LspManager::new();
    let rust = s("rust");
    manager.set_language_config(rust.clone(), config(true, true));
    assert_eq!(manager.try_spawn(&rust, false), LspSpawnResult::Spawned);
    let handle = manager.handle_id(&rust);
    assert_eq!(handle, Some(0));
    assert_eq!(manager.try_spawn(&rust, false), LspSpawnResult::AlreadyRunning);
    assert_eq!(manager.try_spawn(&rust, true), LspSpawnResult::AlreadyRunning);
    assert_eq!(manager.handle_id(&rust), handle);
    assert_eq!(manager.running_servers(), vec![rust.clone()]);
}

#[test]
fn spawn_policy() {
    let mut manager = LspManager::new();
    let (py, go, c) = (s("python"), s("go"), s("c"));
    manager.set_language_config(py.clone(), config(false, true));
    manager.set_language_config(go.clone(), config(true, false));
    assert_eq!(manager.try_spawn(&c, true), LspSpawnResult::NotConfigured);
    assert_eq!(manager.try_spawn(&py, true), LspSpawnResult::Disabled);
    assert_eq!(manager.try_spawn(&go, false), LspSpawnResult::Disabled);
    assert_eq!(manager.try_spawn(&go, true), LspSpawnResult::Spawned);
    assert_eq!(manager.get_config(&go).map(|c| c.auto_start), Some(false));
    assert!(manager.get_config(&c).is_none());
}

#[test]
fn restart_issues_a_new_identity() {
    let mut manager = LspManager::new();
    let rust = s("rust");
    manager.set_language_config(rust.clone(), config(true, false));
    assert_eq!(manager.try_spawn(&rust, true), LspSpawnResult::Spawned);
    let outcome = manager.manual_restart(&rust);
    assert_eq!(outcome.previous, Some(0));
    assert_eq!(outcome.spawn, LspSpawnResult::Spawned);
    assert_eq!(manager.handle_id(&rust), Some(1));

    let buf = BufferLsp { enabled: true, opened_with: Some(0) };
    let notice = reopen_after_restart(&buf, &manager, &rust, Some(s("fn main() {}")));
    assert!(matches!(notice, Some(DocNotice::Open { ref text, handle: 1 }) if text == "fn main() {}"));

    let off = BufferLsp { enabled: false, opened_with: None };
    assert!(reopen_after_restart(&off, &manager, &rust, Some(s("x"))).is_none());

    let buffers = vec![
        OpenBuffer { language: s("rust"), lsp: buf, text: Some(s("a")) },
        OpenBuffer { language: s("python"), lsp: buf, text: Some(s("b")) },
        OpenBuffer { language: s("rust"), lsp: off, text: Some(s("c")) },
        OpenBuffer { language: s("rust"), lsp: buf, text: None },
        OpenBuffer { language: s("rust"), lsp: buf, text: Some(s("e")) },
    ];
    let plan = reopen_buffers_for_language(&buffers, &manager, &rust);
    assert_eq!(plan.len(), 2);
    assert!(matches!(plan[0], (0, DocNotice::Open { ref text, handle: 1 }) if text == "a"));
    assert!(matches!(plan[1], (4, DocNotice::Open { ref text, handle: 1 }) if text == "e"));
}

#[test]
fn shutdown_all_returns_every_handle() {
    let mut manager = LspManager::new();
    for lang in ["rust", "go", "c"] {
        manager.set_language_config(s(lang), config(true, true));
        manager.try_spawn(&s(lang), false);
    }
    let mut handles = manager.shutdown_all();
    handles.sort();
    assert_eq!(handles, vec![0, 1, 2]);
    assert!(manager.running_servers().is_empty());
    assert_eq!(manager.try_spawn(&s("go"), false), LspSpawnResult::Spawned);
    assert_eq!(manager.handle_id(&s("go")), Some(3));
}

#[test]
fn disable_sends_one_close_and_enable_one_open_with_current_text() {
    let mut manager = LspManager::new();
    let rust = s("rust");
    manager.set_language_config(rust.clone(), config(true, true));
    let mut buf = BufferLsp { enabled: false, opened_with: None };
    let open = enable_buffer(&mut buf, &mut manager, &rust, false, Some(s("old")));
    assert!(matches!(open, Some(DocNotice::Open { ref text, handle: 0 }) if text == "old"));
    // Nothing is recorded until the didOpen is sent: the next edit retries it.
    assert_eq!(buf.opened_with, None);
    assert!(matches!(edit_buffer(&buf, &manager, &rust, Some(s("old!"))), Some(DocNotice::Open { .. })));
    mark_opened(&mut buf, 0);
    assert!(matches!(edit_buffer(&buf, &manager, &rust, Some(s("old!"))), Some(DocNotice::Change)));

    let close = disable_buffer(&mut buf, &manager, &rust);
    assert!(matches!(close, Some(DocNotice::Close)));
    assert_eq!(buf, BufferLsp { enabled: false, opened_with: None });
    assert!(disable_buffer(&mut buf, &manager, &rust).is_none());

    let reopen = enable_buffer(&mut buf, &mut manager, &rust, true, Some(s("new")));
    assert!(matches!(reopen, Some(DocNotice::Open { ref text, handle: 0 }) if text == "new"));
    mark_opened(&mut buf, 0);
    assert_eq!(buf.opened_with, Some(0));
    assert!(matches!(edit_buffer(&buf, &manager, &rust, Some(s("newer"))), Some(DocNotice::Change)));
}

#[test]
fn enable_without_server_sends_nothing() {
    let mut manager = LspManager::new();
    let md = s("markdown");
    let mut buf = BufferLsp { enabled: false, opened_with: None };
    assert!(enable_buffer(&mut buf, &mut manager, &md, true, Some(s("# x"))).is_none());
    assert!(buf.enabled);
    assert!(edit_buffer(&buf, &manager, &md, Some(s("# y"))).is_none());
}

#[test]
fn scenario_open_then_type_twice() {
    let mut manager = LspManager::new();
    let rust = s("rust");
    manager.set_language_config(rust.clone(), config(true, true));
    let mut session = ready_session("rust");
    let path = s("a.rs");
    let mut log = Vec::new();
    let mut buf = BufferLsp { enabled: false, opened_with: None };

    let n = enable_buffer(&mut buf, &mut manager, &rust, false, Some(s("")));
    send(&mut session, &path, n, &mut buf, &mut log);
    let n = edit_buffer(&buf, &manager, &rust, Some(s("a")));
    send(&mut session, &path, n, &mut buf, &mut log);
    let n = edit_buffer(&buf, &manager, &rust, Some(s("ab")));
    send(&mut session, &path, n, &mut buf, &mut log);

    assert_eq!(log, vec!["didOpen a.rs v1 ", "didChange a.rs v2", "didChange a.rs v3"]);
}

#[test]
fn scenario_toggle_off_edit_toggle_on() {
    let mut manager = LspManager::new();
    let rust = s("rust");
    manager.set_language_config(rust.clone(), config(true, true));
    let mut session = ready_session("rust");
    let path = s("/w/main.rs");
    let mut text = String::new();
    let mut log = Vec::new();
    let mut buf = BufferLsp { enabled: false, opened_with: None };

    let n = enable_buffer(&mut buf, &mut manager, &rust, true, Some(text.clone()));
    send(&mut session, &path, n, &mut buf, &mut log);
    for c in "abc".chars() {
        text.push(c);
        let n = edit_buffer(&buf, &manager, &rust, Some(text.clone()));
        send(&mut session, &path, n, &mut buf, &mut log);
    }
    let before = log.len();
    let n = disable_buffer(&mut buf, &manager, &rust);
    send(&mut session, &path, n, &mut buf, &mut log);
    assert_eq!(log[before..].to_vec(), vec![format!("didClose {}", path)]);

    let before = log.len();
    for c in "XYZ".chars() {
        text.push(c);
        let n = edit_buffer(&buf, &manager, &rust, Some(text.clone()));
        send(&mut session, &path, n, &mut buf, &mut log);
    }
    assert_eq!(log.len(), before);

    let n = enable_buffer(&mut buf, &mut manager, &rust, true, Some(text.clone()));
    send(&mut session, &path, n, &mut buf, &mut log);
    let opens: Vec<&String> = log.iter().filter(|l| l.starts_with("didOpen")).collect();
    assert_eq!(opens.len(), 2);
    assert_eq!(opens[1], &format!("didOpen {} v1 abcXYZ", path));
    assert_eq!(session.version_of(&path), Some(1));
}

#[test]
fn scenario_closed_stdout_reports_one_error_then_respawns() {
    let mut manager = LspManager::new();
    let rust = s("rust");
    manager.set_language_config(rust.clone(), config(true, true));
    assert_eq!(manager.try_spawn(&rust, false), LspSpawnResult::Spawned);
    let handle = manager.handle_id(&rust).unwrap();
    let mut session = ready_session("rust");
    session.begin_request(EditorRequest::DocumentDiagnostic { request_id: 5 }).unwrap();

    let mut bridge = Vec::new();
    // One poll cycle: the reader hits end of stream, possibly more than once.
    for _ in 0..3 {
        if let Some(msg) = session.on_transport_error(s("Read error: end of stream")) {
            bridge.push(msg);
        }
    }
    assert_eq!(bridge.len(), 1);
    match &bridge[0] {
        BridgeMessage::Error { language, error } => {
            assert_eq!(language, "rust");
            assert_eq!(error, "Read error: end of stream");
        }
        other => panic!("unexpected message {:?}", other),
    }
    assert_eq!(session.state(), SessionState::Failed);
    assert_eq!(session.outstanding_requests(), 0);

    assert!(manager.session_ended(&rust, handle));
    assert!(!manager.session_ended(&rust, handle));
    assert_eq!(manager.try_spawn(&rust, false), LspSpawnResult::Spawned);
    assert_ne!(manager.handle_id(&rust), Some(handle));
}

#[test]
fn scenario_two_languages_stay_isolated() {
    let mut manager = LspManager::new();
    let (rust, py) = (s("rust"), s("python"));
    manager.set_language_config(rust.clone(), config(true, true));
    manager.set_language_config(py.clone(), config(true, true));
    let mut rust_session = ready_session("rust");
    let mut py_session = ready_session("python");
    let (mut rust_log, mut py_log) = (Vec::new(), Vec::new());
    let mut rs_buf = BufferLsp { enabled: false, opened_with: None };
    let mut py_buf = BufferLsp { enabled: false, opened_with: None };
    let (rs_path, py_path) = (s("/w/lib.rs"), s("/w/app.py"));

    let n = enable_buffer(&mut rs_buf, &mut manager, &rust, true, Some(s("fn f() {}")));
    send(&mut rust_session, &rs_path, n, &mut rs_buf, &mut rust_log);
    let n = enable_buffer(&mut py_buf, &mut manager, &py, true, Some(s("def f(): pass")));
    send(&mut py_session, &py_path, n, &mut py_buf, &mut py_log);
    for _ in 0..2 {
        let n = edit_buffer(&rs_buf, &manager, &rust, Some(s("fn g() {}")));
        send(&mut rust_session, &rs_path, n, &mut rs_buf, &mut rust_log);
    }

    assert_ne!(rs_buf.opened_with, py_buf.opened_with);
    assert!(rust_log.iter().all(|l| l.contains("lib.rs")));
    assert!(py_log.iter().all(|l| l.contains("app.py")));
    assert_eq!(py_log.len(), 1);
    assert_eq!(rust_log.len(), 3);
    assert_eq!(py_session.version_of(&rs_path), None);
    assert_eq!(rust_session.version_of(&py_path), None);
}

#[test]
fn requests_after_open_take_fresh_ids() {
    let mut next = 10u64;
    assert_eq!(
        requests_after_open(&mut next, true),
        vec![
            EditorRequest::DocumentDiagnostic { request_id: 10 },
            EditorRequest::InlayHints { request_id: 11 },
            EditorRequest::FoldingRange { request_id: 12 },
        ]
    );
    assert_eq!(next, 13);
    assert_eq!(
        requests_after_open(&mut next, false),
        vec![
            EditorRequest::DocumentDiagnostic { request_id: 13 },
            EditorRequest::FoldingRange { request_id: 14 },
        ]
    );
    assert_eq!(next, 15);
}

#[test]
fn cancelled_request_response_is_dropped() {
    let mut session = ready_session("rust");
    let id = session.begin_request(EditorRequest::InlayHints { request_id: 4 }).unwrap();
    assert!(session.cancel_request(id));
    assert!(!session.cancel_request(id));
    assert_eq!(session.on_response(id, false), ResponseAction::Unmatched);
    assert_eq!(session.outstanding_requests(), 0);
}

#[test]
fn toggle_needs_a_configured_server() {
    let mut manager = LspManager::new();
    let (rust, md) = (s("rust"), s("markdown"));
    manager.set_language_config(rust.clone(), config(true, false));
    let mut buf = BufferLsp { enabled: false, opened_with: None };
    assert!(matches!(toggle_buffer(&mut buf, &mut manager, &md, Some(s("x"))), ToggleOutcome::NotConfigured));
    assert!(!buf.enabled);
    // A toggle is explicit: it starts a server that does not auto-start.
    assert!(matches!(
        toggle_buffer(&mut buf, &mut manager, &rust, Some(s("fn a() {}"))),
        ToggleOutcome::Enabled(Some(DocNotice::Open { handle: 0, .. }))
    ));
    assert!(buf.enabled);
    assert!(matches!(
        toggle_buffer(&mut buf, &mut manager, &rust, Some(s("fn a() {}"))),
        ToggleOutcome::Disabled(Some(DocNotice::Close))
    ));
    assert!(!buf.enabled);
}

#[test]
fn disabling_forgets_cached_results() {
    let mut cache = UriCache::new();
    let (a, b) = (s("file:///w/a.rs"), s("file:///w/b.rs"));
    cache.set_diagnostics(a.clone(), s("[]"));
    cache.set_result_id(a.clone(), s("r1"));
    cache.set_folding_ranges(a.clone(), s("[{\"startLine\":0,\"endLine\":2}]"));
    cache.set_result_id(b.clone(), s("r9"));
    assert_eq!(cache.previous_result_id(&a), Some(s("r1")));
    cache.set_result_id(a.clone(), s("r2"));
    assert_eq!(cache.previous_result_id(&a), Some(s("r2")));
    cache.forget(&a);
    assert_eq!(cache.previous_result_id(&a), None);
    assert!(cache.diagnostics(&a).is_none());
    assert_eq!(cache.previous_result_id(&b), Some(s("r9")));
}
