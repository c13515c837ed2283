use lsp_core::server::{Server, Incoming, OutMsg, Params, ErrKind, ConnState, ReplyOutcome,
    NotePayload};
use lsp_core::complete::complete;

fn b(s: &str) -> Vec<u8> {
    s.as_bytes().to_vec()
}

fn ready_server(dict: Vec<Vec<u8>>) -> Server {
    let mut sv = Server::new(dict);
    let out = sv.handle(Incoming::Request {
        id: 1,
        method: b("initialize"),
        params: Params::Missing,
    });
    assert!(matches!(out[0], OutMsg::InitializeResult { id: 1, .. }));
    let out = sv.handle(Incoming::Notification {
        method: b("initialized"),
        params: Params::Missing,
    });
    assert!(matches!(out[0], OutMsg::LogNote { error: false, .. }));
    assert_eq!(sv.state, ConnState::Ready);
    sv
}

#[test]
fn completion_before_initialize_is_a_state_error() {
    let mut sv = Server::new(vec![b("cat")]);
    let out = sv.handle(Incoming::Request {
        id: 9,
        method: b("textDocument/completion"),
        params: Params::CompletionAt { trigger: None },
    });
    assert_eq!(out.len(), 1);
    assert!(matches!(out[0], OutMsg::ErrorResult { id: 9, kind: ErrKind::StateError }));
    assert_eq!(sv.state, ConnState::Uninitialized);
}

#[test]
fn initialize_advertises_the_feature_surface() {
    let mut sv = Server::new(Vec::new());
    let out = sv.handle(Incoming::Request {
        id: 1,
        method: b("initialize"),
        params: Params::Missing,
    });
    assert_eq!(out.len(), 1);
    match &out[0] {
        OutMsg::InitializeResult { id, info, caps } => {
            assert_eq!(*id, 1);
            assert_eq!(info.name, b("language-server-rust"));
            assert_eq!(info.version, b("0.0.1"));
            assert!(!caps.resolve_provider);
            assert_eq!(caps.trigger_characters, vec![b(".")]);
            assert_eq!(caps.commands, vec![b("dummy.do_something"), b("custom.notification")]);
        },
        _ => panic!("expected the initialize result"),
    }
    assert_eq!(sv.state, ConnState::Initializing);
}

#[test]
fn second_initialize_is_rejected() {
    let mut sv = ready_server(Vec::new());
    let out = sv.handle(Incoming::Request {
        id: 4,
        method: b("initialize"),
        params: Params::Missing,
    });
    assert!(matches!(out[0], OutMsg::ErrorResult { id: 4, kind: ErrKind::StateError }));
}

#[test]
fn unknown_request_method_not_found() {
    let mut sv = ready_server(Vec::new());
    let out = sv.handle(Incoming::Request {
        id: 5,
        method: b("textDocument/hover"),
        params: Params::Missing,
    });
    assert_eq!(out.len(), 1);
    assert!(matches!(out[0], OutMsg::ErrorResult { id: 5, kind: ErrKind::MethodNotFound }));
}

#[test]
fn unknown_notification_is_silently_ignored() {
    let mut sv = ready_server(Vec::new());
    let out = sv.handle(Incoming::Notification {
        method: b("$/cancelRequest"),
        params: Params::Missing,
    });
    assert!(out.is_empty());
}

#[test]
fn completion_filters_by_prefix_in_dictionary_order() {
    let sv = ready_server(vec![b("cat"), b("car"), b("dog")]);
    let mut sv = sv;
    let out = sv.handle(Incoming::Request {
        id: 2,
        method: b("textDocument/completion"),
        params: Params::CompletionAt { trigger: Some(b("ca")) },
    });
    match &out[0] {
        OutMsg::CompletionResult { id, items } => {
            assert_eq!(*id, 2);
            let labels: Vec<Vec<u8>> = items.iter().map(|it| it.label.clone()).collect();
            assert_eq!(labels, vec![b("cat"), b("car")]);
            for it in items {
                assert_eq!(it.label, it.insert_text);
            }
        },
        _ => panic!("expected a completion result"),
    }
}

#[test]
fn completion_without_trigger_matches_everything() {
    let mut sv = ready_server(vec![b("cat"), b("car"), b("dog")]);
    let out = sv.handle(Incoming::Request {
        id: 3,
        method: b("textDocument/completion"),
        params: Params::CompletionAt { trigger: None },
    });
    match &out[0] {
        OutMsg::CompletionResult { items, .. } => assert_eq!(items.len(), 3),
        _ => panic!("expected a completion result"),
    }
}

#[test]
fn completion_is_capped_at_one_hundred() {
    let mut dict: Vec<Vec<u8>> = Vec::new();
    for i in 0..150 {
        dict.push(format!("word{}", i).into_bytes());
    }
    let items = complete(&dict, &b("word"));
    assert_eq!(items.len(), 100);
    assert_eq!(items[0].label, b("word0"));
    assert_eq!(items[99].label, b("word99"));
}

#[test]
fn execute_unknown_command_fails_with_no_side_effect() {
    let mut sv = ready_server(Vec::new());
    let out = sv.handle(Incoming::Request {
        id: 6,
        method: b("workspace/executeCommand"),
        params: Params::RunCommand { command: b("no.such.command"), arguments: Vec::new() },
    });
    assert_eq!(out.len(), 1);
    assert!(matches!(out[0], OutMsg::ErrorResult { id: 6, kind: ErrKind::InvalidRequest }));
    assert!(sv.pending.is_empty());
}

#[test]
fn execute_command_before_ready_is_a_state_error() {
    let mut sv = Server::new(Vec::new());
    let out = sv.handle(Incoming::Request {
        id: 6,
        method: b("workspace/executeCommand"),
        params: Params::RunCommand { command: b("dummy.do_something"), arguments: Vec::new() },
    });
    assert!(matches!(out[0], OutMsg::ErrorResult { id: 6, kind: ErrKind::StateError }));
}

#[test]
fn notification_command_pushes_the_payload() {
    let mut sv = ready_server(Vec::new());
    let args = vec![NotePayload {
        title: b("Hello"),
        message: b("Hello from client"),
        description: b("a custom notification"),
    }];
    let out = sv.handle(Incoming::Request {
        id: 7,
        method: b("workspace/executeCommand"),
        params: Params::RunCommand { command: b("custom.notification"), arguments: args },
    });
    assert_eq!(out.len(), 3);
    assert!(matches!(out[0], OutMsg::LogNote { error: false, .. }));
    match &out[1] {
        OutMsg::CustomNote { title, message, description } => {
            assert_eq!(title, &b("Hello"));
            assert_eq!(message, &b("Hello from client"));
            assert_eq!(description, &b("a custom notification"));
        },
        _ => panic!("expected the custom notification"),
    }
    assert!(matches!(out[2], OutMsg::NullResult { id: 7 }));
}

#[test]
fn apply_edit_round_trip_is_advisory() {
    let mut sv = ready_server(Vec::new());
    let out = sv.handle(Incoming::Request {
        id: 8,
        method: b("workspace/executeCommand"),
        params: Params::RunCommand { command: b("dummy.do_something"), arguments: Vec::new() },
    });
    assert_eq!(out.len(), 3);
    let rid = match out[1] {
        OutMsg::ApplyEditRequest { id } => id,
        _ => panic!("expected the apply-edit request"),
    };
    // the command reports success at once
    assert!(matches!(out[2], OutMsg::NullResult { id: 8 }));
    assert_eq!(sv.pending, vec![rid]);
    // the client's rejection is only logged
    let out = sv.handle(Incoming::Reply { id: rid, outcome: ReplyOutcome::Rejected });
    assert_eq!(out.len(), 1);
    match &out[0] {
        OutMsg::LogNote { error, text } => {
            assert!(!error);
            assert_eq!(text, &b("rejected"));
        },
        _ => panic!("expected a log entry"),
    }
    assert!(sv.pending.is_empty());
    // an uncorrelated reply is dropped
    let out = sv.handle(Incoming::Reply { id: 4242, outcome: ReplyOutcome::Applied });
    assert!(out.is_empty());
}

#[test]
fn shutdown_then_only_exit() {
    let mut sv = ready_server(Vec::new());
    let out = sv.handle(Incoming::Request {
        id: 10,
        method: b("shutdown"),
        params: Params::Missing,
    });
    assert!(matches!(out[0], OutMsg::NullResult { id: 10 }));
    assert_eq!(sv.state, ConnState::ShuttingDown);
    let out = sv.handle(Incoming::Request {
        id: 11,
        method: b("textDocument/completion"),
        params: Params::CompletionAt { trigger: None },
    });
    assert!(matches!(out[0], OutMsg::ErrorResult { id: 11, kind: ErrKind::StateError }));
    let out = sv.handle(Incoming::Notification { method: b("exit"), params: Params::Missing });
    assert!(matches!(out[0], OutMsg::CloseTransport));
    assert_eq!(sv.state, ConnState::Closed);
    // everything after close is discarded
    let out = sv.handle(Incoming::Request {
        id: 12,
        method: b("initialize"),
        params: Params::Missing,
    });
    assert!(out.is_empty());
}

#[test]
fn document_sync_scenario() {
    // load dictionary ["alpha","apple"], open d1, complete "ap", close d1,
    // change d1 -> document not found
    let mut sv = ready_server(vec![b("alpha"), b("apple")]);
    let out = sv.handle(Incoming::Notification {
        method: b("textDocument/didOpen"),
        params: Params::OpenDoc { uri: b("d1"), version: 1, text: b("") },
    });
    assert!(matches!(out[0], OutMsg::LogNote { error: false, .. }));
    let out = sv.handle(Incoming::Request {
        id: 21,
        method: b("textDocument/completion"),
        params: Params::CompletionAt { trigger: Some(b("ap")) },
    });
    match &out[0] {
        OutMsg::CompletionResult { items, .. } => {
            assert_eq!(items.len(), 1);
            assert_eq!(items[0].label, b("apple"));
            assert_eq!(items[0].insert_text, b("apple"));
        },
        _ => panic!("expected a completion result"),
    }
    let out = sv.handle(Incoming::Notification {
        method: b("textDocument/didClose"),
        params: Params::CloseDoc { uri: b("d1") },
    });
    assert!(matches!(out[0], OutMsg::LogNote { error: false, .. }));
    let out = sv.handle(Incoming::Notification {
        method: b("textDocument/didChange"),
        params: Params::ChangeDoc {
            uri: b("d1"),
            version: 2,
            edits: vec![lsp_core::docs::Edit::Full { text: b("x") }],
        },
    });
    assert_eq!(out.len(), 1);
    match &out[0] {
        OutMsg::LogNote { error, text } => {
            assert!(*error);
            assert_eq!(text, &b("document not found"));
        },
        _ => panic!("expected the document-not-found report"),
    }
}

#[test]
fn did_change_and_did_save_in_ready_state() {
    let mut sv = ready_server(Vec::new());
    sv.handle(Incoming::Notification {
        method: b("textDocument/didOpen"),
        params: Params::OpenDoc { uri: b("u"), version: 1, text: b("hello") },
    });
    let out = sv.handle(Incoming::Notification {
        method: b("textDocument/didChange"),
        params: Params::ChangeDoc {
            uri: b("u"),
            version: 2,
            edits: vec![lsp_core::docs::Edit::Range { start: 0, end: 5, text: b("bye") }],
        },
    });
    assert!(matches!(out[0], OutMsg::LogNote { error: false, .. }));
    assert_eq!(sv.store.lookup(&b("u")).unwrap().text, b("bye"));
    assert_eq!(sv.store.lookup(&b("u")).unwrap().version, 2);
    let out = sv.handle(Incoming::Notification {
        method: b("textDocument/didSave"),
        params: Params::SaveDoc { uri: b("u") },
    });
    assert!(matches!(out[0], OutMsg::LogNote { error: false, .. }));
}

#[test]
fn doc_notifications_outside_ready_are_ignored() {
    let mut sv = Server::new(Vec::new());
    let out = sv.handle(Incoming::Notification {
        method: b("textDocument/didOpen"),
        params: Params::OpenDoc { uri: b("u"), version: 1, text: b("t") },
    });
    assert!(out.is_empty());
}
