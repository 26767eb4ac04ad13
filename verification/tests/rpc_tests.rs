use preview_core::rpc::{
    choose_server_executable, did_change_params, escape_json, initialize_params, position_params,
    request_line, resolve_wait, LspManager, RpcPhase, WaitDecision, WaitOutcome,
};

/// The executable choice: first line of a non-empty search result,
/// else the found install location, else the literal command name.
#[test]
fn server_executable_choice() {
    assert_eq!(
        choose_server_executable(Some("/usr/bin/tinymist\n/other/tinymist"), None),
        "/usr/bin/tinymist"
    );
    assert_eq!(choose_server_executable(Some("/usr/bin/tinymist"), None), "/usr/bin/tinymist");
    assert_eq!(
        choose_server_executable(Some(""), Some("/home/u/.cargo/bin/tinymist")),
        "/home/u/.cargo/bin/tinymist"
    );
    assert_eq!(
        choose_server_executable(None, Some("/home/u/.cargo/bin/tinymist")),
        "/home/u/.cargo/bin/tinymist"
    );
    assert_eq!(choose_server_executable(None, None), "tinymist");
}

#[test]
fn request_line_without_params() {
    let line = request_line(7, "shutdown", None);
    assert_eq!(line, b"{\"jsonrpc\":\"2.0\",\"id\":7,\"method\":\"shutdown\"}\n");
}

#[test]
fn request_line_with_params() {
    let params = b"{\"a\":1}".to_vec();
    let line = request_line(42, "foo/bar", Some(&params));
    assert_eq!(
        line,
        b"{\"jsonrpc\":\"2.0\",\"id\":42,\"method\":\"foo/bar\",\"params\":{\"a\":1}}\n"
    );
}

#[test]
fn position_params_exact() {
    let p = position_params("file:///a.typ", 3, 14, -1);
    assert_eq!(
        String::from_utf8(p).unwrap(),
        "{\"textDocument\":{\"uri\":\"file:///a.typ\",\"version\":-1},\"position\":{\"line\":3,\"character\":14}}"
    );
}

#[test]
fn did_change_escapes_content() {
    let p = did_change_params("file:///a.typ", "a \"b\"\nc\\d", 5);
    assert_eq!(
        String::from_utf8(p).unwrap(),
        "{\"textDocument\":{\"uri\":\"file:///a.typ\",\"version\":5},\"contentChanges\":[{\"text\":\"a \\\"b\\\"\\nc\\\\d\"}]}"
    );
}

#[test]
fn escape_control_bytes() {
    assert_eq!(escape_json(b"\x01\t\r"), b"\\u0001\\t\\r".to_vec());
    assert_eq!(escape_json(b"\x1f"), b"\\u001f".to_vec());
    assert_eq!(escape_json("plain".as_bytes()), b"plain".to_vec());
}

#[test]
fn initialize_params_exact() {
    assert_eq!(
        String::from_utf8(initialize_params()).unwrap(),
        "{\"rootUri\":\"file:///workspace\",\"workspaceFolders\":[],\"capabilities\":{}}"
    );
}

/// ensure_started is idempotent: one caller is told to initialize,
/// later callers are not, and Ready stays Ready.
#[test]
fn lifecycle_idempotent_start() {
    let mut m = LspManager::new();
    assert_eq!(m.phase, RpcPhase::NotStarted);
    assert!(m.ensure_started());
    assert_eq!(m.phase, RpcPhase::Initializing);
    assert!(!m.ensure_started());
    m.mark_ready();
    assert_eq!(m.phase, RpcPhase::Ready);
    assert!(!m.ensure_started());
    assert_eq!(m.phase, RpcPhase::Ready);
}

/// Request ids are strictly increasing, starting at one.
#[test]
fn request_ids_strictly_increase() {
    let mut m = LspManager::new();
    let (id1, _) = m.send_request("a", None);
    let (id2, _) = m.send_request("b", None);
    let (id3, _) = m.send_request("c", None);
    assert_eq!((id1, id2, id3), (1, 2, 3));
}

/// A response resolves exactly the one outstanding request with its
/// id; a second response with the same id resolves nothing.
#[test]
fn correlation_by_id() {
    let mut m = LspManager::new();
    let (id1, _) = m.send_request("a", None);
    let (id2, _) = m.send_request("b", None);
    assert!(m.take_pending(id2));
    assert!(!m.take_pending(id2));
    assert!(!m.take_pending(99));
    assert!(m.take_pending(id1));
}

/// A request that sees no correlated response within the timeout
/// window degrades to the empty result: not an error, not a hang.
#[test]
fn timeout_returns_fallback() {
    assert_eq!(resolve_wait(5, WaitOutcome::TimedOut), WaitDecision::Fallback);
    assert_eq!(resolve_wait(5, WaitOutcome::Closed), WaitDecision::Fallback);
    assert_eq!(resolve_wait(5, WaitOutcome::Response(6)), WaitDecision::Fallback);
    assert_eq!(resolve_wait(5, WaitOutcome::Response(5)), WaitDecision::Accept);
}

/// update_document frames the whole-document-replace notification and
/// records a never-decreasing version per document.
#[test]
fn document_versions_never_decrease() {
    let mut m = LspManager::new();
    let line = m.update_document("file:///d.typ", "= Hi", 5);
    assert_eq!(
        String::from_utf8(line).unwrap(),
        "{\"jsonrpc\":\"2.0\",\"id\":0,\"method\":\"textDocument/didChange\",\"params\":{\"textDocument\":{\"uri\":\"file:///d.typ\",\"version\":5},\"contentChanges\":[{\"text\":\"= Hi\"}]}}\n"
    );
    assert_eq!(m.version_of("file:///d.typ"), Some(5));
    m.update_document("file:///d.typ", "= Hi!", 7);
    assert_eq!(m.version_of("file:///d.typ"), Some(7));
    m.update_document("file:///d.typ", "= Hi?", 3);
    assert_eq!(m.version_of("file:///d.typ"), Some(7));
    assert_eq!(m.version_of("file:///other.typ"), None);
    m.update_document("file:///other.typ", "x", 1);
    assert_eq!(m.version_of("file:///other.typ"), Some(1));
    assert_eq!(m.version_of("file:///d.typ"), Some(7));
}

/// The initialization sequence: an initialize request under a fresh
/// id with the fixed parameters, then the initialized notification.
#[test]
fn initialize_sequence_exact() {
    let mut m = LspManager::new();
    m.ensure_started();
    let (id, init, done) = m.initialize();
    assert_eq!(id, 1);
    assert_eq!(
        String::from_utf8(init).unwrap(),
        "{\"jsonrpc\":\"2.0\",\"id\":1,\"method\":\"initialize\",\"params\":{\"rootUri\":\"file:///workspace\",\"workspaceFolders\":[],\"capabilities\":{}}}\n"
    );
    assert_eq!(
        String::from_utf8(done).unwrap(),
        "{\"jsonrpc\":\"2.0\",\"id\":0,\"method\":\"initialized\"}\n"
    );
    // the next request gets the next id
    let (id2, _) = m.send_request("x", None);
    assert_eq!(id2, 2);
}

/// The query helpers frame a URI+position request under a fresh id.
#[test]
fn query_helpers_frame_requests() {
    let mut m = LspManager::new();
    let (id, line) = m.get_completion("file:///a.typ", 2, 7, 4);
    assert_eq!(id, 1);
    let text = String::from_utf8(line).unwrap();
    assert!(text.starts_with("{\"jsonrpc\":\"2.0\",\"id\":1,\"method\":\"textDocument/completion\",\"params\":"));
    assert!(text.contains("\"line\":2,\"character\":7"));
    let (id2, line2) = m.get_hover("file:///a.typ", 0, 0, 4);
    assert_eq!(id2, 2);
    assert!(String::from_utf8(line2).unwrap().contains("textDocument/hover"));
    let (id3, line3) = m.goto_definition("file:///a.typ", 0, 0, 4);
    assert_eq!(id3, 3);
    assert!(String::from_utf8(line3).unwrap().contains("textDocument/definition"));
}

#[test]
fn notification_has_id_zero() {
    let m = LspManager::new();
    let line = m.send_notification("initialized", None);
    assert_eq!(line, b"{\"jsonrpc\":\"2.0\",\"id\":0,\"method\":\"initialized\"}\n");
}
