use preview_core::decode::{
    completion_from_result, definition_from_result, handle_line, hover_from_result, LineAction,
};
use serde_json::Value;

fn val(s: &str) -> Value {
    serde_json::from_str(s).unwrap()
}

#[test]
fn completion_bare_array() {
    let v = val(r#"[{"label":"emph","kind":3},{"label":"strong","insertText":"strong(${1})","detail":"bold"}]"#);
    let items = completion_from_result(&v);
    assert_eq!(items.len(), 2);
    assert_eq!(items[0].label, "emph");
    assert_eq!(items[0].kind, Some(3));
    assert_eq!(items[0].insert_text, None);
    assert_eq!(items[1].label, "strong");
    assert_eq!(items[1].insert_text.as_deref(), Some("strong(${1})"));
    assert_eq!(items[1].detail.as_deref(), Some("bold"));
}

#[test]
fn completion_wrapped_object() {
    let v = val(r#"{"isIncomplete":false,"items":[{"label":"x"}]}"#);
    let items = completion_from_result(&v);
    assert_eq!(items.len(), 1);
    assert_eq!(items[0].label, "x");
}

#[test]
fn completion_skips_malformed_items() {
    let v = val(r#"[{"label":"good"},{"kind":1},{"label":7},{"label":"odd","kind":"str"}]"#);
    let items = completion_from_result(&v);
    assert_eq!(items.len(), 1);
    assert_eq!(items[0].label, "good");
}

#[test]
fn completion_other_shapes_empty() {
    assert!(completion_from_result(&val("null")).is_empty());
    assert!(completion_from_result(&val("3")).is_empty());
    assert!(completion_from_result(&val(r#"{"items":3}"#)).is_empty());
}

#[test]
fn hover_null_and_object() {
    assert!(hover_from_result(&val("null")).is_none());
    let h = hover_from_result(&val(
        r#"{"contents":{"kind":"markdown","value":"doc"},"range":{"start":{"line":1,"character":2},"end":{"line":1,"character":5}}}"#,
    ))
    .unwrap();
    assert!(h.contents.contains("markdown"));
    let r = h.range.unwrap();
    assert_eq!((r.start.line, r.start.character), (1, 2));
    assert_eq!((r.end.line, r.end.character), (1, 5));
    // contents required
    assert!(hover_from_result(&val(r#"{"range":null}"#)).is_none());
    // malformed range fails the record
    assert!(hover_from_result(&val(r#"{"contents":"x","range":{"start":{}}}"#)).is_none());
}

#[test]
fn definition_single_and_array() {
    let single = val(r#"{"uri":"file:///a.typ","range":{"start":{"line":0,"character":0},"end":{"line":0,"character":4}}}"#);
    let loc = definition_from_result(&single).unwrap();
    assert_eq!(loc.uri, "file:///a.typ");
    let arr = val(r#"[{"uri":"file:///b.typ","range":{"start":{"line":2,"character":0},"end":{"line":2,"character":1}}},{"uri":"file:///c.typ","range":{"start":{"line":9,"character":0},"end":{"line":9,"character":1}}}]"#);
    let first = definition_from_result(&arr).unwrap();
    assert_eq!(first.uri, "file:///b.typ");
    assert_eq!(first.range.start.line, 2);
    assert!(definition_from_result(&val("null")).is_none());
    assert!(definition_from_result(&val("[]")).is_none());
}

#[test]
fn reader_delivers_success_responses() {
    match handle_line(r#"{"jsonrpc":"2.0","id":9,"result":{"items":[]}}"#) {
        LineAction::Deliver(id, v) => {
            assert_eq!(id, 9);
            assert!(v.get("items").is_some());
        },
        LineAction::Ignore => panic!("expected a delivery"),
    }
}

#[test]
fn reader_drops_malformed_and_errors() {
    assert!(matches!(handle_line("not json"), LineAction::Ignore));
    assert!(matches!(
        handle_line(r#"{"jsonrpc":"2.0","id":2,"error":{"code":-32601,"message":"nope"}}"#),
        LineAction::Ignore
    ));
    // missing id, missing jsonrpc, non-numeric id, null result
    assert!(matches!(handle_line(r#"{"jsonrpc":"2.0","result":1}"#), LineAction::Ignore));
    assert!(matches!(handle_line(r#"{"id":1,"result":1}"#), LineAction::Ignore));
    assert!(matches!(
        handle_line(r#"{"jsonrpc":"2.0","id":"x","result":1}"#),
        LineAction::Ignore
    ));
    assert!(matches!(
        handle_line(r#"{"jsonrpc":"2.0","id":3,"result":null}"#),
        LineAction::Ignore
    ));
}
