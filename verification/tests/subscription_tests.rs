use synf::subscription::{
    classify_line, Control, PartialJsonRequest, SubscribeParams, SubscriptionTable, SUBSCRIBE,
    UNSUBSCRIBE,
};

fn request(method: &str, uri: &str) -> PartialJsonRequest {
    PartialJsonRequest { method: method.to_string(), params: SubscribeParams { uri: uri.to_string() } }
}

#[test]
fn method_names() {
    assert_eq!(SUBSCRIBE, "resources/subscribe");
    assert_eq!(UNSUBSCRIBE, "resources/unsubscribe");
}

#[test]
fn subscribe_line_is_recognised() {
    let line = "{\"jsonrpc\":\"2.0\",\"id\":1,\"method\":\"resources/subscribe\",\"params\":{\"uri\":\"file:///a.txt\"}}";
    assert_eq!(classify_line(line), Control::Subscribe("file:///a.txt".to_string()));
}

#[test]
fn unsubscribe_line_is_recognised() {
    let line = "{\"method\":\"resources/unsubscribe\",\"params\":{\"uri\":\"A\"},\"id\":2}";
    assert_eq!(classify_line(line), Control::Unsubscribe("A".to_string()));
}

#[test]
fn escapes_in_the_text_are_resolved_by_the_parser() {
    let line = "{\"method\":\"resources\\/subscribe\",\"params\":{\"uri\":\"\\u0041\\n\"}}";
    assert_eq!(classify_line(line), Control::Subscribe("A\n".to_string()));
}

#[test]
fn other_methods_do_not_concern_the_table() {
    let line = "{\"method\":\"resources/read\",\"params\":{\"uri\":\"A\"}}";
    assert_eq!(classify_line(line), Control::Neither);
    assert_eq!(PartialJsonRequest::parse(line), Some(request("resources/read", "A")));
}

#[test]
fn method_name_inside_another_field_does_not_count() {
    let line = "{\"method\":\"tools/call\",\"params\":{\"uri\":\"resources/subscribe\"}}";
    assert_eq!(classify_line(line), Control::Neither);
    let line = "{\"note\":\"resources/subscribe\",\"params\":{\"uri\":\"A\"}}";
    assert_eq!(classify_line(line), Control::Neither);
}

#[test]
fn request_needs_a_string_uri_under_params() {
    for line in [
        "{\"method\":\"resources/subscribe\"}",
        "{\"method\":\"resources/subscribe\",\"params\":{}}",
        "{\"method\":\"resources/subscribe\",\"params\":{\"uri\":5}}",
        "{\"method\":\"resources/subscribe\",\"params\":{\"uri\":null}}",
        "{\"method\":\"resources/subscribe\",\"params\":[\"A\"]}",
        "{\"method\":\"resources/subscribe\",\"params\":\"A\"}",
        "{\"method\":\"resources/subscribe\",\"uri\":\"A\"}",
    ] {
        assert_eq!(PartialJsonRequest::parse(line), None, "{}", line);
        assert_eq!(classify_line(line), Control::Neither, "{}", line);
    }
}

#[test]
fn request_needs_a_string_method() {
    for line in [
        "{\"params\":{\"uri\":\"A\"}}",
        "{\"method\":7,\"params\":{\"uri\":\"A\"}}",
        "{\"method\":[\"resources/subscribe\"],\"params\":{\"uri\":\"A\"}}",
    ] {
        assert_eq!(PartialJsonRequest::parse(line), None, "{}", line);
    }
}

#[test]
fn text_that_is_no_json_object_carries_no_request() {
    for line in [
        "",
        "resources/subscribe",
        "{\"method\":\"resources/subscribe\",\"params\":{\"uri\":\"A\"}",
        "{\"method\":\"resources/subscribe\",\"params\":{\"uri\":\"A\"}} trailing",
        "[\"resources/subscribe\",{\"uri\":\"A\"}]",
        "\"resources/subscribe\"",
        "null",
        "12",
    ] {
        assert_eq!(PartialJsonRequest::parse(line), None, "{}", line);
        assert_eq!(classify_line(line), Control::Neither, "{}", line);
    }
}

#[test]
fn request_is_read_from_a_parsed_document() {
    let document: serde_json::Value = serde_json::from_str(
        "{\"id\":3,\"params\":{\"uri\":\"mem://x\",\"more\":true},\"method\":\"resources/subscribe\"}",
    )
    .unwrap();
    assert_eq!(
        PartialJsonRequest::from_document(&document),
        Some(request("resources/subscribe", "mem://x"))
    );
    let nested: serde_json::Value =
        serde_json::from_str("{\"params\":{\"method\":\"m\",\"uri\":\"u\"}}").unwrap();
    assert_eq!(PartialJsonRequest::from_document(&nested), None);
}

#[test]
fn request_from_fields_needs_both() {
    assert_eq!(PartialJsonRequest::from_fields(Some("m"), Some("u")), Some(request("m", "u")));
    assert_eq!(PartialJsonRequest::from_fields(Some("m"), None), None);
    assert_eq!(PartialJsonRequest::from_fields(None, Some("u")), None);
    assert_eq!(PartialJsonRequest::from_fields(None, None), None);
}

#[test]
fn control_goes_by_the_method() {
    assert_eq!(request("resources/subscribe", "u").control(), Control::Subscribe("u".to_string()));
    assert_eq!(
        request("resources/unsubscribe", "u").control(),
        Control::Unsubscribe("u".to_string())
    );
    assert_eq!(request("resources/subscribe ", "u").control(), Control::Neither);
    assert_eq!(request("Resources/Subscribe", "u").control(), Control::Neither);
    assert_eq!(request("", "u").control(), Control::Neither);
}

#[test]
fn table_starts_empty() {
    let table = SubscriptionTable::new();
    assert_eq!(table.len(), 0);
    assert!(!table.contains("A"));
    assert_eq!(table.line_of("A"), None);
    assert_eq!(table.lines(), Vec::<String>::new());
}

#[test]
fn subscribe_then_unsubscribe_leaves_nothing() {
    let mut table = SubscriptionTable::new();
    table.subscribe("A".to_string(), "line A".to_string());
    assert!(table.contains("A"));
    assert_eq!(table.len(), 1);
    table.unsubscribe("A");
    assert!(!table.contains("A"));
    assert_eq!(table.len(), 0);
    assert_eq!(table.lines(), Vec::<String>::new());
}

#[test]
fn subscribing_again_replaces_the_line_in_place() {
    let mut table = SubscriptionTable::new();
    table.subscribe("A".to_string(), "first A".to_string());
    table.subscribe("B".to_string(), "first B".to_string());
    table.subscribe("A".to_string(), "second A".to_string());
    assert_eq!(table.len(), 2);
    assert_eq!(table.lines(), vec!["second A".to_string(), "first B".to_string()]);
    assert_eq!(table.line_of("A"), Some("second A".to_string()));
    assert_eq!(table.line_of("B"), Some("first B".to_string()));
}

#[test]
fn unsubscribing_keeps_the_other_entries_in_order() {
    let mut table = SubscriptionTable::new();
    for uri in ["A", "B", "C"] {
        table.subscribe(uri.to_string(), format!("line {}", uri));
    }
    table.unsubscribe("B");
    assert_eq!(table.lines(), vec!["line A".to_string(), "line C".to_string()]);
    table.unsubscribe("missing");
    assert_eq!(table.len(), 2);
}

#[test]
fn observe_tracks_only_when_switched_on() {
    let line = "{\"method\":\"resources/subscribe\",\"params\":{\"uri\":\"A\"}}";
    let mut table = SubscriptionTable::new();
    table.observe(false, line);
    assert_eq!(table.len(), 0);
    table.observe(true, line);
    assert_eq!(table.line_of("A"), Some(line.to_string()));
    table.observe(true, "{\"method\":\"ping\"}");
    table.observe(true, "garbage");
    assert_eq!(table.len(), 1);
    table.observe(false, "{\"method\":\"resources/unsubscribe\",\"params\":{\"uri\":\"A\"}}");
    assert_eq!(table.len(), 1);
    table.observe(true, "{\"method\":\"resources/unsubscribe\",\"params\":{\"uri\":\"A\"}}");
    assert_eq!(table.len(), 0);
}

#[test]
fn apply_follows_the_control() {
    let mut table = SubscriptionTable::new();
    table.apply(Control::Subscribe("A".to_string()), "line");
    assert_eq!(table.line_of("A"), Some("line".to_string()));
    table.apply(Control::Neither, "other");
    assert_eq!(table.len(), 1);
    table.apply(Control::Unsubscribe("A".to_string()), "bye");
    assert_eq!(table.len(), 0);
}
