use instruckt::json::{Json, JsonMember, JsonNumber};
use instruckt::mcp::{closing_request, component_stack, dismiss_request, pending_entries, resolve_request, source_location};
use instruckt::store::Store;
use instruckt::types::{Annotation, AnnotationStatus, CreateAnnotation, RESOLVED_BY_AGENT};

fn member(k: &str, v: Json) -> JsonMember {
    JsonMember { key: k.into(), value: v }
}

fn annotation(id: &str, framework: Option<Json>, screenshot: Option<&str>) -> Annotation {
    let store = Store::new(b"/data".to_vec());
    let mut list = Vec::new();
    let input = CreateAnnotation {
        url: "http://localhost/x".into(),
        x: 0,
        y: 0,
        comment: "c".into(),
        element: "span".into(),
        element_path: "body > span".into(),
        css_classes: None,
        nearby_text: None,
        selected_text: None,
        bounding_box: None,
        screenshot: screenshot.map(String::from),
        intent: "fix".into(),
        severity: "blocking".into(),
        framework,
    };
    store.create_annotation_with(&mut list, input, id.into(), "T".into()).unwrap().0
}

#[test]
fn source_location_reads_framework_context() {
    let fw = Json::Object(vec![
        member("component", Json::String("Button".into())),
        member("source_file", Json::String("src/Button.tsx".into())),
        member("source_line", Json::Number(JsonNumber::PosInt(42))),
    ]);
    let loc = source_location(annotation("a1", Some(fw), None));
    assert_eq!(loc.annotation_id, "a1");
    assert_eq!(loc.element, "span");
    assert_eq!(loc.element_path, "body > span");
    assert_eq!(loc.url, "http://localhost/x");
    assert_eq!(loc.source_file.as_deref(), Some("src/Button.tsx"));
    assert_eq!(loc.source_line, Some(42));
}

#[test]
fn source_location_ignores_wrong_kinds() {
    let fw = Json::Object(vec![
        member("source_file", Json::Number(JsonNumber::PosInt(1))),
        member("source_line", Json::Number(JsonNumber::NegInt(-3))),
    ]);
    let loc = source_location(annotation("a2", Some(fw), None));
    assert_eq!(loc.source_file, None);
    assert_eq!(loc.source_line, None);
    let loc = source_location(annotation("a3", Some(Json::Array(vec![])), None));
    assert_eq!(loc.source_file, None);
    let loc = source_location(annotation("a4", None, None));
    assert_eq!(loc.source_line, None);
    let fw = Json::Object(vec![member("source_line", Json::Number(JsonNumber::Float(7.0f64.to_bits())))]);
    assert_eq!(source_location(annotation("a5", Some(fw), None)).source_line, None);
}

#[test]
fn component_stack_copies_member() {
    let stack = Json::Array(vec![Json::String("App".into()), Json::String("Button".into())]);
    let fw = Json::Object(vec![member("component_stack", stack)]);
    let cs = component_stack(annotation("b1", Some(fw), None));
    assert_eq!(cs.annotation_id, "b1");
    assert_eq!(cs.element_path, "body > span");
    match cs.component_stack {
        Some(Json::Array(items)) => {
            assert_eq!(items.len(), 2);
            assert!(matches!(&items[1], Json::String(s) if s == "Button"));
        }
        other => panic!("unexpected {other:?}"),
    }
    assert!(component_stack(annotation("b2", None, None)).component_stack.is_none());
}

#[test]
fn pending_entries_hide_screenshot_paths() {
    let list = vec![annotation("p1", None, Some("shots/p1.png")), annotation("p2", None, None)];
    let entries = pending_entries(list);
    assert_eq!(entries.len(), 2);
    assert!(entries[0].has_screenshot);
    assert!(entries[0].annotation.screenshot.is_none());
    assert_eq!(entries[0].annotation.id, "p1");
    assert!(!entries[1].has_screenshot);
}

#[test]
fn closing_requests() {
    let r = closing_request(AnnotationStatus::Resolved, "2026-01-01T00:00:00Z".into());
    assert_eq!(r.status, Some(AnnotationStatus::Resolved));
    assert_eq!(r.resolved_by.as_deref(), Some(RESOLVED_BY_AGENT));
    assert_eq!(r.resolved_at.as_deref(), Some("2026-01-01T00:00:00Z"));
    assert!(r.comment.is_none() && r.thread.is_none());
    let r = resolve_request().unwrap();
    assert_eq!(r.status, Some(AnnotationStatus::Resolved));
    assert_eq!(r.resolved_by.as_deref(), Some("agent"));
    let at = r.resolved_at.unwrap();
    assert!(at.ends_with("+00:00"), "{at}");
    assert!(chrono::DateTime::parse_from_rfc3339(&at).is_ok());
    let d = dismiss_request().unwrap();
    assert_eq!(d.status, Some(AnnotationStatus::Dismissed));
    assert!(d.resolved_at.unwrap().ends_with("+00:00"));
}

#[test]
fn json_get_and_clone() {
    let v = Json::Object(vec![member("a", Json::Bool(true)), member("a", Json::Null)]);
    assert!(matches!(v.get("a"), Some(Json::Bool(true))));
    assert!(v.get("b").is_none());
    assert!(Json::Null.get("a").is_none());
    let c = v.clone();
    assert!(matches!(c, Json::Object(ref m) if m.len() == 2 && m[0].key == "a"));
}
