use base64::Engine;
use instruckt::error::Error;
use instruckt::paths::join_os;
use instruckt::store::Store;
use instruckt::types::{Annotation, AnnotationStatus, CreateAnnotation, ThreadMessage, UpdateAnnotation};
use tempfile::TempDir;

fn make_store() -> (TempDir, Store) {
    let dir = TempDir::new().unwrap();
    let store = Store::new(dir.path().to_string_lossy().into_owned().into_bytes());
    (dir, store)
}

fn sample_create_data() -> CreateAnnotation {
    CreateAnnotation {
        url: "http://localhost:1420".into(),
        x: 100.0f64.to_bits(),
        y: 200.0f64.to_bits(),
        comment: "Fix this button".into(),
        element: "button.submit".into(),
        element_path: "html > body > main > form > button".into(),
        css_classes: Some("btn btn-primary".into()),
        nearby_text: Some("Submit form".into()),
        selected_text: None,
        bounding_box: None,
        screenshot: None,
        intent: "fix".into(),
        severity: "important".into(),
        framework: None,
    }
}

fn create(store: &Store, annotations: &mut Vec<Annotation>, data: CreateAnnotation) -> Annotation {
    store.create_annotation(annotations, data).unwrap().0
}

#[test]
fn test_create_annotation() {
    let (_dir, store) = make_store();
    let mut annotations = Vec::new();
    let data = sample_create_data();

    let annotation = create(&store, &mut annotations, data);
    assert!(!annotation.id.is_empty());
    assert_eq!(annotation.status, AnnotationStatus::Pending);
    assert_eq!(annotation.comment, "Fix this button");
    assert_eq!(annotation.intent, "fix");
    assert_eq!(annotation.severity, "important");
    assert!(annotation.thread.is_empty());
    assert!(annotation.resolved_by.is_none());
    assert!(annotation.resolved_at.is_none());
}

#[test]
fn test_create_persists_to_disk() {
    let (_dir, store) = make_store();
    let mut annotations = Vec::new();
    let data = sample_create_data();

    let created = create(&store, &mut annotations, data);
    let all = annotations;
    assert_eq!(all.len(), 1);
    assert_eq!(all[0].id, created.id);
}

#[test]
fn test_create_multiple_annotations() {
    let (_dir, store) = make_store();
    let mut annotations = Vec::new();

    create(&store, &mut annotations, sample_create_data());
    create(&store, &mut annotations, sample_create_data());
    create(&store, &mut annotations, sample_create_data());

    let all = annotations;
    assert_eq!(all.len(), 3);

    // Each should have a unique ULID
    let ids: std::collections::HashSet<_> = all.iter().map(|a| &a.id).collect();
    assert_eq!(ids.len(), 3);
}

#[test]
fn test_get_annotation_by_id() {
    let (_dir, store) = make_store();
    let mut annotations = Vec::new();
    let created = create(&store, &mut annotations, sample_create_data());

    let found = store.get_annotation(annotations, &created.id);
    assert!(found.is_some());
    assert_eq!(found.unwrap().id, created.id);
}

#[test]
fn test_get_annotation_not_found() {
    let (_dir, store) = make_store();
    let found = store.get_annotation(Vec::new(), "nonexistent");
    assert!(found.is_none());
}

#[test]
fn test_update_annotation_comment() {
    let (_dir, store) = make_store();
    let mut annotations = Vec::new();
    let created = create(&store, &mut annotations, sample_create_data());

    let (updated, _) = store
        .update_annotation(
            &mut annotations,
            &created.id,
            UpdateAnnotation {
                comment: Some("Updated comment".into()),
                status: None,
                resolved_by: None,
                resolved_at: None,
                thread: None,
            },
        )
        .unwrap();

    assert_eq!(updated.comment, "Updated comment");
    assert_eq!(updated.status, AnnotationStatus::Pending); // unchanged
    assert_ne!(updated.updated_at, created.updated_at);
}

#[test]
fn test_update_annotation_resolve() {
    let (_dir, store) = make_store();
    let mut annotations = Vec::new();
    let created = create(&store, &mut annotations, sample_create_data());

    let (updated, _) = store
        .update_annotation(
            &mut annotations,
            &created.id,
            UpdateAnnotation {
                comment: None,
                status: Some(AnnotationStatus::Resolved),
                resolved_by: Some("agent".into()),
                resolved_at: Some("2026-03-16T00:00:00Z".into()),
                thread: None,
            },
        )
        .unwrap();

    assert_eq!(updated.status, AnnotationStatus::Resolved);
    assert_eq!(updated.resolved_by.as_deref(), Some("agent"));
    assert_eq!(updated.resolved_at.as_deref(), Some("2026-03-16T00:00:00Z"));
}

#[test]
fn test_update_annotation_not_found() {
    let (_dir, store) = make_store();
    let mut annotations = Vec::new();
    let result = store.update_annotation(
        &mut annotations,
        "nonexistent",
        UpdateAnnotation {
            comment: Some("test".into()),
            status: None,
            resolved_by: None,
            resolved_at: None,
            thread: None,
        },
    );
    assert!(result.is_err());
}

#[test]
fn test_get_pending() {
    let (_dir, store) = make_store();
    let mut annotations = Vec::new();

    let a1 = create(&store, &mut annotations, sample_create_data());
    let _a2 = create(&store, &mut annotations, sample_create_data());

    // Resolve one
    store
        .update_annotation(
            &mut annotations,
            &a1.id,
            UpdateAnnotation {
                comment: None,
                status: Some(AnnotationStatus::Resolved),
                resolved_by: Some("human".into()),
                resolved_at: None,
                thread: None,
            },
        )
        .unwrap();

    let pending = store.get_pending(annotations);
    assert_eq!(pending.len(), 1);
    assert_eq!(pending[0].status, AnnotationStatus::Pending);
}

#[test]
fn test_update_thread() {
    let (_dir, store) = make_store();
    let mut annotations = Vec::new();
    let created = create(&store, &mut annotations, sample_create_data());

    let thread = vec![
        ThreadMessage { role: "user".into(), text: "This needs fixing".into() },
        ThreadMessage { role: "agent".into(), text: "I'll take a look".into() },
    ];

    let (updated, _) = store
        .update_annotation(
            &mut annotations,
            &created.id,
            UpdateAnnotation {
                comment: None,
                status: None,
                resolved_by: None,
                resolved_at: None,
                thread: Some(thread.clone()),
            },
        )
        .unwrap();

    assert_eq!(updated.thread.len(), 2);
}

#[test]
fn test_delete_annotation() {
    let (_dir, store) = make_store();
    let mut annotations = Vec::new();
    let created = create(&store, &mut annotations, sample_create_data());

    store.delete_annotation(&mut annotations, &created.id).unwrap();

    let all = annotations;
    assert!(all.is_empty());
}

#[test]
fn test_delete_annotation_with_screenshot() {
    let (dir, store) = make_store();
    let mut annotations = Vec::new();
    let b64 = base64::engine::general_purpose::STANDARD.encode(b"fake png data");
    let data_url = format!("data:image/png;base64,{b64}");

    let mut data = sample_create_data();
    data.screenshot = Some(data_url);

    let (annotation, file) = store.create_annotation(&mut annotations, data).unwrap();
    let screenshot_rel = annotation.screenshot.as_ref().unwrap();
    let screenshot_abs = join_os(dir.path().to_string_lossy().as_bytes(), screenshot_rel);
    // The file that creation writes is the one the annotation records
    assert_eq!(file.unwrap().path, screenshot_abs);

    let removed = store.delete_annotation(&mut annotations, &annotation.id).unwrap();

    // Deleting removes that same file
    assert_eq!(removed, Some(screenshot_abs));
    let all = annotations;
    assert!(all.is_empty());
}

#[test]
fn test_delete_annotation_not_found() {
    let (_dir, store) = make_store();
    let mut annotations = Vec::new();
    let result = store.delete_annotation(&mut annotations, "nonexistent");
    assert!(result.is_err());
}

#[test]
fn test_delete_preserves_other_annotations() {
    let (_dir, store) = make_store();
    let mut annotations = Vec::new();
    let a1 = create(&store, &mut annotations, sample_create_data());
    let a2 = create(&store, &mut annotations, sample_create_data());
    let a3 = create(&store, &mut annotations, sample_create_data());

    store.delete_annotation(&mut annotations, &a2.id).unwrap();

    let all = annotations;
    assert_eq!(all.len(), 2);
    assert_eq!(all[0].id, a1.id);
    assert_eq!(all[1].id, a3.id);
}

#[test]
fn test_create_with_screenshot_data_url() {
    let (_dir, store) = make_store();
    let mut annotations = Vec::new();
    let b64 = base64::engine::general_purpose::STANDARD.encode(b"fake png data");
    let data_url = format!("data:image/png;base64,{b64}");

    let mut data = sample_create_data();
    data.screenshot = Some(data_url);

    let annotation = create(&store, &mut annotations, data);
    assert!(annotation.screenshot.is_some());
    let screenshot_path = annotation.screenshot.as_ref().unwrap();
    assert!(screenshot_path.starts_with("screenshots/"));
    assert!(screenshot_path.ends_with(".png"));
}

#[test]
fn test_resolve_deletes_screenshot() {
    let (dir, store) = make_store();
    let mut annotations = Vec::new();
    let b64 = base64::engine::general_purpose::STANDARD.encode(b"fake png data");
    let data_url = format!("data:image/png;base64,{b64}");

    let mut data = sample_create_data();
    data.screenshot = Some(data_url);

    let (annotation, file) = store.create_annotation(&mut annotations, data).unwrap();
    let screenshot_rel = annotation.screenshot.as_ref().unwrap();
    let screenshot_abs = join_os(dir.path().to_string_lossy().as_bytes(), screenshot_rel);
    assert_eq!(file.unwrap().path, screenshot_abs);

    // Resolve — should delete screenshot
    let (_, removed) = store
        .update_annotation(
            &mut annotations,
            &annotation.id,
            UpdateAnnotation {
                comment: None,
                status: Some(AnnotationStatus::Resolved),
                resolved_by: Some("agent".into()),
                resolved_at: None,
                thread: None,
            },
        )
        .unwrap();

    assert_eq!(removed, Some(screenshot_abs));

    // Annotation should have screenshot = None
    let resolved = store.get_annotation(annotations, &annotation.id).unwrap();
    assert!(resolved.screenshot.is_none());
}
