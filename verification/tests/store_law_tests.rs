use base64::Engine;
use instruckt::error::Error;
use instruckt::json::{Json, JsonMember};
use instruckt::store::Store;
use instruckt::types::{Annotation, AnnotationStatus, BoundingBox, CreateAnnotation, UpdateAnnotation};

fn input(screenshot: Option<&str>) -> CreateAnnotation {
    CreateAnnotation {
        url: "http://localhost:1420/page".into(),
        x: 1.5f64.to_bits(),
        y: (-2.0f64).to_bits(),
        comment: "Too much padding".into(),
        element: "div.card".into(),
        element_path: "html > body > div.card".into(),
        css_classes: None,
        nearby_text: None,
        selected_text: Some("Card".into()),
        bounding_box: Some(BoundingBox {
            x: 0.0f64.to_bits(),
            y: 1.0f64.to_bits(),
            width: 10.0f64.to_bits(),
            height: 20.0f64.to_bits(),
        }),
        screenshot: screenshot.map(String::from),
        intent: "change".into(),
        severity: "suggestion".into(),
        framework: Some(Json::Object(vec![JsonMember {
            key: "source_file".into(),
            value: Json::String("src/Card.tsx".into()),
        }])),
    }
}

fn ids(annotations: &[Annotation]) -> Vec<String> {
    annotations.iter().map(|a| a.id.clone()).collect()
}

#[test]
fn create_with_records_every_field() {
    let store = Store::new(b"/data".to_vec());
    let mut list = Vec::new();
    let (a, file) = store
        .create_annotation_with(&mut list, input(Some("https://host/shot.png")), "id1".into(), "T0".into())
        .unwrap();
    assert!(file.is_none());
    assert_eq!(a.id, "id1");
    assert_eq!(a.url, "http://localhost:1420/page");
    assert_eq!(f64::from_bits(a.x), 1.5);
    assert_eq!(f64::from_bits(a.y), -2.0);
    assert_eq!(a.selected_text.as_deref(), Some("Card"));
    assert_eq!(f64::from_bits(a.bounding_box.unwrap().height), 20.0);
    assert_eq!(a.screenshot.as_deref(), Some("https://host/shot.png"));
    assert_eq!(a.status, AnnotationStatus::Pending);
    assert_eq!(a.created_at, "T0");
    assert_eq!(a.updated_at, "T0");
    assert!(matches!(&a.framework, Some(Json::Object(m)) if m.len() == 1));
    assert_eq!(list.len(), 1);
    assert_eq!(list[0].id, "id1");
}

#[test]
fn create_with_data_url_names_file_after_id() {
    let store = Store::new(b"/data/instruckt".to_vec());
    let mut list = Vec::new();
    let (a, file) = store
        .create_annotation_with(
            &mut list,
            input(Some("data:image/webp;base64,QUJD")),
            "01hx".into(),
            "T0".into(),
        )
        .unwrap();
    let file = file.unwrap();
    assert_eq!(a.screenshot.as_deref(), Some("screenshots/01hx.webp"));
    assert_eq!(file.path, b"/data/instruckt/screenshots/01hx.webp");
    assert_eq!(file.relative_path, "screenshots/01hx.webp");
    assert_eq!(file.bytes, b"ABC".to_vec());
}

#[test]
fn create_with_bad_data_url_changes_nothing() {
    let store = Store::new(b"/data".to_vec());
    let mut list = Vec::new();
    store.create_annotation_with(&mut list, input(None), "a".into(), "T0".into()).unwrap();
    let r = store.create_annotation_with(&mut list, input(Some("data:image/png,QUJD")), "b".into(), "T1".into());
    assert!(matches!(r, Err(Error::Other(_))));
    let r = store.create_annotation_with(&mut list, input(Some("data:image/png;base64,!!")), "c".into(), "T1".into());
    assert!(matches!(r, Err(Error::Base64(_))));
    assert_eq!(ids(&list), vec!["a".to_string()]);
}

#[test]
fn generated_ids_are_lowercase_ulids() {
    let store = Store::new(b"/data".to_vec());
    let mut list = Vec::new();
    let (a, _) = store.create_annotation(&mut list, input(None)).unwrap();
    assert_eq!(a.id.len(), 26);
    assert!(a.id.chars().all(|c| c.is_ascii_digit() || c.is_ascii_lowercase()));
    assert!(a.created_at.contains('T'));
    assert!(a.created_at.ends_with("+00:00"));
    assert_eq!(a.created_at, a.updated_at);
}

#[test]
fn generated_id_carries_creation_millisecond() {
    let store = Store::new(b"/data".to_vec());
    let mut list = Vec::new();
    let (a, _) = store.create_annotation(&mut list, input(None)).unwrap();
    let ulid = ulid::Ulid::from_string(&a.id.to_uppercase()).unwrap();
    let created = chrono::DateTime::parse_from_rfc3339(&a.created_at).unwrap();
    assert_eq!(ulid.timestamp_ms() as i64, created.timestamp_millis());
    let (b, _) = store.create_annotation(&mut list, input(None)).unwrap();
    assert_ne!(a.id, b.id);
}

#[test]
fn screenshot_dir_only_for_parsable_data_urls() {
    let store = Store::new(b"/data".to_vec());
    assert_eq!(
        store.screenshot_dir_for(&input(Some("data:image/png;base64,aGVsbG8="))),
        Some(b"/data/screenshots".to_vec())
    );
    assert_eq!(store.screenshot_dir_for(&input(Some("data:image/png;base64,!!!"))), Some(b"/data/screenshots".to_vec()));
    assert_eq!(store.screenshot_dir_for(&input(Some("data:image/png,aGVsbG8="))), None);
    assert_eq!(store.screenshot_dir_for(&input(Some("screenshots/x.png"))), None);
    assert_eq!(store.screenshot_dir_for(&input(None)), None);
}

#[test]
fn screenshot_round_trip_through_store() {
    let store = Store::new(b"/data".to_vec());
    let mut list = Vec::new();
    let payload = base64::engine::general_purpose::STANDARD.encode([0u8, 1, 2, 250, 251, 255]);
    let url = format!("data:image/webp;base64,{payload}");
    let (a, file) = store.create_annotation(&mut list, input(Some(&url))).unwrap();
    let file = file.unwrap();
    let rel = store.read_screenshot(list.clone(), &a.id).unwrap();
    assert_eq!(instruckt::paths::join_os(store.data_dir(), &rel), file.path);
    let data = instruckt::screenshot::screenshot_data(store.data_dir(), &rel, Some(file.bytes)).unwrap();
    assert_eq!(data.base64, payload);
    assert_eq!(data.mime_type, "image/webp");
}

#[test]
fn created_annotation_is_found_and_pending() {
    let store = Store::new(b"/data".to_vec());
    let mut list = Vec::new();
    store.create_annotation_with(&mut list, input(None), "a".into(), "T0".into()).unwrap();
    let before_pending = store.get_pending(list.clone()).len();
    let (b, _) = store.create_annotation_with(&mut list, input(None), "b".into(), "T1".into()).unwrap();
    let found = store.get_annotation(list.clone(), "b").unwrap();
    assert_eq!(found.id, b.id);
    assert_eq!(found.created_at, "T1");
    let pending = store.get_pending(list);
    assert_eq!(pending.len(), before_pending + 1);
    assert_eq!(pending.last().unwrap().id, "b");
}

#[test]
fn delete_undoes_create() {
    let store = Store::new(b"/data".to_vec());
    let mut list = Vec::new();
    store.create_annotation_with(&mut list, input(None), "a".into(), "T0".into()).unwrap();
    let before = ids(&list);
    let (_, file) = store
        .create_annotation_with(&mut list, input(Some("data:image/png;base64,QUJD")), "b".into(), "T1".into())
        .unwrap();
    let removed = store.delete_annotation(&mut list, "b").unwrap();
    assert_eq!(ids(&list), before);
    assert_eq!(removed, Some(file.unwrap().path));
}

#[test]
fn delete_reports_recorded_screenshot_and_not_found() {
    let store = Store::new(b"/data/".to_vec());
    let mut list = Vec::new();
    store.create_annotation_with(&mut list, input(Some("shots/x.png")), "a".into(), "T0".into()).unwrap();
    store.create_annotation_with(&mut list, input(None), "b".into(), "T0".into()).unwrap();
    assert_eq!(store.delete_annotation(&mut list, "b").unwrap(), None);
    assert_eq!(store.delete_annotation(&mut list, "a").unwrap(), Some(b"/data/shots/x.png".to_vec()));
    match store.delete_annotation(&mut list, "a") {
        Err(Error::NotFound(m)) => assert_eq!(m, "a"),
        other => panic!("unexpected {other:?}"),
    }
}

#[test]
fn update_at_applies_only_given_fields_to_first_match() {
    let store = Store::new(b"/data".to_vec());
    let mut list = Vec::new();
    store.create_annotation_with(&mut list, input(None), "a".into(), "T0".into()).unwrap();
    store.create_annotation_with(&mut list, input(None), "b".into(), "T0".into()).unwrap();
    let (u, removed) = store
        .update_annotation_at(
            &mut list,
            "b",
            UpdateAnnotation { comment: Some("New".into()), ..UpdateAnnotation::default() },
            "T9".into(),
        )
        .unwrap();
    assert!(removed.is_none());
    assert_eq!(u.comment, "New");
    assert_eq!(u.status, AnnotationStatus::Pending);
    assert_eq!(u.updated_at, "T9");
    assert_eq!(u.created_at, "T0");
    assert_eq!(list[1].comment, "New");
    assert_eq!(list[0].comment, "Too much padding");
    assert_eq!(list[0].updated_at, "T0");
}

#[test]
fn empty_update_changes_only_updated_at() {
    let store = Store::new(b"/data".to_vec());
    let mut list = Vec::new();
    let (a, _) = store.create_annotation_with(&mut list, input(Some("data:image/png;base64,QUJD")), "a".into(), "T0".into()).unwrap();
    let (u, removed) = store.update_annotation_at(&mut list, "a", UpdateAnnotation::default(), "T5".into()).unwrap();
    assert!(removed.is_none());
    assert_eq!(u.screenshot, a.screenshot);
    assert_eq!(u.comment, a.comment);
    assert_eq!(u.status, a.status);
    assert_eq!(u.updated_at, "T5");
}

#[test]
fn dismissing_drops_screenshot_and_leaves_pending() {
    let store = Store::new(b"/data".to_vec());
    let mut list = Vec::new();
    store.create_annotation_with(&mut list, input(None), "a".into(), "T0".into()).unwrap();
    store.create_annotation_with(&mut list, input(Some("data:image/svg+xml;base64,QUJD")), "b".into(), "T0".into()).unwrap();
    store.create_annotation_with(&mut list, input(None), "c".into(), "T0".into()).unwrap();
    let (u, removed) = store
        .update_annotation_at(
            &mut list,
            "b",
            UpdateAnnotation { status: Some(AnnotationStatus::Dismissed), ..UpdateAnnotation::default() },
            "T1".into(),
        )
        .unwrap();
    assert_eq!(removed, Some(b"/data/screenshots/b.svg".to_vec()));
    assert!(u.screenshot.is_none());
    assert_eq!(u.status, AnnotationStatus::Dismissed);
    assert!(u.status.is_closed());
    let pending = store.get_pending(list.clone());
    assert_eq!(ids(&pending), vec!["a".to_string(), "c".to_string()]);
    // Looking the id up again finds the updated annotation
    let again = store.get_annotation(list, "b").unwrap();
    assert_eq!(again.status, AnnotationStatus::Dismissed);
    assert_eq!(again.updated_at, "T1");
}

#[test]
fn first_match_wins_for_duplicate_ids() {
    let store = Store::new(b"/data".to_vec());
    let mut list = Vec::new();
    store.create_annotation_with(&mut list, input(None), "dup".into(), "T0".into()).unwrap();
    store.create_annotation_with(&mut list, input(None), "dup".into(), "T1".into()).unwrap();
    assert_eq!(store.get_annotation(list.clone(), "dup").unwrap().created_at, "T0");
    store.delete_annotation(&mut list, "dup").unwrap();
    assert_eq!(list.len(), 1);
    assert_eq!(list[0].created_at, "T1");
}

#[test]
fn read_screenshot_finds_recorded_path() {
    let store = Store::new(b"/data".to_vec());
    let mut list = Vec::new();
    store.create_annotation_with(&mut list, input(Some("data:image/png;base64,QUJD")), "a".into(), "T0".into()).unwrap();
    store.create_annotation_with(&mut list, input(None), "b".into(), "T0".into()).unwrap();
    assert_eq!(store.read_screenshot(list.clone(), "a").unwrap(), "screenshots/a.png");
    match store.read_screenshot(list.clone(), "b") {
        Err(Error::NotFound(m)) => assert_eq!(m, "No screenshot for b"),
        other => panic!("unexpected {other:?}"),
    }
    match store.read_screenshot(list, "zzz") {
        Err(Error::NotFound(m)) => assert_eq!(m, "zzz"),
        other => panic!("unexpected {other:?}"),
    }
}

#[test]
fn store_paths() {
    let store = Store::new(b"/home/u/.local/share/instruckt".to_vec());
    assert_eq!(store.annotations_path(), b"/home/u/.local/share/instruckt/annotations.json");
    assert_eq!(store.lock_path(), b"/home/u/.local/share/instruckt/annotations.lock");
    assert_eq!(store.screenshots_dir(), b"/home/u/.local/share/instruckt/screenshots");
    assert_eq!(store.data_dir(), b"/home/u/.local/share/instruckt");
}

#[test]
fn data_dir_under_os_dir() {
    assert_eq!(
        Store::data_dir_under(Some(b"/home/u/.local/share".to_vec())).unwrap(),
        b"/home/u/.local/share/instruckt"
    );
    match Store::data_dir_under(None) {
        Err(Error::Other(m)) => assert_eq!(m, "Could not determine OS data directory"),
        other => panic!("unexpected {other:?}"),
    }
    // A directory whose path is not UTF-8 is joined like any other.
    assert_eq!(
        Store::data_dir_under(Some(b"/home/\xff\xfe".to_vec())).unwrap(),
        b"/home/\xff\xfe/instruckt"
    );
    let expected = dirs::data_dir().map(|d| d.join("instruckt").into_os_string().into_encoded_bytes());
    match Store::default_data_dir() {
        Ok(dir) => assert_eq!(Some(dir), expected),
        Err(Error::Other(m)) => {
            assert_eq!(m, "Could not determine OS data directory");
            assert!(expected.is_none());
        }
        Err(other) => panic!("unexpected {other:?}"),
    }
}

#[test]
fn store_under_non_utf8_directory() {
    let store = Store::new(b"/d\xff".to_vec());
    assert_eq!(store.annotations_path(), b"/d\xff/annotations.json");
    let mut list = Vec::new();
    let (a, file) = store.create_annotation(&mut list, input(Some("data:image/png;base64,aGVsbG8="))).unwrap();
    let file = file.unwrap();
    let mut expected = b"/d\xff/screenshots/".to_vec();
    expected.extend_from_slice(a.id.as_bytes());
    expected.extend_from_slice(b".png");
    assert_eq!(file.path, expected);
    assert_eq!(file.bytes, b"hello");
    let removed = store.delete_annotation(&mut list, &a.id).unwrap();
    assert_eq!(removed, Some(expected));
}

#[test]
fn status_text_and_closed() {
    assert_eq!(AnnotationStatus::Pending.as_str(), "pending");
    assert_eq!(AnnotationStatus::Resolved.as_str(), "resolved");
    assert_eq!(AnnotationStatus::Dismissed.as_str(), "dismissed");
    assert!(!AnnotationStatus::Pending.is_closed());
    assert!(AnnotationStatus::Resolved.is_closed());
    assert!(AnnotationStatus::Dismissed.is_closed());
}
