//! The annotation records of the store, the requests that create and update
//! them, and their mathematical views.
use vstd::prelude::*;
use crate::json::{Json, JsonValue};

verus! {

/// The lifecycle status of an annotation.
#[derive(Debug, Clone, Copy, PartialEq, Eq, Structural)]
pub enum AnnotationStatus {
    Pending,
    Resolved,
    Dismissed,
}

/// The text that names a status (the form it takes in JSON).
pub open spec fn status_text(s: AnnotationStatus) -> Seq<char> {
    match s {
        AnnotationStatus::Pending => "pending"@,
        AnnotationStatus::Resolved => "resolved"@,
        AnnotationStatus::Dismissed => "dismissed"@,
    }
}

impl AnnotationStatus {
    /// Whether the annotation has been closed (resolved or dismissed).
    pub fn is_closed(&self) -> (closed: bool)
        ensures
            closed == (*self is Resolved || *self is Dismissed),
    {
        match self {
            AnnotationStatus::Pending => false,
            AnnotationStatus::Resolved => true,
            AnnotationStatus::Dismissed => true,
        }
    }

    /// The text that names this status: `pending`, `resolved` or `dismissed`.
    pub fn as_str(&self) -> (text: &'static str)
        ensures
            text@ == status_text(*self),
    {
        match self {
            AnnotationStatus::Pending => "pending",
            AnnotationStatus::Resolved => "resolved",
            AnnotationStatus::Dismissed => "dismissed",
        }
    }
}

/// A single message in the annotation's conversation thread.
#[derive(Debug)]
pub struct ThreadMessage {
    pub role: String,
    pub text: String,
}

impl Clone for ThreadMessage {
    fn clone(&self) -> (out: Self)
        ensures
            out == *self,
    {
        ThreadMessage { role: self.role.clone(), text: self.text.clone() }
    }
}

/// Who resolves an annotation when an AI agent does.
pub const RESOLVED_BY_AGENT: &'static str = "agent";

/// The bounding rectangle of an annotated UI element. Each coordinate is the
/// IEEE-754 bit pattern of a 64-bit float (as `f64::to_bits` gives it).
#[derive(Debug, Clone, Copy, PartialEq, Eq, Structural)]
pub struct BoundingBox {
    pub x: u64,
    pub y: u64,
    pub width: u64,
    pub height: u64,
}

/// A UI annotation capturing user feedback on a specific element. `x` and
/// `y` are IEEE-754 bit patterns of 64-bit floats.
#[derive(Debug)]
pub struct Annotation {
    pub id: String,
    pub url: String,
    pub x: u64,
    pub y: u64,
    pub comment: String,
    pub element: String,
    pub element_path: String,
    pub css_classes: Option<String>,
    pub nearby_text: Option<String>,
    pub selected_text: Option<String>,
    pub bounding_box: Option<BoundingBox>,
    pub screenshot: Option<String>,
    pub intent: String,
    pub severity: String,
    pub status: AnnotationStatus,
    pub framework: Option<Json>,
    pub thread: Vec<ThreadMessage>,
    pub resolved_by: Option<String>,
    pub resolved_at: Option<String>,
    pub created_at: String,
    pub updated_at: String,
}

/// The mathematical value of an annotation.
pub struct AnnotationView {
    pub id: Seq<char>,
    pub url: Seq<char>,
    pub x: u64,
    pub y: u64,
    pub comment: Seq<char>,
    pub element: Seq<char>,
    pub element_path: Seq<char>,
    pub css_classes: Option<Seq<char>>,
    pub nearby_text: Option<Seq<char>>,
    pub selected_text: Option<Seq<char>>,
    pub bounding_box: Option<BoundingBox>,
    pub screenshot: Option<Seq<char>>,
    pub intent: Seq<char>,
    pub severity: Seq<char>,
    pub status: AnnotationStatus,
    pub framework: Option<JsonValue>,
    pub thread: Seq<ThreadMessage>,
    pub resolved_by: Option<Seq<char>>,
    pub resolved_at: Option<Seq<char>>,
    pub created_at: Seq<char>,
    pub updated_at: Seq<char>,
}

/// The characters of an optional string.
pub open spec fn opt_text(s: Option<String>) -> Option<Seq<char>> {
    match s {
        Some(t) => Some(t@),
        None => None,
    }
}

/// The value of an optional JSON value.
pub open spec fn opt_json(v: Option<Json>) -> Option<JsonValue> {
    match v {
        Some(j) => Some(j@),
        None => None,
    }
}

impl View for Annotation {
    type V = AnnotationView;

    open spec fn view(&self) -> AnnotationView {
        AnnotationView {
            id: self.id@,
            url: self.url@,
            x: self.x,
            y: self.y,
            comment: self.comment@,
            element: self.element@,
            element_path: self.element_path@,
            css_classes: opt_text(self.css_classes),
            nearby_text: opt_text(self.nearby_text),
            selected_text: opt_text(self.selected_text),
            bounding_box: self.bounding_box,
            screenshot: opt_text(self.screenshot),
            intent: self.intent@,
            severity: self.severity@,
            status: self.status,
            framework: opt_json(self.framework),
            thread: self.thread@,
            resolved_by: opt_text(self.resolved_by),
            resolved_at: opt_text(self.resolved_at),
            created_at: self.created_at@,
            updated_at: self.updated_at@,
        }
    }
}

/// A copy of an optional string.
fn copy_opt_text(s: &Option<String>) -> (out: Option<String>)
    ensures
        opt_text(out) == opt_text(*s),
{
    match s {
        Some(t) => Some(t.clone()),
        None => None,
    }
}

/// A copy of an optional JSON value.
fn copy_opt_json(v: &Option<Json>) -> (out: Option<Json>)
    ensures
        opt_json(out) == opt_json(*v),
{
    match v {
        Some(j) => Some(j.clone()),
        None => None,
    }
}

/// A copy of a thread.
fn copy_thread(t: &Vec<ThreadMessage>) -> (out: Vec<ThreadMessage>)
    ensures
        out@ == t@,
{
    let mut out: Vec<ThreadMessage> = Vec::new();
    let mut i: usize = 0;
    while i < t.len()
        invariant
            i <= t@.len(),
            out@ == t@.subrange(0, i as int),
        decreases t@.len() - i,
    {
        out.push(t[i].clone());
        i = i + 1;
        assert(out@ =~= t@.subrange(0, i as int));
    }
    assert(t@.subrange(0, i as int) =~= t@);
    out
}

impl Clone for Annotation {
    fn clone(&self) -> (out: Self)
        ensures
            out@ == self@,
    {
        Annotation {
            id: self.id.clone(),
            url: self.url.clone(),
            x: self.x,
            y: self.y,
            comment: self.comment.clone(),
            element: self.element.clone(),
            element_path: self.element_path.clone(),
            css_classes: copy_opt_text(&self.css_classes),
            nearby_text: copy_opt_text(&self.nearby_text),
            selected_text: copy_opt_text(&self.selected_text),
            bounding_box: self.bounding_box,
            screenshot: copy_opt_text(&self.screenshot),
            intent: self.intent.clone(),
            severity: self.severity.clone(),
            status: self.status,
            framework: copy_opt_json(&self.framework),
            thread: copy_thread(&self.thread),
            resolved_by: copy_opt_text(&self.resolved_by),
            resolved_at: copy_opt_text(&self.resolved_at),
            created_at: self.created_at.clone(),
            updated_at: self.updated_at.clone(),
        }
    }
}

/// Data required to create a new annotation. `x` and `y` are IEEE-754 bit
/// patterns of 64-bit floats.
#[derive(Debug)]
pub struct CreateAnnotation {
    pub url: String,
    pub x: u64,
    pub y: u64,
    pub comment: String,
    pub element: String,
    pub element_path: String,
    pub css_classes: Option<String>,
    pub nearby_text: Option<String>,
    pub selected_text: Option<String>,
    pub bounding_box: Option<BoundingBox>,
    pub screenshot: Option<String>,
    pub intent: String,
    pub severity: String,
    pub framework: Option<Json>,
}

impl Clone for CreateAnnotation {
    fn clone(&self) -> (out: Self)
        ensures
            out.url@ == self.url@,
            out.x == self.x,
            out.y == self.y,
            out.comment@ == self.comment@,
            out.element@ == self.element@,
            out.element_path@ == self.element_path@,
            opt_text(out.css_classes) == opt_text(self.css_classes),
            opt_text(out.nearby_text) == opt_text(self.nearby_text),
            opt_text(out.selected_text) == opt_text(self.selected_text),
            out.bounding_box == self.bounding_box,
            opt_text(out.screenshot) == opt_text(self.screenshot),
            out.intent@ == self.intent@,
            out.severity@ == self.severity@,
            opt_json(out.framework) == opt_json(self.framework),
    {
        CreateAnnotation {
            url: self.url.clone(),
            x: self.x,
            y: self.y,
            comment: self.comment.clone(),
            element: self.element.clone(),
            element_path: self.element_path.clone(),
            css_classes: copy_opt_text(&self.css_classes),
            nearby_text: copy_opt_text(&self.nearby_text),
            selected_text: copy_opt_text(&self.selected_text),
            bounding_box: self.bounding_box,
            screenshot: copy_opt_text(&self.screenshot),
            intent: self.intent.clone(),
            severity: self.severity.clone(),
            framework: copy_opt_json(&self.framework),
        }
    }
}

/// Optional fields for updating an existing annotation.
#[derive(Debug)]
pub struct UpdateAnnotation {
    pub comment: Option<String>,
    pub status: Option<AnnotationStatus>,
    pub resolved_by: Option<String>,
    pub resolved_at: Option<String>,
    pub thread: Option<Vec<ThreadMessage>>,
}

/// The messages of an optional thread.
pub open spec fn opt_thread(t: Option<Vec<ThreadMessage>>) -> Option<Seq<ThreadMessage>> {
    match t {
        Some(v) => Some(v@),
        None => None,
    }
}

impl Default for UpdateAnnotation {
    fn default() -> (out: Self)
        ensures
            out.comment is None,
            out.status is None,
            out.resolved_by is None,
            out.resolved_at is None,
            out.thread is None,
    {
        UpdateAnnotation {
            comment: None,
            status: None,
            resolved_by: None,
            resolved_at: None,
            thread: None,
        }
    }
}

impl Clone for UpdateAnnotation {
    fn clone(&self) -> (out: Self)
        ensures
            opt_text(out.comment) == opt_text(self.comment),
            out.status == self.status,
            opt_text(out.resolved_by) == opt_text(self.resolved_by),
            opt_text(out.resolved_at) == opt_text(self.resolved_at),
            opt_thread(out.thread) == opt_thread(self.thread),
    {
        UpdateAnnotation {
            comment: copy_opt_text(&self.comment),
            status: self.status,
            resolved_by: copy_opt_text(&self.resolved_by),
            resolved_at: copy_opt_text(&self.resolved_at),
            thread: match &self.thread {
                Some(t) => Some(copy_thread(t)),
                None => None,
            },
        }
    }
}

} // verus!
