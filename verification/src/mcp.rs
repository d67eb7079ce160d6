//! What the agent tools take and give: their parameters, and the views of
//! annotations that they answer with.
use vstd::prelude::*;
use vstd::string::*;
use crate::clock::{clock_failure_message, current_timestamp, is_time_text};
use crate::error::Error;
use crate::json::{json_as_str, json_as_u64, json_get, Json, JsonValue};
use crate::types::{
    opt_text, Annotation, AnnotationStatus, AnnotationView, UpdateAnnotation, RESOLVED_BY_AGENT,
};

verus! {

/// Shared parameters for tools that operate on a single annotation by ID.
#[derive(Debug)]
pub struct AnnotationIdParam {
    /// The annotation ID to operate on.
    pub annotation_id: String,
}

/// Parameters for the `get_project_structure` tool.
#[derive(Debug)]
pub struct GetProjectStructureParams {
    /// Root directory to scan. Defaults to the current working directory.
    pub root_dir: Option<String>,
}

/// A pending annotation as the agent sees it: without the path of its
/// screenshot, but with whether it has one.
#[derive(Debug)]
pub struct PendingEntry {
    pub annotation: Annotation,
    pub has_screenshot: bool,
}

/// The annotation `a` with its screenshot path taken out.
pub open spec fn without_screenshot(a: AnnotationView) -> AnnotationView {
    AnnotationView { screenshot: None, ..a }
}

/// The pending annotations as the agent sees them, in the same order.
pub fn pending_entries(pending: Vec<Annotation>) -> (entries: Vec<PendingEntry>)
    ensures
        entries@.len() == pending@.len(),
        forall|i: int|
            0 <= i < pending@.len() ==> {
                &&& (#[trigger] entries@[i]).annotation@ == without_screenshot(pending@[i]@)
                &&& entries@[i].has_screenshot == (pending@[i].screenshot is Some)
            },
{
    let ghost all = pending@;
    let mut entries: Vec<PendingEntry> = Vec::new();
    for a in it: pending.into_iter()
        invariant
            it.seq() == all,
            entries@.len() == it.index(),
            forall|i: int|
                0 <= i < it.index() ==> {
                    &&& (#[trigger] entries@[i]).annotation@ == without_screenshot(all[i]@)
                    &&& entries@[i].has_screenshot == (all[i].screenshot is Some)
                },
    {
        let mut a = a;
        let has_screenshot = a.screenshot.is_some();
        a.screenshot = None;
        entries.push(PendingEntry { annotation: a, has_screenshot });
    }
    entries
}

/// Where in the source an annotated element comes from.
#[derive(Debug)]
pub struct SourceLocation {
    pub annotation_id: String,
    pub element: String,
    pub element_path: String,
    pub source_file: Option<String>,
    pub source_line: Option<u64>,
    pub url: String,
}

/// The member `key` of an annotation's framework context, if it has one.
pub open spec fn context_member(framework: Option<JsonValue>, key: Seq<char>) -> Option<JsonValue> {
    match framework {
        Some(fw) => json_get(fw, key),
        None => None,
    }
}

/// The source location of `annotation`: its id, element, element path and
/// url, with the `source_file` text and the `source_line` number of its
/// framework context, where those are present and of that kind.
pub fn source_location(annotation: Annotation) -> (loc: SourceLocation)
    ensures
        loc.annotation_id@ == annotation.id@,
        loc.element@ == annotation.element@,
        loc.element_path@ == annotation.element_path@,
        loc.url@ == annotation.url@,
        opt_text(loc.source_file) == json_as_str(
            context_member(annotation@.framework, "source_file"@),
        ),
        loc.source_line == json_as_u64(context_member(annotation@.framework, "source_line"@)),
{
    let mut source_file: Option<String> = None;
    let mut source_line: Option<u64> = None;
    match &annotation.framework {
        Some(fw) => {
            source_file = match fw.get("source_file") {
                Some(Json::String(s)) => Some(s.clone()),
                _ => None,
            };
            source_line = match fw.get("source_line") {
                Some(Json::Number(crate::json::JsonNumber::PosInt(n))) => Some(*n),
                _ => None,
            };
        },
        None => {},
    }
    SourceLocation {
        annotation_id: annotation.id,
        element: annotation.element,
        element_path: annotation.element_path,
        source_file,
        source_line,
        url: annotation.url,
    }
}

/// The component hierarchy of an annotated element.
#[derive(Debug)]
pub struct ComponentStack {
    pub annotation_id: String,
    pub element_path: String,
    pub component_stack: Option<Json>,
}

/// The component hierarchy of `annotation`: its id and element path, with the
/// `component_stack` member of its framework context, where present.
pub fn component_stack(annotation: Annotation) -> (stack: ComponentStack)
    ensures
        stack.annotation_id@ == annotation.id@,
        stack.element_path@ == annotation.element_path@,
        match context_member(annotation@.framework, "component_stack"@) {
            Some(v) => stack.component_stack matches Some(c) && c@ == v,
            None => stack.component_stack is None,
        },
{
    let component_stack = match &annotation.framework {
        Some(fw) => match fw.get("component_stack") {
            Some(v) => Some(v.clone()),
            None => None,
        },
        None => None,
    };
    ComponentStack {
        annotation_id: annotation.id,
        element_path: annotation.element_path,
        component_stack,
    }
}

/// The update that closes an annotation with status `status` on behalf of
/// the agent at time `now`.
pub fn closing_request(status: AnnotationStatus, now: String) -> (request: UpdateAnnotation)
    ensures
        request.comment is None,
        request.status == Some(status),
        opt_text(request.resolved_by) == Some(RESOLVED_BY_AGENT@),
        opt_text(request.resolved_at) == Some(now@),
        request.thread is None,
{
    UpdateAnnotation {
        comment: None,
        status: Some(status),
        resolved_by: Some(String::from_str(RESOLVED_BY_AGENT)),
        resolved_at: Some(now),
        thread: None,
    }
}

/// The update that resolves an annotation on behalf of the agent now, or
/// the clock error where the current time cannot be read.
pub fn resolve_request() -> (request: Result<UpdateAnnotation, Error>)
    ensures
        match request {
            Ok(r) => {
                &&& r.comment is None
                &&& r.status == Some(AnnotationStatus::Resolved)
                &&& opt_text(r.resolved_by) == Some(RESOLVED_BY_AGENT@)
                &&& r.resolved_at matches Some(t) && is_time_text(t@)
                &&& r.thread is None
            },
            Err(e) => e matches Error::Other(m) && m@ == clock_failure_message(),
        },
{
    match current_timestamp() {
        Ok(now) => Ok(closing_request(AnnotationStatus::Resolved, now)),
        Err(e) => Err(e),
    }
}

/// The update that dismisses an annotation on behalf of the agent now, or
/// the clock error where the current time cannot be read.
pub fn dismiss_request() -> (request: Result<UpdateAnnotation, Error>)
    ensures
        match request {
            Ok(r) => {
                &&& r.comment is None
                &&& r.status == Some(AnnotationStatus::Dismissed)
                &&& opt_text(r.resolved_by) == Some(RESOLVED_BY_AGENT@)
                &&& r.resolved_at matches Some(t) && is_time_text(t@)
                &&& r.thread is None
            },
            Err(e) => e matches Error::Other(m) && m@ == clock_failure_message(),
        },
{
    match current_timestamp() {
        Ok(now) => Ok(closing_request(AnnotationStatus::Dismissed, now)),
        Err(e) => Err(e),
    }
}

} // verus!
