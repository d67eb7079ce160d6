//! The annotation store: where its files live, and what each of its
//! operations does to the list of annotations that the annotations file
//! holds. Reading and writing that file is left to the caller, which hands
//! the list in and writes it back; each operation says which screenshot file
//! it wants written or removed.
use vstd::prelude::*;
use vstd::string::*;
use vstd::arithmetic::power2::pow2;
use crate::bindings::{
    base64_decoding, crockford_digit, is_crockford_char, os_data_dir, push_char, random_u128,
    ulid_from_parts, ulid_text, ulid_to_text, ulid_value,
};
use crate::clock::{
    clock_failure_message, current_timestamp, is_time_text, millis, now_since_epoch,
    time_text_of, timestamp_text,
};
use crate::error::Error;
use crate::paths::{join_os, joined_os};
use crate::screenshot::{
    data_url_parts, parse_data_url, screenshot_file, screenshot_file_name, ScreenshotFile,
};
use crate::text::{chars_of, concat, matches_at, str_eq};
use crate::types::{
    opt_json, opt_text, opt_thread, Annotation, AnnotationStatus, AnnotationView,
    CreateAnnotation, UpdateAnnotation,
};

verus! {

/// JSON file-based annotation store, rooted at a data directory:
/// `annotations.json`, `annotations.lock` and `screenshots/` live in it. The
/// directory is an OS path held by its bytes, which need not be UTF-8.
pub struct Store {
    data_dir: Vec<u8>,
}

impl View for Store {
    type V = Seq<u8>;

    /// The store's data directory.
    closed spec fn view(&self) -> Seq<u8> {
        self.data_dir@
    }
}

/// The ids of `anns`, in order.
pub open spec fn ids(anns: Seq<Annotation>) -> Seq<Seq<char>> {
    anns.map_values(|a: Annotation| a.id@)
}

/// The position of the first annotation in `anns` whose id is `id`.
pub open spec fn position_of(anns: Seq<Annotation>, id: Seq<char>) -> Option<int> {
    ids(anns).index_of_first(id)
}

/// Whether an annotation is still pending.
pub open spec fn is_pending(a: Annotation) -> bool {
    a.status == AnnotationStatus::Pending
}

/// The pending annotations of `anns`, in their order.
pub open spec fn pending_list(anns: Seq<Annotation>) -> Seq<Annotation> {
    anns.filter(|a: Annotation| is_pending(a))
}

/// Whether a status closes an annotation.
pub open spec fn closes(s: Option<AnnotationStatus>) -> bool {
    s matches Some(st) && (st is Resolved || st is Dismissed)
}

/// Whether an optional text is a data URL.
pub open spec fn is_data_url(s: Option<Seq<char>>) -> bool {
    s matches Some(t) && "data:"@.is_prefix_of(t)
}

/// The lowercase form of an ASCII letter; any other character is kept.
pub open spec fn lower_char(c: char) -> char {
    if 'A' <= c <= 'Z' {
        ((c as u32) + 32) as char
    } else {
        c
    }
}

/// `s` with its ASCII letters in lowercase.
pub open spec fn lowercase(s: Seq<char>) -> Seq<char> {
    s.map_values(|c: char| lower_char(c))
}

/// The annotation that creating `input` with id `id` at time `now` records,
/// with `screenshot` as its screenshot.
pub open spec fn created_view(
    input: CreateAnnotation,
    id: Seq<char>,
    now: Seq<char>,
    screenshot: Option<Seq<char>>,
) -> AnnotationView {
    AnnotationView {
        id: id,
        url: input.url@,
        x: input.x,
        y: input.y,
        comment: input.comment@,
        element: input.element@,
        element_path: input.element_path@,
        css_classes: opt_text(input.css_classes),
        nearby_text: opt_text(input.nearby_text),
        selected_text: opt_text(input.selected_text),
        bounding_box: input.bounding_box,
        screenshot: screenshot,
        intent: input.intent@,
        severity: input.severity@,
        status: AnnotationStatus::Pending,
        framework: opt_json(input.framework),
        thread: Seq::empty(),
        resolved_by: None,
        resolved_at: None,
        created_at: now,
        updated_at: now,
    }
}

/// The annotation `old` after applying `input` at time `now`: each field the
/// request carries replaces the old one, a status that closes the annotation
/// drops its screenshot, and `updated_at` becomes `now`.
pub open spec fn updated_view(old: AnnotationView, input: UpdateAnnotation, now: Seq<char>) -> AnnotationView {
    AnnotationView {
        comment: match input.comment {
            Some(c) => c@,
            None => old.comment,
        },
        status: match input.status {
            Some(s) => s,
            None => old.status,
        },
        screenshot: if closes(input.status) {
            None
        } else {
            old.screenshot
        },
        resolved_by: match input.resolved_by {
            Some(r) => Some(r@),
            None => old.resolved_by,
        },
        resolved_at: match input.resolved_at {
            Some(r) => Some(r@),
            None => old.resolved_at,
        },
        thread: match input.thread {
            Some(t) => t@,
            None => old.thread,
        },
        updated_at: now,
        ..old
    }
}

/// `after` is `before` with one more annotation, of value `a`, at its end.
pub open spec fn appended(before: Seq<Annotation>, after: Seq<Annotation>, a: AnnotationView) -> bool {
    &&& after.len() == before.len() + 1
    &&& after.take(before.len() as int) == before
    &&& after.last()@ == a
}

/// What creating an annotation from `input`, with id `id` at time `now`, in
/// the store rooted at `store`, does: `before` is the list handed in,
/// `after` the list left behind, `created` the result. A screenshot given as
/// a data URL becomes the file `screenshots/<id>.<ext>` (handed back for the
/// caller to write) and is recorded by that relative path; any other
/// screenshot text is recorded as it is. A data URL that does not parse, or
/// whose payload is not base64, fails the creation and changes nothing.
pub open spec fn creation(
    store: Seq<u8>,
    before: Seq<Annotation>,
    after: Seq<Annotation>,
    input: CreateAnnotation,
    id: Seq<char>,
    now: Seq<char>,
    created: Result<(Annotation, Option<ScreenshotFile>), Error>,
) -> bool {
    if is_data_url(opt_text(input.screenshot)) {
        match data_url_parts(input.screenshot.unwrap()@) {
            Err(msg) => {
                &&& created matches Err(Error::Other(m)) && m@ == msg
                &&& after == before
            },
            Ok((mime, data)) => match base64_decoding(data) {
                None => {
                    &&& created matches Err(Error::Base64(_))
                    &&& after == before
                },
                Some(bytes) => created matches Ok((a, Some(f))) && {
                    &&& f.path@ == joined_os(joined_os(store, "screenshots"@), screenshot_file_name(id, mime))
                    &&& f.relative_path@ == "screenshots/"@ + screenshot_file_name(id, mime)
                    &&& f.bytes@ == bytes
                    &&& a@ == created_view(input, id, now, Some(f.relative_path@))
                    &&& appended(before, after, a@)
                },
            },
        }
    } else {
        created matches Ok((a, None)) && {
            &&& a@ == created_view(input, id, now, opt_text(input.screenshot))
            &&& appended(before, after, a@)
        }
    }
}

/// What updating the first annotation whose id is `id` with `input` at time
/// `now`, in the store rooted at `store`, does (see `updated_view`): the
/// annotation is updated in place and handed back; where the update closes
/// it and it had a screenshot, the screenshot file is handed back for the
/// caller to remove. Where no annotation has that id, the update fails and
/// changes nothing.
pub open spec fn update_outcome(
    store: Seq<u8>,
    before: Seq<Annotation>,
    after: Seq<Annotation>,
    id: Seq<char>,
    input: UpdateAnnotation,
    now: Seq<char>,
    updated: Result<(Annotation, Option<Vec<u8>>), Error>,
) -> bool {
    match position_of(before, id) {
        None => {
            &&& updated matches Err(Error::NotFound(m)) && m@ == id
            &&& after == before
        },
        Some(i) => updated matches Ok((a, removed)) && {
            &&& after == before.update(i, after[i])
            &&& a@ == updated_view(before[i]@, input, now)
            &&& after[i]@ == a@
            &&& match removed {
                Some(p) => closes(input.status) && (before[i]@.screenshot matches Some(r) && p@
                    == joined_os(store, r)),
                None => !closes(input.status) || before[i]@.screenshot is None,
            }
        },
    }
}

/// What removing the first annotation whose id is `id`, in the store rooted
/// at `store`, does: the annotation leaves the list, the others keep their
/// order, and its screenshot file, if it had one, is handed back for the
/// caller to remove. Where no annotation has that id, the removal fails and
/// changes nothing.
pub open spec fn deletion(
    store: Seq<u8>,
    before: Seq<Annotation>,
    after: Seq<Annotation>,
    id: Seq<char>,
    deleted: Result<Option<Vec<u8>>, Error>,
) -> bool {
    match position_of(before, id) {
        None => {
            &&& deleted matches Err(Error::NotFound(m)) && m@ == id
            &&& after == before
        },
        Some(i) => deleted matches Ok(removed) && {
            &&& after == before.remove(i)
            &&& match removed {
                Some(p) => before[i]@.screenshot matches Some(r) && p@ == joined_os(store, r),
                None => before[i]@.screenshot is None,
            }
        },
    }
}

/// Whether `id` is what `create_annotation` generates: 26 characters, each a
/// digit or a lowercase ASCII letter.
pub open spec fn is_generated_id(id: Seq<char>) -> bool {
    &&& id.len() == 26
    &&& forall|i: int| 0 <= i < id.len() ==> ('0' <= #[trigger] id[i] <= '9') || ('a' <= id[i] <= 'z')
}

/// The id generated at the instant `secs` seconds and `nanos` nanoseconds
/// after the Unix epoch with the random bits `random`: the text of the ULID
/// made of that instant's milliseconds and those bits, in lowercase.
pub open spec fn generated_id(secs: int, nanos: int, random: int) -> Seq<char> {
    lowercase(ulid_text(ulid_value(millis(secs, nanos), random)))
}

/// Every character of a ULID's text is a Crockford base32 digit.
pub proof fn lemma_ulid_text_chars(value: int)
    ensures
        ulid_text(value).len() == 26,
        forall|i: int| 0 <= i < 26 ==> is_crockford_char(#[trigger] ulid_text(value)[i]),
{
    assert forall|i: int| 0 <= i < 26 implies is_crockford_char(#[trigger] ulid_text(value)[i]) by {
        let d = (value / pow2((5 * (25 - i)) as nat) as int) % 32;
        assert(0 <= d < 32);
        lemma_crockford_digit(d);
    }
}

/// The characters `crockford_digit` gives are those of the alphabet.
proof fn lemma_crockford_digit(d: int)
    requires
        0 <= d < 32,
    ensures
        is_crockford_char(crockford_digit(d)),
{
}

pub open spec fn no_data_dir_message() -> Seq<char> {
    "Could not determine OS data directory"@
}

pub open spec fn randomness_failure_message() -> Seq<char> {
    "The operating system's random source failed"@
}

pub open spec fn no_screenshot_message(id: Seq<char>) -> Seq<char> {
    "No screenshot for "@ + id
}

/// What looking up the screenshot of the first annotation of `anns` whose
/// id is `id` gives: the path, relative to the data directory, that it
/// records, and an error where there is no such annotation or it has no
/// screenshot.
pub open spec fn screenshot_lookup(anns: Seq<Annotation>, id: Seq<char>, path: Result<String, Error>) -> bool {
    match position_of(anns, id) {
        None => path matches Err(Error::NotFound(m)) && m@ == id,
        Some(i) => match anns[i]@.screenshot {
            None => path matches Err(Error::NotFound(m)) && m@ == no_screenshot_message(id),
            Some(r) => path matches Ok(p) && p@ == r,
        },
    }
}

/// `position_of` finds the first annotation with the id, and finds none
/// exactly where no annotation has it.
pub proof fn lemma_position_of(anns: Seq<Annotation>, id: Seq<char>)
    ensures
        match position_of(anns, id) {
            Some(i) => {
                &&& 0 <= i < anns.len()
                &&& anns[i].id@ == id
                &&& forall|j: int| 0 <= j < i ==> anns[j].id@ != id
            },
            None => forall|j: int| 0 <= j < anns.len() ==> anns[j].id@ != id,
        },
{
    ids(anns).index_of_first_ensures(id);
    if position_of(anns, id) is None {
        assert forall|j: int| 0 <= j < anns.len() implies anns[j].id@ != id by {
            if anns[j].id@ == id {
                assert(ids(anns)[j] == id);
            }
        }
    } else {
        let i = position_of(anns, id).unwrap();
        assert forall|j: int| 0 <= j < i implies anns[j].id@ != id by {
            assert(ids(anns)[j] != id);
        }
    }
}

/// The position of the first annotation whose id is `id`.
fn find_annotation(annotations: &Vec<Annotation>, id: &str) -> (found: Option<usize>)
    ensures
        position_of(annotations@, id@) == match found {
            Some(i) => Some(i as int),
            None => None::<int>,
        },
        found matches Some(i) ==> i < annotations@.len() && annotations@[i as int].id@ == id@,
{
    let ghost keys = ids(annotations@);
    proof {
        keys.index_of_first_ensures(id@);
    }
    let mut i: usize = 0;
    while i < annotations.len()
        invariant
            i <= annotations@.len(),
            keys == ids(annotations@),
            forall|j: int| 0 <= j < i ==> keys[j] != id@,
            match keys.index_of_first(id@) {
                Some(index) => {
                    &&& keys.contains(id@)
                    &&& 0 <= index < keys.len()
                    &&& keys[index] == id@
                    &&& forall|j: int| 0 <= j < index < keys.len() ==> keys[j] != id@
                },
                None => !keys.contains(id@),
            },
        decreases annotations@.len() - i,
    {
        if str_eq(annotations[i].id.as_str(), id) {
            assert(keys[i as int] == id@);
            return Some(i);
        }
        i = i + 1;
    }
    assert(!keys.contains(id@)) by {
        if keys.contains(id@) {
            let k = choose|k: int| 0 <= k < keys.len() && keys[k] == id@;
        }
    }
    None
}

/// `s` with its ASCII letters in lowercase.
fn to_lowercase(s: &str) -> (out: String)
    ensures
        out@ == lowercase(s@),
{
    let cs = chars_of(s);
    let mut out = String::new();
    let mut i: usize = 0;
    while i < cs.len()
        invariant
            cs@ == s@,
            i <= cs@.len(),
            out@ == lowercase(s@).take(i as int),
        decreases cs@.len() - i,
    {
        let c = cs[i];
        let l = if 'A' <= c && c <= 'Z' {
            ((c as u8) + 32) as char
        } else {
            c
        };
        assert(l == lower_char(c));
        push_char(&mut out, l);
        i = i + 1;
        assert(out@ =~= lowercase(s@).take(i as int));
    }
    assert(lowercase(s@).take(i as int) =~= lowercase(s@));
    out
}

impl Store {
    /// A store rooted at `data_dir`. (Creating the directory is the caller's
    /// part.)
    pub fn new(data_dir: Vec<u8>) -> (store: Store)
        ensures
            store@ == data_dir@,
    {
        Store { data_dir }
    }

    /// The store's data directory.
    pub fn data_dir(&self) -> (dir: &[u8])
        ensures
            dir@ == self@,
    {
        self.data_dir.as_slice()
    }

    /// The store's data directory under the OS data directory `os_dir` (an
    /// OS path held by its bytes): `<os_dir>/instruckt`, and an error where
    /// there is none.
    pub fn data_dir_under(os_dir: Option<Vec<u8>>) -> (dir: Result<Vec<u8>, Error>)
        ensures
            match os_dir {
                Some(d) => dir matches Ok(p) && p@ == joined_os(d@, "instruckt"@),
                None => dir matches Err(Error::Other(m)) && m@ == no_data_dir_message(),
            },
    {
        match os_dir {
            Some(d) => Ok(join_os(d.as_slice(), "instruckt")),
            None => Err(Error::Other(String::from_str("Could not determine OS data directory"))),
        }
    }

    /// Default data directory: `instruckt` under the OS data directory
    /// (`~/.local/share` on Linux, `~/Library/Application Support` on macOS).
    pub fn default_data_dir() -> (dir: Result<Vec<u8>, Error>)
        ensures
            dir matches Err(e) ==> e matches Error::Other(m) && m@ == no_data_dir_message(),
            dir matches Ok(p) ==> exists|d: Seq<u8>| p@ == joined_os(d, "instruckt"@),
    {
        Self::data_dir_under(os_data_dir())
    }

    /// The annotations file.
    pub fn annotations_path(&self) -> (path: Vec<u8>)
        ensures
            path@ == joined_os(self@, "annotations.json"@),
    {
        join_os(self.data_dir.as_slice(), "annotations.json")
    }

    /// The lock file that guards the annotations file across processes.
    pub fn lock_path(&self) -> (path: Vec<u8>)
        ensures
            path@ == joined_os(self@, "annotations.lock"@),
    {
        join_os(self.data_dir.as_slice(), "annotations.lock")
    }

    /// The directory that holds the screenshot files.
    pub fn screenshots_dir(&self) -> (path: Vec<u8>)
        ensures
            path@ == joined_os(self@, "screenshots"@),
    {
        join_os(self.data_dir.as_slice(), "screenshots")
    }

    /// Records a new annotation made from `input`, with id `id` and time
    /// `now`, at the end of `annotations`. A screenshot given as a data URL
    /// is stored as the file `screenshots/<id>.<ext>` (returned for the
    /// caller to write) and recorded by that relative path; any other
    /// screenshot text is recorded as it is. Fails, changing nothing, where
    /// the data URL does not parse or its payload is not base64.
    pub fn create_annotation_with(
        &self,
        annotations: &mut Vec<Annotation>,
        input: CreateAnnotation,
        id: String,
        now: String,
    ) -> (created: Result<(Annotation, Option<ScreenshotFile>), Error>)
        ensures
            creation(self@, old(annotations)@, final(annotations)@, input, id@, now@, created),
    {
        let CreateAnnotation {
            url,
            x,
            y,
            comment,
            element,
            element_path,
            css_classes,
            nearby_text,
            selected_text,
            bounding_box,
            screenshot,
            intent,
            severity,
            framework,
        } = input;
        proof {
            reveal_strlit("data:");
            reveal_strlit("screenshots/");
            reveal_strlit("screenshots");
        }
        let mut file: Option<ScreenshotFile> = None;
        let recorded: Option<String> = match screenshot {
            Some(text) => {
                let cs = chars_of(text.as_str());
                if matches_at(&cs, 0, "data:") {
                    assert("data:"@.is_prefix_of(text@));
                    let dir = self.screenshots_dir();
                    match screenshot_file(dir.as_slice(), id.as_str(), text.as_str()) {
                        Ok(f) => {
                            let rel = f.relative_path.clone();
                            file = Some(f);
                            Some(rel)
                        },
                        Err(e) => {
                            return Err(e);
                        },
                    }
                } else {
                    assert(!"data:"@.is_prefix_of(text@));
                    Some(text)
                }
            },
            None => None,
        };
        let annotation = Annotation {
            id,
            url,
            x,
            y,
            comment,
            element,
            element_path,
            css_classes,
            nearby_text,
            selected_text,
            bounding_box,
            screenshot: recorded,
            intent,
            severity,
            status: AnnotationStatus::Pending,
            framework,
            thread: Vec::new(),
            resolved_by: None,
            resolved_at: None,
            created_at: now.clone(),
            updated_at: now,
        };
        let ghost before = annotations@;
        annotations.push(annotation.clone());
        assert(annotations@.take(before.len() as int) =~= before);
        Ok((annotation, file))
    }

    /// The directory to create before `create_annotation` writes the
    /// screenshot of `input`: the screenshots directory, where the
    /// screenshot is a data URL that parses (whether or not its payload is
    /// base64), and none otherwise.
    pub fn screenshot_dir_for(&self, input: &CreateAnnotation) -> (dir: Option<Vec<u8>>)
        ensures
            match dir {
                Some(d) => {
                    &&& is_data_url(opt_text(input.screenshot))
                    &&& data_url_parts(input.screenshot.unwrap()@) is Ok
                    &&& d@ == joined_os(self@, "screenshots"@)
                },
                None => !is_data_url(opt_text(input.screenshot)) || data_url_parts(
                    input.screenshot.unwrap()@,
                ) is Err,
            },
    {
        proof {
            reveal_strlit("data:");
        }
        match &input.screenshot {
            Some(text) => {
                let cs = chars_of(text.as_str());
                if !matches_at(&cs, 0, "data:") {
                    assert(!"data:"@.is_prefix_of(text@));
                    return None;
                }
                assert("data:"@.is_prefix_of(text@));
                match parse_data_url(text.as_str()) {
                    Ok(_) => Some(self.screenshots_dir()),
                    Err(_) => None,
                }
            },
            None => None,
        }
    }

    /// Creates a new annotation from `input`, as `create_annotation_with`
    /// does, at the current time and with a freshly generated id: the ULID
    /// made of this instant's milliseconds and 80 random bits, in lowercase.
    /// Fails, changing nothing, where the clock reads no time that can be
    /// written or the operating system's random source fails.
    pub fn create_annotation(&self, annotations: &mut Vec<Annotation>, input: CreateAnnotation) -> (created: Result<(Annotation, Option<ScreenshotFile>), Error>)
        ensures
            ({
                ||| created matches Err(Error::Other(m)) && (m@ == clock_failure_message() || m@
                    == randomness_failure_message()) && final(annotations)@ == old(annotations)@
                ||| exists|secs: int, nanos: int, random: int, now: Seq<char>|
                    #![trigger creation(
                        self@,
                        old(annotations)@,
                        final(annotations)@,
                        input,
                        generated_id(secs, nanos, random),
                        now,
                        created,
                    )]
                    time_text_of(secs, nanos, now) && 0 <= random
                        < 0x1_0000_0000_0000_0000_0000_0000_0000_0000 && creation(
                        self@,
                        old(annotations)@,
                        final(annotations)@,
                        input,
                        generated_id(secs, nanos, random),
                        now,
                        created,
                    )
            }),
            created matches Ok((a, _)) ==> is_generated_id(a@.id),
    {
        let (secs, nanos) = match now_since_epoch() {
            Some(instant) => instant,
            None => {
                return Err(
                    Error::Other(
                        String::from_str("The system clock does not read a time that can be written"),
                    ),
                );
            },
        };
        let now = match timestamp_text(secs, nanos) {
            Ok(t) => t,
            Err(e) => {
                return Err(e);
            },
        };
        let random = match random_u128() {
            Some(r) => r,
            None => {
                return Err(
                    Error::Other(String::from_str("The operating system's random source failed")),
                );
            },
        };
        let total: u128 = (secs as u128) * 1000 + ((nanos / 1_000_000) as u128);
        let ms: u64 = (total % 0x1_0000_0000_0000) as u64;
        let value = ulid_from_parts(ms, random);
        proof {
            let m = millis(secs as int, nanos as int);
            assert(total == m);
            assert(ms as int % 0x1_0000_0000_0000 == m % 0x1_0000_0000_0000);
            assert(value == ulid_value(m, random as int));
        }
        let text = ulid_to_text(value);
        let id = to_lowercase(text.as_str());
        assert(is_generated_id(id@)) by {
            lemma_ulid_text_chars(value as int);
            assert forall|i: int| 0 <= i < id@.len() implies ('0' <= #[trigger] id@[i] <= '9') || (
            'a' <= id@[i] <= 'z') by {
                assert(is_crockford_char(text@[i]));
            }
        }
        let ghost idv = id@;
        let ghost nowv = now@;
        let ghost g = generated_id(secs as int, nanos as int, random as int);
        assert(idv == g);
        assert(time_text_of(secs as int, nanos as int, nowv));
        let created = self.create_annotation_with(annotations, input, id, now);
        assert(creation(self@, old(annotations)@, annotations@, input, g, nowv, created));
        created
    }

    /// The first annotation of `annotations` whose id is `id`, if any.
    pub fn get_annotation(&self, annotations: Vec<Annotation>, id: &str) -> (found: Option<Annotation>)
        ensures
            match position_of(annotations@, id@) {
                Some(i) => found == Some(annotations@[i]),
                None => found is None,
            },
    {
        let mut annotations = annotations;
        match find_annotation(&annotations, id) {
            Some(i) => Some(annotations.swap_remove(i)),
            None => None,
        }
    }

    /// Applies `input` at time `now` to the first annotation whose id is
    /// `id` (see `updated_view`), and returns it as updated. Where the update
    /// closes the annotation and it had a screenshot, also returns the
    /// screenshot file for the caller to remove. Fails, changing nothing,
    /// where no annotation has that id.
    pub fn update_annotation_at(
        &self,
        annotations: &mut Vec<Annotation>,
        id: &str,
        input: UpdateAnnotation,
        now: String,
    ) -> (updated: Result<(Annotation, Option<Vec<u8>>), Error>)
        ensures
            update_outcome(self@, old(annotations)@, final(annotations)@, id@, input, now@, updated),
    {
        let i = match find_annotation(annotations, id) {
            Some(i) => i,
            None => {
                return Err(Error::NotFound(String::from_str(id)));
            },
        };
        let mut a = annotations[i].clone();
        let ghost old_view = a@;
        let mut removed: Option<Vec<u8>> = None;
        let UpdateAnnotation { comment, status, resolved_by, resolved_at, thread } = input;
        if let Some(c) = comment {
            a.comment = c;
        }
        if let Some(st) = status {
            a.status = st;
            if st.is_closed() {
                removed = match &a.screenshot {
                    Some(r) => Some(join_os(self.data_dir.as_slice(), r.as_str())),
                    None => None,
                };
                a.screenshot = None;
            }
        }
        if let Some(r) = resolved_by {
            a.resolved_by = Some(r);
        }
        if let Some(r) = resolved_at {
            a.resolved_at = Some(r);
        }
        if let Some(t) = thread {
            a.thread = t;
        }
        a.updated_at = now;
        let copy = a.clone();
        annotations.set(i, a);
        assert(annotations@ =~= old(annotations)@.update(i as int, annotations@[i as int]));
        Ok((copy, removed))
    }

    /// Updates the first annotation whose id is `id` at the current time, as
    /// `update_annotation_at` does. Fails, changing nothing, where the clock
    /// reads no time that can be written.
    pub fn update_annotation(&self, annotations: &mut Vec<Annotation>, id: &str, input: UpdateAnnotation) -> (updated: Result<(Annotation, Option<Vec<u8>>), Error>)
        ensures
            ({
                ||| updated matches Err(Error::Other(m)) && m@ == clock_failure_message()
                    && final(annotations)@ == old(annotations)@
                ||| exists|now: Seq<char>|
                    is_time_text(now) && #[trigger] update_outcome(
                        self@,
                        old(annotations)@,
                        final(annotations)@,
                        id@,
                        input,
                        now,
                        updated,
                    )
            }),
    {
        let now = match current_timestamp() {
            Ok(t) => t,
            Err(e) => {
                return Err(e);
            },
        };
        let ghost nowv = now@;
        let updated = self.update_annotation_at(annotations, id, input, now);
        assert(update_outcome(self@, old(annotations)@, annotations@, id@, input, nowv, updated));
        updated
    }

    /// Removes the first annotation whose id is `id`, and returns its
    /// screenshot file, if it had one, for the caller to remove. Fails,
    /// changing nothing, where no annotation has that id.
    pub fn delete_annotation(&self, annotations: &mut Vec<Annotation>, id: &str) -> (deleted: Result<Option<Vec<u8>>, Error>)
        ensures
            deletion(self@, old(annotations)@, final(annotations)@, id@, deleted),
    {
        let i = match find_annotation(annotations, id) {
            Some(i) => i,
            None => {
                return Err(Error::NotFound(String::from_str(id)));
            },
        };
        let removed = match &annotations[i].screenshot {
            Some(r) => Some(join_os(self.data_dir.as_slice(), r.as_str())),
            None => None,
        };
        annotations.remove(i);
        Ok(removed)
    }

    /// The pending annotations of `annotations`, in their order.
    pub fn get_pending(&self, annotations: Vec<Annotation>) -> (pending: Vec<Annotation>)
        ensures
            pending@ == pending_list(annotations@),
    {
        let ghost all = annotations@;
        let ghost pred = |a: Annotation| is_pending(a);
        let mut pending: Vec<Annotation> = Vec::new();
        for a in it: annotations.into_iter()
            invariant
                it.seq() == all,
                pred == (|a: Annotation| is_pending(a)),
                pending@ == all.take(it.index() as int).filter(pred),
        {
            let ghost k = it.index();
            proof {
                all.take(k as int).lemma_filter_push(a, pred);
                assert(all.take(k + 1) =~= all.take(k as int).push(a));
            }
            match a.status {
                AnnotationStatus::Pending => {
                    pending.push(a);
                },
                _ => {},
            }
        }
        assert(all.take(all.len() as int) =~= all);
        pending
    }

    /// The stored path, relative to the data directory, of the screenshot of
    /// the first annotation whose id is `annotation_id`. Fails where there is
    /// no such annotation, or it has no screenshot.
    pub fn read_screenshot(&self, annotations: Vec<Annotation>, annotation_id: &str) -> (path: Result<String, Error>)
        ensures
            screenshot_lookup(annotations@, annotation_id@, path),
    {
        let i = match find_annotation(&annotations, annotation_id) {
            Some(i) => i,
            None => {
                return Err(Error::NotFound(String::from_str(annotation_id)));
            },
        };
        match &annotations[i].screenshot {
            Some(r) => Ok(r.clone()),
            None => Err(Error::NotFound(concat("No screenshot for ", annotation_id))),
        }
    }
}

} // verus!