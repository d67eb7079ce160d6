//! Properties of the store that span several of its operations.
use vstd::prelude::*;
use crate::error::Error;
use vstd::utf8::encode_utf8;
use crate::paths::{
    dot_byte, joined_os, last_component, lemma_encode_utf8_ascii_byte, lemma_encode_utf8_concat,
    lemma_encode_utf8_nonempty, lemma_last_component_of_joined, lemma_name_extension_of_split,
    name_extension_of, slash_byte,
};
use crate::bindings::{base64_decoding, base64_encoding};
use crate::screenshot::{
    data_url_parts, extension_for_mime, mime_for_extension, mime_for_os_extension, mime_for_path,
    screenshot_file_name, screenshot_reading, ScreenshotData, ScreenshotFile,
};
use crate::store::{
    appended, closes, creation, deletion, is_data_url, is_pending, lemma_position_of, pending_list,
    position_of,
    screenshot_lookup, update_outcome,
};
use crate::paths::path_extension;
use crate::project::{
    is_excluded_name, is_source_entry, is_source_extension_text, source_paths, WalkEntry,
};
use crate::types::opt_text;
use crate::types::{Annotation, AnnotationStatus, CreateAnnotation, UpdateAnnotation};

verus! {

/// Replacing an element that the filter drops is the same, to the filter, as
/// removing it.
proof fn lemma_filter_update_dropped(
    s: Seq<Annotation>,
    i: int,
    x: Annotation,
    pred: spec_fn(Annotation) -> bool,
)
    requires
        0 <= i < s.len(),
        !pred(x),
    ensures
        s.update(i, x).filter(pred) == s.remove(i).filter(pred),
{
    let front = s.take(i);
    let back = s.skip(i + 1);
    assert(s.update(i, x) =~= front + seq![x] + back);
    assert(s.remove(i) =~= front + back);
    Seq::filter_distributes_over_add(front + seq![x], back, pred);
    Seq::filter_distributes_over_add(front, seq![x], pred);
    Seq::filter_distributes_over_add(front, back, pred);
    reveal(Seq::filter);
    assert(seq![x].drop_last() =~= Seq::<Annotation>::empty());
    assert(Seq::<Annotation>::empty().filter(pred) =~= Seq::<Annotation>::empty());
    assert(seq![x].last() == x);
    assert(seq![x].filter(pred) =~= Seq::<Annotation>::empty());
    assert(front.filter(pred) + Seq::<Annotation>::empty() =~= front.filter(pred));
}

/// Read after create: once an annotation is created under an id that no
/// earlier annotation has, looking that id up finds the new, pending
/// annotation, at the end of the list.
pub proof fn law_created_annotation_is_found(
    store: Seq<u8>,
    before: Seq<Annotation>,
    after: Seq<Annotation>,
    input: CreateAnnotation,
    id: Seq<char>,
    now: Seq<char>,
    created: Result<(Annotation, Option<ScreenshotFile>), Error>,
)
    requires
        creation(store, before, after, input, id, now, created),
        created is Ok,
        forall|j: int| 0 <= j < before.len() ==> before[j].id@ != id,
    ensures
        created matches Ok((a, _)) && {
            &&& position_of(after, id) == Some(before.len() as int)
            &&& after[before.len() as int]@ == a@
            &&& a@.id == id
            &&& a@.status == AnnotationStatus::Pending
        },
{
    if let Ok((a, _)) = created {
        assert(appended(before, after, a@));
        let n = before.len() as int;
        assert forall|j: int| 0 <= j < n implies after[j].id@ != id by {
            assert(after.take(n)[j] == after[j]);
        }
        assert(after[n] == after.last());
        lemma_position_of(after, id);
    }
}

/// Creating an annotation adds exactly one pending annotation, the new one,
/// at the end of the pending list.
pub proof fn law_creation_adds_one_pending(
    store: Seq<u8>,
    before: Seq<Annotation>,
    after: Seq<Annotation>,
    input: CreateAnnotation,
    id: Seq<char>,
    now: Seq<char>,
    created: Result<(Annotation, Option<ScreenshotFile>), Error>,
)
    requires
        creation(store, before, after, input, id, now, created),
        created is Ok,
    ensures
        after.filter(|a: Annotation| is_pending(a)) == before.filter(|a: Annotation| is_pending(a)).push(
            after.last(),
        ),
{
    if let Ok((a, _)) = created {
        assert(appended(before, after, a@));
        assert(after =~= before.push(after.last()));
        before.lemma_filter_push(after.last(), |a: Annotation| is_pending(a));
    }
}

/// The screenshots directory `<store>/screenshots` is not empty and does not
/// end in `/`.
proof fn lemma_screenshots_dir(store: Seq<u8>)
    ensures
        joined_os(store, "screenshots"@).len() > 0,
        joined_os(store, "screenshots"@).last() != slash_byte(),
{
    reveal_strlit("screenshots");
    let t = "screenshots"@;
    assert(vstd::utf8::is_ascii_chars(t));
    vstd::utf8::is_ascii_chars_encode_utf8(t);
    let e = encode_utf8(t);
    assert(e[10] == 's' as u8);
    assert(joined_os(store, t).last() == e[10]);
}

/// The file that creating an annotation writes its screenshot to is the
/// file that the path it records names, under the data directory (for a
/// file name that does not start with `/`).
pub proof fn law_recorded_path_names_written_file(store: Seq<u8>, name: Seq<char>)
    requires
        !(name.len() > 0 && name[0] == '/'),
    ensures
        joined_os(joined_os(store, "screenshots"@), name) == joined_os(store, "screenshots/"@ + name),
        joined_os(joined_os(store, "screenshots"@), name) == joined_os(store, "screenshots"@) + seq![
            slash_byte(),
        ] + encode_utf8(name),
{
    reveal_strlit("screenshots");
    reveal_strlit("screenshots/");
    lemma_screenshots_dir(store);
    let s = "screenshots"@;
    assert("screenshots/"@ =~= s + seq!['/']);
    assert("screenshots/"@ + name =~= s + (seq!['/'] + name));
    lemma_encode_utf8_concat(s, seq!['/'] + name);
    lemma_encode_utf8_concat(seq!['/'], name);
    assert(vstd::utf8::is_ascii_chars(seq!['/']));
    vstd::utf8::is_ascii_chars_encode_utf8(seq!['/']);
    assert(encode_utf8(seq!['/']) =~= seq![slash_byte()]);
    let pre = if store.len() == 0 || store.last() == slash_byte() {
        store
    } else {
        store + seq![slash_byte()]
    };
    assert(joined_os(store, s) =~= pre + encode_utf8(s));
    assert(joined_os(store, "screenshots/"@ + name) =~= pre + encode_utf8(s) + seq![slash_byte()]
        + encode_utf8(name));
}

/// Delete undoes create: removing the annotation just created, under an id
/// that no earlier annotation has, gives back the list as it was, and
/// removes the screenshot file that the creation wrote, if it wrote one.
pub proof fn law_delete_undoes_create(
    store: Seq<u8>,
    before: Seq<Annotation>,
    middle: Seq<Annotation>,
    after: Seq<Annotation>,
    input: CreateAnnotation,
    id: Seq<char>,
    now: Seq<char>,
    created: Result<(Annotation, Option<ScreenshotFile>), Error>,
    deleted: Result<Option<Vec<u8>>, Error>,
)
    requires
        creation(store, before, middle, input, id, now, created),
        created is Ok,
        forall|j: int| 0 <= j < before.len() ==> before[j].id@ != id,
        deletion(store, middle, after, id, deleted),
        !(id.len() > 0 && id[0] == '/'),
    ensures
        after == before,
        deleted is Ok,
        created matches Ok((_, Some(f))) ==> deleted matches Ok(Some(p)) && p@ == f.path@,
{
    law_created_annotation_is_found(store, before, middle, input, id, now, created);
    if let Ok((a, file)) = created {
        let n = before.len() as int;
        assert(middle.remove(n) =~= before) by {
            assert forall|j: int| 0 <= j < n implies middle.remove(n)[j] == before[j] by {
                assert(middle.take(n)[j] == middle[j]);
            }
        }
        if let Some(f) = file {
            let mime = data_url_parts(input.screenshot.unwrap()@)->Ok_0.0;
            let name = screenshot_file_name(id, mime);
            reveal_strlit(".");
            if id.len() == 0 {
                assert(name[0] == '.');
            } else {
                assert(name[0] == id[0]);
            }
            law_recorded_path_names_written_file(store, name);
        }
    }
}

/// Read after update: after an update, looking up the same id finds the
/// annotation as updated, at the same position; the update never changes
/// an annotation's id.
pub proof fn law_updated_annotation_is_found(
    store: Seq<u8>,
    before: Seq<Annotation>,
    after: Seq<Annotation>,
    id: Seq<char>,
    input: UpdateAnnotation,
    now: Seq<char>,
    updated: Result<(Annotation, Option<Vec<u8>>), Error>,
)
    requires
        update_outcome(store, before, after, id, input, now, updated),
        updated is Ok,
    ensures
        updated matches Ok((a, _)) && {
            &&& position_of(after, id) == position_of(before, id)
            &&& position_of(after, id) matches Some(i) && after[i]@ == a@
            &&& a@.id == id
        },
{
    lemma_position_of(before, id);
    if let Ok((a, _)) = updated {
        let i = position_of(before, id).unwrap();
        assert(crate::store::ids(after) =~= crate::store::ids(before)) by {
            assert forall|j: int| 0 <= j < after.len() implies after[j].id@ == before[j].id@ by {
                if j == i {
                    assert(after[j]@ == a@);
                }
            }
        }
    }
}

/// Closing an annotation (resolving or dismissing it) takes it off the
/// pending list, leaves every other annotation's place in that list as it
/// was, and drops its screenshot.
pub proof fn law_closing_leaves_pending_list(
    store: Seq<u8>,
    before: Seq<Annotation>,
    after: Seq<Annotation>,
    id: Seq<char>,
    input: UpdateAnnotation,
    now: Seq<char>,
    updated: Result<(Annotation, Option<Vec<u8>>), Error>,
)
    requires
        update_outcome(store, before, after, id, input, now, updated),
        updated is Ok,
        closes(input.status),
    ensures
        position_of(before, id) matches Some(i) && after.filter(|a: Annotation| is_pending(a))
            == before.remove(i).filter(|a: Annotation| is_pending(a)),
        updated matches Ok((a, _)) && a@.screenshot is None && a@.status != AnnotationStatus::Pending,
{
    lemma_position_of(before, id);
    let i = position_of(before, id).unwrap();
    lemma_filter_update_dropped(before, i, after[i], |a: Annotation| is_pending(a));
}

/// The MIME types that survive the trip to a file extension and back.
proof fn lemma_mime_round_trip(mime: Seq<char>)
    ensures
        mime == "image/png"@ || mime == "image/svg+xml"@ || mime == "image/jpeg"@ || mime
            == "image/webp"@ ==> mime_for_extension(extension_for_mime(mime)) == mime,
        mime == "image/jpg"@ ==> mime_for_extension(extension_for_mime(mime)) == "image/jpeg"@,
{
    reveal_strlit("png");
    reveal_strlit("svg");
    reveal_strlit("jpg");
    reveal_strlit("webp");
    reveal_strlit("jpeg");
    reveal_strlit("image/png");
    reveal_strlit("image/svg+xml");
    reveal_strlit("image/jpeg");
    reveal_strlit("image/jpg");
    reveal_strlit("image/webp");
    assert("image/svg+xml"@ != "image/png"@) by {
        assert("image/svg+xml"@.len() != "image/png"@.len());
    }
    assert("image/jpeg"@ != "image/png"@) by {
        assert("image/jpeg"@[6] != "image/png"@[6]);
    }
    assert("image/jpeg"@ != "image/svg+xml"@) by {
        assert("image/jpeg"@.len() != "image/svg+xml"@.len());
    }
    assert("image/jpg"@ != "image/png"@) by {
        assert("image/jpg"@[6] != "image/png"@[6]);
    }
    assert("image/jpg"@ != "image/svg+xml"@) by {
        assert("image/jpg"@.len() != "image/svg+xml"@.len());
    }
    assert("image/webp"@ != "image/png"@) by {
        assert("image/webp"@.len() != "image/png"@.len());
    }
    assert("image/webp"@ != "image/svg+xml"@) by {
        assert("image/webp"@.len() != "image/svg+xml"@.len());
    }
    assert("image/webp"@ != "image/jpeg"@) by {
        assert("image/webp"@[6] != "image/jpeg"@[6]);
    }
    assert("image/webp"@ != "image/jpg"@) by {
        assert("image/webp"@.len() != "image/jpg"@.len());
    }
    assert("svg"@ != "png"@) by {
        assert("svg"@[0] != "png"@[0]);
    }
    assert("jpg"@ != "png"@) by {
        assert("jpg"@[0] != "png"@[0]);
    }
    assert("jpg"@ != "svg"@) by {
        assert("jpg"@[0] != "svg"@[0]);
    }
    assert("webp"@ != "png"@) by {
        assert("webp"@.len() != "png"@.len());
    }
    assert("webp"@ != "svg"@) by {
        assert("webp"@.len() != "svg"@.len());
    }
    assert("webp"@ != "jpg"@) by {
        assert("webp"@.len() != "jpg"@.len());
    }
    assert("webp"@ != "jpeg"@) by {
        assert("webp"@[0] != "jpeg"@[0]);
    }
}

/// A screenshot stored from a data URL reads back with the MIME type that
/// its extension stands for: the same type for `image/png`,
/// `image/svg+xml`, `image/jpeg` and `image/webp`, `image/jpeg` for
/// `image/jpg`, and `image/png` for any other type (for an id without `/`,
/// under any data directory).
pub proof fn law_screenshot_reads_back_its_mime(store: Seq<u8>, id: Seq<char>, mime: Seq<char>)
    requires
        id.len() > 0,
        !id.contains('/'),
    ensures
        mime_for_path(joined_os(store, "screenshots/"@ + screenshot_file_name(id, mime)))
            == mime_for_extension(extension_for_mime(mime)),
        mime == "image/png"@ || mime == "image/svg+xml"@ || mime == "image/jpeg"@ || mime
            == "image/webp"@ ==> mime_for_extension(extension_for_mime(mime)) == mime,
        mime == "image/jpg"@ ==> mime_for_extension(extension_for_mime(mime)) == "image/jpeg"@,
{
    broadcast use vstd::utf8::group_utf8_lib;

    reveal_strlit(".");
    reveal_strlit("png");
    reveal_strlit("svg");
    reveal_strlit("jpg");
    reveal_strlit("webp");
    let ext = extension_for_mime(mime);
    let name = screenshot_file_name(id, mime);
    assert(name =~= id + seq!['.'] + ext);
    assert(ext.len() > 0);
    assert(!ext.contains('.')) by {
        if ext.contains('.') {
            let k = choose|k: int| 0 <= k < ext.len() && ext[k] == '.';
        }
    }
    assert(!ext.contains('/')) by {
        if ext.contains('/') {
            let k = choose|k: int| 0 <= k < ext.len() && ext[k] == '/';
        }
    }
    assert(!name.contains('/')) by {
        if name.contains('/') {
            let k = choose|k: int| 0 <= k < name.len() && name[k] == '/';
            if k < id.len() {
                assert(id[k] == '/');
            } else if k > id.len() {
                assert(ext[k - id.len() - 1] == '/');
            }
        }
    }
    assert(name[0] == id[0]);
    assert(id[0] != '/') by {
        if id[0] == '/' {
            assert(id.contains('/'));
        }
    }
    law_recorded_path_names_written_file(store, name);
    let dir = joined_os(store, "screenshots"@);
    let e_id = encode_utf8(id);
    let e_ext = encode_utf8(ext);
    lemma_encode_utf8_concat(id + seq!['.'], ext);
    lemma_encode_utf8_concat(id, seq!['.']);
    assert(vstd::utf8::is_ascii_chars(seq!['.']));
    vstd::utf8::is_ascii_chars_encode_utf8(seq!['.']);
    assert(encode_utf8(seq!['.']) =~= seq![dot_byte()]);
    let e_name = encode_utf8(name);
    assert(e_name == e_id + seq![dot_byte()] + e_ext);
    lemma_encode_utf8_nonempty(id);
    lemma_encode_utf8_nonempty(ext);
    assert(!e_name.contains(slash_byte())) by {
        if e_name.contains(slash_byte()) {
            assert(('/' as u32) < 0x80);
            lemma_encode_utf8_ascii_byte(name, '/');
        }
    }
    assert(!e_ext.contains(dot_byte())) by {
        if e_ext.contains(dot_byte()) {
            lemma_encode_utf8_ascii_byte(ext, '.');
        }
    }
    assert(e_name.len() >= 3);
    assert(e_name != seq![dot_byte()]);
    assert(e_name != seq![dot_byte(), dot_byte()]);
    lemma_last_component_of_joined(dir, e_name, slash_byte(), dot_byte());
    lemma_name_extension_of_split(e_id, e_ext, dot_byte());
    assert(mime_for_os_extension(e_ext) == mime_for_extension(ext));
    lemma_mime_round_trip(mime);
}

/// Parsing undoes composing a data URL: the data URL
/// `data:<mime>;base64,<data>` splits into `mime` and `data` for any MIME
/// type without a comma.
pub proof fn law_data_url_round_trip(mime: Seq<char>, data: Seq<char>)
    requires
        !mime.contains(','),
    ensures
        data_url_parts("data:"@ + mime + ";base64,"@ + data) == Ok::<
            (Seq<char>, Seq<char>),
            Seq<char>,
        >((mime, data)),
{
    reveal_strlit("data:");
    reveal_strlit(";base64,");
    reveal_strlit(";base64");
    let s = "data:"@ + mime + ";base64,"@ + data;
    assert("data:"@.is_prefix_of(s)) by {
        assert(s.subrange(0, 5) =~= "data:"@);
    }
    let rest = s.skip(5);
    assert(rest =~= mime + ";base64,"@ + data);
    let c = mime.len() as int + 7;
    assert(rest[c] == ',');
    rest.index_of_first_ensures(',');
    let k = rest.index_of_first(',').unwrap();
    if k < c {
        if k < mime.len() {
            assert(mime[k] == ',');
        } else {
            assert(";base64,"@[k - mime.len()] == ',');
        }
    }
    let header = rest.take(c);
    assert(header =~= mime + ";base64"@);
    assert(";base64"@.is_suffix_of(header)) by {
        assert(header.subrange(header.len() - 7, header.len() as int) =~= ";base64"@);
    }
    assert(header.take(header.len() - 7) =~= mime);
    assert(rest.skip(c + 1) =~= data);
}

/// Screenshot round trip: once an annotation is created, under an id without
/// `/` that no earlier annotation has, from the data URL
/// `data:<mime>;base64,<payload>` whose payload is canonical base64, looking
/// its screenshot up gives the path of the file that the creation wrote, and
/// reading back what that file holds gives the same payload, with the MIME
/// type that its extension stands for.
pub proof fn law_screenshot_round_trip(
    store: Seq<u8>,
    before: Seq<Annotation>,
    after: Seq<Annotation>,
    input: CreateAnnotation,
    id: Seq<char>,
    now: Seq<char>,
    created: Result<(Annotation, Option<ScreenshotFile>), Error>,
    mime: Seq<char>,
    payload: Seq<char>,
    path: Result<String, Error>,
    data: Result<ScreenshotData, Error>,
)
    requires
        creation(store, before, after, input, id, now, created),
        input.screenshot matches Some(url) && url@ == "data:"@ + mime + ";base64,"@ + payload,
        !mime.contains(','),
        base64_decoding(payload) matches Some(bytes) && base64_encoding(bytes) == payload,
        id.len() > 0,
        !id.contains('/'),
        forall|j: int| 0 <= j < before.len() ==> before[j].id@ != id,
        screenshot_lookup(after, id, path),
        match (path, created) {
            (Ok(r), Ok((_, Some(f)))) => screenshot_reading(store, r@, Some(f.bytes@), data),
            _ => true,
        },
    ensures
        match (path, created) {
            (Ok(r), Ok((_, Some(f)))) => {
                &&& joined_os(store, r@) == f.path@
                &&& data matches Ok(d) && d.base64@ == payload && d.mime_type@ == mime_for_extension(
                    extension_for_mime(mime),
                )
            },
            _ => false,
        },
{
    law_data_url_round_trip(mime, payload);
    let url = input.screenshot.unwrap()@;
    assert(data_url_parts(url) is Ok);
    assert(is_data_url(opt_text(input.screenshot)));
    let name = screenshot_file_name(id, mime);
    assert(name[0] == id[0]);
    assert(id[0] != '/') by {
        if id[0] == '/' {
            assert(id.contains('/'));
        }
    }
    law_created_annotation_is_found(store, before, after, input, id, now, created);
    law_recorded_path_names_written_file(store, name);
    law_screenshot_reads_back_its_mime(store, id, mime);
}

/// What creating an annotation records, field by field: each field the
/// request carries is recorded as it was given (`css_classes` from
/// `css_classes`, `nearby_text` from `nearby_text`, and so on), under the
/// given id and time; the annotation starts pending, with an empty thread and
/// no resolution; a screenshot that is not a data URL is recorded as given;
/// and the new annotation is added at the end, after every earlier one.
pub proof fn law_creation_records_input(
    store: Seq<u8>,
    before: Seq<Annotation>,
    after: Seq<Annotation>,
    input: CreateAnnotation,
    id: Seq<char>,
    now: Seq<char>,
    created: Result<(Annotation, Option<ScreenshotFile>), Error>,
)
    requires
        creation(store, before, after, input, id, now, created),
        created is Ok,
    ensures
        created matches Ok((a, _)) && {
            &&& a@.id == id
            &&& a@.url == input.url@
            &&& a@.x == input.x
            &&& a@.y == input.y
            &&& a@.comment == input.comment@
            &&& a@.element == input.element@
            &&& a@.element_path == input.element_path@
            &&& (match input.css_classes {
                Some(c) => a@.css_classes == Some(c@),
                None => a@.css_classes is None,
            })
            &&& (match input.nearby_text {
                Some(c) => a@.nearby_text == Some(c@),
                None => a@.nearby_text is None,
            })
            &&& (match input.selected_text {
                Some(c) => a@.selected_text == Some(c@),
                None => a@.selected_text is None,
            })
            &&& a@.bounding_box == input.bounding_box
            &&& a@.intent == input.intent@
            &&& a@.severity == input.severity@
            &&& (match input.framework {
                Some(j) => a@.framework == Some(j@),
                None => a@.framework is None,
            })
            &&& a@.status == AnnotationStatus::Pending
            &&& a@.thread.len() == 0
            &&& a@.resolved_by is None
            &&& a@.resolved_at is None
            &&& a@.created_at == now
            &&& a@.updated_at == now
            &&& (match input.screenshot {
                Some(u) => !"data:"@.is_prefix_of(u@) ==> a@.screenshot == Some(u@),
                None => a@.screenshot is None,
            })
            &&& after.len() == before.len() + 1
            &&& forall|j: int| 0 <= j < before.len() ==> after[j] == before[j]
            &&& after[before.len() as int]@ == a@
        },
{
    if let Ok((a, _)) = created {
        assert(appended(before, after, a@));
        let n = before.len() as int;
        assert forall|j: int| 0 <= j < n implies after[j] == before[j] by {
            assert(after.take(n)[j] == after[j]);
        }
        assert(after[n] == after.last());
    }
}

/// What updating an annotation does, field by field: the annotation with
/// the id (the first one) keeps its place and every other annotation is left
/// as it was; each field the request carries replaces the old one outright
/// (a given thread becomes the thread, whatever the old thread held); each
/// field it leaves out, and every field it cannot change, keeps its old
/// value; resolving or dismissing drops the screenshot; and `updated_at`
/// becomes the time of the update.
pub proof fn law_update_replaces_given_fields(
    store: Seq<u8>,
    before: Seq<Annotation>,
    after: Seq<Annotation>,
    id: Seq<char>,
    input: UpdateAnnotation,
    now: Seq<char>,
    updated: Result<(Annotation, Option<Vec<u8>>), Error>,
)
    requires
        update_outcome(store, before, after, id, input, now, updated),
        updated is Ok,
    ensures
        position_of(before, id) matches Some(i) && updated matches Ok((a, _)) && {
            let old = before[i]@;
            &&& before[i].id@ == id
            &&& forall|j: int| 0 <= j < i ==> before[j].id@ != id
            &&& after.len() == before.len()
            &&& forall|j: int| 0 <= j < before.len() && j != i ==> after[j] == before[j]
            &&& after[i]@ == a@
            &&& a@.id == old.id
            &&& a@.url == old.url
            &&& a@.x == old.x
            &&& a@.y == old.y
            &&& a@.element == old.element
            &&& a@.element_path == old.element_path
            &&& a@.css_classes == old.css_classes
            &&& a@.nearby_text == old.nearby_text
            &&& a@.selected_text == old.selected_text
            &&& a@.bounding_box == old.bounding_box
            &&& a@.intent == old.intent
            &&& a@.severity == old.severity
            &&& a@.framework == old.framework
            &&& a@.created_at == old.created_at
            &&& a@.updated_at == now
            &&& (match input.comment {
                Some(c) => a@.comment == c@,
                None => a@.comment == old.comment,
            })
            &&& (match input.status {
                Some(st) => a@.status == st,
                None => a@.status == old.status,
            })
            &&& (match input.resolved_by {
                Some(r) => a@.resolved_by == Some(r@),
                None => a@.resolved_by == old.resolved_by,
            })
            &&& (match input.resolved_at {
                Some(r) => a@.resolved_at == Some(r@),
                None => a@.resolved_at == old.resolved_at,
            })
            &&& (match input.thread {
                Some(t) => a@.thread == t@,
                None => a@.thread == old.thread,
            })
            &&& (match input.status {
                Some(AnnotationStatus::Resolved) => a@.screenshot is None,
                Some(AnnotationStatus::Dismissed) => a@.screenshot is None,
                _ => a@.screenshot == old.screenshot,
            })
            &&& (updated matches Ok((_, removed)) && match (input.status, old.screenshot) {
                (Some(AnnotationStatus::Resolved), Some(r)) => removed matches Some(p) && p@
                    == joined_os(store, r),
                (Some(AnnotationStatus::Dismissed), Some(r)) => removed matches Some(p) && p@
                    == joined_os(store, r),
                _ => removed is None,
            })
        },
{
    lemma_position_of(before, id);
    let i = position_of(before, id).unwrap();
    assert forall|j: int| 0 <= j < before.len() && j != i implies after[j] == before[j] by {
        assert(before.update(i, after[i])[j] == before[j]);
    }
}

/// What deleting an annotation does to the list: the first annotation with
/// the id leaves it; every annotation before it stays where it was, every
/// one after it moves down by one place, so the others keep their order;
/// and the list is one shorter.
pub proof fn law_delete_keeps_others_in_order(
    store: Seq<u8>,
    before: Seq<Annotation>,
    after: Seq<Annotation>,
    id: Seq<char>,
    deleted: Result<Option<Vec<u8>>, Error>,
)
    requires
        deletion(store, before, after, id, deleted),
        deleted is Ok,
    ensures
        position_of(before, id) matches Some(i) && {
            &&& before[i].id@ == id
            &&& forall|j: int| 0 <= j < i ==> before[j].id@ != id
            &&& after.len() + 1 == before.len()
            &&& forall|j: int| 0 <= j < i ==> after[j] == before[j]
            &&& forall|j: int| i <= j < after.len() ==> after[j] == before[j + 1]
            &&& match before[i]@.screenshot {
                Some(r) => deleted matches Ok(Some(p)) && p@ == joined_os(store, r),
                None => deleted matches Ok(None),
            }
        },
{
    lemma_position_of(before, id);
}

/// Every element a filter keeps comes from the filtered sequence.
proof fn lemma_filter_from<A>(s: Seq<A>, pred: spec_fn(A) -> bool, x: A)
    requires
        s.filter(pred).contains(x),
    ensures
        s.contains(x),
    decreases s.len(),
{
    reveal(Seq::filter);
    if s.len() > 0 {
        let rest = s.drop_last();
        let f = s.filter(pred);
        let k = choose|k: int| 0 <= k < f.len() && f[k] == x;
        if pred(s.last()) && k == f.len() - 1 {
            assert(s[s.len() - 1] == x);
        } else {
            assert(rest.filter(pred)[k] == x);
            lemma_filter_from(rest, pred, x);
            let j = choose|j: int| 0 <= j < rest.len() && rest[j] == x;
            assert(s[j] == x);
        }
    }
}

/// Which annotations are pending, and in what order: none of an empty list;
/// and one more annotation at the end of a list is added at the end of its
/// pending list exactly when its status is `Pending`, whatever its other
/// fields (timestamps, comment, thread). So an annotation is in the pending
/// list exactly when its status is `Pending`, in the order of the list.
pub proof fn law_pending_list(anns: Seq<Annotation>, a: Annotation)
    ensures
        pending_list(Seq::<Annotation>::empty()) == Seq::<Annotation>::empty(),
        pending_list(anns.push(a)) == if a.status == AnnotationStatus::Pending {
            pending_list(anns).push(a)
        } else {
            pending_list(anns)
        },
        forall|x: Annotation|
            #[trigger] pending_list(anns).contains(x) <==> anns.contains(x) && x.status
                == AnnotationStatus::Pending,
{
    broadcast use vstd::seq_lib::group_filter_ensures;

    reveal(Seq::filter);
    assert(pending_list(Seq::<Annotation>::empty()) =~= Seq::<Annotation>::empty());
    anns.lemma_filter_push(a, |x: Annotation| is_pending(x));
    assert forall|x: Annotation| #[trigger] pending_list(anns).contains(x) implies anns.contains(x)
        && x.status == AnnotationStatus::Pending by {
        let f = pending_list(anns);
        let k = choose|k: int| 0 <= k < f.len() && f[k] == x;
        anns.lemma_filter_pred(|x: Annotation| is_pending(x), k);
        lemma_filter_from(anns, |x: Annotation| is_pending(x), x);
    }
    assert forall|x: Annotation|
        anns.contains(x) && x.status == AnnotationStatus::Pending implies #[trigger] pending_list(
            anns,
        ).contains(x) by {
        let k = choose|k: int| 0 <= k < anns.len() && anns[k] == x;
        anns.lemma_filter_contains(|x: Annotation| is_pending(x), k);
    }
}

/// The directories the project walk skips are exactly these eleven:
/// `node_modules`, `dist`, `build`, `.git`, `.next`, `.nuxt`, `.svelte-kit`,
/// `target`, `.turbo`, `coverage` and `__pycache__`; any other name is
/// walked.
pub proof fn law_excluded_directories(name: Seq<char>)
    ensures
        is_excluded_name(name) <==> seq![
            "node_modules"@,
            "dist"@,
            "build"@,
            ".git"@,
            ".next"@,
            ".nuxt"@,
            ".svelte-kit"@,
            "target"@,
            ".turbo"@,
            "coverage"@,
            "__pycache__"@,
        ].contains(name),
{
    let names = seq![
        "node_modules"@,
        "dist"@,
        "build"@,
        ".git"@,
        ".next"@,
        ".nuxt"@,
        ".svelte-kit"@,
        "target"@,
        ".turbo"@,
        "coverage"@,
        "__pycache__"@,
    ];
    if is_excluded_name(name) {
        if name == "node_modules"@ { assert(names[0] == name); }
        else if name == "dist"@ { assert(names[1] == name); }
        else if name == "build"@ { assert(names[2] == name); }
        else if name == ".git"@ { assert(names[3] == name); }
        else if name == ".next"@ { assert(names[4] == name); }
        else if name == ".nuxt"@ { assert(names[5] == name); }
        else if name == ".svelte-kit"@ { assert(names[6] == name); }
        else if name == "target"@ { assert(names[7] == name); }
        else if name == ".turbo"@ { assert(names[8] == name); }
        else if name == "coverage"@ { assert(names[9] == name); }
        else { assert(names[10] == name); }
    }
    if names.contains(name) {
        let k = choose|k: int| 0 <= k < names.len() && names[k] == name;
        assert(0 <= k < 11);
        if k == 0 {} else if k == 1 {} else if k == 2 {} else if k == 3 {} else if k == 4 {}
        else if k == 5 {} else if k == 6 {} else if k == 7 {} else if k == 8 {} else if k == 9 {}
        else {}
    }
}

/// The eleven extensions of frontend source files.
pub open spec fn source_extension_list() -> Seq<Seq<char>> {
    seq!["ts"@, "tsx"@, "js"@, "jsx"@, "vue"@, "svelte"@, "html"@, "css"@, "scss"@, "json"@, "md"@]
}

/// The files the project listing keeps are exactly the files whose
/// extension is one of `ts`, `tsx`, `js`, `jsx`, `vue`, `svelte`, `html`,
/// `css`, `scss`, `json` and `md`.
pub proof fn law_source_extensions(ext: Seq<char>)
    ensures
        is_source_extension_text(ext) <==> source_extension_list().contains(ext),
{
    let names = seq![
        "ts"@,
        "tsx"@,
        "js"@,
        "jsx"@,
        "vue"@,
        "svelte"@,
        "html"@,
        "css"@,
        "scss"@,
        "json"@,
        "md"@,
    ];
    if is_source_extension_text(ext) {
        if ext == "ts"@ { assert(names[0] == ext); }
        else if ext == "tsx"@ { assert(names[1] == ext); }
        else if ext == "js"@ { assert(names[2] == ext); }
        else if ext == "jsx"@ { assert(names[3] == ext); }
        else if ext == "vue"@ { assert(names[4] == ext); }
        else if ext == "svelte"@ { assert(names[5] == ext); }
        else if ext == "html"@ { assert(names[6] == ext); }
        else if ext == "css"@ { assert(names[7] == ext); }
        else if ext == "scss"@ { assert(names[8] == ext); }
        else if ext == "json"@ { assert(names[9] == ext); }
        else { assert(names[10] == ext); }
    }
    if names.contains(ext) {
        let k = choose|k: int| 0 <= k < names.len() && names[k] == ext;
        assert(0 <= k < 11);
        if k == 0 {} else if k == 1 {} else if k == 2 {} else if k == 3 {} else if k == 4 {}
        else if k == 5 {} else if k == 6 {} else if k == 7 {} else if k == 8 {} else if k == 9 {}
        else {}
    }
}

/// Which paths the project listing keeps: the relative path of every file
/// entry with a non-empty path whose extension is one of `ts`, `tsx`, `js`,
/// `jsx`, `vue`, `svelte`, `html`, `css`, `scss`, `json` and `md` is listed,
/// and every listed path is such an entry's path.
pub proof fn law_listed_source_files(entries: Seq<WalkEntry>)
    ensures
        forall|j: int|
            0 <= j < entries.len() && #[trigger] entries[j].is_file
                && entries[j].relative_path@.len() > 0 && (path_extension(
                entries[j].relative_path@,
            ) matches Some(x) && source_extension_list().contains(x)) ==> source_paths(
                entries,
            ).contains(entries[j].relative_path),
        forall|p: String|
            #[trigger] source_paths(entries).contains(p) ==> exists|j: int|
                0 <= j < entries.len() && entries[j].relative_path == p && entries[j].is_file
                    && p@.len() > 0 && (path_extension(p@) matches Some(x)
                    && source_extension_list().contains(x)),
{
    broadcast use vstd::seq_lib::group_filter_ensures;

    let pred = |e: WalkEntry| is_source_entry(e);
    let path_of = |e: WalkEntry| e.relative_path;
    let f = entries.filter(pred);
    assert forall|j: int|
        0 <= j < entries.len() && #[trigger] entries[j].is_file
            && entries[j].relative_path@.len() > 0 && (path_extension(
            entries[j].relative_path@,
        ) matches Some(x) && source_extension_list().contains(x)) implies source_paths(
        entries,
    ).contains(entries[j].relative_path) by {
        let x = path_extension(entries[j].relative_path@).unwrap();
        law_source_extensions(x);
        assert(pred(entries[j]));
        entries.lemma_filter_contains(pred, j);
        let k = choose|k: int| 0 <= k < f.len() && f[k] == entries[j];
        assert(f.map_values(path_of)[k] == entries[j].relative_path);
    }
    assert forall|p: String| #[trigger] source_paths(entries).contains(p) implies exists|j: int|
        0 <= j < entries.len() && entries[j].relative_path == p && entries[j].is_file
            && p@.len() > 0 && (path_extension(p@) matches Some(x)
            && source_extension_list().contains(x)) by {
        let m = f.map_values(path_of);
        let k = choose|k: int| 0 <= k < m.len() && m[k] == p;
        let e = f[k];
        entries.lemma_filter_pred(pred, k);
        lemma_filter_from(entries, pred, e);
        let j = choose|j: int| 0 <= j < entries.len() && entries[j] == e;
        law_source_extensions(path_extension(p@).unwrap());
        assert(entries[j].relative_path == p);
    }
}

} // verus!
