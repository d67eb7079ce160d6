//! Choosing the frontend source files of a project from the entries that a
//! directory walk found, and putting them in order.
use vstd::prelude::*;
use crate::paths::{extension, path_extension};
use crate::text::{chars_of, str_eq};

verus! {

/// How deep the walk of a project directory goes.
pub const MAX_DEPTH: usize = 6;

/// The directory names whose contents the walk skips: dependency, build and
/// tool directories.
pub open spec fn is_excluded_name(name: Seq<char>) -> bool {
    ||| name == "node_modules"@
    ||| name == "dist"@
    ||| name == "build"@
    ||| name == ".git"@
    ||| name == ".next"@
    ||| name == ".nuxt"@
    ||| name == ".svelte-kit"@
    ||| name == "target"@
    ||| name == ".turbo"@
    ||| name == "coverage"@
    ||| name == "__pycache__"@
}

/// The file extensions of frontend source files.
pub open spec fn is_source_extension_text(ext: Seq<char>) -> bool {
    ||| ext == "ts"@
    ||| ext == "tsx"@
    ||| ext == "js"@
    ||| ext == "jsx"@
    ||| ext == "vue"@
    ||| ext == "svelte"@
    ||| ext == "html"@
    ||| ext == "css"@
    ||| ext == "scss"@
    ||| ext == "json"@
    ||| ext == "md"@
}

/// Whether a directory entry named `name` is skipped, with all it holds.
pub fn is_excluded_dir(name: &str) -> (skip: bool)
    ensures
        skip == is_excluded_name(name@),
{
    str_eq(name, "node_modules") || str_eq(name, "dist") || str_eq(name, "build") || str_eq(
        name,
        ".git",
    ) || str_eq(name, ".next") || str_eq(name, ".nuxt") || str_eq(name, ".svelte-kit")
        || str_eq(name, "target") || str_eq(name, ".turbo") || str_eq(name, "coverage")
        || str_eq(name, "__pycache__")
}

/// Whether `ext` is the extension of a frontend source file.
pub fn is_source_extension(ext: &str) -> (source: bool)
    ensures
        source == is_source_extension_text(ext@),
{
    str_eq(ext, "ts") || str_eq(ext, "tsx") || str_eq(ext, "js") || str_eq(ext, "jsx") || str_eq(
        ext,
        "vue",
    ) || str_eq(ext, "svelte") || str_eq(ext, "html") || str_eq(ext, "css") || str_eq(
        ext,
        "scss",
    ) || str_eq(ext, "json") || str_eq(ext, "md")
}


/// One entry that the walk of a project found: its path relative to the
/// project root, and whether it is a file.
#[derive(Debug)]
pub struct WalkEntry {
    pub relative_path: String,
    pub is_file: bool,
}

/// Whether a walk entry is a frontend source file: a file, with a non-empty
/// relative path, whose extension is a source extension.
pub open spec fn is_source_entry(e: WalkEntry) -> bool {
    &&& e.is_file
    &&& e.relative_path@.len() > 0
    &&& path_extension(e.relative_path@) matches Some(x) && is_source_extension_text(x)
}

/// The relative paths of the source files among `entries`, in walk order.
pub open spec fn source_paths(entries: Seq<WalkEntry>) -> Seq<String> {
    entries.filter(|e: WalkEntry| is_source_entry(e)).map_values(|e: WalkEntry| e.relative_path)
}

/// The order of texts: lexicographic by character code point, which is the
/// order of their UTF-8 bytes (the order `String`'s `Ord` uses).
pub open spec fn text_le(a: Seq<char>, b: Seq<char>) -> bool
    decreases a.len(),
{
    if a.len() == 0 {
        true
    } else if b.len() == 0 {
        false
    } else if a[0] < b[0] {
        true
    } else if a[0] > b[0] {
        false
    } else {
        text_le(a.drop_first(), b.drop_first())
    }
}

/// Whether `s` is in text order.
pub open spec fn sorted_texts(s: Seq<String>) -> bool {
    forall|i: int, j: int| 0 <= i < j < s.len() ==> text_le(s[i]@, s[j]@)
}

/// Any two texts are ordered one way or the other.
pub proof fn lemma_text_le_total(a: Seq<char>, b: Seq<char>)
    ensures
        text_le(a, b) || text_le(b, a),
    decreases a.len(),
{
    if a.len() > 0 && b.len() > 0 && a[0] == b[0] {
        lemma_text_le_total(a.drop_first(), b.drop_first());
    }
}

/// Text order is transitive.
pub proof fn lemma_text_le_transitive(a: Seq<char>, b: Seq<char>, c: Seq<char>)
    requires
        text_le(a, b),
        text_le(b, c),
    ensures
        text_le(a, c),
    decreases a.len(),
{
    if a.len() > 0 && b.len() > 0 && c.len() > 0 && a[0] == b[0] && b[0] == c[0] {
        lemma_text_le_transitive(a.drop_first(), b.drop_first(), c.drop_first());
    }
}

/// Whether `a` comes no later than `b` in text order.
fn chars_le(a: &Vec<char>, b: &Vec<char>) -> (le: bool)
    ensures
        le == text_le(a@, b@),
{
    let mut i: usize = 0;
    assert(a@.skip(0) =~= a@);
    assert(b@.skip(0) =~= b@);
    while i < a.len() && i < b.len()
        invariant
            i <= a@.len(),
            i <= b@.len(),
            text_le(a@, b@) == text_le(a@.skip(i as int), b@.skip(i as int)),
        decreases a@.len() - i,
    {
        if a[i] < b[i] {
            return true;
        }
        if a[i] > b[i] {
            return false;
        }
        assert(a@.skip(i as int).drop_first() =~= a@.skip(i + 1));
        assert(b@.skip(i as int).drop_first() =~= b@.skip(i + 1));
        i = i + 1;
    }
    i == a.len()
}

/// Whether no two of the texts in `s` are the same.
pub open spec fn distinct_texts(s: Seq<String>) -> bool {
    forall|i: int, j: int| 0 <= i < j < s.len() ==> s[i]@ != s[j]@
}

/// Whether `s` is in strictly increasing text order.
pub open spec fn strictly_sorted_texts(s: Seq<String>) -> bool {
    forall|i: int, j: int| 0 <= i < j < s.len() ==> text_le(s[i]@, s[j]@) && s[i]@ != s[j]@
}

/// Reordering keeps texts distinct.
proof fn lemma_distinct_texts_reordered(a: Seq<String>, b: Seq<String>)
    requires
        distinct_texts(a),
        a.to_multiset() == b.to_multiset(),
    ensures
        distinct_texts(b),
{
    broadcast use vstd::seq_lib::group_to_multiset_ensures;

    assert forall|i: int, j: int| 0 <= i < a.len() && 0 <= j < a.len() && i != j implies a[i]
        != a[j] by {
        if i < j {
            assert(a[i]@ != a[j]@);
        } else {
            assert(a[j]@ != a[i]@);
        }
    }
    assert(a.no_duplicates());
    a.lemma_multiset_has_no_duplicates();
    b.lemma_multiset_has_no_duplicates_conv();
    assert forall|i: int, j: int| 0 <= i < j < b.len() implies b[i]@ != b[j]@ by {
        assert(b.contains(b[i]));
        assert(b.contains(b[j]));
        vstd::seq_lib::to_multiset_contains(b, b[i]);
        vstd::seq_lib::to_multiset_contains(b, b[j]);
        vstd::seq_lib::to_multiset_contains(a, b[i]);
        vstd::seq_lib::to_multiset_contains(a, b[j]);
        assert(a.to_multiset().count(b[i]) > 0);
        assert(a.to_multiset().count(b[j]) > 0);
        let p = choose|p: int| 0 <= p < a.len() && a[p] == b[i];
        let q = choose|q: int| 0 <= q < a.len() && a[q] == b[j];
        assert(b[i] != b[j]);
        if p < q {
            assert(a[p]@ != a[q]@);
        } else {
            assert(a[q]@ != a[p]@);
        }
    }
}

/// The relative paths of the frontend source files among `entries`, in
/// text order.
pub fn select_source_files(entries: Vec<WalkEntry>) -> (files: Vec<String>)
    ensures
        sorted_texts(files@),
        files@.to_multiset() == source_paths(entries@).to_multiset(),
        distinct_texts(source_paths(entries@)) ==> strictly_sorted_texts(files@),
{
    broadcast use vstd::seq_lib::group_to_multiset_ensures;

    let ghost all = entries@;
    let ghost pred = |e: WalkEntry| is_source_entry(e);
    let ghost path_of = |e: WalkEntry| e.relative_path;
    let mut kept: Vec<String> = Vec::new();
    for e in it: entries.into_iter()
        invariant
            it.seq() == all,
            pred == (|e: WalkEntry| is_source_entry(e)),
            path_of == (|e: WalkEntry| e.relative_path),
            kept@ == all.take(it.index() as int).filter(pred).map_values(path_of),
    {
        let ghost k = it.index();
        let ghost ev = e;
        proof {
            all.take(k as int).lemma_filter_push(e, pred);
            assert(all.take(k + 1) =~= all.take(k as int).push(e));
        }
        let ghost prev = kept@;
        let source = e.is_file && !e.relative_path.as_str().is_empty() && match extension(
            e.relative_path.as_str(),
        ) {
            Some(x) => is_source_extension(x.as_str()),
            None => false,
        };
        assert(source == pred(ev));
        if source {
            kept.push(e.relative_path);
            assert(kept@ =~= all.take(k + 1).filter(pred).map_values(path_of));
        }
    }
    assert(all.take(all.len() as int) =~= all);
    let ghost chosen = kept@;
    let mut files: Vec<String> = Vec::new();
    let mut keys: Vec<Vec<char>> = Vec::new();
    for s in it: kept.into_iter()
        invariant
            it.seq() == chosen,
            files@.len() == keys@.len(),
            forall|k: int| 0 <= k < keys@.len() ==> #[trigger] keys@[k]@ == files@[k]@,
            sorted_texts(files@),
            files@.to_multiset() == chosen.take(it.index() as int).to_multiset(),
    {
        let ghost k = it.index();
        let key = chars_of(s.as_str());
        let mut p: usize = 0;
        while p < keys.len() && chars_le(&keys[p], &key)
            invariant
                p <= keys@.len(),
                forall|j: int| 0 <= j < p ==> text_le(keys@[j]@, key@),
            decreases keys@.len() - p,
        {
            p = p + 1;
        }
        let ghost before = files@;
        proof {
            assert forall|j: int| 0 <= j < p implies text_le(#[trigger] before[j]@, key@) by {
                assert(keys@[j]@ == files@[j]@);
            }
            if p < keys@.len() {
                assert(keys@[p as int]@ == files@[p as int]@);
                lemma_text_le_total(keys@[p as int]@, key@);
            }
            assert forall|j: int| p <= j < before.len() implies text_le(key@, #[trigger] before[j]@) by {
                assert(text_le(before[p as int]@, before[j]@) || p == j);
                if p < j {
                    lemma_text_le_transitive(key@, before[p as int]@, before[j]@);
                }
            }
            assert(chosen.take(k + 1) =~= chosen.take(k as int).push(s));
        }
        let ghost sv = s;
        keys.insert(p, key);
        files.insert(p, s);
        proof {
            assert(files@ == before.insert(p as int, sv));
            vstd::seq_lib::to_multiset_insert(before, p as int, sv);
            vstd::seq_lib::to_multiset_build(chosen.take(k as int), sv);
        }
        assert forall|i: int, j: int| 0 <= i < j < files@.len() implies text_le(
            files@[i]@,
            files@[j]@,
        ) by {
            if j < p {
                assert(files@[i] == before[i] && files@[j] == before[j]);
            } else if j == p {
                assert(files@[i] == before[i]);
            } else if i < p {
                assert(files@[i] == before[i] && files@[j] == before[j - 1]);
                lemma_text_le_transitive(before[i]@, key@, before[j - 1]@);
            } else if i == p {
                assert(files@[j] == before[j - 1]);
            } else {
                assert(files@[i] == before[i - 1] && files@[j] == before[j - 1]);
            }
        }
    }
    assert(chosen.take(chosen.len() as int) =~= chosen);
    proof {
        if distinct_texts(source_paths(entries@)) {
            lemma_distinct_texts_reordered(source_paths(entries@), files@);
        }
    }
    files
}

} // verus!
