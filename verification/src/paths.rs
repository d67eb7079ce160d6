//! Unix-style path handling: joining an OS path (held by its bytes, which
//! need not be UTF-8) with a name written as text, and the extension of a
//! path's last component, for text paths and for OS paths.
use vstd::prelude::*;
use vstd::string::*;
use vstd::slice::{slice_subrange, slice_to_vec};
use vstd::utf8::{encode_scalar, encode_utf8, has_width_1_encoding};
use crate::text::{chars_of, rfind_char, substring};

verus! {

/// The last component of a path whose components are separated by `slash`,
/// as `Path::file_name` sees it: empty components and `.` components are
/// skipped, and a path that ends in `..`, in `.` alone, or in the root has
/// none. (`dot` is the element `.` is written with.)
pub open spec fn last_component<T>(p: Seq<T>, slash: T, dot: T) -> Option<Seq<T>>
    decreases p.len(),
{
    match p.index_of_last(slash) {
        None => {
            if p.len() == 0 || p == seq![dot] || p == seq![dot, dot] {
                None
            } else {
                Some(p)
            }
        },
        Some(k) => {
            let piece = p.subrange(k + 1, p.len() as int);
            if piece.len() == 0 || piece == seq![dot] {
                if 0 <= k < p.len() {
                    last_component(p.subrange(0, k), slash, dot)
                } else {
                    None
                }
            } else if piece == seq![dot, dot] {
                None
            } else {
                Some(piece)
            }
        },
    }
}

/// The extension of a file name: what follows its last `dot`, unless that
/// `dot` is the name's first element or there is none.
pub open spec fn name_extension_of<T>(name: Seq<T>, dot: T) -> Option<Seq<T>> {
    match name.index_of_last(dot) {
        Some(k) => if k > 0 {
            Some(name.subrange(k + 1, name.len() as int))
        } else {
            None
        },
        None => None,
    }
}

/// The extension of a path's last component, as `Path::extension` gives it.
pub open spec fn path_extension_of<T>(p: Seq<T>, slash: T, dot: T) -> Option<Seq<T>> {
    match last_component(p, slash, dot) {
        Some(name) => name_extension_of(name, dot),
        None => None,
    }
}

/// The last component of a Unix path written as text.
pub open spec fn file_name(p: Seq<char>) -> Option<Seq<char>> {
    last_component(p, '/', '.')
}

/// The extension of a file name written as text.
pub open spec fn name_extension(name: Seq<char>) -> Option<Seq<char>> {
    name_extension_of(name, '.')
}

/// The extension of the last component of a Unix path written as text.
pub open spec fn path_extension(p: Seq<char>) -> Option<Seq<char>> {
    path_extension_of(p, '/', '.')
}

/// The byte `/`.
pub open spec fn slash_byte() -> u8 {
    0x2f
}

/// The byte `.`.
pub open spec fn dot_byte() -> u8 {
    0x2e
}

/// The extension of the last component of a Unix path held as the bytes of
/// an OS string, as `Path::extension` gives it.
pub open spec fn os_path_extension(p: Seq<u8>) -> Option<Seq<u8>> {
    path_extension_of(p, slash_byte(), dot_byte())
}

/// The OS path `dir` (its bytes, which need not be UTF-8) joined with the
/// text `name` as a Unix `PathBuf::push` joins them: an absolute `name`
/// replaces `dir`; otherwise a `/` goes between them unless `dir` is empty or
/// already ends with one. `name` is held by its UTF-8 bytes.
pub open spec fn joined_os(dir: Seq<u8>, name: Seq<char>) -> Seq<u8> {
    if name.len() > 0 && name[0] == '/' {
        encode_utf8(name)
    } else if dir.len() == 0 || dir.last() == slash_byte() {
        dir + encode_utf8(name)
    } else {
        dir + seq![slash_byte()] + encode_utf8(name)
    }
}

/// Encoding text as UTF-8 goes piece by piece.
pub proof fn lemma_encode_utf8_concat(a: Seq<char>, b: Seq<char>)
    ensures
        encode_utf8(a + b) == encode_utf8(a) + encode_utf8(b),
    decreases a.len(),
{
    if a.len() == 0 {
        assert(a + b =~= b);
        assert(encode_utf8(a) + encode_utf8(b) =~= encode_utf8(b));
    } else {
        assert((a + b).drop_first() =~= a.drop_first() + b);
        assert((a + b)[0] == a[0]);
        lemma_encode_utf8_concat(a.drop_first(), b);
        assert(encode_utf8(a + b) =~= encode_utf8(a) + encode_utf8(b));
    }
}

/// Non-empty text has a non-empty encoding.
pub proof fn lemma_encode_utf8_nonempty(t: Seq<char>)
    requires
        t.len() > 0,
    ensures
        encode_utf8(t).len() > 0,
{
    assert(encode_scalar(t[0] as u32).len() > 0);
}

/// Setting the top bit of a byte gives a byte of at least `0x80`.
proof fn lemma_high_byte(y: u8)
    by (bit_vector)
    ensures
        (0x80u8 | y) >= 0x80,
        (0xC0u8 | y) >= 0x80,
        (0xE0u8 | y) >= 0x80,
        (0xF0u8 | y) >= 0x80,
{
}

/// An ASCII byte occurs in the UTF-8 encoding of a text only where the text
/// holds that character: every byte of a longer encoding is at least `0x80`.
pub proof fn lemma_encode_utf8_ascii_byte(t: Seq<char>, c: char)
    requires
        (c as u32) < 0x80,
        encode_utf8(t).contains(c as u8),
    ensures
        t.contains(c),
    decreases t.len(),
{
    let e = encode_utf8(t);
    let k = choose|k: int| 0 <= k < e.len() && e[k] == c as u8;
    let cu = c as u32;
    assert((cu as u8) < 0x80 && (cu as u8) == cu) by (bit_vector)
        requires
            cu < 0x80,
    ;
    assert(c as u8 == cu as u8);
    if t.len() > 0 {
        let s = t[0] as u32;
        let head = encode_scalar(s);
        let rest = encode_utf8(t.drop_first());
        assert(e == head + rest);
        if k < head.len() {
            vstd::utf8::char_is_scalar(t[0]);
            if has_width_1_encoding(s) {
                assert(head[k] == (s & 0x7F) as u8);
                assert(s == cu) by (bit_vector)
                    requires
                        (s & 0x7F) as u8 == cu as u8,
                        s <= 0x7F,
                        cu < 0x80,
                ;
                vstd::utf8::char_u32_cast(t[0], s);
                vstd::utf8::char_u32_cast(c, cu);
                assert(t[0] == c);
            } else {
                lemma_high_byte(((s >> 6) & 0x1F) as u8);
                lemma_high_byte(((s >> 12) & 0x0F) as u8);
                lemma_high_byte(((s >> 18) & 0x7) as u8);
                lemma_high_byte((s & 0x3F) as u8);
                lemma_high_byte(((s >> 6) & 0x3F) as u8);
                lemma_high_byte(((s >> 12) & 0x3F) as u8);
                if k == 0 {
                } else if k == 1 {
                } else if k == 2 {
                } else {
                }
                assert(head[k] >= 0x80);
            }
        } else {
            assert(rest[k - head.len()] == c as u8);
            lemma_encode_utf8_ascii_byte(t.drop_first(), c);
            let j = choose|j: int| 0 <= j < t.len() - 1 && t.drop_first()[j] == c;
            assert(t[j + 1] == c);
        }
    }
}

/// The last component of `<dir>/<name>` is `name`, for a name without the
/// separator that is not `.` or `..`.
pub proof fn lemma_last_component_of_joined<T>(dir: Seq<T>, name: Seq<T>, slash: T, dot: T)
    requires
        name.len() > 0,
        !name.contains(slash),
        name != seq![dot],
        name != seq![dot, dot],
    ensures
        last_component(dir + seq![slash] + name, slash, dot) == Some(name),
{
    let p = dir + seq![slash] + name;
    p.index_of_last_ensures(slash);
    assert(p[dir.len() as int] == slash);
    let k = p.index_of_last(slash).unwrap();
    if k > dir.len() {
        assert(name[k - dir.len() - 1] == slash);
    }
    assert(p.subrange(dir.len() as int + 1, p.len() as int) =~= name);
}

/// A file name split at its extension: `<stem>.<ext>` has the extension
/// `ext` where `stem` is not empty and `ext` has no dot.
pub proof fn lemma_name_extension_of_split<T>(stem: Seq<T>, ext: Seq<T>, dot: T)
    requires
        stem.len() > 0,
        !ext.contains(dot),
    ensures
        name_extension_of(stem + seq![dot] + ext, dot) == Some(ext),
{
    let name = stem + seq![dot] + ext;
    name.index_of_last_ensures(dot);
    assert(name[stem.len() as int] == dot);
    let k = name.index_of_last(dot).unwrap();
    if k > stem.len() {
        assert(ext[k - stem.len() - 1] == dot);
    }
    assert(name.subrange(stem.len() as int + 1, name.len() as int) =~= ext);
}

/// Joins the text `name` onto the OS path `dir` (see `joined_os`).
pub fn join_os(dir: &[u8], name: &str) -> (out: Vec<u8>)
    ensures
        out@ == joined_os(dir@, name@),
{
    let name_bytes = name.as_bytes();
    let n = name.unicode_len();
    if n > 0 && name.get_char(0) == '/' {
        return slice_to_vec(name_bytes);
    }
    let mut out = slice_to_vec(dir);
    let d = dir.len();
    if d > 0 && dir[d - 1] != 0x2f {
        out.push(0x2f);
    }
    let ghost before = out@;
    out.extend_from_slice(name_bytes);
    assert(out@ =~= before + encode_utf8(name@));
    out
}

/// The extension of the last component of `path` (see `path_extension`).
pub fn extension(path: &str) -> (out: Option<String>)
    ensures
        match path_extension(path@) {
            Some(e) => out matches Some(o) && o@ == e,
            None => out is None,
        },
{
    let cs = chars_of(path);
    let mut end: usize = cs.len();
    let mut start: usize = 0;
    assert(path@.subrange(0, end as int) == path@);
    loop
        invariant
            cs@ == path@,
            end <= cs@.len(),
            file_name(path@) == file_name(path@.subrange(0, end as int)),
        ensures
            start <= end <= cs@.len(),
            file_name(path@) == Some(path@.subrange(start as int, end as int)),
        decreases end,
    {
        let ghost p = path@.subrange(0, end as int);
        let slash = rfind_char(&cs, '/', 0, end);
        assert(cs@.subrange(0, end as int) == p);
        start = match slash {
            Some(k) => k + 1,
            None => 0,
        };
        assert(start <= end);
        let piece_len = end - start;
        let is_dot = piece_len == 1 && cs[start] == '.';
        let is_dotdot = piece_len == 2 && cs[start] == '.' && cs[start + 1] == '.';
        let ghost piece = p.subrange(start as int, end as int);
        assert(piece.len() == piece_len);
        assert(forall|j: int| 0 <= j < piece_len ==> piece[j] == cs@[start + j]);
        assert(is_dot <==> piece == seq!['.']) by {
            if is_dot {
                assert(piece =~= seq!['.']);
            }
            if piece == seq!['.'] {
                assert(piece[0] == cs@[start as int]);
            }
        }
        assert(is_dotdot <==> piece == seq!['.', '.']) by {
            if is_dotdot {
                assert(piece =~= seq!['.', '.']);
            }
            if piece == seq!['.', '.'] {
                assert(piece[0] == cs@[start as int]);
                assert(piece[1] == cs@[start + 1]);
            }
        }
        assert(piece == path@.subrange(start as int, end as int));
        match slash {
            Some(k) => {
                assert(p.index_of_last('/') == Some(k as int));
                assert(p.subrange(k + 1, p.len() as int) == piece);
            },
            None => {
                assert(p.index_of_last('/') is None);
            },
        }
        match slash {
            None => {
                assert(piece =~= p);
                if piece_len == 0 || is_dot || is_dotdot {
                    return None;
                }
                break;
            },
            Some(k) => {
                if piece_len == 0 || is_dot {
                    assert(p.subrange(0, k as int) =~= path@.subrange(0, k as int));
                    end = k;
                } else if is_dotdot {
                    return None;
                } else {
                    break;
                }
            },
        }
    }
    let ghost name = path@.subrange(start as int, end as int);
    let dot = rfind_char(&cs, '.', start, end);
    assert(cs@.subrange(start as int, end as int) == name);
    match dot {
        Some(k) => {
            if k > start {
                assert(name.subrange(k - start + 1, name.len() as int) == path@.subrange(
                    k + 1,
                    end as int,
                ));
                Some(substring(path, k + 1, end))
            } else {
                None
            }
        },
        None => None,
    }
}

/// The position of the last `b` among `bs[lo..hi]`, counted from the start
/// of `bs`.
fn rfind_byte(bs: &[u8], b: u8, lo: usize, hi: usize) -> (found: Option<usize>)
    requires
        lo <= hi <= bs@.len(),
    ensures
        bs@.subrange(lo as int, hi as int).index_of_last(b) == match found {
            Some(i) => Some(i - lo),
            None => None::<int>,
        },
        match found {
            Some(i) => lo <= i < hi && bs@[i as int] == b && forall|j: int|
                i < j < hi ==> bs@[j] != b,
            None => forall|j: int| lo <= j < hi ==> bs@[j] != b,
        },
{
    let ghost part = bs@.subrange(lo as int, hi as int);
    proof {
        part.index_of_last_ensures(b);
    }
    let mut i = hi;
    while i > lo
        invariant
            lo <= i <= hi <= bs@.len(),
            part == bs@.subrange(lo as int, hi as int),
            forall|j: int| i <= j < hi ==> bs@[j] != b,
            match part.index_of_last(b) {
                Some(index) => {
                    &&& part.contains(b)
                    &&& 0 <= index < part.len()
                    &&& part[index] == b
                    &&& forall|j: int| 0 <= index < j < part.len() ==> part[j] != b
                },
                None => !part.contains(b),
            },
        decreases i - lo,
    {
        if bs[i - 1] == b {
            assert(part[i - 1 - lo] == b);
            return Some(i - 1);
        }
        i = i - 1;
    }
    assert(!part.contains(b)) by {
        if part.contains(b) {
            let k = choose|k: int| 0 <= k < part.len() && part[k] == b;
            assert(bs@[lo + k] == b);
        }
    }
    None
}

/// The extension of the last component of the OS path `path` (see
/// `os_path_extension`).
pub fn os_extension(path: &[u8]) -> (out: Option<Vec<u8>>)
    ensures
        match os_path_extension(path@) {
            Some(e) => out matches Some(o) && o@ == e,
            None => out is None,
        },
{
    let mut end: usize = path.len();
    let mut start: usize = 0;
    assert(path@.subrange(0, end as int) == path@);
    loop
        invariant
            end <= path@.len(),
            last_component(path@, slash_byte(), dot_byte()) == last_component(
                path@.subrange(0, end as int),
                slash_byte(),
                dot_byte(),
            ),
        ensures
            start <= end <= path@.len(),
            last_component(path@, slash_byte(), dot_byte()) == Some(
                path@.subrange(start as int, end as int),
            ),
        decreases end,
    {
        let ghost p = path@.subrange(0, end as int);
        let slash = rfind_byte(path, 0x2fu8, 0, end);
        assert(path@.subrange(0, end as int) == p);
        start = match slash {
            Some(k) => k + 1,
            None => 0,
        };
        assert(start <= end);
        let piece_len = end - start;
        let is_dot = piece_len == 1 && path[start] == 0x2eu8;
        let is_dotdot = piece_len == 2 && path[start] == 0x2eu8 && path[start + 1] == 0x2eu8;
        let ghost piece = p.subrange(start as int, end as int);
        assert(piece.len() == piece_len);
        assert(forall|j: int| 0 <= j < piece_len ==> piece[j] == path@[start + j]);
        assert(is_dot <==> piece == seq![0x2eu8]) by {
            if is_dot {
                assert(piece =~= seq![0x2eu8]);
            }
            if piece == seq![0x2eu8] {
                assert(piece[0] == path@[start as int]);
            }
        }
        assert(is_dotdot <==> piece == seq![0x2eu8, 0x2eu8]) by {
            if is_dotdot {
                assert(piece =~= seq![0x2eu8, 0x2eu8]);
            }
            if piece == seq![0x2eu8, 0x2eu8] {
                assert(piece[0] == path@[start as int]);
                assert(piece[1] == path@[start + 1]);
            }
        }
        assert(piece == path@.subrange(start as int, end as int));
        match slash {
            Some(k) => {
                assert(p.index_of_last(0x2fu8) == Some(k as int));
                assert(p.subrange(k + 1, p.len() as int) == piece);
            },
            None => {
                assert(p.index_of_last(0x2fu8) is None);
            },
        }
        match slash {
            None => {
                assert(piece =~= p);
                if piece_len == 0 || is_dot || is_dotdot {
                    return None;
                }
                break;
            },
            Some(k) => {
                if piece_len == 0 || is_dot {
                    assert(p.subrange(0, k as int) =~= path@.subrange(0, k as int));
                    end = k;
                } else if is_dotdot {
                    return None;
                } else {
                    break;
                }
            },
        }
    }
    let ghost name = path@.subrange(start as int, end as int);
    let dot = rfind_byte(path, 0x2eu8, start, end);
    assert(path@.subrange(start as int, end as int) == name);
    match dot {
        Some(k) => {
            if k > start {
                assert(name.subrange(k - start + 1, name.len() as int) == path@.subrange(
                    k + 1,
                    end as int,
                ));
                Some(slice_to_vec(slice_subrange(path, k + 1, end)))
            } else {
                None
            }
        },
        None => None,
    }
}

} // verus!
