//! Character-level helpers on strings, each with an exact contract over the
//! string's character sequence.
use vstd::prelude::*;
use vstd::string::*;
use vstd::std_specs::iter::IteratorSpec;

verus! {

broadcast use vstd::string::group_string_axioms;

/// The characters of `s`, in order.
pub fn chars_of(s: &str) -> (out: Vec<char>)
    ensures
        out@ == s@,
{
    let mut it = s.chars();
    let mut out: Vec<char> = Vec::new();
    loop
        invariant
            out@ + it.remaining() == s@,
            it.decrease() is Some,
        ensures
            out@ == s@,
        decreases it.decrease()->0,
    {
        match it.next() {
            Some(c) => {
                out.push(c);
            },
            None => {
                break;
            },
        }
    }
    out
}

/// The characters of `s` from position `from` up to (not including) `to`.
pub fn substring(s: &str, from: usize, to: usize) -> (out: String)
    requires
        from <= to <= s@.len(),
    ensures
        out@ == s@.subrange(from as int, to as int),
{
    String::from_str(s.substring_char(from, to))
}

/// `a` followed by `b`.
pub fn concat(a: &str, b: &str) -> (out: String)
    ensures
        out@ == a@ + b@,
{
    let mut out = String::from_str(a);
    out.append(b);
    out
}

/// Whether `c` has the Unicode `White_Space` property, as
/// `char::is_whitespace` tests it: tab, line feed, vertical tab, form feed,
/// carriage return, space, next line, no-break space, ogham space mark, the
/// spaces U+2000 to U+200A, line and paragraph separator, narrow no-break
/// space, medium mathematical space and ideographic space.
pub open spec fn is_white_space(c: char) -> bool {
    ||| '\u{9}' <= c <= '\u{d}'
    ||| c == ' '
    ||| c == '\u{85}'
    ||| c == '\u{a0}'
    ||| c == '\u{1680}'
    ||| '\u{2000}' <= c <= '\u{200a}'
    ||| c == '\u{2028}'
    ||| c == '\u{2029}'
    ||| c == '\u{202f}'
    ||| c == '\u{205f}'
    ||| c == '\u{3000}'
}

/// Whether `s` holds nothing but white space (so that trimming it leaves
/// it empty).
pub fn is_blank(s: &str) -> (blank: bool)
    ensures
        blank == forall|i: int| 0 <= i < s@.len() ==> is_white_space(#[trigger] s@[i]),
{
    let cs = chars_of(s);
    let mut i: usize = 0;
    while i < cs.len()
        invariant
            cs@ == s@,
            i <= cs@.len(),
            forall|j: int| 0 <= j < i ==> is_white_space(#[trigger] s@[j]),
        decreases cs@.len() - i,
    {
        let c = cs[i];
        let white = ('\u{9}' <= c && c <= '\u{d}') || c == ' ' || c == '\u{85}' || c == '\u{a0}'
            || c == '\u{1680}' || ('\u{2000}' <= c && c <= '\u{200a}') || c == '\u{2028}' || c
            == '\u{2029}' || c == '\u{202f}' || c == '\u{205f}' || c == '\u{3000}';
        if !white {
            assert(!is_white_space(s@[i as int]));
            return false;
        }
        i = i + 1;
    }
    true
}

/// Whether `a` and `b` hold the same characters.
pub fn str_eq(a: &str, b: &str) -> (same: bool)
    ensures
        same == (a@ == b@),
{
    let x = String::from_str(a);
    let y = String::from_str(b);
    x == y
}


/// The position of the first `c` among `cs[lo..hi]`, counted from the start of `cs`.
pub fn find_char(cs: &Vec<char>, c: char, lo: usize, hi: usize) -> (found: Option<usize>)
    requires
        lo <= hi <= cs@.len(),
    ensures
        cs@.subrange(lo as int, hi as int).index_of_first(c) == match found {
            Some(i) => Some(i - lo),
            None => None::<int>,
        },
        match found {
            Some(i) => lo <= i < hi && cs@[i as int] == c && forall|j: int|
                lo <= j < i ==> cs@[j] != c,
            None => forall|j: int| lo <= j < hi ==> cs@[j] != c,
        },
{
    let ghost part = cs@.subrange(lo as int, hi as int);
    proof {
        part.index_of_first_ensures(c);
    }
    let mut i = lo;
    while i < hi
        invariant
            lo <= i <= hi <= cs@.len(),
            part == cs@.subrange(lo as int, hi as int),
            forall|j: int| lo <= j < i ==> cs@[j] != c,
            match part.index_of_first(c) {
                Some(index) => {
                    &&& part.contains(c)
                    &&& 0 <= index < part.len()
                    &&& part[index] == c
                    &&& forall|j: int| 0 <= j < index < part.len() ==> part[j] != c
                },
                None => !part.contains(c),
            },
        decreases hi - i,
    {
        if cs[i] == c {
            assert(part[i - lo] == c);
            return Some(i);
        }
        i = i + 1;
    }
    assert(!part.contains(c)) by {
        if part.contains(c) {
            let k = choose|k: int| 0 <= k < part.len() && part[k] == c;
            assert(cs@[lo + k] == c);
        }
    }
    None
}

/// The position of the last `c` among `cs[lo..hi]`, counted from the start of `cs`.
pub fn rfind_char(cs: &Vec<char>, c: char, lo: usize, hi: usize) -> (found: Option<usize>)
    requires
        lo <= hi <= cs@.len(),
    ensures
        cs@.subrange(lo as int, hi as int).index_of_last(c) == match found {
            Some(i) => Some(i - lo),
            None => None::<int>,
        },
        match found {
            Some(i) => lo <= i < hi && cs@[i as int] == c && forall|j: int|
                i < j < hi ==> cs@[j] != c,
            None => forall|j: int| lo <= j < hi ==> cs@[j] != c,
        },
{
    let ghost part = cs@.subrange(lo as int, hi as int);
    proof {
        part.index_of_last_ensures(c);
    }
    let mut i = hi;
    while i > lo
        invariant
            lo <= i <= hi <= cs@.len(),
            part == cs@.subrange(lo as int, hi as int),
            forall|j: int| i <= j < hi ==> cs@[j] != c,
            match part.index_of_last(c) {
                Some(index) => {
                    &&& part.contains(c)
                    &&& 0 <= index < part.len()
                    &&& part[index] == c
                    &&& forall|j: int| 0 <= index < j < part.len() ==> part[j] != c
                },
                None => !part.contains(c),
            },
        decreases i - lo,
    {
        if cs[i - 1] == c {
            assert(part[i - 1 - lo] == c);
            return Some(i - 1);
        }
        i = i - 1;
    }
    assert(!part.contains(c)) by {
        if part.contains(c) {
            let k = choose|k: int| 0 <= k < part.len() && part[k] == c;
            assert(cs@[lo + k] == c);
        }
    }
    None
}


/// Whether `lit` occurs in `cs` starting at position `pos`.
pub fn matches_at(cs: &Vec<char>, pos: usize, lit: &str) -> (found: bool)
    ensures
        found == (pos + lit@.len() <= cs@.len() && cs@.subrange(pos as int, pos + lit@.len())
            == lit@),
{
    let ls = chars_of(lit);
    if pos > cs.len() || ls.len() > cs.len() - pos {
        return false;
    }
    let mut i: usize = 0;
    while i < ls.len()
        invariant
            ls@ == lit@,
            pos + ls@.len() <= cs@.len() <= usize::MAX,
            i <= ls@.len(),
            forall|j: int| 0 <= j < i ==> cs@[pos + j] == ls@[j],
        decreases ls@.len() - i,
    {
        if cs[pos + i] != ls[i] {
            assert(cs@.subrange(pos as int, pos + lit@.len())[i as int] != lit@[i as int]);
            return false;
        }
        i = i + 1;
    }
    assert(cs@.subrange(pos as int, pos + lit@.len()) =~= lit@);
    true
}

} // verus!
