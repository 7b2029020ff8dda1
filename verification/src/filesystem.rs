//! Remote file entries and the joining of a listed name onto a directory.
//!
//! A name is read the way a Unix path is split into components: `/`
//! separates segments, empty segments and `.` segments after the first are
//! dropped, and a leading `.` segment stands for the current directory.
use vstd::prelude::*;

use crate::text::{chars_of, push_char, push_chars};

verus! {

/// One entry of a directory listing, as the device reports it.
#[derive(Debug, Clone)]
pub struct RemoteFile {
    pub name: String,
    pub is_directory: bool,
    pub size: Option<u64>,
}

/// The number of characters before the first `/` of `s` (all of `s` when it
/// holds none).
pub open spec fn segment_len(s: Seq<char>) -> nat
    decreases s.len(),
{
    if s.len() == 0 || s[0] == '/' {
        0
    } else {
        1 + segment_len(s.drop_first())
    }
}

/// `t` holds nothing but separators and `.` segments: every `.` stands
/// between two separators, or after a separator at the end.
pub open spec fn is_dot_trailer(t: Seq<char>) -> bool {
    forall|i: int|
        0 <= i < t.len() ==> (#[trigger] t[i] == '/' || (t[i] == '.' && i > 0 && t[i - 1] == '/'
            && (i + 1 == t.len() || t[i + 1] == '/')))
}

/// The single normal component that `name` consists of, or `None` when
/// `name` is empty, absolute, starts at `.`, is `..`, or has more than one
/// component.
pub open spec fn sole_component(name: Seq<char>) -> Option<Seq<char>> {
    let k = segment_len(name) as int;
    let seg = name.take(k);
    if k > 0 && seg != seq!['.'] && seg != seq!['.', '.'] && is_dot_trailer(name.skip(k)) {
        Some(seg)
    } else {
        None
    }
}

/// `base` followed by `component`, with a separator between them unless
/// `base` is empty or already ends in one.
pub open spec fn path_join(base: Seq<char>, component: Seq<char>) -> Seq<char> {
    if base.len() > 0 && base.last() != '/' {
        base.push('/') + component
    } else {
        base + component
    }
}

/// The path that `safe_join` gives for `base` and `name`.
pub open spec fn joined_path(base: Seq<char>, name: Seq<char>) -> Option<Seq<char>> {
    match sole_component(name) {
        Some(c) => Some(path_join(base, c)),
        None => None,
    }
}

proof fn lemma_segment_len(s: Seq<char>, k: int)
    requires
        0 <= k <= s.len(),
        forall|j: int| 0 <= j < k ==> s[j] != '/',
        k == s.len() || s[k] == '/',
    ensures
        segment_len(s) == k,
    decreases k,
{
    if k > 0 {
        lemma_segment_len(s.drop_first(), k - 1);
    }
}

proof fn lemma_segment_bounds(s: Seq<char>)
    ensures
        segment_len(s) <= s.len(),
        forall|j: int| 0 <= j < segment_len(s) ==> s[j] != '/',
        segment_len(s) == s.len() || s[segment_len(s) as int] == '/',
    decreases s.len(),
{
    if s.len() > 0 && s[0] != '/' {
        lemma_segment_bounds(s.drop_first());
        assert forall|j: int| 0 <= j < segment_len(s) implies s[j] != '/' by {
            if j > 0 {
                assert(s[j] == s.drop_first()[j - 1]);
            }
        }
    }
}

/// A name that `safe_join` accepts adds exactly one level below `base`: the
/// joined path is `base`, a separator where `base` lacks one, and a
/// non-empty component that begins the name, holds no `/`, and is neither
/// `.` nor `..`.
pub proof fn law_joined_path_is_one_level_below(base: Seq<char>, name: Seq<char>)
    requires
        joined_path(base, name) is Some,
    ensures
        ({
            let c = sole_component(name)->0;
            &&& c.len() > 0
            &&& c == name.take(c.len() as int)
            &&& forall|i: int| 0 <= i < c.len() ==> c[i] != '/'
            &&& c != seq!['.']
            &&& c != seq!['.', '.']
            &&& joined_path(base, name)->0 == path_join(base, c)
            &&& (path_join(base, c) == base + c || path_join(base, c) == base.push('/') + c)
        }),
{
    lemma_segment_bounds(name);
}

/// Every name that is one plain component is accepted, and is joined onto
/// `base` behind a separator unless `base` is empty or already ends in `/`:
/// a name that is not empty, holds no `/`, and is neither `.` nor `..`.
pub proof fn law_plain_names_are_joined(base: Seq<char>, name: Seq<char>)
    requires
        name.len() > 0,
        forall|j: int| 0 <= j < name.len() ==> name[j] != '/',
        name != seq!['.'],
        name != seq!['.', '.'],
    ensures
        joined_path(base, name) == Some(
            if base.len() > 0 && base[base.len() - 1] != '/' {
                base + seq!['/'] + name
            } else {
                base + name
            },
        ),
{
    lemma_segment_len(name, name.len() as int);
    assert(name.take(name.len() as int) =~= name);
    assert(name.skip(name.len() as int) =~= Seq::<char>::empty());
    assert(base.push('/') =~= base + seq!['/']);
}

/// Separators and `.` segments after a plain name change nothing: `a/`,
/// `a//` and `a/./` join as `a` does.
pub proof fn law_trailing_separators_are_ignored(base: Seq<char>, c: Seq<char>, t: Seq<char>)
    requires
        c.len() > 0,
        forall|j: int| 0 <= j < c.len() ==> c[j] != '/',
        c != seq!['.'],
        c != seq!['.', '.'],
        t.len() > 0,
        t[0] == '/',
        forall|j: int|
            0 <= j < t.len() ==> (#[trigger] t[j] == '/' || (t[j] == '.' && j > 0 && t[j - 1]
                == '/' && (j + 1 == t.len() || t[j + 1] == '/'))),
    ensures
        joined_path(base, c + t) == joined_path(base, c),
        joined_path(base, c) is Some,
{
    let name = c + t;
    lemma_segment_len(name, c.len() as int);
    assert(name.take(c.len() as int) =~= c);
    assert(name.skip(c.len() as int) =~= t);
    law_plain_names_are_joined(base, c);
}

/// Names that `safe_join` refuses: the empty name, absolute names, `.` and
/// `..` with whatever follows them, and names with a second component.
pub proof fn law_refused_names(base: Seq<char>, name: Seq<char>)
    ensures
        name.len() == 0 ==> joined_path(base, name) is None,
        name.len() > 0 && name[0] == '/' ==> joined_path(base, name) is None,
        name.len() > 0 && name[0] == '.' && (name.len() == 1 || name[1] == '/') ==> joined_path(
            base,
            name,
        ) is None,
        name.len() > 1 && name[0] == '.' && name[1] == '.' && (name.len() == 2 || name[2] == '/')
            ==> joined_path(base, name) is None,
        forall|i: int|
            0 < i < name.len() - 1 && name[i] == '/' && #[trigger] name[i + 1] != '/' && name[i
                + 1] != '.' ==> joined_path(base, name) is None,
{
    lemma_segment_bounds(name);
    let k = segment_len(name) as int;
    if name.len() > 0 && name[0] == '.' && (name.len() == 1 || name[1] == '/') {
        assert(k == 1) by {
            lemma_segment_len(name, 1);
        }
        assert(name.take(k) =~= seq!['.']);
    }
    if name.len() > 1 && name[0] == '.' && name[1] == '.' && (name.len() == 2 || name[2] == '/') {
        assert(k == 2) by {
            lemma_segment_len(name, 2);
        }
        assert(name.take(k) =~= seq!['.', '.']);
    }
    assert forall|i: int|
        0 < i < name.len() - 1 && name[i] == '/' && #[trigger] name[i + 1] != '/' && name[i + 1]
            != '.' implies joined_path(base, name) is None by {
        assert(k <= i);
        let t = name.skip(k);
        assert(t[i + 1 - k] == name[i + 1]);
    }
}

/// Joins `file_name` onto `base` when `file_name` is a single plain name.
/// Absolute names, `..` traversal, `.`, empty names and names with more than
/// one component are refused with `None`.
pub fn safe_join(base: &str, file_name: &str) -> (r: Option<String>)
    ensures
        r is Some <==> joined_path(base@, file_name@) is Some,
        r matches Some(p) ==> p@ == joined_path(base@, file_name@)->0,
{
    let v = chars_of(file_name);
    let n = v.len();
    let mut k: usize = 0;
    while k < n && v[k] != '/'
        invariant
            k <= n == v@.len(),
            forall|j: int| 0 <= j < k ==> v@[j] != '/',
        decreases n - k,
    {
        k += 1;
    }
    proof {
        lemma_segment_len(v@, k as int);
    }
    let ghost seg = v@.take(k as int);
    if k == 0 {
        return None;
    }
    if k == 1 && v[0] == '.' {
        assert(seg =~= seq!['.']);
        return None;
    }
    if k == 2 && v[0] == '.' && v[1] == '.' {
        assert(seg =~= seq!['.', '.']);
        return None;
    }
    assert(seg != seq!['.']) by {
        let dot = seq!['.'];
        assert(dot.len() == 1 && dot[0] == '.');
        if seg == dot {
            assert(seg[0] == v@[0]);
        }
    }
    assert(seg != seq!['.', '.']) by {
        let dots = seq!['.', '.'];
        assert(dots.len() == 2 && dots[0] == '.' && dots[1] == '.');
        if seg == dots {
            assert(seg[0] == v@[0] && seg[1] == v@[1]);
        }
    }
    let ghost t = v@.skip(k as int);
    let mut i: usize = k;
    while i < n
        invariant
            k <= i <= n == v@.len(),
            0 < k,
            t == v@.skip(k as int),
            v@ == file_name@,
            segment_len(v@) == k,
            seg == v@.take(k as int),
            seg != seq!['.'],
            seg != seq!['.', '.'],
            k < n ==> v@[k as int] == '/',
            forall|j: int|
                0 <= j < i - k ==> (#[trigger] t[j] == '/' || (t[j] == '.' && j > 0 && t[j - 1]
                    == '/' && (j + 1 == t.len() || t[j + 1] == '/'))),
        decreases n - i,
    {
        let c = v[i];
        let ok = c == '/' || (c == '.' && i > k && v[i - 1] == '/' && (i + 1 == n || v[i + 1]
            == '/'));
        if !ok {
            assert(!is_dot_trailer(t)) by {
                let j = i - k;
                assert(t[j] == c);
                if j > 0 {
                    assert(t[j - 1] == v@[i - 1]);
                }
                if j + 1 < t.len() {
                    assert(t[j + 1] == v@[i + 1]);
                }
            }
            return None;
        }
        assert(t[i - k] == c);
        i += 1;
    }
    assert(is_dot_trailer(t));
    let mut r = base.to_owned();
    let blen = base.unicode_len();
    if blen > 0 && base.get_char(blen - 1) != '/' {
        push_char(&mut r, '/');
    }
    push_chars(&mut r, &v, 0, k);
    assert(v@.subrange(0, k as int) =~= seg);
    Some(r)
}

} // verus!
