//! Unix path names as text: the last component, its extension, and joining.
//!
//! The model follows `std::path::Path` on Unix for the names lazydap handles:
//! `/` separates components, trailing separators and `.` components are
//! ignored, and a path is absolute when it starts with `/`.
use vstd::prelude::*;

use crate::text;

verus! {

/// The path without what `Path::components` skips at its end: trailing
/// separators, and `.` components after a separator. A `.` that is the
/// whole path is the current directory, and stays.
pub open spec fn trimmed_tail(p: Seq<char>) -> Seq<char>
    decreases p.len(),
{
    if p.len() > 0 && p.last() == '/' {
        trimmed_tail(p.drop_last())
    } else if p.len() >= 2 && p.last() == '.' && p[p.len() - 2] == '/' {
        trimmed_tail(p.drop_last())
    } else {
        p
    }
}

/// The last component of a path, as `Path::file_name` reads it: what
/// follows the last separator once the trailing separators and `.`
/// components are gone. `None` when that is empty, `.` or `..`.
pub open spec fn file_name(p: Seq<char>) -> Option<Seq<char>> {
    let q = trimmed_tail(p);
    let name = match text::last_index_of(q, '/') {
        Some(i) => q.subrange(i + 1, q.len() as int),
        None => q,
    };
    if name.len() == 0 || name == seq!['.'] || name == seq!['.', '.'] {
        None
    } else {
        Some(name)
    }
}

/// The extension of a file name: what follows its last `.`, unless that dot
/// is the name's first character.
pub open spec fn name_extension(name: Seq<char>) -> Option<Seq<char>> {
    match text::last_index_of(name, '.') {
        Some(i) => if i == 0 {
            None
        } else {
            Some(name.subrange(i + 1, name.len() as int))
        },
        None => None,
    }
}

/// `Path::extension`.
pub open spec fn extension(p: Seq<char>) -> Option<Seq<char>> {
    match file_name(p) {
        Some(name) => name_extension(name),
        None => None,
    }
}

pub open spec fn is_absolute(p: Seq<char>) -> bool {
    p.len() > 0 && p[0] == '/'
}

/// `Path::join`: an absolute `rest` replaces `base`; otherwise a separator is
/// put between them unless `base` is empty or already ends in one.
pub open spec fn join(base: Seq<char>, rest: Seq<char>) -> Seq<char> {
    if is_absolute(rest) {
        rest
    } else if base.len() == 0 || base.last() == '/' {
        base + rest
    } else {
        base + seq!['/'] + rest
    }
}

/// The bounds of the last component of `v`, when it has a usable one.
pub fn file_name_bounds(v: &Vec<char>) -> (r: Option<(usize, usize)>)
    ensures
        match r {
            Some((a, b)) => a <= b <= v@.len() && file_name(v@) == Some(
                v@.subrange(a as int, b as int),
            ),
            None => file_name(v@) is None,
        },
{
    let mut end = v.len();
    assert(v@.take(end as int) =~= v@);
    while end > 0 && (v[end - 1] == '/' || (end >= 2 && v[end - 1] == '.' && v[end - 2] == '/'))
        invariant
            end <= v@.len(),
            trimmed_tail(v@) == trimmed_tail(v@.take(end as int)),
        decreases end,
    {
        let ghost t = v@.take(end as int);
        assert(t.drop_last() =~= v@.take(end - 1));
        assert(t.last() == v@[end - 1]);
        if end >= 2 {
            assert(t[t.len() - 2] == v@[end - 2]);
        }
        end = end - 1;
    }
    let ghost q = v@.take(end as int);
    proof {
        if end >= 2 {
            assert(q[q.len() - 2] == v@[end - 2]);
        }
        if end > 0 {
            assert(q.last() == v@[end - 1]);
        }
    }
    assert(trimmed_tail(v@) == q);
    let mut start = end;
    while start > 0 && v[start - 1] != '/'
        invariant
            start <= end <= v@.len(),
            q == v@.take(end as int),
            forall|k: int| start <= k < end ==> v@[k] != '/',
        decreases start,
    {
        start = start - 1;
    }
    proof {
        text::lemma_last_index_of(q, '/');
        if start > 0 {
            assert(q[start - 1] == '/');
            text::lemma_last_index_of_unique(q, '/', start - 1);
            assert(q.subrange(start as int, q.len() as int) =~= v@.subrange(
                start as int,
                end as int,
            ));
        } else {
            assert forall|k: int| 0 <= k < q.len() implies q[k] != '/' by {}
            assert(q =~= v@.subrange(0, end as int));
        }
    }
    let len = end - start;
    if len == 0 {
        return None;
    }
    if len == 1 && v[start] == '.' {
        assert(v@.subrange(start as int, end as int) =~= seq!['.']);
        return None;
    }
    if len == 2 && v[start] == '.' && v[start + 1] == '.' {
        assert(v@.subrange(start as int, end as int) =~= seq!['.', '.']);
        return None;
    }
    proof {
        let name = v@.subrange(start as int, end as int);
        if name == seq!['.'] {
            assert(name[0] == v@[start as int]);
        }
        if name == seq!['.', '.'] {
            assert(name[0] == v@[start as int]);
            assert(name[1] == v@[start + 1]);
        }
    }
    Some((start, end))
}

/// The extension of a path, as a `String`, when it has one.
pub fn path_extension(p: &str) -> (r: Option<String>)
    ensures
        match r {
            Some(e) => extension(p@) == Some(e@),
            None => extension(p@) is None,
        },
{
    let v = text::chars_of(p);
    let (a, b) = match file_name_bounds(&v) {
        Some(bounds) => bounds,
        None => return None,
    };
    let ghost name = v@.subrange(a as int, b as int);
    let mut i = b;
    while i > a && v[i - 1] != '.'
        invariant
            a <= i <= b <= v@.len(),
            name == v@.subrange(a as int, b as int),
            forall|k: int| i <= k < b ==> v@[k] != '.',
        decreases i,
    {
        i = i - 1;
    }
    proof {
        text::lemma_last_index_of(name, '.');
    }
    if i == a {
        assert forall|k: int| 0 <= k < name.len() implies name[k] != '.' by {
            assert(name[k] == v@[a + k]);
        }
        return None;
    }
    proof {
        assert(name[i - 1 - a] == '.');
        assert forall|k: int| i - 1 - a < k < name.len() implies name[k] != '.' by {
            assert(name[k] == v@[a + k]);
        }
        text::lemma_last_index_of_unique(name, '.', i - 1 - a);
    }
    if i - 1 == a {
        return None;
    }
    assert(name.subrange(i - a, name.len() as int) =~= v@.subrange(i as int, b as int));
    Some(text::string_of_range(&v, i, b))
}

/// Whether a path starts at the root.
pub fn path_is_absolute(p: &str) -> (r: bool)
    ensures
        r == is_absolute(p@),
{
    let v = text::chars_of(p);
    v.len() > 0 && v[0] == '/'
}

/// `Path::join` on text.
pub fn join_path(base: &str, rest: &str) -> (r: String)
    ensures
        r@ == join(base@, rest@),
{
    if path_is_absolute(rest) {
        return text::owned(rest);
    }
    let bv = text::chars_of(base);
    let mut r = text::owned(base);
    if bv.len() > 0 && bv[bv.len() - 1] != '/' {
        text::push_char(&mut r, '/');
    }
    text::push_str(&mut r, rest);
    r
}

} // verus!
