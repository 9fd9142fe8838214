//! File paths as text: the final component of a path, its stem and its
//! extension, with `/` as the only separator.

use vstd::prelude::*;
use vstd::string::*;
use crate::text::{chars_of, string_of};

verus! {

/// The index of the last occurrence of `c` in `s`, or `-1` when `c` does not
/// occur.
pub open spec fn last_index_of(s: Seq<char>, c: char) -> int
    decreases s.len(),
{
    if s.len() == 0 {
        -1
    } else if s.last() == c {
        s.len() - 1
    } else {
        last_index_of(s.drop_last(), c)
    }
}

/// `last_index_of` names an occurrence of `c` behind which `c` does not occur
/// again, and is `-1` exactly when `c` does not occur at all.
pub proof fn lemma_last_index_of(s: Seq<char>, c: char)
    ensures
        -1 <= last_index_of(s, c) < s.len(),
        last_index_of(s, c) >= 0 ==> s[last_index_of(s, c)] == c,
        forall|j: int| last_index_of(s, c) < j < s.len() ==> s[j] != c,
    decreases s.len(),
{
    if s.len() > 0 && s.last() != c {
        let front = s.drop_last();
        lemma_last_index_of(front, c);
        assert forall|j: int| last_index_of(s, c) < j < s.len() implies s[j] != c by {
            if j < front.len() {
                assert(front[j] == s[j]);
            }
        }
    }
}

/// The text behind the last `/` of `path`: all of `path` when it holds none.
pub open spec fn last_component(path: Seq<char>) -> Seq<char> {
    path.subrange(last_index_of(path, '/') + 1, path.len() as int)
}

/// `path` without what counts for nothing at its end: separators, and `.`
/// behind a separator. So `a/b/`, `a/b//` and `a/b/.` are all `a/b`.
pub open spec fn without_trailing(path: Seq<char>) -> Seq<char>
    decreases path.len(),
{
    if path.len() > 0 && path.last() == '/' {
        without_trailing(path.drop_last())
    } else if path.len() >= 2 && path.last() == '.' && path[path.len() - 2] == '/' {
        without_trailing(path.take(path.len() - 2))
    } else {
        path
    }
}

/// The file name of `path`: the last component of `path` without what counts
/// for nothing at its end, unless that component is empty, `.` or `..`,
/// which name no file.
pub open spec fn file_name(path: Seq<char>) -> Option<Seq<char>> {
    let name = last_component(without_trailing(path));
    if name.len() == 0 || name == seq!['.'] || name == seq!['.', '.'] {
        None
    } else {
        Some(name)
    }
}

/// The extension of `path`: what follows the last `.` of its file name. A
/// file name without a `.`, or whose only `.` is its first character, has no
/// extension.
pub open spec fn extension(path: Seq<char>) -> Option<Seq<char>> {
    match file_name(path) {
        None => None,
        Some(name) => {
            let dot = last_index_of(name, '.');
            if dot <= 0 {
                None
            } else {
                Some(name.subrange(dot + 1, name.len() as int))
            }
        },
    }
}

/// The stem of `path`: its file name without the extension and the `.` before
/// it.
pub open spec fn file_stem(path: Seq<char>) -> Option<Seq<char>> {
    match file_name(path) {
        None => None,
        Some(name) => {
            let dot = last_index_of(name, '.');
            if dot <= 0 {
                Some(name)
            } else {
                Some(name.subrange(0, dot))
            }
        },
    }
}

/// A file name is its stem where it has no extension, and else its stem, a
/// `.` and its extension: nothing of the name is lost between the two, and
/// the extension holds no `.`.
pub proof fn law_name_splits(path: Seq<char>)
    requires
        file_name(path) is Some,
    ensures
        file_stem(path) is Some,
        match extension(path) {
            Some(ext) => file_name(path)->0 == file_stem(path)->0 + seq!['.'] + ext && !ext.contains(
                '.',
            ),
            None => file_name(path) == file_stem(path),
        },
{
    let name = file_name(path)->0;
    let dot = last_index_of(name, '.');
    lemma_last_index_of(name, '.');
    if dot > 0 {
        let ext = name.subrange(dot + 1, name.len() as int);
        assert(name =~= name.subrange(0, dot) + seq!['.'] + ext);
        assert forall|i: int| 0 <= i < ext.len() implies ext[i] != '.' by {
            assert(ext[i] == name[dot + 1 + i]);
        }
    }
}

/// `dir` and `name` put together as one path: a `/` is set between them
/// unless `dir` is empty or already ends in one.
pub open spec fn joined(dir: Seq<char>, name: Seq<char>) -> Seq<char> {
    if dir.len() == 0 || dir.last() == '/' {
        dir + name
    } else {
        dir.push('/') + name
    }
}

/// Where the last occurrence of `c` in `v[from..to]` stands, as an index into
/// `v`.
pub(crate) fn find_last(v: &Vec<char>, from: usize, to: usize, c: char) -> (found: Option<usize>)
    requires
        from <= to <= v.len(),
    ensures
        match found {
            Some(i) => from <= i < to && i - from == last_index_of(
                v@.subrange(from as int, to as int),
                c,
            ),
            None => last_index_of(v@.subrange(from as int, to as int), c) == -1,
        },
{
    let mut k: usize = to;
    while k > from
        invariant
            from <= k <= to <= v.len(),
            last_index_of(v@.subrange(from as int, to as int), c) == last_index_of(
                v@.subrange(from as int, k as int),
                c,
            ),
        decreases k,
    {
        let ghost part = v@.subrange(from as int, k as int);
        if v[k - 1] == c {
            assert(part.last() == c);
            return Some(k - 1);
        }
        assert(part.drop_last() =~= v@.subrange(from as int, k - 1));
        k = k - 1;
    }
    None
}

/// The bounds of the file name inside `v`, if `v` names a file.
fn name_bounds(v: &Vec<char>) -> (bounds: Option<(usize, usize)>)
    ensures
        match bounds {
            Some((from, to)) => from <= to <= v.len() && file_name(v@) == Some(
                v@.subrange(from as int, to as int),
            ),
            None => file_name(v@) is None,
        },
{
    let mut len: usize = v.len();
    assert(v@.take(len as int) =~= v@);
    while len > 0 && (v[len - 1] == '/' || (len >= 2 && v[len - 1] == '.' && v[len - 2] == '/'))
        invariant
            len <= v.len(),
            without_trailing(v@) == without_trailing(v@.take(len as int)),
        decreases len,
    {
        let ghost kept = v@.take(len as int);
        if v[len - 1] == '/' {
            assert(kept.drop_last() =~= v@.take(len - 1));
            len = len - 1;
        } else {
            assert(kept.take(kept.len() - 2) =~= v@.take(len - 2));
            len = len - 2;
        }
    }
    let ghost kept = v@.take(len as int);
    assert(without_trailing(kept) == kept);
    assert(v@.subrange(0, len as int) =~= kept);
    let from = match find_last(v, 0, len, '/') {
        Some(i) => i + 1,
        None => 0,
    };
    let ghost name = v@.subrange(from as int, len as int);
    assert(name =~= last_component(kept));
    if from == len {
        None
    } else if len - from == 1 && v[from] == '.' {
        assert(name =~= seq!['.']);
        None
    } else if len - from == 2 && v[from] == '.' && v[from + 1] == '.' {
        assert(name =~= seq!['.', '.']);
        None
    } else {
        assert(name != seq!['.']) by {
            if name == seq!['.'] {
                assert(name.len() == 1 && name[0] == '.');
            }
        }
        assert(name != seq!['.', '.']) by {
            if name == seq!['.', '.'] {
                assert(name.len() == 2 && name[0] == '.' && name[1] == '.');
            }
        }
        Some((from, len))
    }
}

/// The bounds of the stem and of the extension inside `v`.
fn split_bounds(v: &Vec<char>) -> (bounds: Option<(usize, usize, Option<(usize, usize)>)>)
    ensures
        match bounds {
            Some((from, mid, ext)) => {
                &&& from <= mid <= v.len()
                &&& file_stem(v@) == Some(v@.subrange(from as int, mid as int))
                &&& match ext {
                    Some((start, end)) => start <= end <= v.len() && extension(v@) == Some(
                        v@.subrange(start as int, end as int),
                    ),
                    None => extension(v@) is None,
                }
            },
            None => file_stem(v@) is None && extension(v@) is None,
        },
{
    match name_bounds(v) {
        None => None,
        Some((from, to)) => {
            let ghost name = v@.subrange(from as int, to as int);
            match find_last(v, from, to, '.') {
                Some(dot) => {
                    if dot == from {
                        Some((from, to, None))
                    } else {
                        assert(name.subrange(0, dot - from) =~= v@.subrange(
                            from as int,
                            dot as int,
                        ));
                        assert(name.subrange(dot - from + 1, name.len() as int) =~= v@.subrange(
                            dot + 1,
                            to as int,
                        ));
                        Some((from, dot, Some((dot + 1, to))))
                    }
                },
                None => Some((from, to, None)),
            }
        },
    }
}

/// The extension of the file that `path` names.
pub fn extension_of(path: &str) -> (ext: Option<String>)
    ensures
        match ext {
            Some(e) => extension(path@) == Some(e@),
            None => extension(path@) is None,
        },
{
    let v = chars_of(path);
    match split_bounds(&v) {
        Some((_, _, Some((start, end)))) => Some(string_of(&v, start, end)),
        _ => None,
    }
}

/// The stem of the file that `path` names.
pub fn file_stem_of(path: &str) -> (stem: Option<String>)
    ensures
        match stem {
            Some(s) => file_stem(path@) == Some(s@),
            None => file_stem(path@) is None,
        },
{
    let v = chars_of(path);
    match split_bounds(&v) {
        Some((from, mid, _)) => Some(string_of(&v, from, mid)),
        None => None,
    }
}

/// The path of `name` inside the directory `dir`.
pub fn join(dir: &str, name: &str) -> (path: String)
    ensures
        path@ == joined(dir@, name@),
{
    let d = chars_of(dir);
    let mut path = String::new();
    path.append(dir);
    if d.len() > 0 && d[d.len() - 1] != '/' {
        path.push('/');
    }
    path.append(name);
    assert(path@ =~= joined(dir@, name@));
    path
}

} // verus!
