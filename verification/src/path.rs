//! Where a project lives on disk: the folder that a remote path names, and that
//! folder under a base directory.
//!
//! A path is read as segments between `/`. Empty segments (a doubled or trailing
//! slash) and `.` segments carry no name; a path that ends in `..` names nothing.

use crate::text::{chars_of, lemma_last_index, lemma_no_index, slice};
use vstd::prelude::*;
use vstd::string::*;

verus! {

/// Where the last segment of `p` begins: just after its last `/`, or at the front.
pub open spec fn segment_start(p: Seq<char>) -> int {
    match p.index_of_last('/') {
        Some(i) => i + 1,
        None => 0,
    }
}

/// Whether a segment carries no name of its own: it is empty or a single dot.
pub open spec fn is_blank(segment: Seq<char>) -> bool {
    segment.len() == 0 || segment == seq!['.']
}

/// The last segment of `p` that is a name, if `p` ends in one.
pub open spec fn final_component(p: Seq<char>) -> Option<Seq<char>>
    decreases p.len(),
{
    let start = segment_start(p);
    let segment = p.subrange(start, p.len() as int);
    if p.len() == 0 {
        None
    } else if is_blank(segment) {
        if 0 < start <= p.len() {
            final_component(p.subrange(0, start - 1))
        } else {
            None
        }
    } else if segment == seq!['.', '.'] {
        None
    } else {
        Some(segment)
    }
}

/// `name` without its extension: what stands before its last `.`, unless that
/// dot is the first character or there is none.
pub open spec fn strip_extension(name: Seq<char>) -> Seq<char> {
    match name.index_of_last('.') {
        Some(i) => if 0 < i < name.len() {
            name.subrange(0, i)
        } else {
            name
        },
        None => name,
    }
}

/// The folder that a checkout of `path` is kept in: the final component of
/// `path`, stripped of its extension.
pub open spec fn folder_name(path: Seq<char>) -> Option<Seq<char>> {
    match final_component(path) {
        Some(name) => Some(strip_extension(name)),
        None => None,
    }
}

/// `name` under the directory `base`.
pub open spec fn join_path(base: Seq<char>, name: Seq<char>) -> Seq<char> {
    if base.len() == 0 || base.last() == '/' {
        base + name
    } else {
        base + seq!['/'] + name
    }
}

/// The local folder of a checkout of `path`, for a process working in `base`.
pub open spec fn local_path(base: Seq<char>, path: Seq<char>) -> Option<Seq<char>> {
    match folder_name(path) {
        Some(folder) => Some(join_path(base, folder)),
        None => None,
    }
}

/// A final component is one segment with a name: it is not empty, holds no
/// `/`, and is neither `.` nor `..`.
pub proof fn lemma_final_component(p: Seq<char>)
    ensures
        final_component(p) matches Some(name) ==> name.len() > 0 && !name.contains('/') && name
            != seq!['.'] && name != seq!['.', '.'],
    decreases p.len(),
{
    p.index_of_last_ensures('/');
    let start = segment_start(p);
    let segment = p.subrange(start, p.len() as int);
    if p.len() > 0 {
        if is_blank(segment) {
            if 0 < start <= p.len() {
                lemma_final_component(p.subrange(0, start - 1));
            }
        } else if segment != seq!['.', '.'] {
            assert forall|k: int| 0 <= k < segment.len() implies segment[k] != '/' by {
                assert(segment[k] == p[start + k]);
                if start == 0 {
                    assert(p.contains(p[k]));
                }
            }
        }
    }
}

/// The folder of a checkout is one segment: it is not empty and holds no `/`,
/// so the local path lies directly under the base directory.
pub proof fn lemma_folder_is_one_segment(path: Seq<char>)
    ensures
        folder_name(path) matches Some(folder) ==> folder.len() > 0 && !folder.contains('/'),
{
    lemma_final_component(path);
    if let Some(name) = final_component(path) {
        name.index_of_last_ensures('.');
        let folder = strip_extension(name);
        assert forall|k: int| 0 <= k < folder.len() implies folder[k] != '/' by {
            assert(folder[k] == name[k]);
            assert(name.contains(name[k]));
        }
    }
}

/// The start of the segment that ends at `end`, found by walking back to the
/// nearest `/`.
fn segment_begin(chars: &Vec<char>, end: usize) -> (start: usize)
    requires
        end <= chars@.len(),
    ensures
        start <= end,
        start == segment_start(chars@.subrange(0, end as int)),
{
    let mut start: usize = end;
    while start > 0 && chars[start - 1] != '/'
        invariant
            start <= end <= chars@.len(),
            forall|k: int| start <= k < end ==> chars@[k] != '/',
        decreases start,
    {
        start = start - 1;
    }
    proof {
        let p = chars@.subrange(0, end as int);
        if start > 0 {
            lemma_last_index(p, '/', start - 1);
        } else {
            lemma_no_index(p, '/');
        }
    }
    start
}

/// The bounds of the final component of `chars`.
fn final_component_bounds(chars: &Vec<char>) -> (r: Option<(usize, usize)>)
    ensures
        match r {
            Some((start, end)) => start < end <= chars@.len() && final_component(chars@) == Some(
                chars@.subrange(start as int, end as int),
            ),
            None => final_component(chars@) is None,
        },
{
    let mut end: usize = chars.len();
    proof {
        assert(chars@.subrange(0, end as int) == chars@);
    }
    while end > 0
        invariant
            end <= chars@.len(),
            final_component(chars@) == final_component(chars@.subrange(0, end as int)),
        decreases end,
    {
        let start = segment_begin(chars, end);
        let ghost p = chars@.subrange(0, end as int);
        let ghost segment = p.subrange(start as int, end as int);
        assert(segment == chars@.subrange(start as int, end as int));
        let len: usize = end - start;
        if len == 0 || (len == 1 && chars[start] == '.') {
            assert(is_blank(segment)) by {
                if len == 1 {
                    assert(segment == seq!['.']);
                }
            }
            if start == 0 {
                return None;
            }
            proof {
                assert(p.subrange(0, start - 1) == chars@.subrange(0, start - 1));
            }
            end = start - 1;
        } else if len == 2 && chars[start] == '.' && chars[start + 1] == '.' {
            assert(segment == seq!['.', '.']);
            assert(!is_blank(segment));
            return None;
        } else {
            assert(!is_blank(segment)) by {
                if segment == seq!['.'] {
                    assert(segment.len() == 1);
                    assert(segment[0] == '.');
                }
            }
            assert(segment != seq!['.', '.']) by {
                if segment == seq!['.', '.'] {
                    assert(segment.len() == 2);
                    assert(segment[0] == '.');
                    assert(segment[1] == '.');
                }
            }
            return Some((start, end));
        }
    }
    None
}

/// The folder that a checkout of `path` is kept in, or `None` where `path`
/// ends in no name.
pub fn folder_of(path: &str) -> (r: Option<String>)
    ensures
        r.deep_view() == folder_name(path@),
{
    let chars = chars_of(path);
    match final_component_bounds(&chars) {
        None => None,
        Some((start, end)) => {
            let ghost name = chars@.subrange(start as int, end as int);
            let mut dot: usize = end;
            while dot > start && chars[dot - 1] != '.'
                invariant
                    start <= dot <= end <= chars@.len(),
                    forall|k: int| dot <= k < end ==> chars@[k] != '.',
                decreases dot,
            {
                dot = dot - 1;
            }
            proof {
                if dot > start {
                    lemma_last_index(name, '.', dot - 1 - start);
                } else {
                    lemma_no_index(name, '.');
                }
            }
            if dot > start + 1 {
                assert(name.subrange(0, dot - 1 - start) == path@.subrange(
                    start as int,
                    dot - 1,
                ));
                Some(slice(path, start, dot - 1))
            } else {
                Some(slice(path, start, end))
            }
        },
    }
}

/// `name` under the directory `base`.
pub fn join_under(base: &str, name: &str) -> (r: String)
    ensures
        r@ == join_path(base@, name@),
{
    let n: usize = base.unicode_len();
    let mut out = base.to_owned();
    if n > 0 && base.get_char(n - 1) != '/' {
        out.append("/");
        proof {
            reveal_strlit("/");
            assert("/"@ == seq!['/']);
        }
    }
    out.append(name);
    out
}

} // verus!
