//! Paths as text: the final component of a path and its extension.
//!
//! A path is a sequence of components separated by `/`. Empty components and
//! components `.` do not count, so `a/b/`, `a/b/.` and `a//b` all end in `b`.

use vstd::prelude::*;

use crate::text::{chars_of, string_of};

verus! {

/// The position after the last separator of `p`, or zero.
pub open spec fn segment_start(p: Seq<char>) -> int
    decreases p.len(),
{
    if p.len() == 0 {
        0
    } else if p.last() == '/' {
        p.len() as int
    } else {
        segment_start(p.drop_last())
    }
}

/// The last component of `p` that is neither empty nor `.`, if there is one.
pub open spec fn last_component(p: Seq<char>) -> Option<Seq<char>>
    decreases p.len(),
{
    let start = segment_start(p);
    let segment = p.skip(start);
    if segment.len() == 0 || segment == seq!['.'] {
        if 0 < start <= p.len() {
            last_component(p.take(start - 1))
        } else {
            None
        }
    } else {
        Some(segment)
    }
}

/// The name that `p` ends in: its last component, unless that is `..`.
pub open spec fn file_name_of(p: Seq<char>) -> Option<Seq<char>> {
    match last_component(p) {
        Some(name) => if name == seq!['.', '.'] {
            None
        } else {
            Some(name)
        },
        None => None,
    }
}

/// The position of the last `.` in `name`, or -1.
pub open spec fn last_dot(name: Seq<char>) -> int
    decreases name.len(),
{
    if name.len() == 0 {
        -1
    } else if name.last() == '.' {
        name.len() - 1
    } else {
        last_dot(name.drop_last())
    }
}

/// The extension of `p`: what follows the last `.` in its file name. A path
/// without a file name has none, nor has a name without a `.`, nor one whose
/// only `.` is its first character.
pub open spec fn extension_of(p: Seq<char>) -> Option<Seq<char>> {
    match file_name_of(p) {
        Some(name) => if last_dot(name) > 0 {
            Some(name.skip(last_dot(name) + 1))
        } else {
            None
        },
        None => None,
    }
}

/// `segment_start(p)` is the position `start` when a separator stands before
/// it and none after it.
pub proof fn lemma_segment_start(p: Seq<char>, start: int)
    requires
        0 <= start <= p.len(),
        start > 0 ==> p[start - 1] == '/',
        forall|k: int| start <= k < p.len() ==> #[trigger] p[k] != '/',
    ensures
        segment_start(p) == start,
    decreases p.len(),
{
    if start < p.len() {
        let front = p.drop_last();
        assert forall|k: int| start <= k < front.len() implies #[trigger] front[k] != '/' by {
            assert(front[k] == p[k]);
        }
        lemma_segment_start(front, start);
    }
}

/// `last_dot(name)` is the position `dot` when a `.` stands there and none
/// after it; it is -1 when `name` holds no `.`.
pub proof fn lemma_last_dot(name: Seq<char>, dot: int)
    requires
        -1 <= dot < name.len(),
        dot >= 0 ==> name[dot] == '.',
        forall|k: int| dot < k < name.len() ==> #[trigger] name[k] != '.',
    ensures
        last_dot(name) == dot,
    decreases name.len(),
{
    if dot + 1 < name.len() {
        let front = name.drop_last();
        assert forall|k: int| dot < k < front.len() implies #[trigger] front[k] != '.' by {
            assert(front[k] == name[k]);
        }
        lemma_last_dot(front, dot);
    }
}

/// The last segment of a path lies within the path and holds no separator.
pub proof fn lemma_segment_bounds(p: Seq<char>)
    ensures
        0 <= segment_start(p) <= p.len(),
        forall|k: int| segment_start(p) <= k < p.len() ==> #[trigger] p[k] != '/',
    decreases p.len(),
{
    if p.len() > 0 && p.last() != '/' {
        let front = p.drop_last();
        lemma_segment_bounds(front);
        assert forall|k: int| segment_start(p) <= k < p.len() implies #[trigger] p[k] != '/' by {
            if k < front.len() {
                assert(p[k] == front[k]);
            }
        }
    }
}

/// A file name is a single component: it is not empty, holds no separator,
/// and is neither `.` nor `..`.
pub proof fn lemma_file_name_is_component(p: Seq<char>)
    ensures
        file_name_of(p) matches Some(name) ==> {
            &&& name.len() > 0
            &&& !name.contains('/')
            &&& name != seq!['.']
            &&& name != seq!['.', '.']
        },
    decreases p.len(),
{
    lemma_segment_bounds(p);
    let start = segment_start(p);
    let segment = p.skip(start);
    if segment.len() == 0 || segment == seq!['.'] {
        if start > 0 {
            lemma_file_name_is_component(p.take(start - 1));
        }
    } else {
        assert forall|k: int| 0 <= k < segment.len() implies #[trigger] segment[k] != '/' by {
            assert(segment[k] == p[k + start]);
        }
    }
}

/// Finds the file name of the path `v`: the positions where it begins and
/// ends.
fn file_name_bounds(v: &Vec<char>) -> (r: Option<(usize, usize)>)
    ensures
        match r {
            Some((from, to)) => from < to <= v.len() && file_name_of(v@) == Some(
                v@.subrange(from as int, to as int),
            ),
            None => file_name_of(v@) is None,
        },
{
    let mut end: usize = v.len();
    assert(v@.take(end as int) =~= v@);
    loop
        invariant
            end <= v.len(),
            last_component(v@) == last_component(v@.take(end as int)),
        decreases end,
    {
        let ghost p = v@.take(end as int);
        let mut start: usize = end;
        while start > 0 && v[start - 1] != '/'
            invariant
                start <= end <= v.len(),
                forall|k: int| start <= k < end ==> #[trigger] v@[k] != '/',
            decreases start,
        {
            start -= 1;
        }
        proof {
            lemma_segment_start(p, start as int);
            assert(p.skip(start as int) =~= v@.subrange(start as int, end as int));
        }
        let dot = end - start == 1 && v[start] == '.';
        proof {
            if dot {
                assert(p.skip(start as int) =~= seq!['.']);
            } else if end - start == 1 {
                assert(p.skip(start as int)[0] != '.');
            }
        }
        if end == start || dot {
            if start == 0 {
                return None;
            }
            end = start - 1;
            assert(p.take(start - 1) =~= v@.take(end as int));
        } else {
            let parent = end - start == 2 && v[start] == '.' && v[start + 1] == '.';
            proof {
                let segment = p.skip(start as int);
                if parent {
                    assert(segment =~= seq!['.', '.']);
                } else if end - start == 2 {
                    assert(segment[0] != '.' || segment[1] != '.');
                }
            }
            if parent {
                return None;
            }
            return Some((start, end));
        }
    }
}

/// Returns the file name of `path`.
pub fn file_name(path: &str) -> (name: Option<String>)
    ensures
        match file_name_of(path@) {
            Some(n) => name is Some && name->0@ == n,
            None => name is None,
        },
{
    let v = chars_of(path);
    match file_name_bounds(&v) {
        Some((from, to)) => Some(string_of(&v, from, to)),
        None => None,
    }
}

/// Returns the extension of `path`.
pub fn extension(path: &str) -> (ext: Option<String>)
    ensures
        match extension_of(path@) {
            Some(e) => ext is Some && ext->0@ == e,
            None => ext is None,
        },
{
    let v = chars_of(path);
    match file_name_bounds(&v) {
        None => None,
        Some((from, to)) => {
            let ghost name = v@.subrange(from as int, to as int);
            let mut dot: usize = to;
            while dot > from && v[dot - 1] != '.'
                invariant
                    from <= dot <= to <= v.len(),
                    forall|k: int| dot <= k < to ==> #[trigger] v@[k] != '.',
                decreases dot,
            {
                dot -= 1;
            }
            proof {
                assert forall|k: int| dot - from - 1 < k < name.len() implies #[trigger] name[k]
                    != '.' by {
                    assert(name[k] == v@[k + from]);
                }
                lemma_last_dot(name, dot - from - 1);
            }
            if dot - from <= 1 {
                None
            } else {
                assert(name.skip(dot - from) =~= v@.subrange(dot as int, to as int));
                Some(string_of(&v, dot, to))
            }
        },
    }
}

/// A path that ends in `.` and a word without separator or `.` has that word
/// as its extension, unless the `.` begins its file name: then it has none.
pub proof fn lemma_extension_of_suffix(p: Seq<char>, word: Seq<char>)
    requires
        0 < word.len() < p.len(),
        p.skip(p.len() - word.len()) == word,
        p[p.len() - word.len() - 1] == '.',
        forall|k: int| 0 <= k < word.len() ==> #[trigger] word[k] != '.' && word[k] != '/',
    ensures
        extension_of(p) == Some(word) || extension_of(p) is None,
{
    let at = p.len() - word.len() - 1;
    assert forall|k: int| at < k < p.len() implies #[trigger] p[k] != '/' && p[k] != '.' by {
        assert(p[k] == word[k - at - 1]);
    }
    let start = choose_segment_start(p, at);
    lemma_segment_start(p, start);
    let segment = p.skip(start);
    assert(segment[at - start] == '.');
    assert(segment.last() == p[p.len() - 1]);
    assert(segment.len() >= 2);
    assert(segment != seq!['.']);
    assert(segment != seq!['.', '.']) by {
        assert(seq!['.', '.'].last() == '.');
    }
    assert forall|k: int| at - start < k < segment.len() implies #[trigger] segment[k] != '.' by {
        assert(segment[k] == p[k + start]);
    }
    lemma_last_dot(segment, at - start);
    assert(segment.skip(at - start + 1) =~= word);
}

/// The start of the last segment of `p`, where no separator stands at or
/// after `at`.
proof fn choose_segment_start(p: Seq<char>, at: int) -> (start: int)
    requires
        0 <= at < p.len(),
        forall|k: int| at <= k < p.len() ==> #[trigger] p[k] != '/',
    ensures
        0 <= start <= at,
        start > 0 ==> p[start - 1] == '/',
        forall|k: int| start <= k < p.len() ==> #[trigger] p[k] != '/',
    decreases at,
{
    if at == 0 || p[at - 1] == '/' {
        at
    } else {
        choose_segment_start(p, at - 1)
    }
}

} // verus!
