//! Paths as text, with `/` between their components.

use vstd::prelude::*;

use crate::text::chars_of;
use crate::text::string_of;

verus! {

/// `name` below `base`; an absolute `name` replaces `base`.
pub open spec fn path_join(base: Seq<char>, name: Seq<char>) -> Seq<char> {
    if name.len() > 0 && name[0] == '/' {
        name
    } else if base.len() > 0 && base.last() != '/' {
        base + seq!['/'] + name
    } else {
        base + name
    }
}

/// A path without trailing separators and trailing `.` components. A path
/// that consists of nothing else keeps its root, or its first `.`.
pub open spec fn strip_tail(p: Seq<char>) -> Seq<char>
    decreases p.len(),
{
    if p.len() < 2 {
        p
    } else if p.last() == '/' || (p.last() == '.' && p[p.len() - 2] == '/') {
        strip_tail(p.drop_last())
    } else {
        p
    }
}

/// The number of characters after the last separator.
pub open spec fn last_len(p: Seq<char>) -> nat
    decreases p.len(),
{
    if p.len() == 0 || p.last() == '/' {
        0
    } else {
        1 + last_len(p.drop_last())
    }
}

/// The last component of a path, unless that is the root, `.` or `..`.
pub open spec fn path_file_name(p: Seq<char>) -> Option<Seq<char>> {
    let q = strip_tail(p);
    let last = q.skip(q.len() - last_len(q));
    if last.len() == 0 || last == seq!['.'] || last == seq!['.', '.'] {
        None
    } else {
        Some(last)
    }
}

/// A path without its last component. An empty path and the root have no parent.
pub open spec fn path_parent(p: Seq<char>) -> Option<Seq<char>> {
    let q = strip_tail(p);
    if last_len(q) == 0 {
        None
    } else {
        Some(strip_tail(q.take(q.len() - last_len(q))))
    }
}

/// Joins a path and a name.
pub fn joined_path(base: &str, name: &str) -> (r: String)
    ensures
        r@ == path_join(base@, name@),
{
    let b = chars_of(base);
    let n = chars_of(name);
    let mut r = String::new();
    if !(n.len() > 0 && n[0] == '/') {
        r.append(base);
        if b.len() > 0 && b[b.len() - 1] != '/' {
            r.push('/');
            assert(r@ == base@ + seq!['/']);
        }
    }
    r.append(name);
    r
}

/// What `last_len` counts: characters without a separator, back to one or to the
/// beginning of the path.
pub proof fn lemma_last_len_bounds(p: Seq<char>)
    ensures
        last_len(p) <= p.len(),
        forall|i: int| p.len() - last_len(p) <= i < p.len() ==> p[i] != '/',
        last_len(p) == p.len() || p[p.len() - last_len(p) - 1] == '/',
    decreases p.len(),
{
    if p.len() > 0 && p.last() != '/' {
        let q = p.drop_last();
        lemma_last_len_bounds(q);
        assert forall|i: int| p.len() - last_len(p) <= i < p.len() implies p[i] != '/' by {
            if i < p.len() - 1 {
                assert(q[i] == p[i]);
            }
        }
    }
}

/// `last_len` is the only number that it can be.
pub proof fn lemma_last_len(p: Seq<char>, n: int)
    requires
        0 <= n <= p.len(),
        forall|i: int| p.len() - n <= i < p.len() ==> p[i] != '/',
        n == p.len() || p[p.len() - n - 1] == '/',
    ensures
        last_len(p) == n,
{
    lemma_last_len_bounds(p);
}

fn stripped_tail(p: &[char]) -> (r: &[char])
    ensures
        r@ == strip_tail(p@),
{
    let mut end: usize = p.len();
    assert(p@.take(end as int) == p@);
    while end >= 2 && (p[end - 1] == '/' || (p[end - 1] == '.' && p[end - 2] == '/'))
        invariant
            end <= p@.len(),
            strip_tail(p@) == strip_tail(p@.take(end as int)),
        decreases end,
    {
        assert(p@.take(end as int).drop_last() == p@.take(end - 1));
        end = end - 1;
    }
    vstd::slice::slice_subrange(p, 0, end)
}

fn last_start(q: &[char]) -> (r: usize)
    ensures
        r == q@.len() - last_len(q@),
        r <= q@.len(),
{
    let mut start: usize = q.len();
    while start > 0 && q[start - 1] != '/'
        invariant
            start <= q@.len(),
            forall|i: int| start <= i < q@.len() ==> q@[i] != '/',
        decreases start,
    {
        start = start - 1;
    }
    proof {
        lemma_last_len(q@, q@.len() - start);
    }
    start
}

/// The last component of a path.
pub fn file_name(path: &str) -> (r: Option<String>)
    ensures
        match r {
            Some(name) => path_file_name(path@) == Some(name@),
            None => path_file_name(path@) is None,
        },
{
    let chars = chars_of(path);
    let q = stripped_tail(chars.as_slice());
    let start: usize = last_start(q);
    let last = vstd::slice::slice_subrange(q, start, q.len());
    assert(last@ == q@.skip(start as int));
    if last.len() == 0 || (last.len() == 1 && last[0] == '.') || (last.len() == 2 && last[0] == '.'
        && last[1] == '.') {
        assert(last@.len() == 1 ==> last@ == seq!['.']);
        assert(last@.len() == 2 ==> last@ == seq!['.', '.']);
        None
    } else {
        assert(last@ != seq!['.']) by {
            if last@ == seq!['.'] {
                assert(last@[0] == '.');
            }
        }
        assert(last@ != seq!['.', '.']) by {
            if last@ == seq!['.', '.'] {
                assert(last@[0] == '.' && last@[1] == '.');
            }
        }
        Some(string_of(last))
    }
}

/// A path without its last component.
pub fn parent(path: &str) -> (r: Option<String>)
    ensures
        match r {
            Some(dir) => path_parent(path@) == Some(dir@),
            None => path_parent(path@) is None,
        },
{
    let chars = chars_of(path);
    let q = stripped_tail(chars.as_slice());
    let start: usize = last_start(q);
    if start == q.len() {
        None
    } else {
        let dir = vstd::slice::slice_subrange(q, 0, start);
        assert(dir@ == q@.take(start as int));
        Some(string_of(stripped_tail(dir)))
    }
}

/// Whether a path begins at the root of the file system.
pub open spec fn is_absolute(p: Seq<char>) -> bool {
    p.len() > 0 && p[0] == '/'
}

/// Whether a name is one plain path component.
pub open spec fn is_component(name: Seq<char>) -> bool {
    &&& name.len() > 0
    &&& forall|i: int| 0 <= i < name.len() ==> name[i] != '/'
    &&& name != seq!['.']
    &&& name != seq!['.', '.']
}

/// The last component of a joined path is the name that was joined.
pub proof fn law_join_file_name(base: Seq<char>, name: Seq<char>)
    requires
        is_component(name),
    ensures
        path_file_name(path_join(base, name)) == Some(name),
{
    let p = path_join(base, name);
    assert(name[0] != '/');
    assert(p.last() == name.last());
    assert(name.last() != '/');
    if p.len() >= 2 && p.last() == '.' && p[p.len() - 2] == '/' {
        if name.len() >= 2 {
            assert(p[p.len() - 2] == name[name.len() - 2]);
        } else {
            assert(name == seq!['.']);
        }
        assert(false);
    }
    assert(strip_tail(p) == p);
    let b = p.len() - name.len();
    assert forall|i: int| p.len() - name.len() <= i < p.len() implies p[i] != '/' by {
        assert(p[i] == name[i - b]);
    }
    lemma_last_len(p, name.len() as int);
    assert(p.skip(b) == name);
}

/// Distinct components below one directory are distinct paths.
pub proof fn law_join_injective(base: Seq<char>, a: Seq<char>, b: Seq<char>)
    requires
        is_component(a),
        is_component(b),
        path_join(base, a) == path_join(base, b),
    ensures
        a == b,
{
    law_join_file_name(base, a);
    law_join_file_name(base, b);
}

} // verus!
