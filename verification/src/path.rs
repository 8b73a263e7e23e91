//! Dotted command paths: a path is a sequence of names joined by `.`.

use vstd::prelude::*;
use vstd::string::{StrSliceExecFns, StringExecFns};

verus! {

/// The separator between the names of a path.
pub const DOT: char = '.';

/// A name can be a component of a path: it holds no separator.
pub open spec fn dot_free(name: Seq<char>) -> bool {
    forall|i: int| 0 <= i < name.len() ==> name[i] != DOT
}

/// The path made of `names`, separated by dots.
pub open spec fn join_dots(names: Seq<Seq<char>>) -> Seq<char>
    decreases names.len(),
{
    if names.len() == 0 {
        Seq::empty()
    } else if names.len() == 1 {
        names[0]
    } else {
        names[0] + seq![DOT] + join_dots(names.drop_first())
    }
}

/// Position of the first separator in `path`, or `path.len()` if it has none.
pub open spec fn first_dot(path: Seq<char>) -> int
    decreases path.len(),
{
    if path.len() == 0 || path[0] == DOT {
        0
    } else {
        1 + first_dot(path.drop_first())
    }
}

/// The components of `path`: what stands before, between and after its dots.
/// A path without a dot, the empty one too, is its own single component.
pub open spec fn split_dots(path: Seq<char>) -> Seq<Seq<char>>
    decreases path.len(),
{
    let i = first_dot(path);
    if 0 <= i < path.len() {
        seq![path.take(i)] + split_dots(path.skip(i + 1))
    } else {
        seq![path]
    }
}

/// `first_dot` finds a dot, and no dot stands before it.
pub proof fn lemma_first_dot(path: Seq<char>)
    ensures
        0 <= first_dot(path) <= path.len(),
        first_dot(path) < path.len() ==> path[first_dot(path)] == DOT,
        dot_free(path.take(first_dot(path))),
        dot_free(path) <==> first_dot(path) == path.len(),
    decreases path.len(),
{
    if path.len() == 0 || path[0] == DOT {
    } else {
        let rest = path.drop_first();
        lemma_first_dot(rest);
        let i = first_dot(rest);
        let head = path.take(i + 1);
        assert forall|k: int| 0 <= k < head.len() implies head[k] != DOT by {
            if k > 0 {
                assert(head[k] == rest.take(i)[k - 1]);
            }
        }
        if dot_free(path) {
            assert forall|k: int| 0 <= k < rest.len() implies rest[k] != DOT by {
                assert(rest[k] == path[k + 1]);
            }
        }
        if i == rest.len() {
            assert(path.take(i + 1) =~= path);
        }
    }
}

/// A dot-free prefix followed by a dot fixes where the first dot is.
pub proof fn lemma_first_dot_at(path: Seq<char>, i: int)
    requires
        0 <= i < path.len(),
        path[i] == DOT,
        dot_free(path.take(i)),
    ensures
        first_dot(path) == i,
    decreases i,
{
    if i == 0 {
    } else {
        assert(path.take(i)[0] == path[0]);
        let rest = path.drop_first();
        let head = rest.take(i - 1);
        assert forall|k: int| 0 <= k < head.len() implies head[k] != DOT by {
            assert(head[k] == path.take(i)[k + 1]);
        }
        lemma_first_dot_at(rest, i - 1);
    }
}

/// The path `rest` seen from outside a module named `prefix`.
pub open spec fn dotted(prefix: Seq<char>, rest: Seq<char>) -> Seq<char> {
    prefix + seq![DOT] + rest
}

/// Each of `paths` seen from outside a module named `prefix`.
pub open spec fn dotted_each(prefix: Seq<char>, paths: Seq<Seq<char>>) -> Seq<Seq<char>> {
    Seq::new(paths.len(), |t: int| dotted(prefix, paths[t]))
}

/// A path below a dot-free prefix splits into the prefix and the
/// components of the rest.
pub proof fn lemma_dotted(prefix: Seq<char>, rest: Seq<char>)
    requires
        dot_free(prefix),
    ensures
        first_dot(dotted(prefix, rest)) == prefix.len(),
        dotted(prefix, rest).take(prefix.len() as int) == prefix,
        dotted(prefix, rest).skip(prefix.len() as int + 1) == rest,
        !dot_free(dotted(prefix, rest)),
        split_dots(dotted(prefix, rest)) == seq![prefix] + split_dots(rest),
{
    let path = dotted(prefix, rest);
    let n = prefix.len() as int;
    assert(path.take(n) =~= prefix);
    assert(path.skip(n + 1) =~= rest);
    assert(path[n] == DOT);
    lemma_first_dot_at(path, n);
}

/// A path with a dot is what stands before its first dot, a dot, and what
/// follows.
pub proof fn lemma_undotted(path: Seq<char>)
    requires
        !dot_free(path),
    ensures
        0 <= first_dot(path) < path.len(),
        dot_free(path.take(first_dot(path))),
        path == dotted(path.take(first_dot(path)), path.skip(first_dot(path) + 1)),
        split_dots(path) == seq![path.take(first_dot(path))] + split_dots(
            path.skip(first_dot(path) + 1),
        ),
{
    lemma_first_dot(path);
    let i = first_dot(path);
    assert(path =~= dotted(path.take(i), path.skip(i + 1)));
}

/// Splitting never yields no component, and no component holds a dot.
pub proof fn lemma_split_parts(path: Seq<char>)
    ensures
        split_dots(path).len() >= 1,
        forall|k: int| 0 <= k < split_dots(path).len() ==> dot_free(#[trigger] split_dots(path)[k]),
        split_dots(path).len() == 1 <==> dot_free(path),
        dot_free(path) ==> split_dots(path) == seq![path],
    decreases path.len(),
{
    lemma_first_dot(path);
    let i = first_dot(path);
    if i < path.len() {
        lemma_split_parts(path.skip(i + 1));
    }
}

/// Joining the components of a path gives the path back.
pub proof fn lemma_join_split(path: Seq<char>)
    ensures
        join_dots(split_dots(path)) == path,
    decreases path.len(),
{
    lemma_first_dot(path);
    let i = first_dot(path);
    if i < path.len() {
        let rest = path.skip(i + 1);
        lemma_join_split(rest);
        lemma_split_parts(rest);
        let parts = split_dots(path);
        assert(parts.drop_first() =~= split_dots(rest));
        assert(path.take(i) + seq![DOT] + rest =~= path);
    }
}

/// Splitting a path made of dot-free names gives the names back.
pub proof fn lemma_split_join(names: Seq<Seq<char>>)
    requires
        names.len() >= 1,
        forall|k: int| 0 <= k < names.len() ==> dot_free(#[trigger] names[k]),
    ensures
        split_dots(join_dots(names)) == names,
    decreases names.len(),
{
    if names.len() == 1 {
        lemma_split_parts(names[0]);
        assert(names =~= seq![names[0]]);
    } else {
        let rest = names.drop_first();
        let path = join_dots(names);
        let n = names[0].len() as int;
        assert(forall|k: int| 0 <= k < rest.len() ==> dot_free(#[trigger] rest[k])) by {
            assert forall|k: int| 0 <= k < rest.len() implies dot_free(#[trigger] rest[k]) by {
                assert(rest[k] == names[k + 1]);
            }
        }
        lemma_split_join(rest);
        assert(path.take(n) =~= names[0]);
        assert(path.skip(n + 1) =~= join_dots(rest));
        lemma_first_dot_at(path, n);
        assert(split_dots(path) =~= names);
    }
}

/// Whether `name` holds a dot, and so cannot be a component of a path.
pub fn has_dot(name: &str) -> (found: bool)
    ensures
        found == !dot_free(name@),
{
    let mut found = false;
    for c in iter: name.chars()
        invariant
            iter.seq() == name@,
            found == exists|k: int| 0 <= k < iter.index() && name@[k] == DOT,
    {
        if c == DOT {
            found = true;
        }
    }
    found
}

/// The path `rest` under `prefix`: both, with a dot between them.
pub fn join(prefix: &str, rest: &str) -> (path: String)
    ensures
        path@ == dotted(prefix@, rest@),
{
    proof {
        reveal_strlit(".");
    }
    let path = prefix.to_owned().concat(".").concat(rest);
    assert(path@ =~= dotted(prefix@, rest@));
    path
}

/// Each of `paths` under `prefix`.
pub fn join_each(prefix: &str, paths: &Vec<String>) -> (out: Vec<String>)
    ensures
        out.deep_view() == dotted_each(prefix@, paths.deep_view()),
{
    let mut out: Vec<String> = Vec::new();
    let mut t: usize = 0;
    while t < paths.len()
        invariant
            t <= paths.len(),
            out.len() == t,
            forall|u: int| 0 <= u < t ==> out[u]@ == dotted(prefix@, paths[u]@),
        decreases paths.len() - t,
    {
        out.push(join(prefix, paths[t].as_str()));
        t += 1;
    }
    assert(out.deep_view() =~= dotted_each(prefix@, paths.deep_view()));
    out
}

/// Splits `path` at its dots.
pub fn split(path: &str) -> (parts: Vec<String>)
    ensures
        parts.deep_view() == split_dots(path@),
{
    let n = path.unicode_len();
    let mut parts: Vec<String> = Vec::new();
    let mut start: usize = 0;
    let mut i: usize = 0;
    assert(path@.skip(0) =~= path@);
    for c in iter: path.chars()
        invariant
            iter.seq() == path@,
            n == path@.len(),
            i == iter.index(),
            start <= i,
            dot_free(path@.subrange(start as int, i as int)),
            split_dots(path@) == parts.deep_view() + split_dots(path@.skip(start as int)),
    {
        if c == DOT {
            let part = path.substring_char(start, i).to_owned();
            proof {
                let tail = path@.skip(start as int);
                assert(tail.take(i - start) =~= path@.subrange(start as int, i as int));
                lemma_first_dot_at(tail, i - start);
                assert(tail.skip(i - start + 1) =~= path@.skip(i + 1));
                assert(parts.deep_view().push(part@) + split_dots(path@.skip(i + 1))
                    =~= parts.deep_view() + split_dots(tail));
            }
            let ghost before = parts.deep_view();
            parts.push(part);
            assert(parts.deep_view() =~= before.push(part@));
            start = i + 1;
            assert(path@.subrange(start as int, start as int) =~= Seq::<char>::empty());
        } else {
            proof {
                let grown = path@.subrange(start as int, i + 1);
                assert forall|k: int| 0 <= k < grown.len() implies grown[k] != DOT by {
                    if k < i - start {
                        assert(path@.subrange(start as int, i as int)[k] != DOT);
                    }
                }
            }
        }
        i += 1;
    }
    let last = path.substring_char(start, n).to_owned();
    proof {
        assert(path@.skip(start as int) =~= path@.subrange(start as int, n as int));
        lemma_split_parts(last@);
    }
    let ghost before = parts.deep_view();
    parts.push(last);
    assert(parts.deep_view() =~= before.push(last@));
    assert(before.push(last@) =~= before + seq![last@]);
    parts
}

} // verus!
