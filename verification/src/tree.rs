//! A directory tree as it was read from a volume, and its files in the order
//! in which a walk meets them.
use crate::winpath::slashed;
use vstd::prelude::*;

verus! {

/// What stands at a name: a file, a directory with its entries, or neither.
pub enum Node {
    File,
    Dir(Vec<Entry>),
    Other,
}

/// One entry of a directory.
pub struct Entry {
    pub name: String,
    pub node: Node,
}

/// The path of `name` in the directory `dir`; the root has no name.
pub open spec fn path_in(dir: Seq<char>, name: Seq<char>) -> Seq<char> {
    if dir.len() == 0 {
        name
    } else {
        dir + "/"@ + name
    }
}

/// The path of `name` in the directory `dir`.
pub fn join(dir: &str, name: &str) -> (r: String)
    ensures
        r@ == path_in(dir@, name@),
{
    if dir.is_empty() {
        name.to_owned()
    } else {
        dir.to_owned().concat("/").concat(name)
    }
}

/// The files below the entries `es` of the directory `dir`, which lies `depth`
/// deep: the name and the path of each, with slashes, in the order of a walk
/// that enters a directory where it meets it and goes at most `limit` deep.
pub open spec fn files_under(es: Seq<Entry>, dir: Seq<char>, depth: nat, limit: nat) -> Seq<
    (Seq<char>, Seq<char>),
>
    decreases limit + 1 - depth, es.len(),
{
    if depth > limit || es.len() == 0 {
        Seq::empty()
    } else {
        let path = path_in(dir, es[0].name@);
        (match es[0].node {
            Node::File => seq![(es[0].name@, slashed(path))],
            Node::Dir(sub) => files_under(sub@, path, depth + 1, limit),
            Node::Other => Seq::empty(),
        }) + files_under(es.skip(1), dir, depth, limit)
    }
}

/// The path of the first file in `fs` whose name is wanted.
pub open spec fn first_path(
    fs: Seq<(Seq<char>, Seq<char>)>,
    wanted: spec_fn(Seq<char>) -> bool,
) -> Option<Seq<char>>
    decreases fs.len(),
{
    if fs.len() == 0 {
        None
    } else if wanted(fs[0].0) {
        Some(fs[0].1)
    } else {
        first_path(fs.skip(1), wanted)
    }
}

/// The first file in a list of one.
pub proof fn first_path_of_one(f: (Seq<char>, Seq<char>), wanted: spec_fn(Seq<char>) -> bool)
    ensures
        first_path(seq![f], wanted) == (if wanted(f.0) {
            Some(f.1)
        } else {
            None
        }),
{
    reveal_with_fuel(first_path, 2);
    assert(seq![f].skip(1) =~= Seq::empty());
}

/// `a`, or `b` where `a` is missing.
pub open spec fn or_else(a: Option<Seq<char>>, b: Option<Seq<char>>) -> Option<Seq<char>> {
    match a {
        Some(p) => Some(p),
        None => b,
    }
}

/// The first file in two lists is that of the first list, where it has one.
pub proof fn first_path_of_two(
    a: Seq<(Seq<char>, Seq<char>)>,
    b: Seq<(Seq<char>, Seq<char>)>,
    wanted: spec_fn(Seq<char>) -> bool,
)
    ensures
        first_path(a + b, wanted) == or_else(first_path(a, wanted), first_path(b, wanted)),
    decreases a.len(),
{
    if a.len() == 0 {
        assert(a + b =~= b);
    } else {
        assert((a + b).skip(1) =~= a.skip(1) + b);
        first_path_of_two(a.skip(1), b, wanted);
    }
}

/// A file is found exactly where the list holds one whose name is wanted, and
/// what is found is the path of such a file with none before it.
pub proof fn first_path_is_first(
    fs: Seq<(Seq<char>, Seq<char>)>,
    wanted: spec_fn(Seq<char>) -> bool,
)
    ensures
        match first_path(fs, wanted) {
            Some(p) => exists|i: int|
                0 <= i < fs.len() && wanted(fs[i].0) && (#[trigger] fs[i]).1 == p && forall|j: int|
                    0 <= j < i ==> !wanted((#[trigger] fs[j]).0),
            None => forall|i: int| 0 <= i < fs.len() ==> !wanted((#[trigger] fs[i]).0),
        },
    decreases fs.len(),
{
    if fs.len() > 0 {
        let rest = fs.skip(1);
        first_path_is_first(rest, wanted);
        if !wanted(fs[0].0) {
            match first_path(rest, wanted) {
                Some(p) => {
                    let k = choose|k: int|
                        0 <= k < rest.len() && wanted(rest[k].0) && (#[trigger] rest[k]).1 == p
                            && forall|j: int| 0 <= j < k ==> !wanted((#[trigger] rest[j]).0);
                    assert(fs[k + 1] == rest[k]);
                    assert forall|j: int| 0 <= j < k + 1 implies !wanted((#[trigger] fs[j]).0) by {
                        if j > 0 {
                            assert(fs[j] == rest[j - 1]);
                        }
                    }
                },
                None => {
                    assert forall|i: int| 0 <= i < fs.len() implies !wanted((#[trigger] fs[i]).0) by {
                        if i > 0 {
                            assert(fs[i] == rest[i - 1]);
                        }
                    }
                },
            }
        }
    }
}

/// What a walk lists is listed in the order of the entries: that of two lists of
/// entries, one behind the other, is that of the one and then that of the other.
pub proof fn entries_are_walked_in_order(
    a: Seq<Entry>,
    b: Seq<Entry>,
    dir: Seq<char>,
    depth: nat,
    limit: nat,
)
    ensures
        files_under(a + b, dir, depth, limit) == files_under(a, dir, depth, limit) + files_under(
            b,
            dir,
            depth,
            limit,
        ),
    decreases a.len(),
{
    let none = Seq::<(Seq<char>, Seq<char>)>::empty();
    if depth > limit {
        assert(none + none =~= none);
    } else if a.len() == 0 {
        assert(a + b =~= b);
        assert(none + files_under(b, dir, depth, limit) =~= files_under(b, dir, depth, limit));
    } else {
        assert((a + b)[0] == a[0]);
        assert((a + b).skip(1) =~= a.skip(1) + b);
        entries_are_walked_in_order(a.skip(1), b, dir, depth, limit);
        let path = path_in(dir, a[0].name@);
        let first = match a[0].node {
            Node::File => seq![(a[0].name@, slashed(path))],
            Node::Dir(sub) => files_under(sub@, path, depth + 1, limit),
            Node::Other => Seq::empty(),
        };
        let x = files_under(a.skip(1), dir, depth, limit);
        let y = files_under(b, dir, depth, limit);
        assert(first + (x + y) =~= first + x + y);
    }
}

/// A file in a directory that is not too deep is listed once, under its name and
/// its path; what a directory holds is listed in its place, one level deeper; a
/// directory that is too deep is not entered, and what is neither a file nor a
/// directory is not listed.
pub proof fn one_entry_is_listed_by_its_kind(e: Entry, dir: Seq<char>, depth: nat, limit: nat)
    ensures
        depth > limit ==> files_under(seq![e], dir, depth, limit).len() == 0,
        depth <= limit && e.node is Other ==> files_under(seq![e], dir, depth, limit).len() == 0,
        depth <= limit && e.node is File ==> files_under(seq![e], dir, depth, limit) == seq![
            (
                e.name@,
                slashed(
                    if dir.len() == 0 {
                        e.name@
                    } else {
                        dir + "/"@ + e.name@
                    },
                ),
            ),
        ],
        depth <= limit ==> (e.node matches Node::Dir(sub) ==> files_under(
            seq![e],
            dir,
            depth,
            limit,
        ) == files_under(
            sub@,
            if dir.len() == 0 {
                e.name@
            } else {
                dir + "/"@ + e.name@
            },
            depth + 1,
            limit,
        )),
{
    let s = seq![e];
    let none = Seq::<(Seq<char>, Seq<char>)>::empty();
    reveal_with_fuel(files_under, 2);
    assert(s.skip(1) =~= Seq::<Entry>::empty());
    if depth <= limit {
        let path = path_in(dir, e.name@);
        match e.node {
            Node::File => {
                assert(seq![(e.name@, slashed(path))] + none =~= seq![(e.name@, slashed(path))]);
            },
            Node::Dir(sub) => {
                let f = files_under(sub@, path, depth + 1, limit);
                assert(f + none =~= f);
            },
            Node::Other => {
                assert(none + none =~= none);
            },
        }
    }
}

} // verus!
