//! Paths as Windows reads them.
use crate::ascii::{is_lower, is_upper};
use crate::text::{
    chars_of, find_from, first_index, first_index_is_least, has_prefix, replace, replace_char, same,
    split, split_on, starts_with, string_of, texts,
};
use vstd::prelude::*;

verus! {

/// The path with slashes for backslashes.
pub open spec fn slashed(path: Seq<char>) -> Seq<char> {
    replace_char(path, '\\', "/"@)
}

// ---------------------------------------------------------------------------
// Plain paths
// ---------------------------------------------------------------------------

/// `s` begins with a drive: a letter and a colon.
pub open spec fn has_drive(s: Seq<char>) -> bool {
    s.len() >= 2 && (is_lower(s[0]) || is_upper(s[0])) && s[1] == ':'
}

/// The pieces of a path between slashes begin with a network share, which is
/// two slashes, a server and a share, or with a device, which has a dot for the
/// server and may lack a name.
pub open spec fn has_share(pieces: Seq<Seq<char>>) -> bool {
    pieces.len() >= 4 && pieces[0].len() == 0 && pieces[1].len() == 0 && pieces[2].len() > 0 && (
    pieces[3].len() > 0 || pieces[2] == "."@)
}

/// The pieces of a path begin with a drive, a share or a device.
pub open spec fn has_path_prefix(pieces: Seq<Seq<char>>) -> bool {
    has_share(pieces) || has_drive(pieces[0])
}

/// The prefix of a path: its drive, its network share or its device, if it has
/// one.
pub open spec fn path_prefix(pieces: Seq<Seq<char>>) -> Seq<char> {
    if has_share(pieces) {
        "//"@ + pieces[2] + "/"@ + pieces[3]
    } else if has_drive(pieces[0]) {
        pieces[0].take(2)
    } else {
        Seq::empty()
    }
}

/// The pieces of a path behind its prefix.
pub open spec fn behind_prefix(pieces: Seq<Seq<char>>) -> Seq<Seq<char>> {
    if has_share(pieces) {
        pieces.skip(4)
    } else if has_drive(pieces[0]) {
        seq![pieces[0].skip(2)] + pieces.skip(1)
    } else {
        pieces
    }
}

/// A path begins at a root, which a slash stands for: behind its prefix, or
/// where it has none.
pub open spec fn is_rooted(pieces: Seq<Seq<char>>) -> bool {
    let rest = behind_prefix(pieces);
    has_share(pieces) || (rest.len() > 1 && rest[0].len() == 0)
}

/// The parts of a path among pieces of it: the pieces without the empty ones,
/// and without dots. A dot counts where it is the first piece of a path
/// (`leads`).
pub open spec fn kept_parts(pieces: Seq<Seq<char>>, leads: bool) -> Seq<Seq<char>>
    decreases pieces.len(),
{
    if pieces.len() == 0 {
        Seq::empty()
    } else {
        let p = pieces.last();
        let front = kept_parts(pieces.drop_last(), leads);
        if p.len() == 0 || (p == "."@ && !(leads && pieces.len() == 1)) {
            front
        } else {
            front.push(p)
        }
    }
}

/// The directory `dir` with the path `p` behind it. A slash stands between
/// them, unless `dir` is empty, ends in one or is a drive alone. A path with a
/// prefix takes the place of the directory, and a path with a root alone takes
/// the place of all but the prefix of the directory.
pub open spec fn below(dir: Seq<char>, p: Seq<char>) -> Seq<char> {
    if has_path_prefix(split_on(p, '/')) {
        p
    } else if p.len() > 0 && p[0] == '/' {
        path_prefix(split_on(dir, '/')) + p
    } else if dir.len() == 0 || dir.last() == '/' || (dir.len() == 2 && has_drive(dir)) {
        dir + p
    } else {
        dir + seq!['/'] + p
    }
}

/// The directory `dir` with each of the parts `ps` behind it.
pub open spec fn far_below(dir: Seq<char>, ps: Seq<Seq<char>>) -> Seq<char>
    decreases ps.len(),
{
    if ps.len() == 0 {
        dir
    } else {
        below(far_below(dir, ps.drop_last()), ps.last())
    }
}

/// The directories above a path with these pieces, from the outermost to the
/// innermost: its prefix and its root come first, where it has them.
pub open spec fn dirs_above(pieces: Seq<Seq<char>>) -> Seq<Seq<char>> {
    let prefix = path_prefix(pieces);
    let top = prefix + (if is_rooted(pieces) {
        "/"@
    } else {
        Seq::empty()
    });
    let parts = kept_parts(behind_prefix(pieces), prefix.len() == 0);
    if parts.len() == 0 {
        Seq::empty()
    } else {
        (if prefix.len() > 0 {
            seq![prefix]
        } else {
            Seq::empty()
        }) + (if is_rooted(pieces) {
            seq![top]
        } else {
            Seq::empty()
        }) + Seq::new((parts.len() - 1) as nat, |k: int| far_below(top, parts.take(k + 1)))
    }
}

/// The directories above a path in which both kinds of slash separate parts,
/// from the outermost to the innermost.
pub open spec fn plain_dirs(path: Seq<char>) -> Seq<Seq<char>> {
    dirs_above(split_on(slashed(path), '/'))
}

fn begins_with_drive(s: &str) -> (r: bool)
    ensures
        r == has_drive(s@),
{
    let v = chars_of(s);
    v.len() >= 2 && (('a' <= v[0] && v[0] <= 'z') || ('A' <= v[0] && v[0] <= 'Z')) && v[1] == ':'
}

fn begins_with_share(pieces: &Vec<String>) -> (r: bool)
    ensures
        r == has_share(texts(pieces@)),
{
    let ghost ps = texts(pieces@);
    if pieces.len() < 4 {
        return false;
    }
    assert(ps[0] == pieces@[0]@ && ps[1] == pieces@[1]@ && ps[2] == pieces@[2]@ && ps[3]
        == pieces@[3]@);
    pieces[0].as_str().is_empty() && pieces[1].as_str().is_empty() && !pieces[2].as_str().is_empty()
        && (!pieces[3].as_str().is_empty() || same(pieces[2].as_str(), "."))
}

fn prefix_text(pieces: &Vec<String>) -> (r: String)
    requires
        pieces@.len() > 0,
    ensures
        r@ == path_prefix(texts(pieces@)),
{
    let ghost all = texts(pieces@);
    assert(all[0] == pieces@[0]@);
    if begins_with_share(pieces) {
        assert(all[2] == pieces@[2]@ && all[3] == pieces@[3]@);
        return "//".to_owned().concat(pieces[2].as_str()).concat("/").concat(
            pieces[3].as_str(),
        );
    }
    if begins_with_drive(pieces[0].as_str()) {
        let v = chars_of(pieces[0].as_str());
        let r = string_of(v.as_slice(), 0, 2);
        assert(r@ =~= all[0].take(2));
        return r;
    }
    let r: String = String::new();
    assert(r@ =~= Seq::empty());
    r
}

fn begins_with_prefix(path: &str) -> (r: bool)
    ensures
        r == has_path_prefix(split_on(path@, '/')),
{
    let pieces = split(path, '/');
    assert(texts(pieces@).len() > 0);
    assert(texts(pieces@)[0] == pieces@[0]@);
    begins_with_share(&pieces) || begins_with_drive(pieces[0].as_str())
}

fn rest_of(pieces: Vec<String>) -> (r: Vec<String>)
    requires
        pieces@.len() > 0,
    ensures
        texts(r@) == behind_prefix(texts(pieces@)),
{
    let ghost ps = texts(pieces@);
    assert(ps[0] == pieces@[0]@);
    let share = begins_with_share(&pieces);
    let drive = begins_with_drive(pieces[0].as_str());
    if !share && !drive {
        return pieces;
    }
    let mut r: Vec<String> = Vec::new();
    let mut i: usize = 4;
    if !share {
        let v = chars_of(pieces[0].as_str());
        r.push(string_of(v.as_slice(), 2, v.len()));
        i = 1;
    }
    let ghost from = i as int;
    let ghost head = texts(r@);
    proof {
        if !share {
            assert(ps[0].subrange(2, ps[0].len() as int) =~= ps[0].skip(2));
            assert(head =~= seq![ps[0].skip(2)]);
        } else {
            assert(head =~= Seq::empty());
        }
        assert(texts(r@) =~= head + ps.subrange(from, i as int));
    }
    while i < pieces.len()
        invariant
            ps == texts(pieces@),
            0 <= from <= i <= pieces@.len(),
            texts(r@) == head + ps.subrange(from, i as int),
        decreases pieces@.len() - i,
    {
        let ghost before = texts(r@);
        r.push(pieces[i].clone());
        proof {
            assert(texts(r@) =~= before.push(ps[i as int]));
            assert(texts(r@) =~= head + ps.subrange(from, i + 1));
        }
        i = i + 1;
    }
    proof {
        assert(ps.subrange(from, i as int) =~= ps.skip(from));
        assert(Seq::<Seq<char>>::empty() + ps.skip(from) =~= ps.skip(from));
    }
    r
}

fn parts_of(pieces: &Vec<String>, leads: bool) -> (r: Vec<String>)
    ensures
        texts(r@) == kept_parts(texts(pieces@), leads),
{
    let ghost all = texts(pieces@);
    let mut parts: Vec<String> = Vec::new();
    let mut i: usize = 0;
    assert(texts(parts@) =~= kept_parts(all.take(0), leads));
    while i < pieces.len()
        invariant
            all == texts(pieces@),
            i <= pieces@.len(),
            texts(parts@) == kept_parts(all.take(i as int), leads),
        decreases pieces@.len() - i,
    {
        let ghost before = parts@;
        assert(all.take(i + 1).drop_last() =~= all.take(i as int));
        assert(all[i as int] == pieces@[i as int]@);
        let empty = pieces[i].as_str().is_empty();
        if !empty && !(same(pieces[i].as_str(), ".") && !(leads && i == 0)) {
            parts.push(pieces[i].clone());
            assert(texts(parts@) =~= texts(before).push(all[i as int]));
        }
        i = i + 1;
    }
    assert(all.take(i as int) =~= all);
    parts
}

fn go_below(dir: String, p: &str) -> (r: String)
    ensures
        r@ == below(dir@, p@),
{
    if begins_with_prefix(p) {
        return p.to_owned();
    }
    let q = chars_of(p);
    if q.len() > 0 && q[0] == '/' {
        let pieces = split(dir.as_str(), '/');
        assert(texts(pieces@).len() > 0);
        return prefix_text(&pieces).concat(p);
    }
    let v = chars_of(dir.as_str());
    let drive = begins_with_drive(dir.as_str());
    let n = v.len();
    let mut r: String = dir;
    if !(n == 0 || v[n - 1] == '/' || (n == 2 && drive)) {
        r.push('/');
    }
    r.append(p);
    assert(r@ =~= below(dir@, p@));
    r
}

fn dirs_above_plain(path: &str) -> (r: Vec<String>)
    ensures
        texts(r@) == plain_dirs(path@),
{
    let text = replace(path, '\\', "/");
    let pieces = split(text.as_str(), '/');
    let ghost all = texts(pieces@);
    assert(all == split_on(slashed(path@), '/'));
    assert(pieces@.len() == all.len() && all.len() > 0);
    let share = begins_with_share(&pieces);
    let prefix = prefix_text(&pieces);
    let rest = rest_of(pieces);
    let ghost behind = behind_prefix(all);
    let mut rooted = share;
    if rest.len() > 1 {
        assert(behind[0] == rest@[0]@);
        if rest[0].as_str().is_empty() {
            rooted = true;
        }
    }
    assert(rest@.len() == behind.len());
    assert(rooted == is_rooted(all));
    let no_prefix = prefix.as_str().is_empty();
    let parts = parts_of(&rest, no_prefix);
    let ghost ps = texts(parts@);
    let mut dirs: Vec<String> = Vec::new();
    if parts.len() == 0 {
        assert(texts(dirs@) =~= plain_dirs(path@));
        return dirs;
    }
    if !no_prefix {
        dirs.push(prefix.clone());
    }
    let mut cur: String = prefix;
    if rooted {
        cur.append("/");
        dirs.push(cur.clone());
    }
    let ghost top = cur@;
    let ghost head = texts(dirs@);
    proof {
        let prefix = path_prefix(all);
        assert(top =~= prefix + (if is_rooted(all) {
            "/"@
        } else {
            Seq::empty()
        }));
        assert(head =~= (if prefix.len() > 0 {
            seq![prefix]
        } else {
            Seq::empty()
        }) + (if is_rooted(all) {
            seq![top]
        } else {
            Seq::empty()
        }));
        assert(ps.take(0) =~= Seq::empty());
        assert(head =~= head + Seq::new(0, |k: int| far_below(top, ps.take(k + 1))));
    }
    let mut k: usize = 0;
    while k < parts.len() - 1
        invariant
            ps == texts(parts@),
            parts@.len() > 0,
            k <= parts@.len() - 1,
            cur@ == far_below(top, ps.take(k as int)),
            texts(dirs@) == head + Seq::new(k as nat, |k: int| far_below(top, ps.take(k + 1))),
        decreases parts@.len() - k,
    {
        let ghost before = dirs@;
        assert(ps.take(k + 1).drop_last() =~= ps.take(k as int));
        assert(ps[k as int] == parts@[k as int]@);
        cur = go_below(cur, parts[k].as_str());
        dirs.push(cur.clone());
        k = k + 1;
        proof {
            assert(texts(dirs@) =~= texts(before).push(cur@));
            assert(texts(dirs@) =~= head + Seq::new(
                k as nat,
                |k: int| far_below(top, ps.take(k + 1)),
            ));
        }
    }
    assert(texts(dirs@) =~= plain_dirs(path@));
    dirs
}

// ---------------------------------------------------------------------------
// Verbatim paths
// ---------------------------------------------------------------------------

/// A path is verbatim where it begins with `\\?\`, in backslashes. Only
/// backslashes separate the parts of such a path.
pub open spec fn is_verbatim(path: Seq<char>) -> bool {
    has_prefix(path, "\\\\?\\"@)
}

/// Either kind of slash.
pub open spec fn is_slash(c: char) -> bool {
    c == '\\' || c == '/'
}

/// What follows the mark of a verbatim path names a network share by `UNC`.
pub open spec fn names_share(rest: Seq<char>) -> bool {
    rest.len() >= 4 && rest[0] == 'U' && rest[1] == 'N' && rest[2] == 'C' && is_slash(rest[3])
}

/// The length of a server and a share in front of a path.
pub open spec fn share_len(q: Seq<char>) -> int {
    let server = first_index(q, '\\');
    let share = if server < q.len() {
        first_index(q.skip(server + 1), '\\')
    } else {
        0
    };
    server + (if share > 0 {
        1 + share
    } else {
        0
    })
}

/// The length of the prefix of a verbatim path: the mark with a network share, a
/// drive, or the first part.
pub open spec fn verbatim_len(path: Seq<char>) -> int {
    let rest = path.skip(4);
    if names_share(rest) {
        8 + share_len(rest.skip(4))
    } else if has_drive(rest) && (rest.len() == 2 || is_slash(rest[2])) {
        6
    } else {
        4 + first_index(rest, '\\')
    }
}

/// Pieces without the empty ones.
pub open spec fn nonempty(pieces: Seq<Seq<char>>) -> Seq<Seq<char>>
    decreases pieces.len(),
{
    if pieces.len() == 0 {
        Seq::empty()
    } else if pieces.last().len() == 0 {
        nonempty(pieces.drop_last())
    } else {
        nonempty(pieces.drop_last()).push(pieces.last())
    }
}

/// The parts of a verbatim path behind its prefix and its root.
pub open spec fn verbatim_parts(path: Seq<char>) -> Seq<Seq<char>> {
    let n = verbatim_len(path);
    if n < path.len() {
        nonempty(split_on(path.skip(n + 1), '\\'))
    } else {
        Seq::empty()
    }
}

/// A directory on the way down a verbatim path.
pub enum Spot {
    /// Below the root of the path, by the parts from there.
    Inside(Seq<Seq<char>>),
    /// Elsewhere: a part of the path had a prefix of its own.
    Outside(Seq<char>),
}

/// The parts `ps` after one more piece: two dots go up, and a dot or an empty
/// piece changes nothing.
pub open spec fn walked_one(ps: Seq<Seq<char>>, x: Seq<char>) -> Seq<Seq<char>> {
    if x.len() == 0 || x == "."@ {
        ps
    } else if x == ".."@ {
        if ps.len() > 0 {
            ps.drop_last()
        } else {
            ps
        }
    } else {
        ps.push(x)
    }
}

/// The parts `ps` after the pieces `xs`.
pub open spec fn walked(ps: Seq<Seq<char>>, xs: Seq<Seq<char>>) -> Seq<Seq<char>>
    decreases xs.len(),
{
    if xs.len() == 0 {
        ps
    } else {
        walked_one(walked(ps, xs.drop_last()), xs.last())
    }
}

/// Where one goes from `spot` by the part `x`. Slashes in a part count as soon
/// as it is put behind a directory.
pub open spec fn entered(spot: Spot, x: Seq<char>) -> Spot {
    match spot {
        Spot::Inside(ps) => if has_path_prefix(split_on(x, '/')) {
            Spot::Outside(x)
        } else if x.len() > 0 && x[0] == '/' {
            Spot::Inside(walked(Seq::empty(), split_on(x, '/')))
        } else {
            Spot::Inside(walked(ps, split_on(x, '/')))
        },
        Spot::Outside(dir) => Spot::Outside(below(dir, x)),
    }
}

/// Where one goes by the parts `xs`.
pub open spec fn entered_all(xs: Seq<Seq<char>>) -> Spot
    decreases xs.len(),
{
    if xs.len() == 0 {
        Spot::Inside(Seq::empty())
    } else {
        entered(entered_all(xs.drop_last()), xs.last())
    }
}

/// Parts with `sep` between them.
pub open spec fn joined_parts(ps: Seq<Seq<char>>, sep: char) -> Seq<char>
    decreases ps.len(),
{
    if ps.len() == 0 {
        Seq::empty()
    } else if ps.len() == 1 {
        ps[0]
    } else {
        joined_parts(ps.drop_last(), sep) + seq![sep] + ps.last()
    }
}

/// The directory at `spot` of a path with this prefix.
pub open spec fn spot_text(prefix: Seq<char>, spot: Spot) -> Seq<char> {
    match spot {
        Spot::Inside(ps) => prefix + seq!['/'] + joined_parts(ps, '/'),
        Spot::Outside(dir) => dir,
    }
}

/// The directories above a verbatim path, from the outermost to the innermost,
/// with slashes: its prefix, its root, and one for each part but the last.
pub open spec fn verbatim_dirs(path: Seq<char>) -> Seq<Seq<char>> {
    let prefix = slashed(path.take(verbatim_len(path)));
    let parts = verbatim_parts(path);
    if parts.len() == 0 {
        Seq::empty()
    } else {
        seq![prefix, prefix + seq!['/']] + Seq::new(
            (parts.len() - 1) as nat,
            |k: int| spot_text(prefix, entered_all(parts.take(k + 1))),
        )
    }
}

/// The directories above `path`, from the outermost to the innermost, with
/// slashes.
pub open spec fn parent_dirs(path: Seq<char>) -> Seq<Seq<char>> {
    if is_verbatim(path) {
        verbatim_dirs(path)
    } else {
        plain_dirs(path)
    }
}

proof fn verbatim_len_fits(path: Seq<char>)
    requires
        is_verbatim(path),
    ensures
        4 <= verbatim_len(path) <= path.len(),
{
    reveal_strlit("\\\\?\\");
    let rest = path.skip(4);
    first_index_is_least(rest, '\\');
    if names_share(rest) {
        let q = rest.skip(4);
        first_index_is_least(q, '\\');
        if first_index(q, '\\') < q.len() {
            first_index_is_least(q.skip(first_index(q, '\\') + 1), '\\');
        }
    }
}

fn verbatim_prefix_len(v: &Vec<char>) -> (r: usize)
    requires
        is_verbatim(v@),
    ensures
        r == verbatim_len(v@),
        4 <= r <= v@.len(),
{
    proof {
        verbatim_len_fits(v@);
    }
    let n = v.len();
    let ghost rest = v@.skip(4);
    if n >= 8 && v[4] == 'U' && v[5] == 'N' && v[6] == 'C' && (v[7] == '\\' || v[7] == '/') {
        let server = find_from(v.as_slice(), 8, '\\');
        assert(rest.skip(4) =~= v@.skip(8));
        let mut r: usize = server;
        if server < n {
            let share = find_from(v.as_slice(), server + 1, '\\');
            assert(rest.skip(4).skip(server - 8 + 1) =~= v@.skip(server + 1));
            if share > server + 1 {
                r = share;
            }
        }
        return r;
    }
    assert(!names_share(rest));
    if n >= 6 && (('a' <= v[4] && v[4] <= 'z') || ('A' <= v[4] && v[4] <= 'Z')) && v[5] == ':' && (n
        == 6 || v[6] == '\\' || v[6] == '/') {
        return 6;
    }
    find_from(v.as_slice(), 4, '\\')
}

fn nonempty_pieces(pieces: Vec<String>) -> (r: Vec<String>)
    ensures
        texts(r@) == nonempty(texts(pieces@)),
{
    let ghost all = texts(pieces@);
    let mut r: Vec<String> = Vec::new();
    let mut i: usize = 0;
    assert(texts(r@) =~= nonempty(all.take(0)));
    while i < pieces.len()
        invariant
            all == texts(pieces@),
            i <= pieces@.len(),
            texts(r@) == nonempty(all.take(i as int)),
        decreases pieces@.len() - i,
    {
        let ghost before = texts(r@);
        assert(all.take(i + 1).drop_last() =~= all.take(i as int));
        assert(all[i as int] == pieces@[i as int]@);
        if !pieces[i].as_str().is_empty() {
            r.push(pieces[i].clone());
            assert(texts(r@) =~= before.push(all[i as int]));
        }
        i = i + 1;
    }
    assert(all.take(i as int) =~= all);
    r
}

fn parts_behind(v: &Vec<char>) -> (r: Vec<String>)
    requires
        is_verbatim(v@),
    ensures
        texts(r@) == verbatim_parts(v@),
{
    let n = verbatim_prefix_len(v);
    if n == v.len() {
        let r: Vec<String> = Vec::new();
        assert(texts(r@) =~= verbatim_parts(v@));
        return r;
    }
    let rest = string_of(v.as_slice(), n + 1, v.len());
    assert(rest@ =~= v@.skip(n + 1));
    nonempty_pieces(split(rest.as_str(), '\\'))
}

fn walk(ps: &mut Vec<String>, x: &str)
    ensures
        texts(final(ps)@) == walked(texts(old(ps)@), split_on(x@, '/')),
{
    let pieces = split(x, '/');
    let ghost xs = texts(pieces@);
    let ghost start = texts(ps@);
    let mut i: usize = 0;
    assert(xs.take(0) =~= Seq::empty());
    while i < pieces.len()
        invariant
            xs == texts(pieces@),
            i <= pieces@.len(),
            texts(ps@) == walked(start, xs.take(i as int)),
        decreases pieces@.len() - i,
    {
        let ghost before = texts(ps@);
        assert(xs.take(i + 1).drop_last() =~= xs.take(i as int));
        assert(xs[i as int] == pieces@[i as int]@);
        let p = pieces[i].as_str();
        if !p.is_empty() && !same(p, ".") {
            if same(p, "..") {
                let ghost all = ps@;
                let gone = ps.pop();
                proof {
                    if all.len() > 0 {
                        assert(texts(ps@) =~= before.drop_last());
                    } else {
                        assert(texts(ps@) =~= before);
                    }
                }
            } else {
                ps.push(pieces[i].clone());
                assert(texts(ps@) =~= before.push(xs[i as int]));
            }
        }
        i = i + 1;
    }
    assert(xs.take(i as int) =~= xs);
}

fn with_separators(ps: &Vec<String>, sep: char) -> (r: String)
    ensures
        r@ == joined_parts(texts(ps@), sep),
{
    let ghost all = texts(ps@);
    let mut r: String = String::new();
    let mut i: usize = 0;
    assert(r@ =~= joined_parts(all.take(0), sep));
    while i < ps.len()
        invariant
            all == texts(ps@),
            i <= ps@.len(),
            r@ == joined_parts(all.take(i as int), sep),
        decreases ps@.len() - i,
    {
        assert(all.take(i + 1).drop_last() =~= all.take(i as int));
        assert(all[i as int] == ps@[i as int]@);
        if i > 0 {
            r.push(sep);
        }
        r.append(ps[i].as_str());
        assert(r@ =~= joined_parts(all.take(i + 1), sep));
        i = i + 1;
    }
    assert(all.take(i as int) =~= all);
    r
}

fn dirs_above_verbatim(path: &str) -> (r: Vec<String>)
    requires
        is_verbatim(path@),
    ensures
        texts(r@) == verbatim_dirs(path@),
{
    let v = chars_of(path);
    let n = verbatim_prefix_len(&v);
    let raw = string_of(v.as_slice(), 0, n);
    assert(raw@ =~= path@.take(n as int));
    let prefix = replace(raw.as_str(), '\\', "/");
    let parts = parts_behind(&v);
    let ghost ps = texts(parts@);
    let mut dirs: Vec<String> = Vec::new();
    if parts.len() == 0 {
        assert(texts(dirs@) =~= verbatim_dirs(path@));
        return dirs;
    }
    let mut top: String = prefix.clone();
    top.push('/');
    assert(top@ =~= prefix@ + seq!['/']);
    dirs.push(prefix.clone());
    dirs.push(top);
    let ghost head = texts(dirs@);
    let mut inside: Vec<String> = Vec::new();
    let mut outside: Option<String> = None;
    proof {
        assert(head =~= seq![prefix@, prefix@ + seq!['/']]);
        assert(ps.take(0) =~= Seq::empty());
        assert(texts(inside@) =~= Seq::empty());
        assert(head =~= head + Seq::new(
            0,
            |k: int| spot_text(prefix@, entered_all(ps.take(k + 1))),
        ));
    }
    let mut k: usize = 0;
    while k < parts.len() - 1
        invariant
            ps == texts(parts@),
            parts@.len() > 0,
            k <= parts@.len() - 1,
            entered_all(ps.take(k as int)) == (match outside {
                Some(d) => Spot::Outside(d@),
                None => Spot::Inside(texts(inside@)),
            }),
            texts(dirs@) == head + Seq::new(
                k as nat,
                |k: int| spot_text(prefix@, entered_all(ps.take(k + 1))),
            ),
        decreases parts@.len() - k,
    {
        let ghost before = texts(dirs@);
        assert(ps.take(k + 1).drop_last() =~= ps.take(k as int));
        assert(ps[k as int] == parts@[k as int]@);
        let x = parts[k].as_str();
        match outside {
            Some(d) => {
                outside = Some(go_below(d, x));
            },
            None => {
                if begins_with_prefix(x) {
                    outside = Some(x.to_owned());
                } else {
                    let q = chars_of(x);
                    if q.len() > 0 && q[0] == '/' {
                        inside = Vec::new();
                        assert(texts(inside@) =~= Seq::empty());
                    }
                    walk(&mut inside, x);
                }
            },
        }
        let dir: String = match &outside {
            Some(d) => d.clone(),
            None => {
                let tail = with_separators(&inside, '/');
                prefix.clone().concat("/").concat(tail.as_str())
            },
        };
        proof {
            reveal_strlit("/");
            assert("/"@ =~= seq!['/']);
        }
        dirs.push(dir);
        k = k + 1;
        proof {
            assert(texts(dirs@) =~= before.push(dir@));
            assert(texts(dirs@) =~= head + Seq::new(
                k as nat,
                |k: int| spot_text(prefix@, entered_all(ps.take(k + 1))),
            ));
        }
    }
    assert(texts(dirs@) =~= verbatim_dirs(path@));
    dirs
}

/// The directories above `path`, from the outermost to the innermost, with
/// slashes. A drive, a network share or a device comes first, then the root
/// behind it.
pub fn dirs_above_path(path: &str) -> (r: Vec<String>)
    ensures
        texts(r@) == parent_dirs(path@),
{
    if starts_with(path, "\\\\?\\") {
        dirs_above_verbatim(path)
    } else {
        dirs_above_plain(path)
    }
}

// ---------------------------------------------------------------------------
// Joining
// ---------------------------------------------------------------------------

/// The directory `dir` with `name`, which has neither slashes nor a drive,
/// behind it. A backslash stands between them, unless the directory is empty,
/// ends in a slash of either kind or is a drive alone. A verbatim directory is
/// written anew, without empty parts.
pub open spec fn in_dir(dir: Seq<char>, name: Seq<char>) -> Seq<char> {
    if is_verbatim(dir) {
        dir.take(verbatim_len(dir)) + seq!['\\'] + joined_parts(
            verbatim_parts(dir).push(name),
            '\\',
        )
    } else if dir.len() == 0 || is_slash(dir.last()) || (dir.len() == 2 && has_drive(dir)) {
        dir + name
    } else {
        dir + seq!['\\'] + name
    }
}

/// The directory `dir` with `name` behind it.
pub fn join_name(dir: &str, name: &str) -> (r: String)
    ensures
        r@ == in_dir(dir@, name@),
{
    let v = chars_of(dir);
    if starts_with(dir, "\\\\?\\") {
        let n = verbatim_prefix_len(&v);
        let mut r = string_of(v.as_slice(), 0, n);
        assert(r@ =~= dir@.take(n as int));
        let mut parts = parts_behind(&v);
        let ghost before = texts(parts@);
        parts.push(name.to_owned());
        assert(texts(parts@) =~= before.push(name@));
        let tail = with_separators(&parts, '\\');
        r.push('\\');
        r.append(tail.as_str());
        assert(r@ =~= in_dir(dir@, name@));
        return r;
    }
    let n = v.len();
    let drive = begins_with_drive(dir);
    let mut r: String = dir.to_owned();
    if !(n == 0 || v[n - 1] == '\\' || v[n - 1] == '/' || (n == 2 && drive)) {
        r.push('\\');
    }
    r.append(name);
    assert(r@ =~= in_dir(dir@, name@));
    r
}

// ---------------------------------------------------------------------------
// Laws
// ---------------------------------------------------------------------------

/// An ordinary name: it is not empty, is not the dot that stands for the
/// directory itself, holds no slash and no backslash, and does not begin with a
/// drive.
pub open spec fn is_ordinary(p: Seq<char>) -> bool {
    &&& p.len() > 0
    &&& p != "."@
    &&& !p.contains('/')
    &&& !p.contains('\\')
    &&& !(p.len() >= 2 && p[1] == ':')
}

proof fn joined_from_the_left(ps: Seq<Seq<char>>, sep: char)
    requires
        ps.len() >= 2,
    ensures
        joined_parts(ps, sep) == ps[0] + seq![sep] + joined_parts(ps.skip(1), sep),
    decreases ps.len(),
{
    let rest = ps.skip(1);
    if ps.len() == 2 {
        reveal_with_fuel(joined_parts, 2);
        assert(ps.drop_last()[0] == ps[0]);
        assert(rest[0] == ps[1]);
    } else {
        joined_from_the_left(ps.drop_last(), sep);
        assert(ps.drop_last().skip(1) =~= rest.drop_last());
        assert(rest.last() == ps.last());
        assert(joined_parts(ps, sep) =~= ps[0] + seq![sep] + joined_parts(rest, sep));
    }
}

proof fn ordinary_names_join_to_a_plain_path(ps: Seq<Seq<char>>)
    requires
        ps.len() > 0,
        forall|k: int| 0 <= k < ps.len() ==> is_ordinary(#[trigger] ps[k]),
    ensures
        ({
            let s = joined_parts(ps, '/');
            &&& s.len() > 0
            &&& s[0] == ps[0][0]
            &&& s.last() == ps.last().last()
            &&& !s.contains('\\')
            &&& split_on(s, '/') == ps
            &&& ps.len() == 1 ==> s == ps[0]
            &&& ps.len() > 1 ==> s.len() > 2
        }),
    decreases ps.len(),
{
    let s = joined_parts(ps, '/');
    assert(is_ordinary(ps[0]));
    crate::text::pieces_are_what_stands_between(ps[0], Seq::empty(), '/');
    if ps.len() == 1 {
        assert(ps =~= seq![ps[0]]);
    } else {
        let rest = ps.skip(1);
        assert forall|k: int| 0 <= k < rest.len() implies is_ordinary(#[trigger] rest[k]) by {
            assert(rest[k] == ps[k + 1]);
        }
        ordinary_names_join_to_a_plain_path(rest);
        joined_from_the_left(ps, '/');
        let t = joined_parts(rest, '/');
        crate::text::pieces_are_what_stands_between(ps[0], t, '/');
        assert(ps =~= seq![ps[0]] + rest);
        assert(rest.last() == ps.last());
        assert forall|i: int| 0 <= i < s.len() implies s[i] != '\\' by {
            if i < ps[0].len() {
                assert(s[i] == ps[0][i]);
                assert(ps[0].contains(ps[0][i]));
            } else if i > ps[0].len() {
                assert(s[i] == t[i - ps[0].len() - 1]);
                assert(t.contains(t[i - ps[0].len() - 1]));
            }
        }
    }
}

proof fn ordinary_names_are_kept(ps: Seq<Seq<char>>, leads: bool)
    requires
        forall|k: int| 0 <= k < ps.len() ==> is_ordinary(#[trigger] ps[k]),
    ensures
        kept_parts(ps, leads) == ps,
    decreases ps.len(),
{
    if ps.len() > 0 {
        let front = ps.drop_last();
        assert forall|k: int| 0 <= k < front.len() implies is_ordinary(#[trigger] front[k]) by {
            assert(front[k] == ps[k]);
        }
        ordinary_names_are_kept(front, leads);
        assert(is_ordinary(ps[ps.len() - 1]));
        assert(front.push(ps.last()) =~= ps);
    }
}

proof fn ordinary_names_lie_below_each_other(ps: Seq<Seq<char>>)
    requires
        ps.len() > 0,
        forall|k: int| 0 <= k < ps.len() ==> is_ordinary(#[trigger] ps[k]),
    ensures
        far_below(Seq::empty(), ps) == joined_parts(ps, '/'),
    decreases ps.len(),
{
    let front = ps.drop_last();
    let p = ps.last();
    assert(is_ordinary(ps[ps.len() - 1]));
    crate::text::pieces_are_what_stands_between(p, Seq::empty(), '/');
    assert(split_on(p, '/') == seq![p]);
    assert(p[0] != '/') by {
        assert(p.contains(p[0]));
    }
    if front.len() == 0 {
        reveal_with_fuel(far_below, 2);
        assert(Seq::<char>::empty() + p =~= p);
    } else {
        assert forall|k: int| 0 <= k < front.len() implies is_ordinary(#[trigger] front[k]) by {
            assert(front[k] == ps[k]);
        }
        ordinary_names_lie_below_each_other(front);
        ordinary_names_join_to_a_plain_path(front);
        let dir = joined_parts(front, '/');
        let last = front.last();
        assert(is_ordinary(front[front.len() - 1]));
        assert(last.last() != '/') by {
            assert(last.contains(last[last.len() - 1]));
        }
        if front.len() == 1 {
            assert(is_ordinary(front[0]));
        }
    }
}

/// A path of ordinary names with slashes between them lies in as many
/// directories as it has names but one: the first name, the first two with a
/// slash between them, and so on, from the outermost to the innermost.
pub proof fn ordinary_path_lies_in_its_directories(ps: Seq<Seq<char>>)
    requires
        ps.len() > 0,
        forall|k: int| 0 <= k < ps.len() ==> is_ordinary(#[trigger] ps[k]),
    ensures
        parent_dirs(joined_parts(ps, '/')).len() == ps.len() - 1,
        forall|k: int|
            0 <= k < ps.len() - 1 ==> (#[trigger] parent_dirs(joined_parts(ps, '/'))[k])
                == joined_parts(ps.take(k + 1), '/'),
{
    let path = joined_parts(ps, '/');
    ordinary_names_join_to_a_plain_path(ps);
    reveal_strlit("\\\\?\\");
    reveal_strlit("/");
    assert(is_ordinary(ps[0]));
    assert(!is_verbatim(path)) by {
        if is_verbatim(path) {
            assert(path.take(4)[0] == '\\');
            assert(path.contains(path[0]));
        }
    }
    crate::text::replacing_by_one_character(path, '\\', '/');
    assert("/"@ =~= seq!['/']);
    assert(slashed(path) =~= path) by {
        assert forall|i: int| 0 <= i < path.len() implies path[i] != '\\' by {
            assert(path.contains(path[i]));
        }
    }
    ordinary_names_are_kept(ps, true);
    let none = Seq::<char>::empty();
    assert(none + none =~= none);
    let dirs = parent_dirs(path);
    let all = Seq::new((ps.len() - 1) as nat, |k: int| far_below(none, ps.take(k + 1)));
    assert(dirs =~= all);
    assert forall|k: int| 0 <= k < ps.len() - 1 implies (#[trigger] dirs[k]) == joined_parts(
        ps.take(k + 1),
        '/',
    ) by {
        let front = ps.take(k + 1);
        assert forall|j: int| 0 <= j < front.len() implies is_ordinary(#[trigger] front[j]) by {
            assert(front[j] == ps[j]);
        }
        ordinary_names_lie_below_each_other(front);
    }
}

/// A name is put behind a directory with one backslash between them, unless the
/// directory is missing, ends in a slash or a backslash, or is a drive alone.
/// This holds of every directory that does not begin with the four characters
/// that switch off the reading of paths.
pub proof fn names_are_joined_by_one_backslash(dir: Seq<char>, name: Seq<char>)
    requires
        !(dir.len() >= 4 && dir[0] == '\\' && dir[1] == '\\' && dir[2] == '?' && dir[3] == '\\'),
    ensures
        dir.len() == 0 ==> in_dir(dir, name) == name,
        dir.len() > 0 && (dir.last() == '\\' || dir.last() == '/') ==> in_dir(dir, name) == dir
            + name,
        dir.len() == 2 && dir[1] == ':' && (('a' <= dir[0] && dir[0] <= 'z') || ('A' <= dir[0]
            && dir[0] <= 'Z')) ==> in_dir(dir, name) == dir + name,
        dir.len() > 0 && dir.last() != '\\' && dir.last() != '/' && dir.last() != ':' ==> in_dir(
            dir,
            name,
        ) == dir + seq!['\\'] + name,
        dir.len() > 2 && dir.last() == ':' ==> in_dir(dir, name) == dir + seq!['\\'] + name,
{
    reveal_strlit("\\\\?\\");
    if is_verbatim(dir) {
        let t = dir.take(4);
        assert(t[0] == dir[0] && t[1] == dir[1] && t[2] == dir[2] && t[3] == dir[3]);
    }
    if dir.len() == 0 {
        assert(dir + name =~= name);
    }
}

proof fn ordinary_names_lie_below_a_root(top: Seq<char>, ps: Seq<Seq<char>>)
    requires
        top.len() > 0,
        top.last() == '/',
        top.len() > 1 || top[0] == '/',
        forall|k: int| 0 <= k < ps.len() ==> is_ordinary(#[trigger] ps[k]),
    ensures
        far_below(top, ps) == top + joined_parts(ps, '/'),
    decreases ps.len(),
{
    if ps.len() == 0 {
        assert(top + joined_parts(ps, '/') =~= top);
    } else {
        let front = ps.drop_last();
        let p = ps.last();
        assert(is_ordinary(ps[ps.len() - 1]));
        crate::text::pieces_are_what_stands_between(p, Seq::empty(), '/');
        assert(split_on(p, '/') == seq![p]);
        assert(p[0] != '/') by {
            assert(p.contains(p[0]));
        }
        assert forall|k: int| 0 <= k < front.len() implies is_ordinary(#[trigger] front[k]) by {
            assert(front[k] == ps[k]);
        }
        ordinary_names_lie_below_a_root(top, front);
        if front.len() == 0 {
            assert(top + joined_parts(front, '/') =~= top);
        } else {
            ordinary_names_join_to_a_plain_path(front);
            let t = joined_parts(front, '/');
            let last = front.last();
            assert(is_ordinary(front[front.len() - 1]));
            assert(last.last() != '/') by {
                assert(last.contains(last[last.len() - 1]));
            }
            assert((top + t).last() == t.last());
            assert((top + t)[0] == top[0]);
            assert(top + t + seq!['/'] + p =~= top + joined_parts(ps, '/'));
        }
    }
}

proof fn plain_path_is_read_as_it_is(path: Seq<char>)
    requires
        path.len() > 0,
        !path.contains('\\'),
    ensures
        !is_verbatim(path),
        slashed(path) == path,
{
    reveal_strlit("\\\\?\\");
    reveal_strlit("/");
    if is_verbatim(path) {
        assert(path.take(4)[0] == '\\');
        assert(path.contains(path[0]));
    }
    crate::text::replacing_by_one_character(path, '\\', '/');
    assert("/"@ =~= seq!['/']);
    assert(slashed(path) =~= path) by {
        assert forall|i: int| 0 <= i < path.len() implies path[i] != '\\' by {
            assert(path.contains(path[i]));
        }
    }
}

/// A path that begins with a slash and goes on with ordinary names lies in the
/// root and in one directory for every name but the last, from the outermost to
/// the innermost.
pub proof fn path_from_the_root_lies_in_it(ps: Seq<Seq<char>>)
    requires
        ps.len() > 0,
        forall|k: int| 0 <= k < ps.len() ==> is_ordinary(#[trigger] ps[k]),
    ensures
        ({
            let dirs = parent_dirs("/"@ + joined_parts(ps, '/'));
            &&& dirs.len() == ps.len()
            &&& dirs[0] == "/"@
            &&& forall|k: int|
                0 < k < ps.len() ==> (#[trigger] dirs[k]) == "/"@ + joined_parts(ps.take(k), '/')
        }),
{
    let t = joined_parts(ps, '/');
    let path = "/"@ + t;
    let none = Seq::<char>::empty();
    reveal_strlit("/");
    ordinary_names_join_to_a_plain_path(ps);
    assert forall|i: int| 0 <= i < path.len() implies path[i] != '\\' by {
        if i > 0 {
            assert(path[i] == t[i - 1]);
            assert(t.contains(t[i - 1]));
        }
    }
    plain_path_is_read_as_it_is(path);
    crate::text::pieces_are_what_stands_between(none, t, '/');
    assert(none + seq!['/'] + t =~= path);
    let pieces = split_on(path, '/');
    assert(pieces == seq![none] + ps);
    assert(pieces[1] == ps[0]);
    assert(!has_share(pieces));
    assert(behind_prefix(pieces) == pieces);
    first_piece_is_dropped(none, ps, true);
    let top = none + "/"@;
    assert(top =~= "/"@);
    assert forall|k: int| 0 < k < ps.len() implies far_below(top, #[trigger] ps.take(k)) == "/"@
        + joined_parts(ps.take(k), '/') by {
        let front = ps.take(k);
        assert forall|j: int| 0 <= j < front.len() implies is_ordinary(#[trigger] front[j]) by {
            assert(front[j] == ps[j]);
        }
        ordinary_names_lie_below_a_root(top, front);
    }
    let dirs = parent_dirs(path);
    let all = Seq::new((ps.len() - 1) as nat, |k: int| far_below(top, ps.take(k + 1)));
    assert(dirs =~= Seq::<Seq<char>>::empty() + seq![top] + all);
    assert forall|k: int| 0 < k < ps.len() implies (#[trigger] dirs[k]) == "/"@ + joined_parts(
        ps.take(k),
        '/',
    ) by {
        assert(dirs[k] == all[k - 1]);
        assert(ps.take(k - 1 + 1) == ps.take(k));
    }
}

proof fn first_piece_is_dropped(first: Seq<char>, ps: Seq<Seq<char>>, leads: bool)
    requires
        first.len() == 0,
        forall|k: int| 0 <= k < ps.len() ==> is_ordinary(#[trigger] ps[k]),
    ensures
        kept_parts(seq![first] + ps, leads) == ps,
    decreases ps.len(),
{
    let all = seq![first] + ps;
    if ps.len() == 0 {
        assert(all.drop_last() =~= Seq::<Seq<char>>::empty());
        reveal_with_fuel(kept_parts, 2);
    } else {
        let front = ps.drop_last();
        assert forall|k: int| 0 <= k < front.len() implies is_ordinary(#[trigger] front[k]) by {
            assert(front[k] == ps[k]);
        }
        first_piece_is_dropped(first, front, leads);
        assert(all.drop_last() =~= seq![first] + front);
        assert(is_ordinary(ps[ps.len() - 1]));
        assert(front.push(ps.last()) =~= ps);
    }
}

/// A path from the root of a drive, with ordinary names behind it, lies in the
/// drive, in its root, and in one directory for every name but the last, from
/// the outermost to the innermost.
pub proof fn path_on_a_drive_lies_in_it(d: char, ps: Seq<Seq<char>>)
    requires
        'a' <= d <= 'z' || 'A' <= d <= 'Z',
        ps.len() > 0,
        forall|k: int| 0 <= k < ps.len() ==> is_ordinary(#[trigger] ps[k]),
    ensures
        ({
            let root = seq![d, ':', '/'];
            let dirs = parent_dirs(root + joined_parts(ps, '/'));
            &&& dirs.len() == ps.len() + 1
            &&& dirs[0] == seq![d, ':']
            &&& dirs[1] == root
            &&& forall|k: int|
                1 < k <= ps.len() ==> (#[trigger] dirs[k]) == root + joined_parts(
                    ps.take(k - 1),
                    '/',
                )
        }),
{
    let t = joined_parts(ps, '/');
    let drive = seq![d, ':'];
    let root = seq![d, ':', '/'];
    let path = root + t;
    let none = Seq::<char>::empty();
    reveal_strlit("/");
    ordinary_names_join_to_a_plain_path(ps);
    assert forall|i: int| 0 <= i < path.len() implies path[i] != '\\' by {
        if i > 2 {
            assert(path[i] == t[i - 3]);
            assert(t.contains(t[i - 3]));
        }
    }
    plain_path_is_read_as_it_is(path);
    crate::text::pieces_are_what_stands_between(drive, t, '/');
    assert(drive + seq!['/'] + t =~= path);
    let pieces = split_on(path, '/');
    assert(pieces == seq![drive] + ps);
    assert(pieces[0] == drive);
    assert(has_drive(drive));
    assert(!has_share(pieces));
    assert(drive.take(2) =~= drive);
    assert(drive.skip(2) =~= none);
    assert(pieces.skip(1) =~= ps);
    assert(behind_prefix(pieces) == seq![none] + ps);
    first_piece_is_dropped(none, ps, false);
    let top = drive + "/"@;
    assert(top =~= root);
    assert forall|k: int| 0 < k < ps.len() implies far_below(top, #[trigger] ps.take(k)) == root
        + joined_parts(ps.take(k), '/') by {
        let front = ps.take(k);
        assert forall|j: int| 0 <= j < front.len() implies is_ordinary(#[trigger] front[j]) by {
            assert(front[j] == ps[j]);
        }
        ordinary_names_lie_below_a_root(top, front);
    }
    let dirs = parent_dirs(path);
    let all = Seq::new((ps.len() - 1) as nat, |k: int| far_below(top, ps.take(k + 1)));
    assert(dirs =~= seq![drive] + seq![top] + all);
    assert forall|k: int| 1 < k <= ps.len() implies (#[trigger] dirs[k]) == root + joined_parts(
        ps.take(k - 1),
        '/',
    ) by {
        assert(dirs[k] == all[k - 2]);
        assert(ps.take(k - 2 + 1) == ps.take(k - 1));
    }
}

/// A path on a network share, with ordinary names behind the server and the
/// share, lies in the share, in its root, and in one directory for every name
/// but the last, from the outermost to the innermost.
pub proof fn path_on_a_share_lies_in_it(
    server: Seq<char>,
    share: Seq<char>,
    ps: Seq<Seq<char>>,
)
    requires
        is_ordinary(server),
        is_ordinary(share),
        ps.len() > 0,
        forall|k: int| 0 <= k < ps.len() ==> is_ordinary(#[trigger] ps[k]),
    ensures
        ({
            let root = "//"@ + server + "/"@ + share + "/"@;
            let dirs = parent_dirs(root + joined_parts(ps, '/'));
            &&& dirs.len() == ps.len() + 1
            &&& dirs[0] == "//"@ + server + "/"@ + share
            &&& dirs[1] == root
            &&& forall|k: int|
                1 < k <= ps.len() ==> (#[trigger] dirs[k]) == root + joined_parts(
                    ps.take(k - 1),
                    '/',
                )
        }),
{
    let t = joined_parts(ps, '/');
    let prefix = "//"@ + server + "/"@ + share;
    let root = prefix + "/"@;
    let path = root + t;
    let none = Seq::<char>::empty();
    reveal_strlit("/");
    reveal_strlit("//");
    assert("/"@ =~= seq!['/']);
    ordinary_names_join_to_a_plain_path(ps);
    let a = server + seq!['/'] + (share + seq!['/'] + t);
    let b = none + seq!['/'] + a;
    assert(none + seq!['/'] + b =~= path);
    assert forall|i: int| 0 <= i < path.len() implies path[i] != '\\' by {
        let n = server.len();
        let m = share.len();
        if 2 <= i < n + 2 {
            assert(path[i] == server[i - 2]);
            assert(server.contains(server[i - 2]));
        } else if n + 3 <= i < n + m + 3 {
            assert(path[i] == share[i - n - 3]);
            assert(share.contains(share[i - n - 3]));
        } else if n + m + 4 <= i {
            assert(path[i] == t[i - n - m - 4]);
            assert(t.contains(t[i - n - m - 4]));
        }
    }
    plain_path_is_read_as_it_is(path);
    crate::text::pieces_are_what_stands_between(share, t, '/');
    crate::text::pieces_are_what_stands_between(server, share + seq!['/'] + t, '/');
    crate::text::pieces_are_what_stands_between(none, a, '/');
    crate::text::pieces_are_what_stands_between(none, b, '/');
    let pieces = split_on(path, '/');
    assert(pieces =~= seq![none, none, server, share] + ps);
    assert(pieces[0] == none && pieces[1] == none && pieces[2] == server && pieces[3] == share);
    assert(has_share(pieces));
    assert(pieces.skip(4) =~= ps);
    ordinary_names_are_kept(ps, false);
    let top = root;
    assert forall|k: int| 0 < k < ps.len() implies far_below(top, #[trigger] ps.take(k)) == root
        + joined_parts(ps.take(k), '/') by {
        let front = ps.take(k);
        assert forall|j: int| 0 <= j < front.len() implies is_ordinary(#[trigger] front[j]) by {
            assert(front[j] == ps[j]);
        }
        ordinary_names_lie_below_a_root(top, front);
    }
    let dirs = parent_dirs(path);
    let all = Seq::new((ps.len() - 1) as nat, |k: int| far_below(top, ps.take(k + 1)));
    assert(dirs =~= seq![prefix] + seq![top] + all);
    assert forall|k: int| 1 < k <= ps.len() implies (#[trigger] dirs[k]) == root + joined_parts(
        ps.take(k - 1),
        '/',
    ) by {
        assert(dirs[k] == all[k - 2]);
        assert(ps.take(k - 2 + 1) == ps.take(k - 1));
    }
}

/// Unless a path is verbatim, it makes no difference which of the two kinds of
/// slash stands in it: it lies in the same directories.
pub proof fn both_slashes_separate(path: Seq<char>)
    requires
        !has_prefix(path, "\\\\?\\"@),
    ensures
        parent_dirs(path) == parent_dirs(slashed(path)),
{
    let s = slashed(path);
    reveal_strlit("/");
    assert("/"@ =~= seq!['/']);
    crate::text::replacing_by_one_character(path, '\\', '/');
    assert forall|i: int| 0 <= i < s.len() implies s[i] != '\\' by {}
    if s.len() > 0 {
        plain_path_is_read_as_it_is(s);
    } else {
        assert(s =~= path);
    }
}

proof fn names_between_backslashes(ps: Seq<Seq<char>>)
    requires
        ps.len() > 0,
        forall|k: int| 0 <= k < ps.len() ==> is_ordinary(#[trigger] ps[k]),
    ensures
        joined_parts(ps, '\\').len() > 0,
        split_on(joined_parts(ps, '\\'), '\\') == ps,
        nonempty(ps) == ps,
    decreases ps.len(),
{
    assert(is_ordinary(ps[0]));
    assert(is_ordinary(ps[ps.len() - 1]));
    crate::text::pieces_are_what_stands_between(ps[0], Seq::empty(), '\\');
    if ps.len() == 1 {
        assert(ps =~= seq![ps[0]]);
        reveal_with_fuel(nonempty, 2);
        assert(nonempty(ps) =~= ps);
    } else {
        let rest = ps.skip(1);
        assert forall|k: int| 0 <= k < rest.len() implies is_ordinary(#[trigger] rest[k]) by {
            assert(rest[k] == ps[k + 1]);
        }
        names_between_backslashes(rest);
        joined_from_the_left(ps, '\\');
        let t = joined_parts(rest, '\\');
        crate::text::pieces_are_what_stands_between(ps[0], t, '\\');
        assert(ps =~= seq![ps[0]] + rest);
        let front = ps.drop_last();
        assert forall|k: int| 0 <= k < front.len() implies is_ordinary(#[trigger] front[k]) by {
            assert(front[k] == ps[k]);
        }
        names_between_backslashes(front);
        assert(front.push(ps.last()) =~= ps);
    }
}

proof fn ordinary_names_are_entered(ps: Seq<Seq<char>>)
    requires
        forall|k: int| 0 <= k < ps.len() ==> is_ordinary(#[trigger] ps[k]) && ps[k] != ".."@,
    ensures
        entered_all(ps) == Spot::Inside(ps),
    decreases ps.len(),
{
    if ps.len() == 0 {
        assert(ps =~= Seq::<Seq<char>>::empty());
    } else {
        let front = ps.drop_last();
        let x = ps.last();
        assert forall|k: int| 0 <= k < front.len() implies is_ordinary(#[trigger] front[k])
            && front[k] != ".."@ by {
            assert(front[k] == ps[k]);
        }
        ordinary_names_are_entered(front);
        assert(is_ordinary(ps[ps.len() - 1]) && ps[ps.len() - 1] != ".."@);
        crate::text::pieces_are_what_stands_between(x, Seq::empty(), '/');
        let xs = split_on(x, '/');
        assert(xs == seq![x]);
        assert(x[0] != '/') by {
            assert(x.contains(x[0]));
        }
        assert(xs.drop_last() =~= Seq::<Seq<char>>::empty());
        reveal_with_fuel(walked, 2);
        assert(walked(front, xs) == front.push(x));
        assert(front.push(x) =~= ps);
    }
}

/// A verbatim path on a drive, with ordinary names behind the root, lies in the
/// drive, in its root, and in one directory for every name but the last. The
/// directories are written with slashes.
pub proof fn verbatim_path_lies_in_its_directories(d: char, ps: Seq<Seq<char>>)
    requires
        'a' <= d <= 'z' || 'A' <= d <= 'Z',
        ps.len() > 0,
        forall|k: int| 0 <= k < ps.len() ==> is_ordinary(#[trigger] ps[k]) && ps[k] != ".."@,
    ensures
        ({
            let dirs = parent_dirs("\\\\?\\"@ + seq![d, ':', '\\'] + joined_parts(ps, '\\'));
            &&& dirs.len() == ps.len() + 1
            &&& dirs[0] == "//?/"@ + seq![d, ':']
            &&& dirs[1] == "//?/"@ + seq![d, ':', '/']
            &&& forall|k: int|
                1 < k <= ps.len() ==> (#[trigger] dirs[k]) == "//?/"@ + seq![d, ':', '/']
                    + joined_parts(ps.take(k - 1), '/')
        }),
{
    verbatim_drive_is_read(d, ps);
    let path = "\\\\?\\"@ + seq![d, ':', '\\'] + joined_parts(ps, '\\');
    let prefix = "//?/"@ + seq![d, ':'];
    let dirs = parent_dirs(path);
    let all = Seq::new(
        (ps.len() - 1) as nat,
        |k: int| spot_text(prefix, entered_all(ps.take(k + 1))),
    );
    assert(dirs =~= seq![prefix, prefix + seq!['/']] + all);
    assert(prefix + seq!['/'] =~= "//?/"@ + seq![d, ':', '/']);
    assert forall|k: int| 1 < k <= ps.len() implies (#[trigger] dirs[k]) == "//?/"@
        + seq![d, ':', '/'] + joined_parts(ps.take(k - 1), '/') by {
        assert(dirs[k] == all[k - 2]);
        let front = ps.take(k - 2 + 1);
        assert(front == ps.take(k - 1));
        assert forall|j: int| 0 <= j < front.len() implies is_ordinary(#[trigger] front[j])
            && front[j] != ".."@ by {
            assert(front[j] == ps[j]);
        }
        ordinary_names_are_entered(front);
        assert(prefix + seq!['/'] + joined_parts(front, '/') =~= "//?/"@ + seq![d, ':', '/']
            + joined_parts(front, '/'));
    }
}

proof fn verbatim_drive_is_read(d: char, ps: Seq<Seq<char>>)
    requires
        'a' <= d <= 'z' || 'A' <= d <= 'Z',
        ps.len() > 0,
        forall|k: int| 0 <= k < ps.len() ==> is_ordinary(#[trigger] ps[k]),
    ensures
        ({
            let path = "\\\\?\\"@ + seq![d, ':', '\\'] + joined_parts(ps, '\\');
            &&& is_verbatim(path)
            &&& verbatim_len(path) == 6
            &&& path.take(6) == "\\\\?\\"@ + seq![d, ':']
            &&& slashed(path.take(6)) == "//?/"@ + seq![d, ':']
            &&& verbatim_parts(path) == ps
        }),
{
    reveal_strlit("\\\\?\\");
    reveal_strlit("//?/");
    reveal_strlit("/");
    assert("/"@ =~= seq!['/']);
    let t = joined_parts(ps, '\\');
    let path = "\\\\?\\"@ + seq![d, ':', '\\'] + t;
    names_between_backslashes(ps);
    assert(path.take(4) =~= "\\\\?\\"@);
    let rest = path.skip(4);
    assert(rest[0] == d && rest[1] == ':' && rest[2] == '\\');
    assert(path.take(6) =~= "\\\\?\\"@ + seq![d, ':']);
    crate::text::replacing_by_one_character(path.take(6), '\\', '/');
    assert(slashed(path.take(6)) =~= "//?/"@ + seq![d, ':']);
    assert(path.skip(7) =~= t);
}

/// A name is put behind a verbatim path with one backslash.
pub proof fn names_are_joined_to_verbatim_paths(d: char, ps: Seq<Seq<char>>, name: Seq<char>)
    requires
        'a' <= d <= 'z' || 'A' <= d <= 'Z',
        ps.len() > 0,
        forall|k: int| 0 <= k < ps.len() ==> is_ordinary(#[trigger] ps[k]),
    ensures
        in_dir("\\\\?\\"@ + seq![d, ':', '\\'] + joined_parts(ps, '\\'), name) == "\\\\?\\"@
            + seq![d, ':', '\\'] + joined_parts(ps, '\\') + seq!['\\'] + name,
{
    verbatim_drive_is_read(d, ps);
    let t = joined_parts(ps, '\\');
    let path = "\\\\?\\"@ + seq![d, ':', '\\'] + t;
    assert(ps.push(name).drop_last() =~= ps);
    assert(joined_parts(ps.push(name), '\\') == t + seq!['\\'] + name);
    assert(in_dir(path, name) =~= path + seq!['\\'] + name);
}

} // verus!
