//! Text operations on Unicode scalar sequences.
//!
//! Every operation comes as a spec function over `Seq<char>` and as an
//! executable function that is proved to compute it.
use vstd::prelude::*;
use vstd::utf8::encode_utf8;

verus! {

/// `String::push` appends one character and leaves the rest as it was.
pub assume_specification[ String::push ](s: &mut String, c: char)
    ensures
        final(s)@ == old(s)@.push(c),
;

/// The characters of `s`.
pub fn chars_of(s: &str) -> (r: Vec<char>)
    ensures
        r@ == s@,
{
    let mut r: Vec<char> = Vec::new();
    for c in it: s.chars()
        invariant
            r@ == it.seq().take(it.index() as int),
            it.seq() == s@,
    {
        proof {
            assert(it.seq().take(it.index() as int + 1) =~= it.seq().take(it.index() as int).push(c));
        }
        r.push(c);
    }
    assert(r@ =~= s@);
    r
}

/// The text made of the characters `v[from..to]`.
pub fn string_of(v: &[char], from: usize, to: usize) -> (r: String)
    requires
        from <= to <= v@.len(),
    ensures
        r@ == v@.subrange(from as int, to as int),
{
    let mut r: String = String::new();
    let mut i: usize = from;
    while i < to
        invariant
            from <= i <= to <= v@.len(),
            r@ == v@.subrange(from as int, i as int),
        decreases to - i,
    {
        assert(v@.subrange(from as int, i as int + 1) =~= v@.subrange(from as int, i as int).push(v@[i as int]));
        r.push(v[i]);
        i = i + 1;
    }
    r
}

/// Whether two texts hold the same characters.
pub fn same(a: &str, b: &str) -> (r: bool)
    ensures
        r == (a@ == b@),
{
    a.to_owned() == b.to_owned()
}

/// The characters of each text of a list.
pub open spec fn texts(v: Seq<String>) -> Seq<Seq<char>> {
    v.map_values(|s: String| s@)
}

/// A text that may be missing.
pub open spec fn text_of(o: Option<String>) -> Option<Seq<char>> {
    match o {
        Some(s) => Some(s@),
        None => None,
    }
}

/// The length of `s` in UTF-8.
pub fn byte_len(s: &str) -> (r: usize)
    ensures
        r == encode_utf8(s@).len(),
{
    s.as_bytes().len()
}

// ---------------------------------------------------------------------------
// Prefixes, suffixes, occurrences
// ---------------------------------------------------------------------------

/// `s` begins with `p`.
pub open spec fn has_prefix<T>(s: Seq<T>, p: Seq<T>) -> bool {
    p.len() <= s.len() && s.take(p.len() as int) == p
}

/// `s` ends with `p`.
pub open spec fn has_suffix<T>(s: Seq<T>, p: Seq<T>) -> bool {
    p.len() <= s.len() && s.skip(s.len() - p.len()) == p
}

/// `needle` stands in `hay` at position `i`.
pub open spec fn occurs_at<T>(hay: Seq<T>, needle: Seq<T>, i: int) -> bool {
    0 <= i && i + needle.len() <= hay.len() && hay.subrange(i, i + needle.len()) == needle
}

/// `needle` stands somewhere in `hay`.
pub open spec fn occurs<T>(hay: Seq<T>, needle: Seq<T>) -> bool {
    exists|i: int| #[trigger] occurs_at(hay, needle, i)
}

/// Whether `p` stands in `v` at position `at`.
pub fn matches_at(v: &[char], p: &[char], at: usize) -> (r: bool)
    ensures
        r == occurs_at(v@, p@, at as int),
{
    if at > v.len() || p.len() > v.len() - at {
        return false;
    }
    let mut i: usize = 0;
    while i < p.len()
        invariant
            i <= p@.len(),
            at + p@.len() <= v@.len() <= usize::MAX,
            forall|j: int| 0 <= j < i ==> v@[at + j] == p@[j],
        decreases p@.len() - i,
    {
        if v[at + i] != p[i] {
            assert(v@.subrange(at as int, at + p@.len())[i as int] != p@[i as int]);
            return false;
        }
        i = i + 1;
    }
    assert(v@.subrange(at as int, at + p@.len()) =~= p@);
    true
}

/// Whether `s` begins with `p`.
pub fn starts_with(s: &str, p: &str) -> (r: bool)
    ensures
        r == has_prefix(s@, p@),
{
    let v = chars_of(s);
    let w = chars_of(p);
    proof {
        if p@.len() <= s@.len() {
            assert(s@.subrange(0, p@.len() as int) =~= s@.take(p@.len() as int));
        }
    }
    matches_at(v.as_slice(), w.as_slice(), 0)
}

/// Whether `s` ends with `p`.
pub fn ends_with(s: &str, p: &str) -> (r: bool)
    ensures
        r == has_suffix(s@, p@),
{
    let v = chars_of(s);
    let w = chars_of(p);
    if w.len() > v.len() {
        return false;
    }
    assert(s@.subrange(s@.len() - p@.len(), s@.len() as int) =~= s@.skip(s@.len() - p@.len()));
    matches_at(v.as_slice(), w.as_slice(), v.len() - w.len())
}

/// Whether `needle` stands somewhere in `s`.
pub fn contains(s: &str, needle: &str) -> (r: bool)
    ensures
        r == occurs(s@, needle@),
{
    let v = chars_of(s);
    let w = chars_of(needle);
    if w.len() > v.len() {
        return false;
    }
    let mut i: usize = 0;
    while i <= v.len() - w.len()
        invariant
            v@ == s@,
            w@ == needle@,
            w@.len() <= v@.len(),
            i <= v@.len() - w@.len() + 1,
            forall|j: int| 0 <= j < i ==> !#[trigger] occurs_at(s@, needle@, j),
        decreases v@.len() - w@.len() + 1 - i,
    {
        if matches_at(v.as_slice(), w.as_slice(), i) {
            return true;
        }
        if i == v.len() - w.len() {
            return false;
        }
        i = i + 1;
    }
    false
}

// ---------------------------------------------------------------------------
// White space and trimming
// ---------------------------------------------------------------------------

/// The Unicode property `White_Space`.
pub open spec fn is_space(c: char) -> bool {
    let u = c as u32;
    ||| 0x09 <= u <= 0x0d
    ||| u == 0x20
    ||| u == 0x85
    ||| u == 0xa0
    ||| u == 0x1680
    ||| 0x2000 <= u <= 0x200a
    ||| u == 0x2028
    ||| u == 0x2029
    ||| u == 0x202f
    ||| u == 0x205f
    ||| u == 0x3000
}

/// Whether `c` is white space.
pub fn space(c: char) -> (r: bool)
    ensures
        r == is_space(c),
{
    let u: u32 = c as u32;
    (0x09 <= u && u <= 0x0d) || u == 0x20 || u == 0x85 || u == 0xa0 || u == 0x1680 || (0x2000 <= u
        && u <= 0x200a) || u == 0x2028 || u == 0x2029 || u == 0x202f || u == 0x205f || u == 0x3000
}

/// `s` without its leading white space.
pub open spec fn trim_start(s: Seq<char>) -> Seq<char>
    decreases s.len(),
{
    if s.len() > 0 && is_space(s[0]) {
        trim_start(s.skip(1))
    } else {
        s
    }
}

/// `s` without its trailing white space.
pub open spec fn trim_end(s: Seq<char>) -> Seq<char>
    decreases s.len(),
{
    if s.len() > 0 && is_space(s.last()) {
        trim_end(s.drop_last())
    } else {
        s
    }
}

/// `s` without the white space around it.
pub open spec fn trimmed(s: Seq<char>) -> Seq<char> {
    trim_end(trim_start(s))
}

/// `s` without the characters `c` at its end.
pub open spec fn trim_end_char(s: Seq<char>, c: char) -> Seq<char>
    decreases s.len(),
{
    if s.len() > 0 && s.last() == c {
        trim_end_char(s.drop_last(), c)
    } else {
        s
    }
}

/// `s` without the characters `c` at its start.
pub open spec fn trim_start_char(s: Seq<char>, c: char) -> Seq<char>
    decreases s.len(),
{
    if s.len() > 0 && s[0] == c {
        trim_start_char(s.skip(1), c)
    } else {
        s
    }
}

/// The position of the first character at or after `from` that is no white space.
fn skip_space(v: &[char], from: usize) -> (r: usize)
    requires
        from <= v@.len(),
    ensures
        from <= r <= v@.len(),
        v@.skip(r as int) == trim_start(v@.skip(from as int)),
        r < v@.len() ==> !is_space(v@[r as int]),
{
    let mut i: usize = from;
    while i < v.len() && space(v[i])
        invariant
            from <= i <= v@.len(),
            trim_start(v@.skip(i as int)) == trim_start(v@.skip(from as int)),
        ensures
            from <= i <= v@.len(),
            trim_start(v@.skip(i as int)) == trim_start(v@.skip(from as int)),
            i < v@.len() ==> !is_space(v@[i as int]),
        decreases v@.len() - i,
    {
        assert(v@.skip(i as int).skip(1) =~= v@.skip(i + 1));
        i = i + 1;
    }
    i
}

/// `s` without the white space around it.
pub fn trim(s: &str) -> (r: String)
    ensures
        r@ == trimmed(s@),
{
    let v = chars_of(s);
    let from = skip_space(v.as_slice(), 0);
    let mut to: usize = v.len();
    assert(s@.skip(0) =~= s@);
    assert(v@.subrange(from as int, to as int) =~= v@.skip(from as int));
    while to > from && space(v[to - 1])
        invariant
            v@ == s@,
            from <= to <= v@.len(),
            trim_end(v@.subrange(from as int, to as int)) == trimmed(s@),
        ensures
            from <= to <= v@.len(),
            v@.subrange(from as int, to as int) == trimmed(s@),
        decreases to,
    {
        assert(v@.subrange(from as int, to as int).drop_last() =~= v@.subrange(from as int, to - 1));
        to = to - 1;
    }
    string_of(v.as_slice(), from, to)
}

/// `s` without the characters `c` at its end.
pub fn strip_end(s: &str, c: char) -> (r: String)
    ensures
        r@ == trim_end_char(s@, c),
{
    let v = chars_of(s);
    let mut to: usize = v.len();
    assert(v@.subrange(0, to as int) =~= s@);
    while to > 0 && v[to - 1] == c
        invariant
            to <= v@.len(),
            trim_end_char(v@.subrange(0, to as int), c) == trim_end_char(s@, c),
        ensures
            to <= v@.len(),
            v@.subrange(0, to as int) == trim_end_char(s@, c),
        decreases to,
    {
        assert(v@.subrange(0, to as int).drop_last() =~= v@.subrange(0, to - 1));
        to = to - 1;
    }
    string_of(v.as_slice(), 0, to)
}

/// `s` without the characters `c` at its start.
pub fn strip_start(s: &str, c: char) -> (r: String)
    ensures
        r@ == trim_start_char(s@, c),
{
    let v = chars_of(s);
    let mut i: usize = 0;
    assert(s@.skip(0) =~= s@);
    while i < v.len() && v[i] == c
        invariant
            v@ == s@,
            i <= v@.len(),
            trim_start_char(s@.skip(i as int), c) == trim_start_char(s@, c),
        ensures
            v@ == s@,
            i <= v@.len(),
            s@.skip(i as int) == trim_start_char(s@, c),
        decreases v@.len() - i,
    {
        assert(s@.skip(i as int).skip(1) =~= s@.skip(i + 1));
        i = i + 1;
    }
    assert(v@.subrange(i as int, v@.len() as int) =~= s@.skip(i as int));
    string_of(v.as_slice(), i, v.len())
}

// ---------------------------------------------------------------------------
// Splitting
// ---------------------------------------------------------------------------

/// The position of the first `c` in `s`, the length of `s` where there is none.
pub open spec fn first_index(s: Seq<char>, c: char) -> int
    decreases s.len(),
{
    if s.len() == 0 || s[0] == c {
        0
    } else {
        1 + first_index(s.skip(1), c)
    }
}

/// `first_index` is the least position that holds `c`.
pub proof fn first_index_is_least(s: Seq<char>, c: char)
    ensures
        0 <= first_index(s, c) <= s.len(),
        first_index(s, c) < s.len() ==> s[first_index(s, c)] == c,
        forall|j: int| 0 <= j < first_index(s, c) ==> #[trigger] s[j] != c,
        first_index(s, c) < s.len() <==> s.contains(c),
    decreases s.len(),
{
    if s.len() > 0 && s[0] != c {
        first_index_is_least(s.skip(1), c);
        assert forall|j: int| 0 <= j < first_index(s, c) implies #[trigger] s[j] != c by {
            if j > 0 {
                assert(s.skip(1)[j - 1] == s[j]);
            }
        }
        if s.contains(c) {
            let j = choose|j: int| 0 <= j < s.len() && s[j] == c;
            assert(s.skip(1)[j - 1] == c);
        }
        if first_index(s, c) < s.len() {
            assert(s.skip(1)[first_index(s, c) - 1] == s[first_index(s, c)]);
        }
    }
}

/// A position is the first index of `c` where `c` stands there, or the text
/// ends there, and not before.
pub proof fn first_index_unique(s: Seq<char>, c: char, i: int)
    requires
        0 <= i <= s.len(),
        i < s.len() ==> s[i] == c,
        forall|j: int| 0 <= j < i ==> #[trigger] s[j] != c,
    ensures
        first_index(s, c) == i,
{
    first_index_is_least(s, c);
    let k = first_index(s, c);
    if k < i {
        assert(s[k] != c);
    }
    if i < k {
        assert(s[i] != c);
    }
}

/// The position of the first `c` at or after `from`.
pub fn find_from(v: &[char], from: usize, c: char) -> (r: usize)
    requires
        from <= v@.len(),
    ensures
        from <= r <= v@.len(),
        r - from == first_index(v@.skip(from as int), c),
        r < v@.len() ==> v@[r as int] == c,
{
    let mut i: usize = from;
    while i < v.len() && v[i] != c
        invariant
            from <= i <= v@.len(),
            forall|j: int| from <= j < i ==> v@[j] != c,
        ensures
            from <= i <= v@.len(),
            forall|j: int| from <= j < i ==> v@[j] != c,
            i < v@.len() ==> v@[i as int] == c,
        decreases v@.len() - i,
    {
        i = i + 1;
    }
    proof {
        first_index_unique(v@.skip(from as int), c, i - from);
    }
    i
}

/// The pieces of `s` between the separators `c`; an empty text is one empty piece.
pub open spec fn split_on(s: Seq<char>, c: char) -> Seq<Seq<char>>
    decreases s.len(),
    via split_on_decreases
{
    let i = first_index(s, c);
    if i < s.len() {
        seq![s.take(i)] + split_on(s.skip(i + 1), c)
    } else {
        seq![s]
    }
}

#[via_fn]
proof fn split_on_decreases(s: Seq<char>, c: char) {
    first_index_is_least(s, c);
}

/// The pieces of `s` between the separators `c`.
pub fn split(s: &str, c: char) -> (r: Vec<String>)
    ensures
        texts(r@) == split_on(s@, c),
{
    let v = chars_of(s);
    let mut r: Vec<String> = Vec::new();
    let mut from: usize = 0;
    assert(s@.skip(0) =~= s@);
    assert(texts(r@) =~= Seq::<Seq<char>>::empty());
    assert(Seq::<Seq<char>>::empty() + split_on(s@, c) =~= split_on(s@, c));
    loop
        invariant
            v@ == s@,
            from <= v@.len(),
            texts(r@) + split_on(s@.skip(from as int), c) == split_on(s@, c),
        decreases v@.len() - from,
    {
        let i = find_from(v.as_slice(), from, c);
        let piece = string_of(v.as_slice(), from, i);
        let ghost before = r@;
        let ghost rest = s@.skip(from as int);
        proof {
            assert(v@.subrange(from as int, i as int) =~= rest.take(i - from));
        }
        r.push(piece);
        assert(texts(r@) =~= texts(before).push(piece@));
        if i == v.len() {
            assert(rest.take(i - from) =~= rest);
            assert(texts(r@) =~= texts(before) + seq![rest]);
            return r;
        }
        proof {
            assert(rest.skip(i - from + 1) =~= s@.skip(i + 1));
            assert(texts(before) + (seq![piece@] + split_on(s@.skip(i + 1), c)) =~= texts(before).push(
                piece@,
            ) + split_on(s@.skip(i + 1), c));
        }
        from = i + 1;
    }
}

/// A line without the carriage return before its end.
pub open spec fn without_cr(s: Seq<char>) -> Seq<char> {
    if s.len() > 0 && s.last() == '\r' {
        s.drop_last()
    } else {
        s
    }
}

/// The lines of `s`: each ends in a line feed or a carriage return and a line
/// feed, and the last one may lack it.
pub open spec fn lines_of(s: Seq<char>) -> Seq<Seq<char>>
    decreases s.len(),
    via lines_of_decreases
{
    let i = first_index(s, '\n');
    if s.len() == 0 {
        Seq::empty()
    } else if i < s.len() {
        seq![without_cr(s.take(i))] + lines_of(s.skip(i + 1))
    } else {
        seq![s]
    }
}

#[via_fn]
proof fn lines_of_decreases(s: Seq<char>) {
    first_index_is_least(s, '\n');
}

/// A line in front of a text is the first of its lines.
pub proof fn lines_of_line(a: Seq<char>, rest: Seq<char>)
    requires
        !a.contains('\n'),
        !a.contains('\r'),
    ensures
        lines_of(a + seq!['\n'] + rest) == seq![a] + lines_of(rest),
{
    let s = a + seq!['\n'] + rest;
    assert forall|j: int| 0 <= j < a.len() implies #[trigger] s[j] != '\n' by {
        assert(a[j] == s[j]);
    }
    first_index_unique(s, '\n', a.len() as int);
    assert(s.take(a.len() as int) =~= a);
    assert(s.skip(a.len() as int + 1) =~= rest);
    if a.len() > 0 {
        assert(a[a.len() - 1] != '\r');
    }
}

/// The lines of `s`.
pub fn lines(s: &str) -> (r: Vec<String>)
    ensures
        texts(r@) == lines_of(s@),
{
    let v = chars_of(s);
    let mut r: Vec<String> = Vec::new();
    let mut from: usize = 0;
    assert(s@.skip(0) =~= s@);
    assert(texts(r@) =~= Seq::<Seq<char>>::empty());
    assert(Seq::<Seq<char>>::empty() + lines_of(s@) =~= lines_of(s@));
    while from < v.len()
        invariant
            v@ == s@,
            from <= v@.len(),
            texts(r@) + lines_of(s@.skip(from as int)) == lines_of(s@),
        decreases v@.len() - from,
    {
        let i = find_from(v.as_slice(), from, '\n');
        let ghost before = r@;
        let ghost rest = s@.skip(from as int);
        proof {
            assert(v@.subrange(from as int, i as int) =~= rest.take(i - from));
        }
        if i == v.len() {
            let piece = string_of(v.as_slice(), from, i);
            r.push(piece);
            proof {
                assert(rest.take(i - from) =~= rest);
                assert(texts(r@) =~= texts(before) + seq![rest]);
                assert(s@.skip(i as int) =~= Seq::<char>::empty());
                assert(lines_of(s@.skip(i as int)) =~= Seq::<Seq<char>>::empty());
                assert(texts(r@) + Seq::<Seq<char>>::empty() =~= texts(r@));
            }
            from = i;
        } else {
            let end: usize = if i > from && v[i - 1] == '\r' { i - 1 } else { i };
            let piece = string_of(v.as_slice(), from, end);
            proof {
                assert(piece@ =~= without_cr(rest.take(i - from)));
            }
            r.push(piece);
            proof {
                assert(texts(r@) =~= texts(before).push(piece@));
                assert(rest.skip(i - from + 1) =~= s@.skip(i + 1));
                assert(texts(before) + (seq![piece@] + lines_of(s@.skip(i + 1))) =~= texts(
                    before,
                ).push(piece@) + lines_of(s@.skip(i + 1)));
            }
            from = i + 1;
        }
    }
    proof {
        assert(s@.skip(from as int) =~= Seq::<char>::empty());
        assert(texts(r@) + Seq::<Seq<char>>::empty() =~= texts(r@));
    }
    r
}

/// The number of characters of `s` before its first white space.
pub open spec fn word_len(s: Seq<char>) -> int
    decreases s.len(),
{
    if s.len() == 0 || is_space(s[0]) {
        0
    } else {
        1 + word_len(s.skip(1))
    }
}

/// The words of `s`: its longest pieces without white space.
pub open spec fn words_of(s: Seq<char>) -> Seq<Seq<char>>
    decreases s.len(),
    via words_of_decreases
{
    let t = trim_start(s);
    if t.len() == 0 {
        Seq::empty()
    } else {
        seq![t.take(word_len(t))] + words_of(t.skip(word_len(t)))
    }
}

proof fn trim_start_bounds(s: Seq<char>)
    ensures
        trim_start(s).len() <= s.len(),
        trim_start(s).len() > 0 ==> !is_space(trim_start(s)[0]),
    decreases s.len(),
{
    if s.len() > 0 && is_space(s[0]) {
        trim_start_bounds(s.skip(1));
    }
}

proof fn word_len_bounds(s: Seq<char>)
    ensures
        0 <= word_len(s) <= s.len(),
        s.len() > 0 && !is_space(s[0]) ==> word_len(s) > 0,
    decreases s.len(),
{
    if s.len() > 0 && !is_space(s[0]) {
        word_len_bounds(s.skip(1));
    }
}

#[via_fn]
proof fn words_of_decreases(s: Seq<char>) {
    trim_start_bounds(s);
    word_len_bounds(trim_start(s));
}

/// The words of `s`.
pub fn words(s: &str) -> (r: Vec<String>)
    ensures
        texts(r@) == words_of(s@),
{
    let v = chars_of(s);
    let mut r: Vec<String> = Vec::new();
    let mut from: usize = 0;
    assert(s@.skip(0) =~= s@);
    assert(texts(r@) =~= Seq::<Seq<char>>::empty());
    assert(Seq::<Seq<char>>::empty() + words_of(s@) =~= words_of(s@));
    loop
        invariant
            v@ == s@,
            from <= v@.len(),
            texts(r@) + words_of(s@.skip(from as int)) == words_of(s@),
        decreases v@.len() - from,
    {
        let start = skip_space(v.as_slice(), from);
        let ghost t = s@.skip(start as int);
        if start == v.len() {
            assert(texts(r@) + Seq::<Seq<char>>::empty() =~= texts(r@));
            return r;
        }
        let mut end: usize = start;
        assert(s@.skip(end as int) =~= t);
        while end < v.len() && !space(v[end])
            invariant
                v@ == s@,
                t == s@.skip(start as int),
                start <= end <= v@.len(),
                word_len(t) == (end - start) + word_len(s@.skip(end as int)),
            ensures
                start <= end <= v@.len(),
                word_len(t) == end - start,
            decreases v@.len() - end,
        {
            assert(s@.skip(end as int).skip(1) =~= s@.skip(end + 1));
            end = end + 1;
        }
        let piece = string_of(v.as_slice(), start, end);
        let ghost before = r@;
        proof {
            word_len_bounds(t);
            assert(piece@ =~= t.take(word_len(t)));
            assert(t.skip(word_len(t)) =~= s@.skip(end as int));
        }
        r.push(piece);
        proof {
            assert(texts(r@) =~= texts(before).push(piece@));
            assert(texts(before) + (seq![piece@] + words_of(s@.skip(end as int))) =~= texts(
                before,
            ).push(piece@) + words_of(s@.skip(end as int)));
        }
        from = end;
    }
}

// ---------------------------------------------------------------------------
// Replacing
// ---------------------------------------------------------------------------

/// `s` with every `c` replaced by the text `by`.
pub open spec fn replace_char(s: Seq<char>, c: char, by: Seq<char>) -> Seq<char>
    decreases s.len(),
{
    if s.len() == 0 {
        s
    } else {
        replace_char(s.drop_last(), c, by) + (if s.last() == c {
            by
        } else {
            seq![s.last()]
        })
    }
}

/// `s` with every `c` replaced by the text `by`.
pub fn replace(s: &str, c: char, by: &str) -> (r: String)
    ensures
        r@ == replace_char(s@, c, by@),
{
    let v = chars_of(s);
    let mut r: String = String::new();
    let mut i: usize = 0;
    while i < v.len()
        invariant
            v@ == s@,
            i <= v@.len(),
            r@ == replace_char(s@.take(i as int), c, by@),
        decreases v@.len() - i,
    {
        assert(s@.take(i + 1).drop_last() =~= s@.take(i as int));
        if v[i] == c {
            r.append(by);
        } else {
            r.push(v[i]);
            assert(r@ =~= replace_char(s@.take(i as int), c, by@) + seq![s@[i as int]]);
        }
        i = i + 1;
    }
    assert(s@.take(i as int) =~= s@);
    r
}

/// `s` with every carriage return and line feed pair replaced by a line feed.
pub open spec fn with_lf(s: Seq<char>) -> Seq<char>
    decreases s.len(),
{
    if s.len() == 0 {
        s
    } else if s.len() >= 2 && s[0] == '\r' && s[1] == '\n' {
        seq!['\n'] + with_lf(s.skip(2))
    } else {
        seq![s[0]] + with_lf(s.skip(1))
    }
}

/// `s` with every carriage return and line feed pair replaced by a line feed.
pub fn crlf_to_lf(s: &str) -> (r: String)
    ensures
        r@ == with_lf(s@),
{
    let v = chars_of(s);
    let mut r: String = String::new();
    let mut i: usize = 0;
    assert(s@.skip(0) =~= s@);
    assert(Seq::<char>::empty() + with_lf(s@) =~= with_lf(s@));
    while i < v.len()
        invariant
            v@ == s@,
            i <= v@.len(),
            r@ + with_lf(s@.skip(i as int)) == with_lf(s@),
        decreases v@.len() - i,
    {
        let ghost before = r@;
        let ghost rest = s@.skip(i as int);
        if v.len() - i >= 2 && v[i] == '\r' && v[i + 1] == '\n' {
            r.push('\n');
            proof {
                assert(rest.skip(2) =~= s@.skip(i + 2));
                assert(before + (seq!['\n'] + with_lf(s@.skip(i + 2))) =~= before.push('\n') + with_lf(
                    s@.skip(i + 2),
                ));
            }
            i = i + 2;
        } else {
            r.push(v[i]);
            proof {
                assert(rest.skip(1) =~= s@.skip(i + 1));
                assert(before + (seq![rest[0]] + with_lf(s@.skip(i + 1))) =~= before.push(rest[0])
                    + with_lf(s@.skip(i + 1)));
            }
            i = i + 1;
        }
    }
    assert(s@.skip(i as int) =~= Seq::<char>::empty());
    assert(r@ + Seq::<char>::empty() =~= r@);
    r
}

// ---------------------------------------------------------------------------
// Laws
// ---------------------------------------------------------------------------

/// The bytes of two texts, one behind the other, are those of the one and then
/// those of the other.
pub proof fn bytes_of_joined_texts(a: Seq<char>, b: Seq<char>)
    ensures
        encode_utf8(a + b) == encode_utf8(a) + encode_utf8(b),
    decreases a.len(),
{
    if a.len() == 0 {
        assert(a + b =~= b);
        assert(encode_utf8(a) =~= Seq::<u8>::empty());
        assert(encode_utf8(a) + encode_utf8(b) =~= encode_utf8(b));
    } else {
        assert((a + b).drop_first() =~= a.drop_first() + b);
        bytes_of_joined_texts(a.drop_first(), b);
        let one = vstd::utf8::encode_scalar(a[0] as u32);
        assert(encode_utf8(a + b) == one + encode_utf8(a.drop_first() + b));
        assert(encode_utf8(a) == one + encode_utf8(a.drop_first()));
        assert(one + (encode_utf8(a.drop_first()) + encode_utf8(b)) =~= (one + encode_utf8(
            a.drop_first(),
        )) + encode_utf8(b));
    }
}

/// A text begins with another where it is the other and something behind it,
/// ends with it where it is something and the other behind it, and holds it
/// where there is something before it and something behind it.
pub proof fn parts_of_a_text<T>(s: Seq<T>, p: Seq<T>)
    ensures
        has_prefix(s, p) <==> exists|b: Seq<T>| s == #[trigger] (p + b),
        has_suffix(s, p) <==> exists|a: Seq<T>| s == #[trigger] (a + p),
        occurs(s, p) <==> exists|a: Seq<T>, b: Seq<T>| s == #[trigger] (a + p + b),
{
    if has_prefix(s, p) {
        assert(s =~= p + s.skip(p.len() as int));
    }
    if exists|b: Seq<T>| s == #[trigger] (p + b) {
        let b = choose|b: Seq<T>| s == #[trigger] (p + b);
        assert(s.take(p.len() as int) =~= p);
    }
    if has_suffix(s, p) {
        assert(s =~= s.take(s.len() - p.len()) + p);
    }
    if exists|a: Seq<T>| s == #[trigger] (a + p) {
        let a = choose|a: Seq<T>| s == #[trigger] (a + p);
        assert(s.skip(s.len() - p.len()) =~= p);
    }
    if occurs(s, p) {
        let i = choose|i: int| #[trigger] occurs_at(s, p, i);
        assert(s =~= s.take(i) + p + s.skip(i + p.len())) by {
            assert forall|k: int| 0 <= k < s.len() implies s[k] == (s.take(i) + p + s.skip(
                i + p.len(),
            ))[k] by {
                if i <= k < i + p.len() {
                    assert(s.subrange(i, i + p.len())[k - i] == p[k - i]);
                }
            }
        }
    }
    if exists|a: Seq<T>, b: Seq<T>| s == #[trigger] (a + p + b) {
        let (a, b) = choose|a: Seq<T>, b: Seq<T>| s == #[trigger] (a + p + b);
        assert(s.subrange(a.len() as int, (a.len() + p.len()) as int) =~= p);
        assert(occurs_at(s, p, a.len() as int));
    }
}

/// What stands in a text stands in every longer text around it.
pub proof fn longer_texts_hold_as_much<T>(a: Seq<T>, s: Seq<T>, b: Seq<T>, p: Seq<T>)
    requires
        occurs(s, p),
    ensures
        occurs(a + s + b, p),
{
    let i = choose|i: int| #[trigger] occurs_at(s, p, i);
    let t = a + s + b;
    assert(t.subrange(a.len() + i, a.len() + i + p.len() as int) =~= s.subrange(i, i + p.len()));
    assert(occurs_at(t, p, a.len() + i));
}

/// A character is replaced in two texts, one behind the other, as it is in each;
/// a text of one character becomes `by` where it is the one to be replaced, and
/// stays as it is otherwise.
pub proof fn replacing_in_joined_texts(a: Seq<char>, b: Seq<char>, c: char, by: Seq<char>)
    ensures
        replace_char(a + b, c, by) == replace_char(a, c, by) + replace_char(b, c, by),
        replace_char(seq![c], c, by) == by,
        forall|d: char| d != c ==> #[trigger] replace_char(seq![d], c, by) == seq![d],
        replace_char(Seq::empty(), c, by) == Seq::<char>::empty(),
    decreases b.len(),
{
    reveal_with_fuel(replace_char, 2);
    assert(seq![c].drop_last() =~= Seq::<char>::empty());
    assert(Seq::<char>::empty() + by =~= by);
    assert forall|d: char| d != c implies #[trigger] replace_char(seq![d], c, by) == seq![d] by {
        assert(seq![d].drop_last() =~= Seq::<char>::empty());
        assert(Seq::<char>::empty() + seq![d] =~= seq![d]);
    }
    if b.len() == 0 {
        assert(a + b =~= a);
        assert(replace_char(a, c, by) + replace_char(b, c, by) =~= replace_char(a, c, by));
    } else {
        replacing_in_joined_texts(a, b.drop_last(), c, by);
        assert((a + b).drop_last() =~= a + b.drop_last());
        assert((a + b).last() == b.last());
        let last = if b.last() == c {
            by
        } else {
            seq![b.last()]
        };
        assert(replace_char(a, c, by) + (replace_char(b.drop_last(), c, by) + last) =~= (
        replace_char(a, c, by) + replace_char(b.drop_last(), c, by)) + last);
    }
}

/// A character is replaced by one other wherever it stands, and nothing else
/// changes.
pub proof fn replacing_by_one_character(s: Seq<char>, c: char, d: char)
    ensures
        replace_char(s, c, seq![d]).len() == s.len(),
        forall|k: int|
            0 <= k < s.len() ==> (#[trigger] replace_char(s, c, seq![d])[k]) == (if s[k] == c {
                d
            } else {
                s[k]
            }),
    decreases s.len(),
{
    if s.len() > 0 {
        replacing_by_one_character(s.drop_last(), c, d);
        assert forall|k: int| 0 <= k < s.len() implies (#[trigger] replace_char(
            s,
            c,
            seq![d],
        )[k]) == (if s[k] == c {
            d
        } else {
            s[k]
        }) by {
            if k < s.len() - 1 {
                assert(replace_char(s.drop_last(), c, seq![d])[k] == (if s.drop_last()[k] == c {
                    d
                } else {
                    s.drop_last()[k]
                }));
            }
        }
    }
}

/// The characters that count as white space, by their codes: tab to carriage
/// return and the space in ASCII, and beyond it the ones that Unicode lists.
pub proof fn white_space_by_its_codes(c: char)
    ensures
        is_space(c) && (c as u32) < 128 <==> c == '\t' || c == '\n' || c as u32 == 11 || c as u32 == 12
            || c == '\r' || c == ' ',
        is_space(c) && c as u32 >= 128 <==> c as u32 == 133 || c as u32 == 160 || c as u32 == 5760
            || 8192 <= c as u32 <= 8202 || c as u32 == 8232 || c as u32 == 8233 || c as u32 == 8239
            || c as u32 == 8287 || c as u32 == 12288,
{
}

/// All of `s` is white space.
pub open spec fn is_blank(s: Seq<char>) -> bool {
    forall|k: int| 0 <= k < s.len() ==> is_space(#[trigger] s[k])
}

/// None of `s` is white space.
pub open spec fn is_solid(s: Seq<char>) -> bool {
    forall|k: int| 0 <= k < s.len() ==> !is_space(#[trigger] s[k])
}

proof fn leading_space_goes(a: Seq<char>, s: Seq<char>)
    requires
        is_blank(a),
        s.len() == 0 || !is_space(s[0]),
    ensures
        trim_start(a + s) == s,
    decreases a.len(),
{
    if a.len() == 0 {
        assert(a + s =~= s);
    } else {
        assert((a + s)[0] == a[0]);
        assert((a + s).skip(1) =~= a.skip(1) + s);
        assert forall|k: int| 0 <= k < a.skip(1).len() implies is_space(#[trigger] a.skip(1)[k]) by {
            assert(a.skip(1)[k] == a[k + 1]);
        }
        leading_space_goes(a.skip(1), s);
    }
}

proof fn trailing_space_goes(s: Seq<char>, b: Seq<char>)
    requires
        is_blank(b),
        s.len() == 0 || !is_space(s.last()),
    ensures
        trim_end(s + b) == s,
    decreases b.len(),
{
    if b.len() == 0 {
        assert(s + b =~= s);
    } else {
        assert((s + b).last() == b.last());
        assert((s + b).drop_last() =~= s + b.drop_last());
        assert forall|k: int| 0 <= k < b.drop_last().len() implies is_space(
            #[trigger] b.drop_last()[k],
        ) by {
            assert(b.drop_last()[k] == b[k]);
        }
        trailing_space_goes(s, b.drop_last());
    }
}

/// Trimming takes the white space around a text and nothing of what stands
/// between.
pub proof fn trimming_keeps_what_is_between(a: Seq<char>, s: Seq<char>, b: Seq<char>)
    requires
        is_blank(a),
        is_blank(b),
        s.len() == 0 || (!is_space(s[0]) && !is_space(s.last())),
    ensures
        trimmed(a + s + b) == s,
{
    if s.len() == 0 {
        let ab = a + b;
        assert(a + s + b =~= ab + Seq::<char>::empty());
        assert forall|k: int| 0 <= k < ab.len() implies is_space(#[trigger] ab[k]) by {
            if k < a.len() {
                assert(ab[k] == a[k]);
            } else {
                assert(ab[k] == b[k - a.len()]);
            }
        }
        leading_space_goes(ab, Seq::empty());
        assert(s =~= Seq::<char>::empty());
    } else {
        assert(a + s + b =~= a + (s + b));
        assert((s + b)[0] == s[0]);
        leading_space_goes(a, s + b);
        trailing_space_goes(s, b);
    }
}

proof fn trim_start_splits(s: Seq<char>)
    ensures
        exists|a: Seq<char>| is_blank(a) && s == #[trigger] (a + trim_start(s)),
        trim_start(s).len() > 0 ==> !is_space(trim_start(s)[0]),
    decreases s.len(),
{
    if s.len() > 0 && is_space(s[0]) {
        trim_start_splits(s.skip(1));
        let a = choose|a: Seq<char>| is_blank(a) && s.skip(1) == #[trigger] (a + trim_start(s.skip(1)));
        let a1 = seq![s[0]] + a;
        assert forall|k: int| 0 <= k < a1.len() implies is_space(#[trigger] a1[k]) by {
            if k > 0 {
                assert(a1[k] == a[k - 1]);
            }
        }
        assert(s =~= seq![s[0]] + s.skip(1));
        assert(s =~= a1 + trim_start(s));
    } else {
        assert(s =~= Seq::<char>::empty() + trim_start(s));
    }
}

proof fn trim_end_splits(s: Seq<char>)
    ensures
        exists|b: Seq<char>| is_blank(b) && s == #[trigger] (trim_end(s) + b),
        trim_end(s).len() > 0 ==> !is_space(trim_end(s).last()),
    decreases s.len(),
{
    if s.len() > 0 && is_space(s.last()) {
        trim_end_splits(s.drop_last());
        let b = choose|b: Seq<char>|
            is_blank(b) && s.drop_last() == #[trigger] (trim_end(s.drop_last()) + b);
        let b1 = b.push(s.last());
        assert forall|k: int| 0 <= k < b1.len() implies is_space(#[trigger] b1[k]) by {
            if k < b.len() {
                assert(b1[k] == b[k]);
            }
        }
        assert(s =~= s.drop_last().push(s.last()));
        assert(s =~= trim_end(s) + b1);
    } else {
        assert(s =~= trim_end(s) + Seq::<char>::empty());
    }
}

/// Every text is what trimming leaves of it with white space around it, and what
/// it leaves neither begins nor ends with white space.
pub proof fn trimming_takes_white_space_only(s: Seq<char>)
    ensures
        exists|a: Seq<char>, b: Seq<char>|
            is_blank(a) && is_blank(b) && s == #[trigger] (a + trimmed(s) + b),
        trimmed(s).len() > 0 ==> !is_space(trimmed(s)[0]) && !is_space(trimmed(s).last()),
{
    let t = trim_start(s);
    trim_start_splits(s);
    trim_end_splits(t);
    let a = choose|a: Seq<char>| is_blank(a) && s == #[trigger] (a + t);
    let b = choose|b: Seq<char>| is_blank(b) && t == #[trigger] (trim_end(t) + b);
    assert(s =~= a + trimmed(s) + b);
    if trimmed(s).len() > 0 {
        assert(t[0] == trimmed(s)[0]);
    }
}

proof fn word_len_of(w: Seq<char>, b: Seq<char>)
    requires
        is_solid(w),
        b.len() == 0 || is_space(b[0]),
    ensures
        word_len(w + b) == w.len(),
    decreases w.len(),
{
    if w.len() == 0 {
        assert(w + b =~= b);
    } else {
        assert((w + b)[0] == w[0]);
        assert((w + b).skip(1) =~= w.skip(1) + b);
        assert forall|k: int| 0 <= k < w.skip(1).len() implies !is_space(#[trigger] w.skip(1)[k]) by {
            assert(w.skip(1)[k] == w[k + 1]);
        }
        word_len_of(w.skip(1), b);
    }
}

/// A piece without white space that has white space or nothing before it and
/// behind it is a word, and the words behind it follow it; white space alone
/// holds no word.
pub proof fn words_are_the_pieces_between_white_space(a: Seq<char>, w: Seq<char>, b: Seq<char>)
    requires
        is_blank(a),
        is_solid(w),
        b.len() == 0 || is_space(b[0]),
    ensures
        w.len() > 0 ==> words_of(a + w + b) == seq![w] + words_of(b),
        words_of(a) == Seq::<Seq<char>>::empty(),
{
    leading_space_goes(a, Seq::empty());
    assert(a + Seq::<char>::empty() =~= a);
    if w.len() > 0 {
        let t = w + b;
        assert(a + w + b =~= a + t);
        assert(t[0] == w[0]);
        leading_space_goes(a, t);
        word_len_of(w, b);
        assert(t.take(w.len() as int) =~= w);
        assert(t.skip(w.len() as int) =~= b);
    }
}

proof fn word_len_ends_at_white_space(s: Seq<char>)
    ensures
        0 <= word_len(s) <= s.len(),
        is_solid(s.take(word_len(s))),
        word_len(s) < s.len() ==> is_space(s[word_len(s)]),
    decreases s.len(),
{
    if s.len() > 0 && !is_space(s[0]) {
        let r = s.skip(1);
        word_len_ends_at_white_space(r);
        let w = s.take(word_len(s));
        assert forall|k: int| 0 <= k < w.len() implies !is_space(#[trigger] w[k]) by {
            if k > 0 {
                assert(w[k] == r.take(word_len(r))[k - 1]);
            }
        }
        if word_len(s) < s.len() {
            assert(s[word_len(s)] == r[word_len(r)]);
        }
    }
}

/// The first word of a text is not empty, holds no white space, and has nothing
/// but white space before it; white space or nothing follows it, and the other
/// words are those of what follows. A text without words is white space alone.
pub proof fn first_word_stands_first(s: Seq<char>)
    ensures
        words_of(s).len() == 0 ==> is_blank(s),
        words_of(s).len() > 0 ==> words_of(s)[0].len() > 0 && is_solid(words_of(s)[0]) && exists|
            a: Seq<char>,
            b: Seq<char>,
        |
            is_blank(a) && (b.len() == 0 || is_space(b[0])) && s == #[trigger] (a + words_of(s)[0]
                + b) && words_of(s) == seq![words_of(s)[0]] + words_of(b),
{
    let t = trim_start(s);
    trim_start_splits(s);
    let a = choose|a: Seq<char>| is_blank(a) && s == #[trigger] (a + t);
    if t.len() == 0 {
        assert(s =~= a);
    } else {
        word_len_ends_at_white_space(t);
        word_len_bounds(t);
        let w = t.take(word_len(t));
        let b = t.skip(word_len(t));
        assert(words_of(s)[0] == w);
        assert(s =~= a + w + b);
    }
}

/// What comes before the first `c` is the first piece of a text, and the pieces
/// of what comes behind it follow; a text without `c` is one piece.
pub proof fn pieces_are_what_stands_between(a: Seq<char>, rest: Seq<char>, c: char)
    requires
        !a.contains(c),
    ensures
        split_on(a + seq![c] + rest, c) == seq![a] + split_on(rest, c),
        split_on(a, c) == seq![a],
{
    let s = a + seq![c] + rest;
    let n = a.len() as int;
    assert forall|k: int| 0 <= k < n implies s[k] != c by {
        assert(s[k] == a[k]);
        assert(a.contains(a[k]));
    }
    assert(s[n] == c);
    first_index_is_least(s, c);
    first_index_is_least(a, c);
    first_index_unique(s, c, n);
    assert(s.take(n) =~= a);
    assert(s.skip(n + 1) =~= rest);
    if first_index(a, c) < a.len() {
        assert(a.contains(a[first_index(a, c)]));
    }
}

/// The first line of a text is what comes before the first line feed, without
/// one carriage return at its end, and the lines of what comes behind it follow;
/// a text that has no line feed and is not empty is one line as it stands, and
/// an empty text has no line.
pub proof fn lines_are_what_stands_between(a: Seq<char>, rest: Seq<char>)
    requires
        !a.contains('\n'),
    ensures
        a.len() > 0 && a.last() == '\r' ==> lines_of(a + seq!['\n'] + rest) == seq![a.drop_last()]
            + lines_of(rest),
        a.len() == 0 || a.last() != '\r' ==> lines_of(a + seq!['\n'] + rest) == seq![a] + lines_of(
            rest,
        ),
        a.len() > 0 ==> lines_of(a) == seq![a],
        a.len() == 0 ==> lines_of(a).len() == 0,
{
    let c = '\n';
    let s = a + seq![c] + rest;
    let n = a.len() as int;
    assert forall|k: int| 0 <= k < n implies s[k] != c by {
        assert(s[k] == a[k]);
        assert(a.contains(a[k]));
    }
    assert(s[n] == c);
    first_index_is_least(s, c);
    first_index_is_least(a, c);
    first_index_unique(s, c, n);
    assert(s.take(n) =~= a);
    assert(s.skip(n + 1) =~= rest);
    if first_index(a, c) < a.len() {
        assert(a.contains(a[first_index(a, c)]));
    }
}

/// Taking a character off one end of a text takes all of it there and stops at
/// the first other character.
pub proof fn characters_go_from_one_end(s: Seq<char>, run: Seq<char>, c: char)
    requires
        forall|k: int| 0 <= k < run.len() ==> #[trigger] run[k] == c,
    ensures
        s.len() == 0 || s.last() != c ==> trim_end_char(s + run, c) == s,
        s.len() == 0 || s[0] != c ==> trim_start_char(run + s, c) == s,
    decreases run.len(),
{
    if run.len() == 0 {
        assert(s + run =~= s);
        assert(run + s =~= s);
    } else {
        let front = run.drop_last();
        let tail = run.skip(1);
        assert forall|k: int| 0 <= k < front.len() implies #[trigger] front[k] == c by {
            assert(front[k] == run[k]);
        }
        characters_go_from_one_end(s, front, c);
        assert((s + run).last() == c);
        assert((s + run).drop_last() =~= s + front);
        assert(tail =~= front);
        assert((run + s)[0] == c);
        assert((run + s).skip(1) =~= tail + s);
    }
}

/// A carriage return that is followed by a line feed goes, and nothing else
/// changes: what comes before the first such pair stays as it is, and a text
/// without one stays whole.
pub proof fn line_ends_become_line_feeds(a: Seq<char>, rest: Seq<char>)
    requires
        forall|k: int|
            0 <= k && k + 1 < a.len() ==> !((#[trigger] a[k]) == '\r' && a[k + 1] == '\n'),
    ensures
        with_lf(a + seq!['\r', '\n'] + rest) == a + seq!['\n'] + with_lf(rest),
        with_lf(a) == a,
    decreases a.len(),
{
    let s = a + seq!['\r', '\n'] + rest;
    if a.len() == 0 {
        assert(s[0] == '\r' && s[1] == '\n');
        assert(s.skip(2) =~= rest);
        assert(a + seq!['\n'] + with_lf(rest) =~= seq!['\n'] + with_lf(rest));
    } else {
        let b = a.skip(1);
        assert forall|k: int| 0 <= k && k + 1 < b.len() implies !((#[trigger] b[k]) == '\r' && b[k + 1]
            == '\n') by {
            assert(b[k] == a[k + 1] && b[k + 1] == a[k + 2]);
        }
        line_ends_become_line_feeds(b, rest);
        assert(s[0] == a[0]);
        assert(!(s[0] == '\r' && s[1] == '\n')) by {
            if a.len() > 1 {
                assert(a[0] == s[0] && a[0int + 1] == s[1]);
            } else {
                assert(s[1] == '\r');
            }
        }
        assert(s.skip(1) =~= b + seq!['\r', '\n'] + rest);
        assert(seq![a[0]] + (b + seq!['\n'] + with_lf(rest)) =~= a + seq!['\n'] + with_lf(rest));
        assert(!(a.len() >= 2 && a[0] == '\r' && a[0int + 1] == '\n'));
        assert(seq![a[0]] + b =~= a);
    }
}

/// A list of strings is seen text by text, in its order.
pub proof fn lists_are_seen_text_by_text(v: Seq<String>, i: int)
    ensures
        texts(v).len() == v.len(),
        0 <= i < v.len() ==> texts(v)[i] == v[i]@,
{
}

} // verus!
