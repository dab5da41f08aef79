//! Machine-readable client messages: a code, and named parameters with it.
use crate::text::{
    chars_of, find_from, first_index, first_index_is_least, first_index_unique, split, split_on,
    string_of, texts,
};
use vstd::prelude::*;

verus! {

/// The mapping that a list of named values gives; where a name occurs twice,
/// the later value counts.
pub open spec fn pairs_map(ps: Seq<(Seq<char>, Seq<char>)>) -> Map<Seq<char>, Seq<char>>
    decreases ps.len(),
{
    if ps.len() == 0 {
        Map::empty()
    } else {
        pairs_map(ps.drop_last()).insert(ps.last().0, ps.last().1)
    }
}

/// No name occurs twice.
pub open spec fn distinct_names(ps: Seq<(Seq<char>, Seq<char>)>) -> bool {
    forall|i: int, j: int| 0 <= i < j < ps.len() ==> #[trigger] ps[i].0 != #[trigger] ps[j].0
}

/// The names and values of a list of string pairs.
pub open spec fn pair_texts(v: Seq<(String, String)>) -> Seq<(Seq<char>, Seq<char>)> {
    v.map_values(|p: (String, String)| (p.0@, p.1@))
}

/// The names and values of a list of string slice pairs.
pub open spec fn slice_pairs(v: Seq<(&str, &str)>) -> Seq<(Seq<char>, Seq<char>)> {
    v.map_values(|p: (&str, &str)| (p.0@, p.1@))
}

/// Named parameters of a message. Each name occurs once.
#[derive(Debug)]
pub struct Params {
    entries: Vec<(String, String)>,
}

impl Params {
    /// The parameters in the order in which their names first came.
    pub closed spec fn pairs(self) -> Seq<(Seq<char>, Seq<char>)> {
        pair_texts(self.entries@)
    }

    /// The parameters as a mapping from names to values.
    pub open spec fn view(&self) -> Map<Seq<char>, Seq<char>> {
        pairs_map(self.pairs())
    }

    #[verifier::type_invariant]
    spec fn wf(self) -> bool {
        distinct_names(pair_texts(self.entries@))
    }

    /// No parameters.
    pub fn new() -> (r: Params)
        ensures
            r@ == Map::<Seq<char>, Seq<char>>::empty(),
            r.pairs() == Seq::<(Seq<char>, Seq<char>)>::empty(),
    {
        let r = Params { entries: Vec::new() };
        assert(r.pairs() =~= Seq::<(Seq<char>, Seq<char>)>::empty());
        r
    }

    /// The parameters in order; no name occurs twice.
    pub fn entries(&self) -> (r: &Vec<(String, String)>)
        ensures
            pair_texts(r@) == self.pairs(),
            distinct_names(self.pairs()),
    {
        proof {
            use_type_invariant(self);
        }
        &self.entries
    }

    /// Whether there are no parameters.
    pub fn is_empty(&self) -> (r: bool)
        ensures
            r == (self@ == Map::<Seq<char>, Seq<char>>::empty()),
            r == (self.pairs().len() == 0),
    {
        proof {
            if self.pairs().len() > 0 {
                assert(self@.dom().contains(self.pairs().last().0));
            }
        }
        self.entries.len() == 0
    }

    /// The value of the parameter `name`.
    pub fn get(&self, name: &str) -> (r: Option<&String>)
        ensures
            r is Some <==> self@.contains_key(name@),
            r matches Some(v) ==> v@ == self@[name@],
    {
        proof {
            use_type_invariant(self);
        }
        let mut i: usize = self.entries.len();
        assert(self.pairs().take(i as int) =~= self.pairs());
        while i > 0
            invariant
                i <= self.entries@.len(),
                forall|j: int| i <= j < self.entries@.len() ==> self.entries@[j].0@ != name@,
                self@.contains_key(name@) == pairs_map(self.pairs().take(i as int)).contains_key(name@),
                self@.contains_key(name@) ==> self@[name@] == pairs_map(self.pairs().take(i as int))[name@],
            decreases i,
        {
            let k = i - 1;
            assert(self.pairs().take(i as int).drop_last() =~= self.pairs().take(k as int));
            assert(self.pairs().take(i as int).last() == (self.entries@[k as int].0@, self.entries@[k as int].1@));
            if crate::text::same(self.entries[k].0.as_str(), name) {
                return Some(&self.entries[k].1);
            }
            i = k;
        }
        assert(self.pairs().take(0).len() == 0);
        None
    }

    /// The parameters with `name` set to `value`.
    pub fn with(self, name: String, value: String) -> (r: Params)
        ensures
            r@ == self@.insert(name@, value@),
            !self@.contains_key(name@) ==> r.pairs() == self.pairs().push((name@, value@)),
    {
        proof {
            use_type_invariant(&self);
        }
        let ghost old_pairs = self.pairs();
        let mut entries = self.entries;
        let mut i: usize = 0;
        while i < entries.len()
            invariant
                i <= entries@.len(),
                old_pairs == self.pairs(),
                pair_texts(entries@) == old_pairs,
                distinct_names(old_pairs),
                forall|j: int| 0 <= j < i ==> #[trigger] old_pairs[j].0 != name@,
            decreases entries@.len() - i,
        {
            assert(old_pairs[i as int] == (entries@[i as int].0@, entries@[i as int].1@));
            if crate::text::same(entries[i].0.as_str(), name.as_str()) {
                entries.set(i, (name, value));
                let ghost now = pair_texts(entries@);
                proof {
                    assert(now =~= old_pairs.update(i as int, (name@, value@)));
                    pairs_map_update(old_pairs, i as int, value@);
                    pairs_map_has(old_pairs, i as int);
                    assert(now[i as int].0 == old_pairs[i as int].0);
                    assert forall|a: int, b: int| 0 <= a < b < now.len() implies #[trigger] now[a].0
                        != #[trigger] now[b].0 by {
                        assert(now[a].0 == old_pairs[a].0);
                        assert(now[b].0 == old_pairs[b].0);
                    }
                }
                return Params { entries };
            }
            i = i + 1;
        }
        proof {
            pairs_map_lacks(old_pairs, name@);
        }
        let ghost before = entries@;
        entries.push((name, value));
        proof {
            assert(pair_texts(entries@) =~= old_pairs.push((name@, value@)));
            assert(old_pairs.push((name@, value@)).drop_last() =~= old_pairs);
        }
        Params { entries }
    }
}

proof fn pairs_map_has(ps: Seq<(Seq<char>, Seq<char>)>, i: int)
    requires
        0 <= i < ps.len(),
    ensures
        pairs_map(ps).contains_key(ps[i].0),
    decreases ps.len(),
{
    if i < ps.len() - 1 {
        pairs_map_has(ps.drop_last(), i);
    }
}

proof fn pairs_map_lacks(ps: Seq<(Seq<char>, Seq<char>)>, name: Seq<char>)
    requires
        forall|j: int| 0 <= j < ps.len() ==> #[trigger] ps[j].0 != name,
    ensures
        !pairs_map(ps).contains_key(name),
    decreases ps.len(),
{
    if ps.len() > 0 {
        assert(ps[ps.len() - 1].0 != name);
        assert forall|j: int| 0 <= j < ps.drop_last().len() implies #[trigger] ps.drop_last()[j].0
            != name by {
            assert(ps[j].0 != name);
        }
        pairs_map_lacks(ps.drop_last(), name);
    }
}

proof fn pairs_map_update(ps: Seq<(Seq<char>, Seq<char>)>, i: int, value: Seq<char>)
    requires
        0 <= i < ps.len(),
        distinct_names(ps),
    ensures
        pairs_map(ps.update(i, (ps[i].0, value))) == pairs_map(ps).insert(ps[i].0, value),
    decreases ps.len(),
{
    let up = ps.update(i, (ps[i].0, value));
    if i == ps.len() - 1 {
        assert(up.drop_last() =~= ps.drop_last());
        assert(pairs_map(up) =~= pairs_map(ps).insert(ps[i].0, value));
    } else {
        let front = ps.drop_last();
        assert(up.drop_last() =~= front.update(i, (front[i].0, value)));
        pairs_map_update(front, i, value);
        assert(ps[i].0 != ps[ps.len() - 1].0);
        assert(pairs_map(up) =~= pairs_map(ps).insert(ps[i].0, value));
    }
}


// ---------------------------------------------------------------------------
// Encoding and decoding
// ---------------------------------------------------------------------------

/// The parameters as `name=value`, with commas between them.
pub open spec fn joined_pairs(ps: Seq<(Seq<char>, Seq<char>)>) -> Seq<char>
    decreases ps.len(),
{
    if ps.len() == 0 {
        Seq::empty()
    } else if ps.len() == 1 {
        ps[0].0 + seq!['='] + ps[0].1
    } else {
        joined_pairs(ps.drop_last()) + seq![','] + (ps.last().0 + seq!['='] + ps.last().1)
    }
}

/// The text of a coded message: the code alone, or `code|name=value,...`.
pub open spec fn encoded(code: Seq<char>, ps: Seq<(Seq<char>, Seq<char>)>) -> Seq<char> {
    if ps.len() == 0 {
        code
    } else {
        code + seq!['|'] + joined_pairs(ps)
    }
}

/// Encode a machine-readable client error: `CODE` or `CODE|k=v,k2=v2`.
pub fn encode(code: &str, params: &[(&str, &str)]) -> (r: String)
    ensures
        r@ == encoded(code@, slice_pairs(params@)),
{
    let mut r: String = code.to_owned();
    let ghost ps = slice_pairs(params@);
    if params.len() == 0 {
        return r;
    }
    r.push('|');
    let mut i: usize = 0;
    assert(code@.push('|') =~= code@ + seq!['|'] + joined_pairs(ps.take(0)));
    while i < params.len()
        invariant
            ps == slice_pairs(params@),
            i <= params@.len(),
            r@ == code@ + seq!['|'] + joined_pairs(ps.take(i as int)),
        decreases params@.len() - i,
    {
        let ghost before = ps.take(i as int);
        let ghost now = ps.take(i + 1);
        assert(now.drop_last() =~= before);
        assert(now.last() == (params@[i as int].0@, params@[i as int].1@));
        if i > 0 {
            r.push(',');
        }
        r.append(params[i].0);
        r.push('=');
        r.append(params[i].1);
        proof {
            if i > 0 {
                assert(r@ =~= code@ + seq!['|'] + joined_pairs(now));
            } else {
                assert(r@ =~= code@ + seq!['|'] + joined_pairs(now));
            }
        }
        i = i + 1;
    }
    assert(ps.take(i as int) =~= ps);
    r
}

/// What the pieces of a parameter list add to `m`: a piece with an equals sign
/// sets a name, any other piece counts for nothing.
pub open spec fn pieces_map(pieces: Seq<Seq<char>>) -> Map<Seq<char>, Seq<char>>
    decreases pieces.len(),
{
    if pieces.len() == 0 {
        Map::empty()
    } else {
        let p = pieces.last();
        let i = first_index(p, '=');
        let m = pieces_map(pieces.drop_last());
        if i < p.len() {
            m.insert(p.take(i), p.skip(i + 1))
        } else {
            m
        }
    }
}

/// The code of a coded message.
pub open spec fn decoded_code(raw: Seq<char>) -> Seq<char> {
    raw.take(first_index(raw, '|'))
}

/// The parameters of a coded message.
pub open spec fn decoded_params(raw: Seq<char>) -> Map<Seq<char>, Seq<char>> {
    let i = first_index(raw, '|');
    if i < raw.len() {
        pieces_map(split_on(raw.skip(i + 1), ','))
    } else {
        Map::empty()
    }
}

/// Read a message that `encode` wrote.
pub fn decode(raw: &str) -> (r: (String, Params))
    ensures
        r.0@ == decoded_code(raw@),
        r.1@ == decoded_params(raw@),
{
    let v = chars_of(raw);
    let at = find_from(v.as_slice(), 0, '|');
    assert(raw@.skip(0) =~= raw@);
    let code = string_of(v.as_slice(), 0, at);
    assert(raw@.subrange(0, at as int) =~= raw@.take(at as int));
    if at == v.len() {
        return (code, Params::new());
    }
    let tail = string_of(v.as_slice(), at + 1, v.len());
    assert(tail@ =~= raw@.skip(at + 1));
    let pieces = split(tail.as_str(), ',');
    let mut params = Params::new();
    let mut i: usize = 0;
    let ghost all = texts(pieces@);
    while i < pieces.len()
        invariant
            all == texts(pieces@),
            i <= pieces@.len(),
            params@ == pieces_map(all.take(i as int)),
        decreases pieces@.len() - i,
    {
        assert(all.take(i + 1).drop_last() =~= all.take(i as int));
        let p = chars_of(pieces[i].as_str());
        assert(p@ == all[i as int]);
        let eq = find_from(p.as_slice(), 0, '=');
        assert(p@.skip(0) =~= p@);
        if eq < p.len() {
            let name = string_of(p.as_slice(), 0, eq);
            let value = string_of(p.as_slice(), eq + 1, p.len());
            assert(name@ =~= p@.take(eq as int));
            assert(value@ =~= p@.skip(eq + 1));
            params = params.with(name, value);
        }
        i = i + 1;
    }
    assert(all.take(i as int) =~= all);
    (code, params)
}

/// Texts that survive encoding: the code holds no bar, names hold neither an
/// equals sign nor a comma, and values hold no comma.
pub open spec fn encodable(code: Seq<char>, ps: Seq<(Seq<char>, Seq<char>)>) -> bool {
    &&& !code.contains('|')
    &&& forall|i: int|
        0 <= i < ps.len() ==> {
            &&& !(#[trigger] ps[i]).0.contains('=')
            &&& !ps[i].0.contains(',')
            &&& !ps[i].1.contains(',')
        }
}

/// One parameter as `name=value`.
pub open spec fn pair_text(p: (Seq<char>, Seq<char>)) -> Seq<char> {
    p.0 + seq!['='] + p.1
}

/// Appending a piece without separators after a separator appends it to the split.
proof fn split_on_append(s: Seq<char>, piece: Seq<char>, c: char)
    requires
        !piece.contains(c),
    ensures
        split_on(s + seq![c] + piece, c) == split_on(s, c).push(piece),
    decreases s.len(),
{
    let whole = s + seq![c] + piece;
    let i = first_index(s, c);
    first_index_is_least(s, c);
    if i < s.len() {
        assert forall|j: int| 0 <= j < i implies #[trigger] whole[j] != c by {
            assert(whole[j] == s[j]);
        }
        assert(whole[i] == c);
        first_index_unique(whole, c, i);
        assert(whole.take(i) =~= s.take(i));
        assert(whole.skip(i + 1) =~= s.skip(i + 1) + seq![c] + piece);
        split_on_append(s.skip(i + 1), piece, c);
        assert(split_on(whole, c) =~= split_on(s, c).push(piece));
    } else {
        assert forall|j: int| 0 <= j < s.len() implies #[trigger] whole[j] != c by {
            assert(whole[j] == s[j]);
        }
        assert(whole[s.len() as int] == c);
        first_index_unique(whole, c, s.len() as int);
        assert(whole.take(s.len() as int) =~= s);
        assert(whole.skip(s.len() as int + 1) =~= piece);
        first_index_is_least(piece, c);
        assert(split_on(piece, c) =~= seq![piece]);
        assert(split_on(whole, c) =~= split_on(s, c).push(piece));
    }
}

proof fn pair_text_no_comma(p: (Seq<char>, Seq<char>))
    requires
        !p.0.contains(','),
        !p.1.contains(','),
    ensures
        !pair_text(p).contains(','),
{
    let t = pair_text(p);
    if t.contains(',') {
        let j = choose|j: int| 0 <= j < t.len() && t[j] == ',';
        if j < p.0.len() {
            assert(p.0[j] == ',');
        } else if j > p.0.len() {
            assert(p.1[j - p.0.len() - 1] == ',');
        }
    }
}

proof fn pieces_of_joined(ps: Seq<(Seq<char>, Seq<char>)>)
    requires
        ps.len() > 0,
        encodable(Seq::empty(), ps),
    ensures
        split_on(joined_pairs(ps), ',') == ps.map_values(|p: (Seq<char>, Seq<char>)| pair_text(p)),
    decreases ps.len(),
{
    pair_text_no_comma(ps.last());
    assert(ps[ps.len() - 1] == ps.last());
    if ps.len() == 1 {
        first_index_is_least(joined_pairs(ps), ',');
        assert(split_on(joined_pairs(ps), ',') =~= ps.map_values(
            |p: (Seq<char>, Seq<char>)| pair_text(p),
        ));
    } else {
        let front = ps.drop_last();
        assert forall|i: int| 0 <= i < front.len() implies {
            &&& !(#[trigger] front[i]).0.contains('=')
            &&& !front[i].0.contains(',')
            &&& !front[i].1.contains(',')
        } by {
            assert(front[i] == ps[i]);
        }
        pieces_of_joined(front);
        split_on_append(joined_pairs(front), pair_text(ps.last()), ',');
        assert(split_on(joined_pairs(ps), ',') =~= ps.map_values(
            |p: (Seq<char>, Seq<char>)| pair_text(p),
        ));
    }
}

proof fn pieces_map_of_pairs(ps: Seq<(Seq<char>, Seq<char>)>)
    requires
        encodable(Seq::empty(), ps),
    ensures
        pieces_map(ps.map_values(|p: (Seq<char>, Seq<char>)| pair_text(p))) == pairs_map(ps),
    decreases ps.len(),
{
    let pieces = ps.map_values(|p: (Seq<char>, Seq<char>)| pair_text(p));
    if ps.len() > 0 {
        let front = ps.drop_last();
        assert forall|i: int| 0 <= i < front.len() implies {
            &&& !(#[trigger] front[i]).0.contains('=')
            &&& !front[i].0.contains(',')
            &&& !front[i].1.contains(',')
        } by {
            assert(front[i] == ps[i]);
        }
        pieces_map_of_pairs(front);
        assert(pieces.drop_last() =~= front.map_values(|p: (Seq<char>, Seq<char>)| pair_text(p)));
        let p = ps.last();
        assert(ps[ps.len() - 1] == p);
        let t = pair_text(p);
        let n = p.0.len() as int;
        assert forall|j: int| 0 <= j < n implies #[trigger] t[j] != '=' by {
            assert(t[j] == p.0[j]);
            assert(!p.0.contains('='));
        }
        assert(t[n] == '=');
        first_index_unique(t, '=', n);
        assert(t.take(n) =~= p.0);
        assert(t.skip(n + 1) =~= p.1);
    }
}

/// Decoding an encoded message gives back its code and its parameters.
pub proof fn decode_undoes_encode(code: Seq<char>, ps: Seq<(Seq<char>, Seq<char>)>)
    requires
        encodable(code, ps),
    ensures
        decoded_code(encoded(code, ps)) == code,
        decoded_params(encoded(code, ps)) == pairs_map(ps),
{
    let raw = encoded(code, ps);
    let n = code.len() as int;
    assert forall|j: int| 0 <= j < n implies #[trigger] raw[j] != '|' by {
        assert(raw[j] == code[j]);
        assert(!code.contains('|'));
    }
    first_index_unique(raw, '|', n);
    assert(raw.take(n) =~= code);
    if ps.len() > 0 {
        assert(raw.skip(n + 1) =~= joined_pairs(ps));
        assert(encodable(Seq::empty(), ps));
        pieces_of_joined(ps);
        pieces_map_of_pairs(ps);
    }
}

/// A coded message without parameters is its code; the first parameter stands
/// behind a bar, each further one behind a comma, and a parameter is its name, an
/// equals sign and its value.
pub proof fn message_is_written_piece_by_piece(
    code: Seq<char>,
    ps: Seq<(Seq<char>, Seq<char>)>,
    name: Seq<char>,
    value: Seq<char>,
)
    ensures
        encoded(code, Seq::empty()) == code,
        encoded(code, seq![(name, value)]) == code + seq!['|'] + name + seq!['='] + value,
        ps.len() > 0 ==> encoded(code, ps.push((name, value))) == encoded(code, ps) + seq![',']
            + name + seq!['='] + value,
{
    let one = seq![(name, value)];
    assert(joined_pairs(one) == name + seq!['='] + value);
    assert(encoded(code, one) =~= code + seq!['|'] + name + seq!['='] + value);
    if ps.len() > 0 {
        let more = ps.push((name, value));
        assert(more.drop_last() =~= ps);
        assert(encoded(code, more) =~= encoded(code, ps) + seq![','] + name + seq!['='] + value);
    }
}

/// What comes before the first bar of a message is its code. Behind it, a piece
/// up to a comma that holds an equals sign sets the name before the first equals
/// sign to what comes behind it, and a piece without one sets nothing; a later
/// piece with a name outdoes an earlier one.
pub proof fn message_is_read_piece_by_piece(
    code: Seq<char>,
    rest: Seq<char>,
    pieces: Seq<Seq<char>>,
    name: Seq<char>,
    value: Seq<char>,
)
    requires
        !code.contains('|'),
        !name.contains('='),
    ensures
        decoded_code(code) == code,
        decoded_params(code) == Map::<Seq<char>, Seq<char>>::empty(),
        decoded_code(code + seq!['|'] + rest) == code,
        decoded_params(code + seq!['|'] + rest) == pieces_map(split_on(rest, ',')),
        pieces_map(pieces.push(name + seq!['='] + value)) == pieces_map(pieces).insert(name, value),
        pieces_map(pieces.push(name)) == pieces_map(pieces),
        pieces_map(Seq::empty()) == Map::<Seq<char>, Seq<char>>::empty(),
{
    let raw = code + seq!['|'] + rest;
    let n = code.len() as int;
    assert forall|k: int| 0 <= k < n implies raw[k] != '|' by {
        assert(raw[k] == code[k]);
        assert(code.contains(code[k]));
    }
    assert(raw[n] == '|');
    first_index_is_least(raw, '|');
    first_index_unique(raw, '|', n);
    first_index_is_least(code, '|');
    if first_index(code, '|') < n {
        assert(code.contains(code[first_index(code, '|')]));
    }
    assert(code.take(n) =~= code);
    assert(raw.take(n) =~= code);
    assert(raw.skip(n + 1) =~= rest);
    let p = name + seq!['='] + value;
    let m = name.len() as int;
    assert forall|k: int| 0 <= k < m implies p[k] != '=' by {
        assert(p[k] == name[k]);
        assert(name.contains(name[k]));
    }
    assert(p[m] == '=');
    first_index_is_least(p, '=');
    first_index_unique(p, '=', m);
    assert(p.take(m) =~= name);
    assert(p.skip(m + 1) =~= value);
    assert(pieces.push(p).drop_last() =~= pieces);
    assert(pieces.push(name).drop_last() =~= pieces);
    first_index_is_least(name, '=');
    if first_index(name, '=') < m {
        assert(name.contains(name[first_index(name, '=')]));
    }
}

/// Lists of parameters are seen pair by pair, in their order: the name first,
/// then the value.
pub proof fn parameters_are_seen_pair_by_pair(
    v: Seq<(String, String)>,
    w: Seq<(&str, &str)>,
    i: int,
)
    ensures
        pair_texts(v).len() == v.len(),
        0 <= i < v.len() ==> pair_texts(v)[i] == (v[i].0@, v[i].1@),
        slice_pairs(w).len() == w.len(),
        0 <= i < w.len() ==> slice_pairs(w)[i] == (w[i].0@, w[i].1@),
{
}

} // verus!
