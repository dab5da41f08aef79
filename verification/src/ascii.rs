//! ASCII classes, ASCII case, and numbers written in ASCII digits.
use crate::text::chars_of;
use vstd::prelude::*;

verus! {

/// `a` to `z`.
pub open spec fn is_lower(c: char) -> bool {
    'a' <= c && c <= 'z'
}

/// `A` to `Z`.
pub open spec fn is_upper(c: char) -> bool {
    'A' <= c && c <= 'Z'
}

/// `0` to `9`.
pub open spec fn is_digit(c: char) -> bool {
    '0' <= c && c <= '9'
}

/// A hexadecimal digit in either case.
pub open spec fn is_hex_digit(c: char) -> bool {
    is_digit(c) || ('a' <= c && c <= 'f') || ('A' <= c && c <= 'F')
}

/// The small letter of a capital letter, any other character as it is.
pub open spec fn lower_char(c: char) -> char {
    if is_upper(c) {
        (c as u32 + 32) as char
    } else {
        c
    }
}

/// The capital letter of a small letter, any other character as it is.
pub open spec fn upper_char(c: char) -> char {
    if is_lower(c) {
        (c as u32 - 32) as char
    } else {
        c
    }
}

/// `s` with its capital letters made small.
pub open spec fn lowered(s: Seq<char>) -> Seq<char> {
    s.map_values(|c: char| lower_char(c))
}

/// `s` with its small letters made capital.
pub open spec fn uppered(s: Seq<char>) -> Seq<char> {
    s.map_values(|c: char| upper_char(c))
}

/// The hexadecimal digits of `s`, in capital letters.
pub open spec fn hex_digits_upper(s: Seq<char>) -> Seq<char> {
    uppered(s.filter(|c: char| is_hex_digit(c)))
}

fn to_lower(c: char) -> (r: char)
    ensures
        r == lower_char(c),
{
    if 'A' <= c && c <= 'Z' {
        let b: u8 = c as u8;
        (b + 32) as char
    } else {
        c
    }
}

fn to_upper(c: char) -> (r: char)
    ensures
        r == upper_char(c),
{
    if 'a' <= c && c <= 'z' {
        let b: u8 = c as u8;
        (b - 32) as char
    } else {
        c
    }
}

/// Whether `c` is a hexadecimal digit.
pub fn hex_digit(c: char) -> (r: bool)
    ensures
        r == is_hex_digit(c),
{
    ('0' <= c && c <= '9') || ('a' <= c && c <= 'f') || ('A' <= c && c <= 'F')
}

/// `s` with its capital letters made small.
pub fn ascii_lowercase(s: &str) -> (r: String)
    ensures
        r@ == lowered(s@),
        r@.len() == s@.len(),
        forall|k: int| 0 <= k < s@.len() ==> #[trigger] r@[k] == lower_char(s@[k]),
{
    let v = chars_of(s);
    let mut r: String = String::new();
    let mut i: usize = 0;
    while i < v.len()
        invariant
            v@ == s@,
            i <= v@.len(),
            r@ == lowered(s@.take(i as int)),
        decreases v@.len() - i,
    {
        r.push(to_lower(v[i]));
        assert(r@ =~= lowered(s@.take(i + 1)));
        i = i + 1;
    }
    assert(s@.take(i as int) =~= s@);
    r
}

/// Whether two texts agree but for the case of ASCII letters.
pub fn same_ignoring_case(a: &str, b: &str) -> (r: bool)
    ensures
        r == (lowered(a@) == lowered(b@)),
        r == (a@.len() == b@.len() && forall|k: int|
            0 <= k < a@.len() ==> (#[trigger] a@[k]) == b@[k] || (65 <= a@[k] as u32 <= 90
                && b@[k] as u32 == a@[k] as u32 + 32) || (65 <= b@[k] as u32 <= 90 && a@[k] as u32
                == b@[k] as u32 + 32)),
{
    proof {
        same_letters_differ_by_case_only(a@, b@);
    }
    ascii_lowercase(a) == ascii_lowercase(b)
}

/// The hexadecimal digits of `s`, in capital letters.
pub fn keep_hex_upper(s: &str) -> (r: String)
    ensures
        r@ == hex_digits_upper(s@),
{
    let v = chars_of(s);
    let mut r: String = String::new();
    let mut i: usize = 0;
    let ghost p = |c: char| is_hex_digit(c);
    proof {
        reveal(Seq::filter);
        assert(r@ =~= uppered(s@.take(0).filter(p)));
    }
    while i < v.len()
        invariant
            v@ == s@,
            i <= v@.len(),
            p == (|c: char| is_hex_digit(c)),
            r@ == uppered(s@.take(i as int).filter(p)),
        decreases v@.len() - i,
    {
        proof {
            reveal(Seq::filter);
            assert(s@.take(i + 1).drop_last() =~= s@.take(i as int));
        }
        if hex_digit(v[i]) {
            r.push(to_upper(v[i]));
            assert(r@ =~= uppered(s@.take(i as int).filter(p).push(s@[i as int])));
        }
        i = i + 1;
    }
    assert(s@.take(i as int) =~= s@);
    r
}

/// Neither `a` nor `b`.
pub open spec fn neither(a: char, b: char) -> spec_fn(char) -> bool {
    |c: char| c != a && c != b
}

/// `s` without the characters `a` and `b`.
pub open spec fn without_two(s: Seq<char>, a: char, b: char) -> Seq<char> {
    s.filter(neither(a, b))
}

/// `s` without the characters `a` and `b`.
pub fn remove_two(s: &str, a: char, b: char) -> (r: String)
    ensures
        r@ == without_two(s@, a, b),
{
    let v = chars_of(s);
    let mut r: String = String::new();
    let mut i: usize = 0;
    let ghost p = neither(a, b);
    proof {
        reveal(Seq::filter);
        assert(r@ =~= s@.take(0).filter(p));
    }
    while i < v.len()
        invariant
            v@ == s@,
            i <= v@.len(),
            p == neither(a, b),
            r@ == s@.take(i as int).filter(p),
        decreases v@.len() - i,
    {
        proof {
            reveal(Seq::filter);
            assert(s@.take(i + 1).drop_last() =~= s@.take(i as int));
        }
        if v[i] != a && v[i] != b {
            r.push(v[i]);
        }
        i = i + 1;
    }
    assert(s@.take(i as int) =~= s@);
    r
}

// ---------------------------------------------------------------------------
// Decimal numbers
// ---------------------------------------------------------------------------

/// The digit for `d`.
pub open spec fn digit_char(d: nat) -> char {
    (d + 48) as char
}

/// `n` in decimal digits, without leading zeros.
pub open spec fn decimal(n: nat) -> Seq<char>
    decreases n,
{
    if n < 10 {
        seq![digit_char(n)]
    } else {
        decimal(n / 10).push(digit_char(n % 10))
    }
}

/// `n` in decimal digits.
pub fn decimal_text(n: u64) -> (r: String)
    ensures
        r@ == decimal(n as nat),
    decreases n,
{
    let d: u8 = (n % 10) as u8;
    let c: char = (d + 48) as char;
    if n < 10 {
        let mut r: String = String::new();
        r.push(c);
        assert(r@ =~= seq![digit_char(n as nat)]);
        r
    } else {
        let mut r = decimal_text(n / 10);
        r.push(c);
        r
    }
}

/// The number that a text of decimal digits stands for.
pub open spec fn decimal_value(s: Seq<char>) -> nat
    decreases s.len(),
{
    if s.len() == 0 {
        0
    } else {
        decimal_value(s.drop_last()) * 10 + (s.last() as nat - 48) as nat
    }
}

/// All characters of `s` are decimal digits.
pub open spec fn all_digits(s: Seq<char>) -> bool {
    forall|i: int| 0 <= i < s.len() ==> is_digit(#[trigger] s[i])
}

/// The number that `s` stands for: an optional plus sign, then at least one
/// decimal digit, and a value that 64 bits hold.
pub open spec fn parsed_u64(s: Seq<char>) -> Option<u64> {
    let d = if s.len() > 0 && s[0] == '+' {
        s.skip(1)
    } else {
        s
    };
    if d.len() > 0 && all_digits(d) && decimal_value(d) <= u64::MAX {
        Some(decimal_value(d) as u64)
    } else {
        None
    }
}

proof fn decimal_value_grows(s: Seq<char>, i: int)
    requires
        0 <= i <= s.len(),
        all_digits(s),
    ensures
        decimal_value(s.take(i)) <= decimal_value(s),
    decreases s.len(),
{
    if i < s.len() {
        decimal_value_grows(s.drop_last(), i);
        assert(s.drop_last().take(i) =~= s.take(i));
    } else {
        assert(s.take(i) =~= s);
    }
}

/// The number that `s` stands for.
pub fn parse_u64(s: &str) -> (r: Option<u64>)
    ensures
        r == parsed_u64(s@),
{
    let v = chars_of(s);
    let from: usize = if v.len() > 0 && v[0] == '+' { 1 } else { 0 };
    let ghost d = s@.skip(from as int);
    assert(s@.skip(0) =~= s@);
    if from == v.len() {
        return None;
    }
    let mut n: u64 = 0;
    let mut i: usize = from;
    while i < v.len()
        invariant
            v@ == s@,
            d == s@.skip(from as int),
            from <= i <= v@.len(),
            from < v@.len(),
            d == (if s@.len() > 0 && s@[0] == '+' { s@.skip(1) } else { s@ }),
            forall|j: int| 0 <= j < i - from ==> is_digit(#[trigger] d[j]),
            n == decimal_value(d.take(i - from)),
        decreases v@.len() - i,
    {
        let c = v[i];
        assert(d[i - from] == c);
        if !('0' <= c && c <= '9') {
            return None;
        }
        let k: u64 = (c as u8 - 48) as u64;
        assert(d.take(i - from + 1).drop_last() =~= d.take(i - from));
        if n > (u64::MAX - k) / 10 {
            proof {
                if all_digits(d) {
                    decimal_value_grows(d, i - from + 1);
                }
            }
            return None;
        }
        n = n * 10 + k;
        i = i + 1;
    }
    assert(d.take(i - from) =~= d);
    Some(n)
}

// ---------------------------------------------------------------------------
// Unicode case
// ---------------------------------------------------------------------------

/// `s` in small letters, as Unicode maps them.
pub uninterp spec fn lowercased(s: Seq<char>) -> Seq<char>;

/// `str::to_lowercase`, which the standard library defines over the Unicode
/// tables: the result depends on the text alone, and where the text is ASCII
/// the letters `A` to `Z` become `a` to `z` and nothing else changes.
#[verifier::external_body]
pub(crate) fn lowercase(s: &str) -> (r: String)
    ensures
        r@ == lowercased(s@),
        vstd::utf8::is_ascii_chars(s@) ==> r@ == lowered(s@),
{
    s.to_lowercase()
}

// ---------------------------------------------------------------------------
// Laws
// ---------------------------------------------------------------------------

/// Making a character small adds 32 to the codes from 65 to 90 and leaves every
/// other character alone; making it capital takes 32 from the codes from 97 to
/// 122 and leaves every other character alone.
pub proof fn case_is_a_bit_of_the_code(c: char)
    ensures
        65 <= c as u32 <= 90 ==> lower_char(c) as u32 == c as u32 + 32,
        !(65 <= c as u32 <= 90) ==> lower_char(c) == c,
        97 <= c as u32 <= 122 ==> upper_char(c) as u32 == c as u32 - 32,
        !(97 <= c as u32 <= 122) ==> upper_char(c) == c,
{
}

/// Two texts are the same in small letters exactly where they have one length
/// and every character of the one is that of the other, or the two are the
/// capital and the small form of one ASCII letter.
pub proof fn same_letters_differ_by_case_only(a: Seq<char>, b: Seq<char>)
    ensures
        lowered(a) == lowered(b) <==> a.len() == b.len() && forall|k: int|
            0 <= k < a.len() ==> lower_char(#[trigger] a[k]) == lower_char(b[k]),
        lowered(a) == lowered(b) <==> a.len() == b.len() && forall|k: int|
            0 <= k < a.len() ==> (#[trigger] a[k]) == b[k] || (65 <= a[k] as u32 <= 90
                && b[k] as u32 == a[k] as u32 + 32) || (65 <= b[k] as u32 <= 90 && a[k] as u32
                == b[k] as u32 + 32),
{
    assert forall|c: char, d: char|
        lower_char(c) == lower_char(d) <==> c == d || (65 <= c as u32 <= 90 && d as u32 == c as u32
            + 32) || (65 <= d as u32 <= 90 && c as u32 == d as u32 + 32) by {
        case_is_a_bit_of_the_code(c);
        case_is_a_bit_of_the_code(d);
    }
    assert(lowered(a).len() == a.len());
    assert(lowered(b).len() == b.len());
    assert(forall|k: int| 0 <= k < a.len() ==> #[trigger] lowered(a)[k] == lower_char(a[k]));
    assert(forall|k: int| 0 <= k < b.len() ==> #[trigger] lowered(b)[k] == lower_char(b[k]));
    if a.len() == b.len() && (forall|k: int|
        0 <= k < a.len() ==> lower_char(#[trigger] a[k]) == lower_char(b[k])) {
        assert(lowered(a) =~= lowered(b));
    }
    if lowered(a) == lowered(b) {
        assert forall|k: int| 0 <= k < a.len() implies lower_char(#[trigger] a[k]) == lower_char(
            b[k],
        ) by {
            assert(lowered(a)[k] == lowered(b)[k]);
        }
    }
}

proof fn filtered_in_two(a: Seq<char>, b: Seq<char>, p: spec_fn(char) -> bool)
    ensures
        (a + b).filter(p) == a.filter(p) + b.filter(p),
    decreases b.len(),
{
    reveal(Seq::filter);
    if b.len() == 0 {
        assert(a + b =~= a);
        assert(a.filter(p) + b.filter(p) =~= a.filter(p));
    } else {
        assert((a + b).drop_last() =~= a + b.drop_last());
        assert((a + b).last() == b.last());
        filtered_in_two(a, b.drop_last(), p);
        assert((a + b).filter(p) =~= a.filter(p) + b.filter(p));
    }
}

proof fn filtered_one(c: char, p: spec_fn(char) -> bool)
    ensures
        seq![c].filter(p) == (if p(c) {
            seq![c]
        } else {
            Seq::empty()
        }),
{
    reveal(Seq::filter);
    reveal_with_fuel(Seq::filter, 2);
    assert(seq![c].drop_last() =~= Seq::<char>::empty());
    assert(Seq::<char>::empty().filter(p) =~= Seq::<char>::empty());
    assert(seq![c].last() == c);
    if p(c) {
        assert(seq![c].filter(p) =~= seq![c]);
    }
}

/// The hexadecimal digits of two texts, one behind the other, are those of the
/// one and then those of the other. A digit and a letter from `A` to `F` stay, a
/// letter from `a` to `f` becomes capital, and any other character goes.
pub proof fn hexadecimal_digits_one_by_one(a: Seq<char>, b: Seq<char>, c: char)
    ensures
        hex_digits_upper(a + b) == hex_digits_upper(a) + hex_digits_upper(b),
        hex_digits_upper(Seq::empty()) == Seq::<char>::empty(),
        48 <= c as u32 <= 57 || 65 <= c as u32 <= 70 ==> hex_digits_upper(seq![c]) == seq![c],
        97 <= c as u32 <= 102 ==> hex_digits_upper(seq![c]) == seq![(c as u32 - 32) as char],
        !(48 <= c as u32 <= 57) && !(65 <= c as u32 <= 70) && !(97 <= c as u32 <= 102)
            ==> hex_digits_upper(seq![c]).len() == 0,
{
    let p = |c: char| is_hex_digit(c);
    filtered_in_two(a, b, p);
    filtered_one(c, p);
    assert(Seq::<char>::empty().filter(p) =~= Seq::<char>::empty()) by {
        reveal(Seq::filter);
    }
    assert(hex_digits_upper(a + b) =~= hex_digits_upper(a) + hex_digits_upper(b));
    assert(hex_digits_upper(Seq::empty()) =~= Seq::<char>::empty());
    if p(c) {
        assert(hex_digits_upper(seq![c]) =~= seq![upper_char(c)]);
    }
}

/// Two characters are taken out of two texts, one behind the other, as they are
/// out of each, and any other character stays.
pub proof fn characters_go_one_by_one(a: Seq<char>, b: Seq<char>, c: char, x: char, y: char)
    ensures
        without_two(a + b, x, y) == without_two(a, x, y) + without_two(b, x, y),
        without_two(Seq::empty(), x, y) == Seq::<char>::empty(),
        c == x || c == y ==> without_two(seq![c], x, y) == Seq::<char>::empty(),
        c != x && c != y ==> without_two(seq![c], x, y) == seq![c],
{
    filtered_in_two(a, b, neither(x, y));
    filtered_one(c, neither(x, y));
    assert(Seq::<char>::empty().filter(neither(x, y)) =~= Seq::<char>::empty()) by {
        reveal(Seq::filter);
    }
}

proof fn digit_reads_back(d: nat)
    requires
        d < 10,
    ensures
        digit_char(d) as nat == d + 48,
        '0' <= digit_char(d),
        digit_char(d) <= '9',
{
}

/// A number in decimal digits is at least one digit, begins with no zero but for
/// zero itself, and reads back as the number.
pub proof fn decimal_numbers_read_back(n: nat)
    ensures
        decimal(n).len() > 0,
        forall|i: int| 0 <= i < decimal(n).len() ==> '0' <= #[trigger] decimal(n)[i] && decimal(n)[i]
            <= '9',
        n > 0 ==> decimal(n)[0] != '0',
        decimal_value(decimal(n)) == n,
        n <= u64::MAX ==> parsed_u64(decimal(n)) == Some(n as u64),
    decreases n,
{
    let s = decimal(n);
    if n < 10 {
        digit_reads_back(n);
        reveal_with_fuel(decimal_value, 2);
        assert(s.drop_last() =~= Seq::<char>::empty());
        assert(s.last() == digit_char(n));
    } else {
        decimal_numbers_read_back(n / 10);
        digit_reads_back(n % 10);
        assert(s.drop_last() =~= decimal(n / 10));
        assert(s.last() == digit_char(n % 10));
        assert(s[0] == decimal(n / 10)[0]);
        assert forall|i: int| 0 <= i < s.len() implies '0' <= #[trigger] s[i] && s[i] <= '9' by {
            if i < s.len() - 1 {
                assert(s[i] == decimal(n / 10)[i]);
            }
        }
    }
    assert(all_digits(s));
    assert(s[0] != '+');
}

/// A text stands for a number only where it is a plus sign or nothing, and then
/// decimal digits, at least one; leading zeros and the sign change nothing of
/// the number.
pub proof fn numbers_are_signs_and_digits(s: Seq<char>, n: nat)
    ensures
        parsed_u64(s) is Some ==> s.len() > 0 && (forall|i: int|
            1 <= i < s.len() ==> '0' <= #[trigger] s[i] && s[i] <= '9') && (s[0] == '+' || ('0' <= s[0]
            && s[0] <= '9')) && (s[0] == '+' ==> s.len() > 1),
        n <= u64::MAX ==> parsed_u64(seq!['+'] + decimal(n)) == Some(n as u64),
        n <= u64::MAX ==> parsed_u64(seq!['0'] + decimal(n)) == Some(n as u64),
        n > u64::MAX ==> parsed_u64(decimal(n)) is None,
{
    decimal_numbers_read_back(n);
    let d = decimal(n);
    let plus = seq!['+'] + d;
    let zero = seq!['0'] + d;
    assert(plus.skip(1) =~= d);
    leading_zero_is_nothing(d);
    assert(all_digits(zero)) by {
        assert forall|i: int| 0 <= i < zero.len() implies is_digit(#[trigger] zero[i]) by {
            if i > 0 {
                assert(zero[i] == d[i - 1]);
            }
        }
    }
    if parsed_u64(s) is Some && s.len() > 0 && s[0] == '+' {
        let t = s.skip(1);
        assert forall|i: int| 1 <= i < s.len() implies '0' <= #[trigger] s[i] && s[i] <= '9' by {
            assert(s[i] == t[i - 1]);
        }
    }
}

proof fn leading_zero_is_nothing(d: Seq<char>)
    ensures
        decimal_value(seq!['0'] + d) == decimal_value(d),
    decreases d.len(),
{
    let s = seq!['0'] + d;
    if d.len() == 0 {
        reveal_with_fuel(decimal_value, 2);
        assert(s.drop_last() =~= Seq::<char>::empty());
    } else {
        leading_zero_is_nothing(d.drop_last());
        assert(s.drop_last() =~= seq!['0'] + d.drop_last());
        assert(s.last() == d.last());
    }
}

} // verus!
