//! The cpio `newc` format: writing one record, and reading past records.
use vstd::prelude::*;
use vstd::slice::slice_subrange;

verus! {

// ---------------------------------------------------------------------------
// Hexadecimal fields
// ---------------------------------------------------------------------------

/// The ASCII hexadecimal digit for `d`.
pub open spec fn hex_byte(d: nat, upper: bool) -> u8 {
    if d < 10 {
        (d + 48) as u8
    } else if upper {
        (d + 55) as u8
    } else {
        (d + 87) as u8
    }
}

/// `v` in hexadecimal digits, with zeros before it up to the width `w`.
pub open spec fn hex_pad(v: nat, w: nat, upper: bool) -> Seq<u8>
    decreases v + w,
{
    if v == 0 && w == 0 {
        Seq::empty()
    } else {
        hex_pad(
            v / 16,
            if w == 0 {
                0
            } else {
                (w - 1) as nat
            },
            upper,
        ).push(hex_byte(v % 16, upper))
    }
}

/// Append `v` in hexadecimal digits, with zeros before it up to the width `w`.
pub fn push_hex(out: &mut Vec<u8>, v: u128, w: u8, upper: bool)
    ensures
        final(out)@ == old(out)@ + hex_pad(v as nat, w as nat, upper),
    decreases v + w,
{
    if v == 0 && w == 0 {
        assert(out@ =~= old(out)@ + Seq::<u8>::empty());
        return;
    }
    let rest: u8 = if w == 0 { 0 } else { w - 1 };
    push_hex(out, v / 16, rest, upper);
    let d: u8 = (v % 16) as u8;
    let b: u8 = if d < 10 { d + 48 } else if upper { d + 55 } else { d + 87 };
    out.push(b);
    assert(out@ =~= old(out)@ + hex_pad(v as nat, w as nat, upper));
}

/// The value of an ASCII hexadecimal digit.
pub open spec fn hex_digit_value(b: u8) -> Option<nat> {
    if 48 <= b <= 57 {
        Some((b - 48) as nat)
    } else if 97 <= b <= 102 {
        Some((b - 87) as nat)
    } else if 65 <= b <= 70 {
        Some((b - 55) as nat)
    } else {
        None
    }
}

/// The number that hexadecimal digits stand for, `None` where a byte is no digit.
pub open spec fn hex_value(s: Seq<u8>) -> Option<nat>
    decreases s.len(),
{
    if s.len() == 0 {
        Some(0)
    } else {
        match (hex_value(s.drop_last()), hex_digit_value(s.last())) {
            (Some(v), Some(d)) => Some(v * 16 + d),
            _ => None,
        }
    }
}

/// The number in a header field: an optional plus sign and at least one
/// hexadecimal digit; zero where the field holds anything else.
pub open spec fn field_value(s: Seq<u8>) -> nat {
    let d = if s.len() > 0 && s[0] == 43 {
        s.skip(1)
    } else {
        s
    };
    if d.len() == 0 {
        0
    } else {
        match hex_value(d) {
            Some(v) => v,
            None => 0,
        }
    }
}

/// `16` to the power `w`.
pub open spec fn hex_cap(w: nat) -> nat
    decreases w,
{
    if w == 0 {
        1
    } else {
        16 * hex_cap((w - 1) as nat)
    }
}

proof fn hex_value_none_prefix(s: Seq<u8>, i: int)
    requires
        0 <= i <= s.len(),
        hex_value(s.take(i)) is None,
    ensures
        hex_value(s) is None,
    decreases s.len(),
{
    if i < s.len() {
        assert(s.drop_last().take(i) =~= s.take(i));
        hex_value_none_prefix(s.drop_last(), i);
    } else {
        assert(s.take(i) =~= s);
    }
}

/// The number in the eight bytes of `data` at `at`.
pub fn read_field(data: &[u8], at: usize) -> (r: u32)
    requires
        at + 8 <= data@.len(),
    ensures
        r == field_value(data@.subrange(at as int, at + 8)),
{
    let ghost s = data@.subrange(at as int, at + 8);
    let from: usize = if data[at] == 43 { 1 } else { 0 };
    let ghost d = s.skip(from as int);
    assert(s[0] == data@[at as int]);
    assert(s.skip(0) =~= s);
    let mut i: usize = from;
    let mut v: u64 = 0;
    proof {
        reveal_with_fuel(hex_cap, 9);
        assert(d.take(0) =~= Seq::<u8>::empty());
    }
    while i < 8
        invariant
            from <= i <= 8,
            from <= 1,
            at + 8 <= data@.len() <= usize::MAX,
            s == data@.subrange(at as int, at + 8),
            d == s.skip(from as int),
            d == (if s.len() > 0 && s[0] == 43 { s.skip(1) } else { s }),
            hex_value(d.take(i - from)) == Some(v as nat),
            v < hex_cap((i - from) as nat),
        decreases 8 - i,
    {
        let b = data[at + i];
        assert(d[i - from] == b);
        assert(d.take(i - from + 1).drop_last() =~= d.take(i - from));
        let k: u64 = if 48 <= b && b <= 57 {
            (b - 48) as u64
        } else if 97 <= b && b <= 102 {
            (b - 87) as u64
        } else if 65 <= b && b <= 70 {
            (b - 55) as u64
        } else {
            proof {
                hex_value_none_prefix(d, i - from + 1);
            }
            return 0;
        };
        proof {
            reveal_with_fuel(hex_cap, 9);
            hex_cap_bound((i - from) as nat);
        }
        v = v * 16 + k;
        i = i + 1;
    }
    proof {
        hex_cap_bound((i - from) as nat);
        assert(d.take(i - from) =~= d);
    }
    v as u32
}

proof fn hex_cap_bound(w: nat)
    requires
        w <= 8,
    ensures
        1 <= hex_cap(w) <= 0x1_0000_0000,
{
    reveal_with_fuel(hex_cap, 9);
}

/// A padded field has its width and reads back as its value.
pub proof fn hex_pad_reads_back(v: nat, w: nat, upper: bool)
    requires
        v < hex_cap(w),
    ensures
        hex_pad(v, w, upper).len() == w,
        hex_value(hex_pad(v, w, upper)) == Some(v),
        forall|i: int| 0 <= i < w ==> #[trigger] hex_pad(v, w, upper)[i] != 43,
    decreases w,
{
    if w > 0 {
        let p = (w - 1) as nat;
        assert(v / 16 < hex_cap(p)) by {
            assert(v < 16 * hex_cap(p));
        }
        hex_pad_reads_back(v / 16, p, upper);
        let s = hex_pad(v, w, upper);
        assert(s.drop_last() =~= hex_pad(v / 16, p, upper));
        assert(hex_digit_value(hex_byte(v % 16, upper)) == Some(v % 16));
        assert forall|i: int| 0 <= i < w implies #[trigger] s[i] != 43 by {
            if i < w - 1 {
                assert(s[i] == hex_pad(v / 16, p, upper)[i]);
            }
        }
    }
}

/// A header field written for a 32-bit value is eight bytes and reads back.
pub proof fn field_reads_back(v: nat, upper: bool)
    requires
        v < 0x1_0000_0000,
    ensures
        hex_pad(v, 8, upper).len() == 8,
        field_value(hex_pad(v, 8, upper)) == v,
{
    reveal_with_fuel(hex_cap, 9);
    hex_pad_reads_back(v, 8, upper);
    assert(hex_pad(v, 8, upper)[0] != 43);
}

// ---------------------------------------------------------------------------
// Padding
// ---------------------------------------------------------------------------

/// How many bytes bring the length `n` to a multiple of `k`.
pub open spec fn pad_len(n: int, k: int) -> int {
    (k - n % k) % k
}

/// `n` zero bytes.
pub open spec fn zeros(n: nat) -> Seq<u8> {
    Seq::new(n, |i: int| 0u8)
}

/// `s` with zero bytes behind it up to a multiple of `k`.
pub open spec fn padded(s: Seq<u8>, k: int) -> Seq<u8> {
    s + zeros(pad_len(s.len() as int, k) as nat)
}

/// Append `n` zero bytes.
pub fn push_zeros(out: &mut Vec<u8>, n: usize)
    ensures
        final(out)@ == old(out)@ + zeros(n as nat),
{
    let mut i: usize = 0;
    assert(out@ =~= old(out)@ + zeros(0));
    while i < n
        invariant
            i <= n,
            out@ == old(out)@ + zeros(i as nat),
        decreases n - i,
    {
        out.push(0);
        i = i + 1;
        assert(out@ =~= old(out)@ + zeros(i as nat));
    }
}

/// Append zero bytes up to a multiple of `k`.
pub fn pad_to(out: &mut Vec<u8>, k: usize)
    requires
        k > 0,
    ensures
        final(out)@ == padded(old(out)@, k as int),
{
    let n: usize = (k - out.len() % k) % k;
    push_zeros(out, n);
}

// ---------------------------------------------------------------------------
// Headers
// ---------------------------------------------------------------------------

/// The bytes `070701` that every record begins with.
pub open spec fn magic() -> Seq<u8> {
    seq![48, 55, 48, 55, 48, 49]
}

/// The header of a record: the magic bytes and thirteen hexadecimal fields.
#[verifier::opaque]
pub open spec fn header(
    ino: nat,
    mode: nat,
    nlink: nat,
    filesize: nat,
    namesize: nat,
    upper: bool,
) -> Seq<u8> {
    magic() + hex_pad(ino, 8, upper) + hex_pad(mode, 8, upper) + hex_pad(0, 8, upper) + hex_pad(
        0,
        8,
        upper,
    ) + hex_pad(nlink, 8, upper) + hex_pad(0, 8, upper) + hex_pad(filesize, 8, upper) + hex_pad(
        0,
        8,
        upper,
    ) + hex_pad(0, 8, upper) + hex_pad(0, 8, upper) + hex_pad(0, 8, upper) + hex_pad(
        namesize,
        8,
        upper,
    ) + hex_pad(0, 8, upper)
}

/// Append the header of a record.
pub fn push_header(
    out: &mut Vec<u8>,
    ino: u32,
    mode: u32,
    nlink: u32,
    filesize: u128,
    namesize: u128,
    upper: bool,
)
    ensures
        final(out)@ == old(out)@ + header(
            ino as nat,
            mode as nat,
            nlink as nat,
            filesize as nat,
            namesize as nat,
            upper,
        ),
{
    out.push(48);
    out.push(55);
    out.push(48);
    out.push(55);
    out.push(48);
    out.push(49);
    assert(out@ =~= old(out)@ + magic());
    push_hex(out, ino as u128, 8, upper);
    push_hex(out, mode as u128, 8, upper);
    push_hex(out, 0, 8, upper);
    push_hex(out, 0, 8, upper);
    push_hex(out, nlink as u128, 8, upper);
    push_hex(out, 0, 8, upper);
    push_hex(out, filesize, 8, upper);
    push_hex(out, 0, 8, upper);
    push_hex(out, 0, 8, upper);
    push_hex(out, 0, 8, upper);
    push_hex(out, 0, 8, upper);
    push_hex(out, namesize, 8, upper);
    push_hex(out, 0, 8, upper);
    reveal(header);
    assert(out@ =~= old(out)@ + header(
        ino as nat,
        mode as nat,
        nlink as nat,
        filesize as nat,
        namesize as nat,
        upper,
    ));
}

/// A header of 32-bit values is 110 bytes, and its size fields stand where
/// a reader looks for them.
pub proof fn header_layout(
    ino: nat,
    mode: nat,
    nlink: nat,
    filesize: nat,
    namesize: nat,
    upper: bool,
)
    requires
        ino < 0x1_0000_0000,
        mode < 0x1_0000_0000,
        nlink < 0x1_0000_0000,
        filesize < 0x1_0000_0000,
        namesize < 0x1_0000_0000,
    ensures
        ({
            let h = header(ino, mode, nlink, filesize, namesize, upper);
            &&& h.len() == 110
            &&& h.subrange(0, 6) == magic()
            &&& field_value(h.subrange(14, 22)) == mode
            &&& field_value(h.subrange(54, 62)) == filesize
            &&& field_value(h.subrange(94, 102)) == namesize
        }),
{
    reveal(header);
    field_reads_back(ino, upper);
    field_reads_back(mode, upper);
    field_reads_back(nlink, upper);
    field_reads_back(filesize, upper);
    field_reads_back(namesize, upper);
    field_reads_back(0, upper);
    let h = header(ino, mode, nlink, filesize, namesize, upper);
    assert(h.subrange(0, 6) =~= magic());
    assert(h.subrange(14, 22) =~= hex_pad(mode, 8, upper));
    assert(h.subrange(54, 62) =~= hex_pad(filesize, 8, upper));
    assert(h.subrange(94, 102) =~= hex_pad(namesize, 8, upper));
}

// ---------------------------------------------------------------------------
// Reading past records
// ---------------------------------------------------------------------------

/// Where the records of `d` that begin at `off` end: a record counts where its
/// header, name and content lie wholly in `d`.
#[verifier::opaque]
pub open spec fn records_end(d: Seq<u8>, off: int) -> int
    decreases d.len() + 4 - off,
{
    if 0 <= off && off + 110 <= d.len() && d.subrange(off, off + 6) == magic() {
        let name_end = off + 110 + field_value(d.subrange(off + 94, off + 102));
        let content = name_end + pad_len(name_end, 4);
        let end = content + field_value(d.subrange(off + 54, off + 62));
        if name_end == off + 110 || name_end > d.len() || end > d.len() {
            off
        } else {
            records_end(d, end + pad_len(end, 4))
        }
    } else {
        off
    }
}

/// Records end where they begin or behind.
pub proof fn records_end_grows(d: Seq<u8>, off: int)
    ensures
        records_end(d, off) >= off,
    decreases d.len() + 4 - off,
{
    reveal(records_end);
    if 0 <= off && off + 110 <= d.len() && d.subrange(off, off + 6) == magic() {
        let name_end = off + 110 + field_value(d.subrange(off + 94, off + 102));
        let content = name_end + pad_len(name_end, 4);
        let end = content + field_value(d.subrange(off + 54, off + 62));
        if !(name_end == off + 110 || name_end > d.len() || end > d.len()) {
            records_end_grows(d, end + pad_len(end, 4));
        }
    }
}

/// Where records fill `c` from `off` to its end, they end there whatever
/// follows, unless another record begins there.
pub proof fn records_end_before_rest(c: Seq<u8>, rest: Seq<u8>, off: int)
    requires
        0 <= off,
        records_end(c, off) == c.len(),
        !crate::text::has_prefix(rest, magic()),
    ensures
        records_end(c + rest, off) == c.len(),
    decreases c.len() + 4 - off,
{
    reveal(records_end);
    let d = c + rest;
    records_end_grows(c, off);
    if off == c.len() {
        if off + 110 <= d.len() {
            assert(d.subrange(off, off + 6) =~= rest.take(6));
        }
    } else {
        assert(d.subrange(off, off + 6) =~= c.subrange(off, off + 6));
        assert(d.subrange(off + 94, off + 102) =~= c.subrange(off + 94, off + 102));
        assert(d.subrange(off + 54, off + 62) =~= c.subrange(off + 54, off + 62));
        let name_end = off + 110 + field_value(c.subrange(off + 94, off + 102));
        let content = name_end + pad_len(name_end, 4);
        let end = content + field_value(c.subrange(off + 54, off + 62));
        records_end_before_rest(c, rest, end + pad_len(end, 4));
    }
}

/// The records of `d` that begin at `off`: the name, the mode and the content
/// of each.
#[verifier::opaque]
pub open spec fn records(d: Seq<u8>, off: int) -> Seq<(Seq<u8>, nat, Seq<u8>)>
    decreases d.len() + 4 - off,
{
    if 0 <= off && off + 110 <= d.len() && d.subrange(off, off + 6) == magic() {
        let name_end = off + 110 + field_value(d.subrange(off + 94, off + 102));
        let content = name_end + pad_len(name_end, 4);
        let end = content + field_value(d.subrange(off + 54, off + 62));
        if name_end == off + 110 || name_end > d.len() || end > d.len() {
            Seq::empty()
        } else {
            seq![
                (
                    d.subrange(off + 110, name_end - 1),
                    field_value(d.subrange(off + 14, off + 22)),
                    d.subrange(content, end),
                ),
            ] + records(d, end + pad_len(end, 4))
        }
    } else {
        Seq::empty()
    }
}

/// `out` with a record behind it: the header, the name and its end, and the
/// content, each part padded to a multiple of four as counted from the start
/// of `out`.
#[verifier::opaque]
pub open spec fn with_record(
    out: Seq<u8>,
    ino: nat,
    mode: nat,
    nlink: nat,
    name: Seq<u8>,
    data: Seq<u8>,
    upper: bool,
) -> Seq<u8> {
    padded(
        padded(
            out + header(
                ino,
                mode,
                nlink,
                data.len() % 0x1_0000_0000,
                (name.len() + 1) % 0x1_0000_0000,
                upper,
            ) + name + seq![0u8],
            4,
        ) + data,
        4,
    )
}

/// A record is written behind what was there, and fills a multiple of four.
pub proof fn with_record_grows(
    out: Seq<u8>,
    ino: nat,
    mode: nat,
    nlink: nat,
    name: Seq<u8>,
    data: Seq<u8>,
    upper: bool,
)
    ensures
        with_record(out, ino, mode, nlink, name, data, upper).len() % 4 == 0,
        crate::text::has_prefix(with_record(out, ino, mode, nlink, name, data, upper), out),
{
    let h = header(
        ino,
        mode,
        nlink,
        data.len() % 0x1_0000_0000,
        (name.len() + 1) % 0x1_0000_0000,
        upper,
    );
    reveal(with_record);
    record_grows(out, h, name, data);
}

proof fn record_grows(out: Seq<u8>, h: Seq<u8>, name: Seq<u8>, data: Seq<u8>)
    ensures
        ({
            let next = padded(padded(out + h + name + seq![0u8], 4) + data, 4);
            next.len() % 4 == 0 && crate::text::has_prefix(next, out)
        }),
{
    let next = padded(padded(out + h + name + seq![0u8], 4) + data, 4);
    assert(next.take(out.len() as int) =~= out);
}

/// A record that was written behind `out` is read there, and what is read next
/// is what follows it.
pub proof fn record_is_read(
    d: Seq<u8>,
    out: Seq<u8>,
    ino: nat,
    mode: nat,
    nlink: nat,
    name: Seq<u8>,
    data: Seq<u8>,
    upper: bool,
)
    requires
        out.len() % 4 == 0,
        ino < 0x1_0000_0000,
        mode < 0x1_0000_0000,
        nlink < 0x1_0000_0000,
        name.len() + 1 < 0x1_0000_0000,
        data.len() < 0x1_0000_0000,
        crate::text::has_prefix(d, with_record(out, ino, mode, nlink, name, data, upper)),
    ensures
        ({
            let next = with_record(out, ino, mode, nlink, name, data, upper);
            &&& next.len() % 4 == 0
            &&& crate::text::has_prefix(next, out)
            &&& crate::text::has_prefix(d, out)
            &&& records_end(d, out.len() as int) == records_end(d, next.len() as int)
            &&& records(d, out.len() as int) == seq![(name, mode, data)] + records(
                d,
                next.len() as int,
            )
        }),
{
    let filesize = data.len();
    let namesize = name.len() + 1;
    let h = header(ino, mode, nlink, filesize, namesize, upper);
    header_layout(ino, mode, nlink, filesize, namesize, upper);
    reveal(with_record);
    record_step(d, out, h, mode, name, data);
}

/// A record whose header `h` gives its mode and its sizes is read.
proof fn record_step(
    d: Seq<u8>,
    out: Seq<u8>,
    h: Seq<u8>,
    mode: nat,
    name: Seq<u8>,
    data: Seq<u8>,
)
    requires
        out.len() % 4 == 0,
        h.len() == 110,
        h.subrange(0, 6) == magic(),
        field_value(h.subrange(14, 22)) == mode,
        field_value(h.subrange(54, 62)) == data.len(),
        field_value(h.subrange(94, 102)) == name.len() + 1,
        crate::text::has_prefix(d, padded(padded(out + h + name + seq![0u8], 4) + data, 4)),
    ensures
        ({
            let next = padded(padded(out + h + name + seq![0u8], 4) + data, 4);
            &&& next.len() % 4 == 0
            &&& crate::text::has_prefix(next, out)
            &&& crate::text::has_prefix(d, out)
            &&& records_end(d, out.len() as int) == records_end(d, next.len() as int)
            &&& records(d, out.len() as int) == seq![(name, mode, data)] + records(
                d,
                next.len() as int,
            )
        }),
{
    reveal(records);
    reveal(records_end);
    record_layout(d, out, h, name, data);
    let off = out.len() as int;
    let got = d.subrange(off, off + 110);
    assert(d.subrange(off, off + 6) =~= got.subrange(0, 6));
    assert(d.subrange(off + 14, off + 22) =~= got.subrange(14, 22));
    assert(d.subrange(off + 54, off + 62) =~= got.subrange(54, 62));
    assert(d.subrange(off + 94, off + 102) =~= got.subrange(94, 102));
}

/// Where the parts of a record with the header `h` stand.
proof fn record_layout(d: Seq<u8>, out: Seq<u8>, h: Seq<u8>, name: Seq<u8>, data: Seq<u8>)
    requires
        h.len() == 110,
        crate::text::has_prefix(d, padded(padded(out + h + name + seq![0u8], 4) + data, 4)),
    ensures
        ({
            let next = padded(padded(out + h + name + seq![0u8], 4) + data, 4);
            let off = out.len() as int;
            let name_end = off + 110 + name.len() + 1;
            let content = name_end + pad_len(name_end, 4);
            let end = content + data.len();
            &&& next.len() == end + pad_len(end, 4)
            &&& next.len() % 4 == 0
            &&& next.len() <= d.len()
            &&& crate::text::has_prefix(next, out)
            &&& crate::text::has_prefix(d, out)
            &&& d.subrange(off, off + 110) == h
            &&& d.subrange(off + 110, name_end - 1) == name
            &&& d.subrange(content, end) == data
        }),
{
    let off = out.len() as int;
    let body = out + h + name + seq![0u8];
    let a = padded(body, 4);
    let b = a + data;
    let next = padded(b, 4);
    assert(next.take(off) =~= out);
    assert forall|i: int| 0 <= i < next.len() implies d[i] == next[i] by {
        assert(d.take(next.len() as int)[i] == d[i]);
    }
    assert(d.take(off) =~= out);
    assert(d.subrange(off, off + 110) =~= h);
    assert(d.subrange(off + 110, off + 110 + name.len()) =~= name);
    assert(d.subrange(a.len() as int, b.len() as int) =~= data);
}

/// Zero bytes are no record.
pub proof fn padding_is_no_record(a: Seq<u8>, d: Seq<u8>)
    requires
        d == padded(a, 512),
    ensures
        records_end(d, a.len() as int) == a.len(),
        records(d, a.len() as int) == Seq::<(Seq<u8>, nat, Seq<u8>)>::empty(),
{
    reveal(records);
    reveal(records_end);
    let n = a.len() as int;
    if n + 110 <= d.len() {
        assert(d.subrange(n, n + 6)[0] == 0u8);
        assert(magic()[0] == 48u8);
    }
}

/// What follows the records that `data` begins with, such as microcode or an
/// early initramfs.
pub fn skip_leading_cpio(data: &[u8]) -> (r: &[u8])
    ensures
        r@ == data@.skip(
            if records_end(data@, 0) < data@.len() {
                records_end(data@, 0)
            } else {
                data@.len() as int
            },
        ),
{
    let n = data.len();
    let mut off: usize = 0;
    let ghost mut at: int = 0;
    loop
        invariant
            n == data@.len(),
            off <= n,
            off == (if at < n { at } else { n as int }),
            0 <= at,
            records_end(data@, 0) == records_end(data@, at),
        ensures
            n == data@.len(),
            off <= n,
            off == (if records_end(data@, 0) < n { records_end(data@, 0) } else { n as int }),
        decreases n - off,
    {
        reveal(records_end);
        if off >= n || n - off < 110 || !starts_record(data, off) {
            break;
        }
        let namesize: usize = read_field(data, off + 94) as usize;
        let filesize: usize = read_field(data, off + 54) as usize;
        if namesize == 0 || namesize > n - off - 110 {
            break;
        }
        let name_end = off + 110 + namesize;
        let name_pad: usize = (4 - name_end % 4) % 4;
        if name_pad > n - name_end || filesize > n - name_end - name_pad {
            break;
        }
        let end = name_end + name_pad + filesize;
        let end_pad: usize = (4 - end % 4) % 4;
        proof {
            at = end + end_pad;
        }
        off = if end_pad > n - end { n } else { end + end_pad };
    }
    let r = slice_subrange(data, off, n);
    assert(r@ =~= data@.skip(off as int));
    r
}

/// Whether the magic bytes stand at `off`.
fn starts_record(data: &[u8], off: usize) -> (r: bool)
    requires
        off + 110 <= data@.len(),
    ensures
        r == (data@.subrange(off as int, off + 6) == magic()),
{
    let ghost s = data@.subrange(off as int, off + 6);
    let r = data[off] == 48 && data[off + 1] == 55 && data[off + 2] == 48 && data[off + 3] == 55
        && data[off + 4] == 48 && data[off + 5] == 49;
    proof {
        assert(s.len() == 6);
        assert(s[0] == data@[off as int] && s[1] == data@[off + 1] && s[2] == data@[off + 2] && s[3]
            == data@[off + 3] && s[4] == data@[off + 4] && s[5] == data@[off + 5]);
        if r {
            assert(s =~= magic());
        }
    }
    r
}

// ---------------------------------------------------------------------------
// Laws
// ---------------------------------------------------------------------------

/// A hexadecimal field ends in the digit for the remainder by sixteen, and what
/// stands before it is the field of the quotient. The digits have the codes of
/// `0` to `9` and then of `a` to `f`, or of `A` to `F` where capital letters are
/// wanted.
pub proof fn fields_are_written_digit_by_digit(v: nat, w: nat, upper: bool)
    ensures
        hex_pad(0, 0, upper) == Seq::<u8>::empty(),
        hex_pad(v, w + 1, upper) == hex_pad(v / 16, w, upper).push(hex_byte(v % 16, upper)),
        v % 16 < 10 ==> hex_byte(v % 16, upper) == 48 + v % 16,
        v % 16 >= 10 && upper ==> hex_byte(v % 16, upper) == 65 + (v % 16 - 10),
        v % 16 >= 10 && !upper ==> hex_byte(v % 16, upper) == 97 + (v % 16 - 10),
{
}

/// A digit in either case has its value, and any other byte has none; a field is
/// read digit by digit, and one that holds anything else counts as zero.
pub proof fn fields_are_read_digit_by_digit(s: Seq<u8>, b: u8)
    ensures
        48 <= b <= 57 ==> hex_digit_value(b) == Some((b - 48) as nat),
        65 <= b <= 70 ==> hex_digit_value(b) == Some((b - 55) as nat),
        97 <= b <= 102 ==> hex_digit_value(b) == Some((b - 87) as nat),
        !(48 <= b <= 57) && !(65 <= b <= 70) && !(97 <= b <= 102) ==> hex_digit_value(b) is None,
        hex_value(s) is Some && hex_digit_value(b) is Some ==> hex_value(s.push(b)) == Some(
            hex_value(s)->Some_0 * 16 + hex_digit_value(b)->Some_0,
        ),
        hex_value(s) is Some && s.len() > 0 && s[0] != 43 ==> field_value(s) == hex_value(s)->Some_0,
        hex_value(s) is None && s.len() > 0 && s[0] != 43 ==> field_value(s) == 0,
{
    assert(s.push(b).drop_last() =~= s);
    assert(s.push(b).last() == b);
}

/// Padding adds fewer than `k` bytes, all of them zero, and makes the length a
/// multiple of `k`.
pub proof fn padding_fills_up_with_zeros(s: Seq<u8>, k: int)
    requires
        k > 0,
    ensures
        s.len() <= padded(s, k).len() < s.len() + k,
        padded(s, k).len() as int % k == 0,
        padded(s, k).take(s.len() as int) == s,
        forall|i: int| s.len() <= i < padded(s, k).len() ==> #[trigger] padded(s, k)[i] == 0,
{
    let n = s.len() as int;
    let r = n % k;
    vstd::arithmetic::div_mod::lemma_mod_bound(n, k);
    if r == 0 {
        vstd::arithmetic::div_mod::lemma_mod_self_0(k);
        assert(pad_len(n, k) == 0);
    } else {
        vstd::arithmetic::div_mod::lemma_small_mod((k - r) as nat, k as nat);
        assert(pad_len(n, k) == k - r);
        vstd::arithmetic::div_mod::lemma_fundamental_div_mod(n, k);
        let q = n / k;
        assert(n + (k - r) == k * (q + 1)) by (nonlinear_arith)
            requires
                n == k * q + r,
        ;
        vstd::arithmetic::div_mod::lemma_mod_multiples_basic(q + 1, k);
        assert(k * (q + 1) == (q + 1) * k) by (nonlinear_arith);
    }
    assert(padded(s, k).take(n) =~= s);
}

/// A record begins with the bytes of `070701`. Of its thirteen fields of eight
/// bytes those for the owner, the time, the devices and the check are zero, and
/// the others stand at fixed places.
pub proof fn header_fields_stand_in_order(
    ino: nat,
    mode: nat,
    nlink: nat,
    filesize: nat,
    namesize: nat,
    upper: bool,
)
    requires
        ino < 0x1_0000_0000,
        mode < 0x1_0000_0000,
        nlink < 0x1_0000_0000,
        filesize < 0x1_0000_0000,
        namesize < 0x1_0000_0000,
    ensures
        ({
            let h = header(ino, mode, nlink, filesize, namesize, upper);
            &&& h.len() == 110
            &&& h[0] == 48 && h[1] == 55 && h[2] == 48 && h[3] == 55 && h[4] == 48 && h[5] == 49
            &&& field_value(h.subrange(6, 14)) == ino
            &&& field_value(h.subrange(14, 22)) == mode
            &&& field_value(h.subrange(22, 30)) == 0
            &&& field_value(h.subrange(30, 38)) == 0
            &&& field_value(h.subrange(38, 46)) == nlink
            &&& field_value(h.subrange(46, 54)) == 0
            &&& field_value(h.subrange(54, 62)) == filesize
            &&& field_value(h.subrange(62, 70)) == 0
            &&& field_value(h.subrange(70, 78)) == 0
            &&& field_value(h.subrange(78, 86)) == 0
            &&& field_value(h.subrange(86, 94)) == 0
            &&& field_value(h.subrange(94, 102)) == namesize
            &&& field_value(h.subrange(102, 110)) == 0
        }),
{
    reveal(header);
    field_reads_back(ino, upper);
    field_reads_back(mode, upper);
    field_reads_back(nlink, upper);
    field_reads_back(filesize, upper);
    field_reads_back(namesize, upper);
    field_reads_back(0, upper);
    let h = header(ino, mode, nlink, filesize, namesize, upper);
    let z = hex_pad(0, 8, upper);
    assert(h.subrange(6, 14) =~= hex_pad(ino, 8, upper));
    assert(h.subrange(14, 22) =~= hex_pad(mode, 8, upper));
    assert(h.subrange(22, 30) =~= z);
    assert(h.subrange(30, 38) =~= z);
    assert(h.subrange(38, 46) =~= hex_pad(nlink, 8, upper));
    assert(h.subrange(46, 54) =~= z);
    assert(h.subrange(54, 62) =~= hex_pad(filesize, 8, upper));
    assert(h.subrange(62, 70) =~= z);
    assert(h.subrange(70, 78) =~= z);
    assert(h.subrange(78, 86) =~= z);
    assert(h.subrange(86, 94) =~= z);
    assert(h.subrange(94, 102) =~= hex_pad(namesize, 8, upper));
    assert(h.subrange(102, 110) =~= z);
}

/// A record behind `out` is its header of 110 bytes, its name, a zero byte, and
/// at the next multiple of four its content; zero bytes fill it up to the next
/// multiple of four, and what was there before stays.
pub proof fn record_parts_stand_in_order(
    out: Seq<u8>,
    ino: nat,
    mode: nat,
    nlink: nat,
    name: Seq<u8>,
    data: Seq<u8>,
    upper: bool,
)
    requires
        ino < 0x1_0000_0000,
        mode < 0x1_0000_0000,
        nlink < 0x1_0000_0000,
        name.len() + 1 < 0x1_0000_0000,
        data.len() < 0x1_0000_0000,
    ensures
        ({
            let d = with_record(out, ino, mode, nlink, name, data, upper);
            let off = out.len() as int;
            let name_end = off + 110 + name.len() + 1;
            let content = name_end + (4 - name_end % 4) % 4;
            &&& d.take(off) == out
            &&& d.subrange(off, off + 110) == header(
                ino,
                mode,
                nlink,
                data.len(),
                name.len() + 1,
                upper,
            )
            &&& d.subrange(off + 110, name_end - 1) == name
            &&& d[name_end - 1] == 0
            &&& d.subrange(content, content + data.len()) == data
            &&& d.len() % 4 == 0
            &&& content + data.len() <= d.len() < content + data.len() + 4
        }),
{
    let h = header(ino, mode, nlink, data.len(), name.len() + 1, upper);
    header_layout(ino, mode, nlink, data.len(), name.len() + 1, upper);
    reveal(with_record);
    let d = with_record(out, ino, mode, nlink, name, data, upper);
    assert(d.take(d.len() as int) =~= d);
    record_layout(d, out, h, name, data);
    let body = out + h + name + seq![0u8];
    let name_end = out.len() as int + 110 + name.len() + 1;
    assert(body[name_end - 1] == 0);
    assert(d[name_end - 1] == padded(body, 4)[name_end - 1]);
}

/// A record is passed over only where it is whole: the magic bytes, a name that
/// is not empty, and all of its name and content lie in the file. Then reading
/// goes on at the next multiple of four behind its content.
pub proof fn only_whole_records_are_passed_over(d: Seq<u8>, off: int)
    requires
        0 <= off,
    ensures
        off + 110 > d.len() ==> records_end(d, off) == off,
        off + 110 <= d.len() && !(d[off] == 48 && d[off + 1] == 55 && d[off + 2] == 48 && d[off + 3]
            == 55 && d[off + 4] == 48 && d[off + 5] == 49) ==> records_end(d, off) == off,
        off + 110 <= d.len() && d[off] == 48 && d[off + 1] == 55 && d[off + 2] == 48 && d[off + 3]
            == 55 && d[off + 4] == 48 && d[off + 5] == 49 ==> ({
            let name_end = off + 110 + field_value(d.subrange(off + 94, off + 102));
            let content = name_end + (4 - name_end % 4) % 4;
            let end = content + field_value(d.subrange(off + 54, off + 62));
            &&& name_end == off + 110 || name_end > d.len() || end > d.len() ==> records_end(d, off)
                == off
            &&& name_end > off + 110 && name_end <= d.len() && end <= d.len() ==> records_end(d, off)
                == records_end(d, end + (4 - end % 4) % 4)
        }),
{
    reveal(records_end);
    if off + 110 <= d.len() {
        let m = d.subrange(off, off + 6);
        assert(m[0] == d[off] && m[1] == d[off + 1] && m[2] == d[off + 2] && m[3] == d[off + 3]
            && m[4] == d[off + 4] && m[5] == d[off + 5]);
        if d[off] == 48 && d[off + 1] == 55 && d[off + 2] == 48 && d[off + 3] == 55 && d[off + 4]
            == 48 && d[off + 5] == 49 {
            assert(m =~= magic());
        }
    }
}

} // verus!
