//! Line endings, PowerShell calls, and identifiers in command output.
use crate::ascii::{decimal, decimal_text};
use crate::error::{ErrorKind, InstallerError};
use crate::text::{
    byte_len, bytes_of_joined_texts, chars_of, crlf_to_lf, find_from, first_index,
    first_index_is_least, first_index_unique, replace, replace_char, string_of, texts, trim,
    trimmed, with_lf,
};
use vstd::prelude::*;
use vstd::utf8::encode_utf8;

verus! {

/// The Windows process creation flag that opens no console window.
pub const CREATE_NO_WINDOW: u32 = 0x0800_0000;

/// `s` with every carriage return and line feed pair replaced by a line feed.
pub fn to_lf(s: &str) -> (r: String)
    ensures
        r@ == with_lf(s@),
{
    crlf_to_lf(s)
}

/// Every carriage return of `s` is followed by a line feed.
pub open spec fn crs_are_paired(s: Seq<char>) -> bool {
    forall|i: int|
        0 <= i < s.len() && #[trigger] s[i] == '\r' ==> i + 1 < s.len() && s[i + 1] == '\n'
}

/// The converted text holds a carriage return exactly where the text holds one
/// that no line feed follows: a text with Windows or Unix line ends comes out
/// without any.
pub proof fn to_lf_leaves_only_lone_crs(s: Seq<char>)
    ensures
        !with_lf(s).contains('\r') <==> crs_are_paired(s),
    decreases s.len(),
{
    if s.len() >= 2 && s[0] == '\r' && s[1] == '\n' {
        let t = s.skip(2);
        to_lf_leaves_only_lone_crs(t);
        let r = with_lf(t);
        assert(with_lf(s).contains('\r') <==> r.contains('\r')) by {
            assert(with_lf(s)[0] == '\n');
            if with_lf(s).contains('\r') {
                let j = choose|j: int| 0 <= j < with_lf(s).len() && with_lf(s)[j] == '\r';
                assert(r[j - 1] == '\r');
            }
            if r.contains('\r') {
                let j = choose|j: int| 0 <= j < r.len() && r[j] == '\r';
                assert(with_lf(s)[j + 1] == '\r');
            }
        }
        assert(crs_are_paired(s) <==> crs_are_paired(t)) by {
            if crs_are_paired(s) {
                assert forall|i: int| 0 <= i < t.len() && #[trigger] t[i] == '\r' implies i + 1
                    < t.len() && t[i + 1] == '\n' by {
                    assert(s[i + 2] == '\r');
                }
            }
            if crs_are_paired(t) {
                assert forall|i: int| 0 <= i < s.len() && #[trigger] s[i] == '\r' implies i + 1
                    < s.len() && s[i + 1] == '\n' by {
                    if i >= 2 {
                        assert(t[i - 2] == '\r');
                    }
                }
            }
        }
    } else if s.len() > 0 {
        let t = s.skip(1);
        to_lf_leaves_only_lone_crs(t);
        let r = with_lf(t);
        if s[0] == '\r' {
            assert(with_lf(s)[0] == '\r');
            assert(!crs_are_paired(s));
        } else {
            if with_lf(s).contains('\r') {
                let j = choose|j: int| 0 <= j < with_lf(s).len() && with_lf(s)[j] == '\r';
                assert(r[j - 1] == '\r');
            }
            if r.contains('\r') {
                let j = choose|j: int| 0 <= j < r.len() && r[j] == '\r';
                assert(with_lf(s)[j + 1] == '\r');
            }
            if crs_are_paired(s) {
                assert forall|i: int| 0 <= i < t.len() && #[trigger] t[i] == '\r' implies i + 1
                    < t.len() && t[i + 1] == '\n' by {
                    assert(s[i + 1] == '\r');
                }
            }
            if crs_are_paired(t) {
                assert forall|i: int| 0 <= i < s.len() && #[trigger] s[i] == '\r' implies i + 1
                    < s.len() && s[i + 1] == '\n' by {
                    assert(t[i - 1] == '\r');
                }
            }
        }
    }
}

/// Text without carriage returns is left as it is.
pub proof fn to_lf_keeps_unix_text(s: Seq<char>)
    requires
        !s.contains('\r'),
    ensures
        with_lf(s) == s,
    decreases s.len(),
{
    if s.len() > 0 {
        assert(s[0] != '\r');
        assert(!s.skip(1).contains('\r')) by {
            if s.skip(1).contains('\r') {
                let j = choose|j: int| 0 <= j < s.skip(1).len() && s.skip(1)[j] == '\r';
                assert(s[j + 1] == '\r');
            }
        }
        to_lf_keeps_unix_text(s.skip(1));
        assert(seq![s[0]] + s.skip(1) =~= s);
    }
}

// ---------------------------------------------------------------------------
// PowerShell
// ---------------------------------------------------------------------------

/// What is handed to `-Command`.
pub open spec fn powershell_command(script: Seq<char>) -> Seq<char> {
    "[Console]::OutputEncoding = [System.Text.Encoding]::UTF8; "@ + script
}

/// The arguments that make PowerShell run `script` and answer in UTF-8.
pub fn powershell_args(script: &str) -> (r: Vec<String>)
    ensures
        texts(r@) == seq![
            "-NoProfile"@,
            "-NonInteractive"@,
            "-ExecutionPolicy"@,
            "Bypass"@,
            "-Command"@,
            powershell_command(script@),
        ],
        texts(r@)[5] == "[Console]::OutputEncoding = [System.Text.Encoding]::UTF8; "@ + script@,
{
    let command =
        "[Console]::OutputEncoding = [System.Text.Encoding]::UTF8; ".to_owned().concat(script);
    let r = vec![
        "-NoProfile".to_owned(),
        "-NonInteractive".to_owned(),
        "-ExecutionPolicy".to_owned(),
        "Bypass".to_owned(),
        "-Command".to_owned(),
        command,
    ];
    assert(texts(r@) =~= seq![
        "-NoProfile"@,
        "-NonInteractive"@,
        "-ExecutionPolicy"@,
        "Bypass"@,
        "-Command"@,
        powershell_command(script@),
    ]);
    r
}

/// `n` in decimal digits, with a minus sign before a negative number.
pub open spec fn signed_decimal(n: int) -> Seq<char> {
    if n < 0 {
        seq!['-'] + decimal((-n) as nat)
    } else {
        decimal(n as nat)
    }
}

/// What is written for an exit code that may be missing.
pub open spec fn exit_code_text(code: Option<i32>) -> Seq<char> {
    match code {
        Some(n) => "Some("@ + signed_decimal(n as int) + ")"@,
        None => "None"@,
    }
}

fn exit_code(code: Option<i32>) -> (r: String)
    ensures
        r@ == exit_code_text(code),
{
    match code {
        Some(n) => {
            let wide: i64 = n as i64;
            if wide < 0 {
                let digits = decimal_text((-wide) as u64);
                let r = "Some(".to_owned().concat("-").concat(digits.as_str()).concat(")");
                proof {
                    reveal_strlit("-");
                    assert("-"@ =~= seq!['-']);
                    assert(r@ =~= exit_code_text(code));
                }
                r
            } else {
                let digits = decimal_text(wide as u64);
                "Some(".to_owned().concat(digits.as_str()).concat(")")
            }
        },
        None => "None".to_owned(),
    }
}

/// The message for a PowerShell run that failed.
pub open spec fn powershell_failure(code: Option<i32>, stdout: Seq<char>, stderr: Seq<char>) -> Seq<
    char,
> {
    "powershell exit "@ + exit_code_text(code) + ": "@ + trimmed(stdout) + " "@ + trimmed(stderr)
}

/// What a PowerShell run that ended answers: its output where it succeeded, an
/// error with the exit code and both outputs otherwise.
pub fn run_powershell(success: bool, code: Option<i32>, stdout: String, stderr: String) -> (r:
    Result<String, InstallerError>)
    ensures
        success ==> r == Ok::<String, InstallerError>(stdout),
        !success ==> r is Err && r->Err_0@ == (
            ErrorKind::CommandExecution,
            powershell_failure(code, stdout@, stderr@),
        ),
{
    if success {
        return Ok(stdout);
    }
    let c = exit_code(code);
    let o = trim(stdout.as_str());
    let e = trim(stderr.as_str());
    let m = "powershell exit ".to_owned().concat(c.as_str()).concat(": ").concat(o.as_str()).concat(
        " ",
    ).concat(e.as_str());
    Err(InstallerError::CommandExecution(m))
}

/// The error for a PowerShell that could not be started.
pub fn powershell_spawn_error(cause: &str) -> (r: InstallerError)
    ensures
        r@ == (ErrorKind::CommandExecution, "powershell spawn failed: "@ + cause@),
{
    InstallerError::CommandExecution("powershell spawn failed: ".to_owned().concat(cause))
}

/// `s` inside a single-quoted PowerShell string.
pub open spec fn ps_quoted(s: Seq<char>) -> Seq<char> {
    replace_char(s, '\'', "''"@)
}

/// `s` inside a single-quoted PowerShell string.
pub fn ps_quote(s: &str) -> (r: String)
    ensures
        r@ == ps_quoted(s@),
{
    replace(s, '\'', "''")
}

/// What a single-quoted PowerShell string that holds `t` between its quotes
/// stands for: two quotes stand for one. A quote alone would end the string,
/// and there is then no such string.
pub open spec fn ps_value(t: Seq<char>) -> Option<Seq<char>>
    decreases t.len(),
{
    if t.len() == 0 {
        Some(Seq::empty())
    } else if t[0] != '\'' {
        match ps_value(t.skip(1)) {
            Some(v) => Some(seq![t[0]] + v),
            None => None,
        }
    } else if t.len() >= 2 && t[1] == '\'' {
        match ps_value(t.skip(2)) {
            Some(v) => Some(seq!['\''] + v),
            None => None,
        }
    } else {
        None
    }
}

proof fn ps_value_of_two(a: Seq<char>, b: Seq<char>)
    requires
        ps_value(a) is Some,
    ensures
        ps_value(a + b) == (match ps_value(b) {
            Some(v) => Some(ps_value(a)->Some_0 + v),
            None => None,
        }),
    decreases a.len(),
{
    if a.len() == 0 {
        assert(a + b =~= b);
        if ps_value(b) is Some {
            assert(Seq::<char>::empty() + ps_value(b)->Some_0 =~= ps_value(b)->Some_0);
        }
    } else {
        let n: int = if a[0] != '\'' {
            1
        } else {
            2
        };
        let rest = a.skip(n);
        assert((a + b).skip(n) =~= rest + b);
        ps_value_of_two(rest, b);
        if ps_value(b) is Some {
            let v = ps_value(b)->Some_0;
            let w = ps_value(rest)->Some_0;
            assert(seq![a[0]] + (w + v) =~= seq![a[0]] + w + v);
        }
    }
}

/// A quoted text stands for the text, whatever is in it: no text ends the
/// string that it is put into.
pub proof fn ps_quoted_text_is_read_back(s: Seq<char>)
    ensures
        ps_value(ps_quoted(s)) == Some(s),
    decreases s.len(),
{
    if s.len() > 0 {
        let front = s.drop_last();
        ps_quoted_text_is_read_back(front);
        reveal_strlit("''");
        let tail: Seq<char> = if s.last() == '\'' {
            "''"@
        } else {
            seq![s.last()]
        };
        reveal_with_fuel(ps_value, 2);
        assert(tail.skip(tail.len() as int) =~= Seq::empty());
        assert(ps_value(tail) == Some(seq![s.last()])) by {
            assert(seq![s.last()] + Seq::empty() =~= seq![s.last()]);
        }
        ps_value_of_two(ps_quoted(front), tail);
        assert(front + seq![s.last()] =~= s);
    }
}

/// The script that copies `src` to `dest`, whose directory is `parent`.
pub fn copy_file_to_protected_path(parent: &str, src: &str, dest: &str) -> (r: String)
    ensures
        r@ == "New-Item -Path '"@ + ps_quoted(parent@)
            + "' -ItemType Directory -Force -ErrorAction SilentlyContinue | Out-Null; Copy-Item -Path '"@
            + ps_quoted(src@) + "' -Destination '"@ + ps_quoted(dest@)
            + "' -Force -ErrorAction Stop"@,
{
    let p = ps_quote(parent);
    let s = ps_quote(src);
    let d = ps_quote(dest);
    "New-Item -Path '".to_owned().concat(p.as_str()).concat(
        "' -ItemType Directory -Force -ErrorAction SilentlyContinue | Out-Null; Copy-Item -Path '",
    ).concat(s.as_str()).concat("' -Destination '").concat(d.as_str()).concat(
        "' -Force -ErrorAction Stop",
    )
}

// ---------------------------------------------------------------------------
// Identifiers
// ---------------------------------------------------------------------------

/// The first piece of `text` in braces, where it is as long as an identifier
/// and holds a hyphen.
pub open spec fn first_guid(text: Seq<char>) -> Option<Seq<char>> {
    let i = first_index(text, '{');
    let rest = text.skip(i);
    let j = first_index(rest, '}');
    let g = rest.take(j + 1);
    if i < text.len() && j < rest.len() && encode_utf8(g).len() == 38 && g.contains('-') {
        Some(g)
    } else {
        None
    }
}

/// The first identifier in braces that `text` holds, if the first braces hold one.
pub fn extract_first_guid(text: &str) -> (r: Option<String>)
    ensures
        match r {
            Some(g) => first_guid(text@) == Some(g@),
            None => first_guid(text@) is None,
        },
{
    let v = chars_of(text);
    assert(text@.skip(0) =~= text@);
    let i = find_from(v.as_slice(), 0, '{');
    if i == v.len() {
        return None;
    }
    let j = find_from(v.as_slice(), i, '}');
    if j == v.len() {
        return None;
    }
    let g = string_of(v.as_slice(), i, j + 1);
    assert(g@ =~= text@.skip(i as int).take(j - i + 1));
    let w = chars_of(g.as_str());
    let dash = find_from(w.as_slice(), 0, '-');
    proof {
        assert(g@.skip(0) =~= g@);
        crate::text::first_index_is_least(g@, '-');
    }
    if byte_len(g.as_str()) == 38 && dash < w.len() {
        Some(g)
    } else {
        None
    }
}

/// Of a text, what counts is the first opening brace and the first closing one
/// behind it: what stands between is an identifier exactly where it has 36 bytes
/// and holds a hyphen, whatever else the text holds. Without the two braces
/// there is none.
pub proof fn first_braces_hold_the_identifier(before: Seq<char>, inner: Seq<char>, rest: Seq<char>)
    requires
        !before.contains('{'),
        !inner.contains('}'),
    ensures
        first_guid(before + seq!['{'] + inner + seq!['}'] + rest) == (if encode_utf8(inner).len()
            == 36 && inner.contains('-') {
            Some(seq!['{'] + inner + seq!['}'])
        } else {
            None
        }),
        first_guid(before) is None,
        first_guid(before + seq!['{'] + inner) is None,
{
    let text = before + seq!['{'] + inner + seq!['}'] + rest;
    let n = before.len() as int;
    let g = seq!['{'] + inner + seq!['}'];
    assert forall|k: int| 0 <= k < n implies text[k] != '{' by {
        assert(text[k] == before[k]);
        assert(before.contains(before[k]));
    }
    assert(text[n] == '{');
    first_index_is_least(text, '{');
    first_index_unique(text, '{', n);
    let tail = text.skip(n);
    assert(tail =~= g + rest);
    let m = inner.len() as int + 1;
    assert forall|k: int| 0 <= k < m implies tail[k] != '}' by {
        if k > 0 {
            assert(tail[k] == inner[k - 1]);
            assert(inner.contains(inner[k - 1]));
        }
    }
    assert(tail[m] == '}');
    first_index_is_least(tail, '}');
    first_index_unique(tail, '}', m);
    assert(tail.take(m + 1) =~= g);
    bytes_of_joined_texts(seq!['{'] + inner, seq!['}']);
    bytes_of_joined_texts(seq!['{'], inner);
    one_ascii_character_is_one_byte('{');
    one_ascii_character_is_one_byte('}');
    assert(g.contains('-') <==> inner.contains('-')) by {
        if g.contains('-') {
            let k = choose|k: int| 0 <= k < g.len() && g[k] == '-';
            assert(inner[k - 1] == '-');
        }
        if inner.contains('-') {
            let k = choose|k: int| 0 <= k < inner.len() && inner[k] == '-';
            assert(g[k + 1] == '-');
        }
    }
    first_index_is_least(before, '{');
    if first_index(before, '{') < before.len() {
        assert(before.contains(before[first_index(before, '{')]));
    }
    let open = before + seq!['{'] + inner;
    assert forall|k: int| 0 <= k < n implies open[k] != '{' by {
        assert(open[k] == before[k]);
        assert(before.contains(before[k]));
    }
    assert(open[n] == '{');
    first_index_is_least(open, '{');
    first_index_unique(open, '{', n);
    let end = open.skip(n);
    first_index_is_least(end, '}');
    let j = first_index(end, '}');
    if j < end.len() {
        assert(end[j] == '}');
        assert(j > 0);
        assert(end[j] == inner[j - 1]);
        assert(inner.contains(inner[j - 1]));
    }
}

proof fn one_ascii_character_is_one_byte(c: char)
    requires
        (c as u32) < 128,
    ensures
        encode_utf8(seq![c]).len() == 1,
{
    assert(vstd::utf8::is_ascii_chars(seq![c]));
    vstd::utf8::is_ascii_chars_encode_utf8(seq![c]);
}

/// The message for a run that failed gives the exit code in decimal digits, with
/// a minus sign before a negative one, and then both outputs without the white
/// space around them.
pub proof fn failed_runs_tell_code_and_outputs(n: i32, stdout: Seq<char>, stderr: Seq<char>)
    ensures
        n >= 0 ==> powershell_failure(Some(n), stdout, stderr) == "powershell exit "@ + ("Some("@
            + decimal(n as nat) + ")"@) + ": "@ + trimmed(stdout) + " "@ + trimmed(stderr),
        n < 0 ==> powershell_failure(Some(n), stdout, stderr) == "powershell exit "@ + ("Some("@ + (
        seq!['-'] + decimal((-n) as nat)) + ")"@) + ": "@ + trimmed(stdout) + " "@ + trimmed(stderr),
        powershell_failure(None, stdout, stderr) == "powershell exit "@ + "None"@ + ": "@ + trimmed(
            stdout,
        ) + " "@ + trimmed(stderr),
{
}

/// Quoting goes character by character: a single quote is doubled, and every
/// other character stays as it is.
pub proof fn quotes_are_doubled(a: Seq<char>, b: Seq<char>, c: char)
    ensures
        ps_quoted(a + b) == ps_quoted(a) + ps_quoted(b),
        ps_quoted(Seq::empty()) == Seq::<char>::empty(),
        ps_quoted(seq!['\'']) == seq!['\'', '\''],
        c != '\'' ==> ps_quoted(seq![c]) == seq![c],
{
    reveal_strlit("''");
    crate::text::replacing_in_joined_texts(a, b, '\'', "''"@);
    assert("''"@ =~= seq!['\'', '\'']);
}

} // verus!
