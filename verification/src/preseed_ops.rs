//! Files for the Linux side of the live image: none of them holds a carriage
//! return.
use crate::ascii::{neither, remove_two};
use crate::text::{
    crlf_to_lf, has_prefix, has_suffix, occurs, occurs_at, with_lf,
};
use crate::util::{crs_are_paired, to_lf_keeps_unix_text, to_lf_leaves_only_lone_crs};
use vstd::prelude::*;
use vstd::slice::slice_to_vec;
use vstd::utf8::{encode_scalar, encode_utf8};

verus! {

/// A text as a file for Linux holds it: every carriage return and line feed
/// pair is a line feed, and there is no other carriage return.
pub open spec fn linux_text(s: Seq<char>) -> Seq<char> {
    with_lf(s).filter(|c: char| c != '\r')
}

proof fn filter_keeps_all(s: Seq<char>, p: spec_fn(char) -> bool)
    requires
        forall|i: int| 0 <= i < s.len() ==> p(#[trigger] s[i]),
    ensures
        s.filter(p) == s,
    decreases s.len(),
{
    reveal(Seq::filter);
    if s.len() > 0 {
        assert forall|i: int| 0 <= i < s.drop_last().len() implies p(
            #[trigger] s.drop_last()[i],
        ) by {
            assert(s.drop_last()[i] == s[i]);
        }
        filter_keeps_all(s.drop_last(), p);
        assert(p(s[s.len() - 1]));
        assert(s.drop_last().push(s.last()) =~= s);
    }
}

/// No text for Linux holds a carriage return. One whose carriage returns all
/// stand before a line feed keeps everything else as it is.
pub proof fn linux_text_has_no_cr(s: Seq<char>)
    ensures
        !linux_text(s).contains('\r'),
        crs_are_paired(s) ==> linux_text(s) == with_lf(s),
        !s.contains('\r') ==> linux_text(s) == s,
{
    broadcast use vstd::seq_lib::group_filter_ensures;

    let p = |c: char| c != '\r';
    let t = with_lf(s);
    if linux_text(s).contains('\r') {
        let i = choose|i: int| 0 <= i < linux_text(s).len() && linux_text(s)[i] == '\r';
        assert(p(t.filter(p)[i]));
    }
    to_lf_leaves_only_lone_crs(s);
    if !t.contains('\r') {
        filter_keeps_all(t, p);
    }
    if !s.contains('\r') {
        to_lf_keeps_unix_text(s);
    }
}

/// `s` without carriage returns: a pair of a carriage return and a line feed is
/// a line feed, and a lone carriage return goes.
pub fn to_lf(s: &str) -> (r: String)
    ensures
        r@ == with_lf(s@).filter(|c: char| c != '\r'),
        !r@.contains('\r'),
        crs_are_paired(s@) ==> r@ == with_lf(s@),
{
    let lf = crlf_to_lf(s);
    let r = remove_two(lf.as_str(), '\r', '\r');
    proof {
        assert(neither('\r', '\r') =~= (|c: char| c != '\r'));
        linux_text_has_no_cr(s@);
    }
    r
}

/// The persistence configuration: the whole root is kept.
pub fn generate_persistence_conf() -> (r: String)
    ensures
        r@ == "/ union\n"@,
{
    proof {
        reveal_strlit("/ union\n");
        linux_text_has_no_cr("/ union\n"@);
    }
    to_lf("/ union\n")
}

/// The hook up to the user that is created.
pub const HOOK_USERADD: &'static str =
    r#"#!/bin/bash
# NextOS Auto User Setup - Otomatik kullanici olusturma
set -e

# Kullanici olustur
useradd -m -s /bin/bash "#;

/// The hook from there up to the user that gets a password.
pub const HOOK_PASSWORD: &'static str =
    r#"

# Sifre ata
chpasswd <<'NEXTOS_PASSWD'
"#;

/// The hook from the password up to the user that joins the sudo group.
pub const HOOK_SUDO: &'static str =
    r#"
NEXTOS_PASSWD

# sudo grubuna ekle
usermod -aG sudo "#;

/// The hook from there up to the user that is reported.
pub const HOOK_ECHO: &'static str =
    r#"

echo "Kullanici '"#;

/// The hook from there to its end.
pub const HOOK_END: &'static str =
    r#"' basariyla olusturuldu."
"#;

/// The script that creates the user `username` with the password `password`
/// and lets them administer the machine.
pub open spec fn hook_script(username: Seq<char>, password: Seq<char>) -> Seq<char> {
    HOOK_USERADD@ + username + HOOK_PASSWORD@ + username + ":"@ + password + HOOK_SUDO@ + username
        + HOOK_ECHO@ + username + HOOK_END@
}

/// The script that creates the user of the live image.
pub fn generate_install_hook(username: &str, password: &str) -> (r: String)
    ensures
        r@ == linux_text(hook_script(username@, password@)),
        !r@.contains('\r'),
{
    let script = HOOK_USERADD.to_owned().concat(username).concat(HOOK_PASSWORD).concat(
        username,
    ).concat(":").concat(password).concat(HOOK_SUDO).concat(username).concat(HOOK_ECHO).concat(
        username,
    ).concat(HOOK_END);
    to_lf(script.as_str())
}

proof fn high_bytes_stay_high(y: u8)
    by (bit_vector)
    ensures
        0x80u8 | y >= 0x80,
        0xc0u8 | y >= 0x80,
        0xe0u8 | y >= 0x80,
        0xf0u8 | y >= 0x80,
{
}

proof fn scalar_without_cr(c: u32)
    requires
        c != 13,
    ensures
        !encode_scalar(c).contains(13u8),
{
    if c <= 0x7f {
        assert((c & 0x7f) as u8 != 13u8) by (bit_vector)
            requires
                c <= 0x7f,
                c != 13,
        ;
    }
    high_bytes_stay_high(((c >> 6) & 0x1f) as u8);
    high_bytes_stay_high(((c >> 12) & 0x0f) as u8);
    high_bytes_stay_high(((c >> 18) & 0x7) as u8);
    high_bytes_stay_high((c & 0x3f) as u8);
    high_bytes_stay_high(((c >> 6) & 0x3f) as u8);
    high_bytes_stay_high(((c >> 12) & 0x3f) as u8);
}

proof fn char_without_cr(c: char)
    requires
        c != '\r',
    ensures
        !encode_scalar(c as u32).contains(13u8),
{
    scalar_without_cr(c as u32);
}

/// The bytes of a text without carriage returns hold none either.
pub proof fn bytes_without_cr(s: Seq<char>)
    requires
        !s.contains('\r'),
    ensures
        !encode_utf8(s).contains(13u8),
    decreases s.len(),
{
    if s.len() > 0 {
        let c = s[0];
        assert(s.contains(c));
        char_without_cr(c);
        assert(!s.drop_first().contains('\r')) by {
            if s.drop_first().contains('\r') {
                let i = choose|i: int|
                    0 <= i < s.drop_first().len() && s.drop_first()[i] == '\r';
                assert(s[i + 1] == '\r');
            }
        }
        bytes_without_cr(s.drop_first());
        let a = encode_scalar(s[0] as u32);
        let b = encode_utf8(s.drop_first());
        if encode_utf8(s).contains(13u8) {
            let i = choose|i: int| 0 <= i < encode_utf8(s).len() && encode_utf8(s)[i] == 13u8;
            if i < a.len() {
                assert(a[i] == 13u8);
            } else {
                assert(b[i - a.len()] == 13u8);
            }
        }
    }
}

/// The bytes of a file for Linux with the text `content`: no carriage return,
/// and no byte order mark but what the text holds.
pub fn write_linux_file(content: &str) -> (r: Vec<u8>)
    ensures
        r@ == encode_utf8(linux_text(content@)),
        !r@.contains(13u8),
{
    let lf = to_lf(content);
    proof {
        bytes_without_cr(lf@);
    }
    slice_to_vec(lf.as_str().as_bytes())
}

// ---------------------------------------------------------------------------
// Laws
// ---------------------------------------------------------------------------

proof fn filtered_in_two(a: Seq<char>, b: Seq<char>, p: spec_fn(char) -> bool)
    ensures
        (a + b).filter(p) == a.filter(p) + b.filter(p),
    decreases b.len(),
{
    reveal(Seq::filter);
    if b.len() == 0 {
        assert(a + b =~= a);
        assert(a.filter(p) + b.filter(p) =~= a.filter(p));
    } else {
        assert((a + b).drop_last() =~= a + b.drop_last());
        filtered_in_two(a, b.drop_last(), p);
        assert((a + b).filter(p) =~= a.filter(p) + b.filter(p));
    }
}

/// A text for Linux is the text without its carriage returns: everything else
/// stays, in its order.
pub proof fn only_carriage_returns_go(s: Seq<char>)
    ensures
        linux_text(s) == s.filter(|c: char| c != '\r'),
    decreases s.len(),
{
    let p = |c: char| c != '\r';
    reveal(Seq::filter);
    if s.len() >= 2 && s[0] == '\r' && s[1] == '\n' {
        let t = s.skip(2);
        only_carriage_returns_go(t);
        let two = seq!['\r', '\n'];
        assert(s =~= two + t);
        filtered_in_two(two, t, p);
        filtered_in_two(seq!['\n'], with_lf(t), p);
        assert(two.filter(p) =~= seq!['\n']) by {
            reveal_with_fuel(Seq::filter, 3);
            assert(two.drop_last() =~= seq!['\r']);
            assert(two.drop_last().drop_last() =~= Seq::<char>::empty());
        }
        assert(seq!['\n'].filter(p) =~= seq!['\n']) by {
            reveal_with_fuel(Seq::filter, 2);
            assert(seq!['\n'].drop_last() =~= Seq::<char>::empty());
        }
    } else if s.len() > 0 {
        let t = s.skip(1);
        let one = seq![s[0]];
        only_carriage_returns_go(t);
        assert(s =~= one + t);
        filtered_in_two(one, t, p);
        filtered_in_two(one, with_lf(t), p);
    }
}

proof fn script_is_made_of_commands()
    ensures
        has_suffix(HOOK_USERADD@, "useradd -m -s /bin/bash "@),
        has_prefix(HOOK_USERADD@, "#!/bin/bash\n"@),
        has_suffix(HOOK_PASSWORD@, "chpasswd <<'NEXTOS_PASSWD'\n"@),
        has_prefix(HOOK_SUDO@, "\nNEXTOS_PASSWD\n"@),
        has_suffix(HOOK_SUDO@, "usermod -aG sudo "@),
{
    reveal_strlit(
        r#"#!/bin/bash
# NextOS Auto User Setup - Otomatik kullanici olusturma
set -e

# Kullanici olustur
useradd -m -s /bin/bash "#,
    );
    reveal_strlit(
        r#"

# Sifre ata
chpasswd <<'NEXTOS_PASSWD'
"#,
    );
    reveal_strlit(
        r#"
NEXTOS_PASSWD

# sudo grubuna ekle
usermod -aG sudo "#,
    );
    reveal_strlit("useradd -m -s /bin/bash ");
    reveal_strlit("#!/bin/bash\n");
    reveal_strlit("chpasswd <<'NEXTOS_PASSWD'\n");
    reveal_strlit("\nNEXTOS_PASSWD\n");
    reveal_strlit("usermod -aG sudo ");
    let add = "useradd -m -s /bin/bash "@;
    let pass = "chpasswd <<'NEXTOS_PASSWD'\n"@;
    let end = "\nNEXTOS_PASSWD\n"@;
    let sudo = "usermod -aG sudo "@;
    let u = HOOK_USERADD@;
    let p = HOOK_PASSWORD@;
    let s = HOOK_SUDO@;
    assert(u.skip(u.len() - add.len()) =~= add);
    assert(u.take(12) =~= "#!/bin/bash\n"@);
    assert(p.skip(p.len() - pass.len()) =~= pass);
    assert(s.take(end.len() as int) =~= end);
    assert(s.skip(s.len() - sudo.len()) =~= sudo);
}

proof fn around_the_seam(a: Seq<char>, x: Seq<char>, m: Seq<char>, y: Seq<char>, b: Seq<char>)
    requires
        has_suffix(a, x),
        has_prefix(b, y),
    ensures
        occurs(a + m + b, x + m + y),
{
    let whole = a + m + b;
    let a0 = a.take(a.len() - x.len());
    let b0 = b.skip(y.len() as int);
    let mid = x + m + y;
    let n = a0.len() as int;
    assert(a =~= a0 + x);
    assert(b =~= y + b0);
    assert(whole.subrange(n, n + mid.len()) =~= mid);
    assert(occurs_at(whole, mid, n));
}

/// The script that creates a user names the user behind the commands that create
/// them and let them administer the machine, and hands their name and password,
/// with a colon between, to the command that sets it.
pub proof fn script_names_the_user_and_the_password(username: Seq<char>, password: Seq<char>)
    ensures
        occurs(hook_script(username, password), "useradd -m -s /bin/bash "@ + username),
        occurs(hook_script(username, password), "usermod -aG sudo "@ + username),
        occurs(
            hook_script(username, password),
            "chpasswd <<'NEXTOS_PASSWD'\n"@ + (username + ":"@ + password) + "\nNEXTOS_PASSWD\n"@,
        ),
{
    script_is_made_of_commands();
    let add = "useradd -m -s /bin/bash "@;
    let pass = "chpasswd <<'NEXTOS_PASSWD'\n"@;
    let end = "\nNEXTOS_PASSWD\n"@;
    let sudo = "usermod -aG sudo "@;
    let whole = hook_script(username, password);
    let none = Seq::<char>::empty();
    let tail = HOOK_ECHO@ + username + HOOK_END@;
    let after = HOOK_PASSWORD@ + username + ":"@ + password + HOOK_SUDO@ + username + tail;
    assert(after.take(0) =~= none);
    assert(tail.take(0) =~= none);
    around_the_seam(HOOK_USERADD@, add, username, none, after);
    assert(whole =~= HOOK_USERADD@ + username + after);
    assert(add + username + none =~= add + username);
    let before = HOOK_USERADD@ + username + HOOK_PASSWORD@ + username + ":"@ + password + HOOK_SUDO@;
    longer_suffix(HOOK_USERADD@ + username + HOOK_PASSWORD@ + username + ":"@ + password, HOOK_SUDO@, sudo);
    around_the_seam(before, sudo, username, none, tail);
    assert(whole =~= before + username + tail);
    assert(sudo + username + none =~= sudo + username);
    longer_suffix(HOOK_USERADD@ + username, HOOK_PASSWORD@, pass);
    let rest = HOOK_SUDO@ + (username + tail);
    assert(rest.take(end.len() as int) =~= HOOK_SUDO@.take(end.len() as int));
    around_the_seam(
        HOOK_USERADD@ + username + HOOK_PASSWORD@,
        pass,
        username + ":"@ + password,
        end,
        rest,
    );
    assert(whole =~= (HOOK_USERADD@ + username + HOOK_PASSWORD@) + (username + ":"@ + password)
        + rest);
}

proof fn longer_suffix(a: Seq<char>, b: Seq<char>, x: Seq<char>)
    requires
        has_suffix(b, x),
    ensures
        has_suffix(a + b, x),
{
    assert((a + b).skip((a + b).len() - x.len()) =~= b.skip(b.len() - x.len()));
}

} // verus!
