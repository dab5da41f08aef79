//! The user's settings, and the configuration file that carries them.
use crate::error::{written_as, ErrorKind, InstallerError};
use crate::password::{hash_text, is_hash_of};
use crate::ascii::{is_digit, is_lower};
use crate::text::{byte_len, bytes_of_joined_texts, chars_of};
use crate::util::{ps_quote, ps_quoted};
use vstd::prelude::*;
use vstd::utf8::encode_utf8;

verus! {

/// What the user chose.
#[derive(Debug)]
pub struct UserConfig {
    pub username: String,
    /// Plain text, held in memory only: its hash is written.
    pub password: String,
    pub hostname: String,
    pub locale: String,
    pub timezone: String,
    pub keyboard: String,
}

/// What is written to the configuration file.
#[derive(Debug)]
pub struct ParkurConf {
    pub version: u32,
    pub username: String,
    pub password_hash: String,
    pub hostname: String,
    pub locale: String,
    pub timezone: String,
    pub keyboard: String,
    pub target_label: String,
}

/// What hashing a password answers, with its error as an error of the installer.
pub fn hash_outcome(h: Result<String, (String, String)>) -> (r: Result<String, InstallerError>)
    ensures
        h is Ok ==> r == Ok::<String, InstallerError>(h->Ok_0),
        h is Err ==> r is Err && r->Err_0@ == (
            ErrorKind::InvalidInput,
            "SHA-512 hash hatası: "@ + h->Err_0.1@,
        ),
{
    match h {
        Ok(t) => Ok(t),
        Err((_, debug)) => Err(
            InstallerError::InvalidInput(
                "SHA-512 hash hatası: ".to_owned().concat(debug.as_str()),
            ),
        ),
    }
}

/// Hash a password as SHA-512 crypt, the format of `/etc/shadow`.
pub fn hash_password(password: &str) -> (r: Result<String, InstallerError>)
    ensures
        r matches Ok(h) ==> crate::text::has_prefix(h@, "$6$rounds=5000$"@)
            && crate::password::crypt_accepts(encode_utf8(password@), h@),
        match r {
            Ok(h) => is_hash_of(password@, h@),
            Err(e) => e@.0 == ErrorKind::InvalidInput && crate::text::has_prefix(
                e@.1,
                "SHA-512 hash hatası: "@,
            ),
        },
{
    let h = hash_text(password);
    let r = hash_outcome(h);
    proof {
        if h is Err {
            let p = "SHA-512 hash hatası: "@;
            assert((p + h->Err_0.1@).take(p.len() as int) =~= p);
        }
    }
    r
}

/// `c` holds the settings `config` with the hash `hash` for the password.
pub open spec fn conf_of(c: ParkurConf, config: UserConfig, hash: Seq<char>) -> bool {
    &&& c.version == 1
    &&& c.username@ == config.username@
    &&& c.password_hash@ == hash
    &&& c.hostname@ == config.hostname@
    &&& c.locale@ == config.locale@
    &&& c.timezone@ == config.timezone@
    &&& c.keyboard@ == config.keyboard@
    &&& c.target_label@ == "NextOS_Install"@
}

/// What is written for the settings `config`, with `password_hash` in the place
/// of the password.
pub fn parkur_conf_with(config: &UserConfig, password_hash: String) -> (r: ParkurConf)
    ensures
        conf_of(r, *config, password_hash@),
        r.version == 1,
        r.username@ == config.username@,
        r.password_hash@ == password_hash@,
        r.hostname@ == config.hostname@,
        r.locale@ == config.locale@,
        r.timezone@ == config.timezone@,
        r.keyboard@ == config.keyboard@,
        r.target_label@ == "NextOS_Install"@,
{
    ParkurConf {
        version: 1,
        username: config.username.clone(),
        password_hash,
        hostname: config.hostname.clone(),
        locale: config.locale.clone(),
        timezone: config.timezone.clone(),
        keyboard: config.keyboard.clone(),
        target_label: "NextOS_Install".to_owned(),
    }
}

/// What is written for the settings `config`: a hash of the password stands in
/// its place.
pub fn parkur_conf(config: &UserConfig) -> (r: Result<ParkurConf, InstallerError>)
    ensures
        match r {
            Ok(c) => conf_of(c, *config, c.password_hash@) && is_hash_of(
                config.password@,
                c.password_hash@,
            ),
            Err(e) => e@.0 == ErrorKind::InvalidInput && crate::text::has_prefix(
                e@.1,
                "SHA-512 hash hatası: "@,
            ),
        },
{
    match hash_password(config.password.as_str()) {
        Ok(h) => Ok(parkur_conf_with(config, h)),
        Err(e) => Err(e),
    }
}

/// The script that writes `json` to the configuration file on a volume.
pub fn write_parkur_conf(target_letter: &str, json: &str) -> (r: String)
    ensures
        r@ == "Set-Content -Path '"@ + (target_letter@ + ":\\parkur.conf"@) + "' -Value '"@
            + ps_quoted(json@) + "' -Encoding UTF8 -Force -ErrorAction Stop"@,
{
    let path = target_letter.to_owned().concat(":\\parkur.conf");
    let q = ps_quote(json);
    "Set-Content -Path '".to_owned().concat(path.as_str()).concat("' -Value '").concat(
        q.as_str(),
    ).concat("' -Encoding UTF8 -Force -ErrorAction Stop")
}

/// The error for a configuration file that could not be written.
pub fn parkur_conf_error(e: &InstallerError) -> (r: InstallerError)
    ensures
        exists|t: Seq<char>|
            #[trigger] written_as(e@.1, t) && r@ == (
                ErrorKind::Io,
                "parkur.conf yazılamadı: "@ + t,
            ),
{
    let t = e.to_string();
    InstallerError::Io("parkur.conf yazılamadı: ".to_owned().concat(t.as_str()))
}

// ---------------------------------------------------------------------------
// Validation
// ---------------------------------------------------------------------------

/// Only small letters, digits, hyphens and underscores are in `s`.
pub open spec fn is_user_text(s: Seq<char>) -> bool {
    forall|i: int|
        0 <= i < s.len() ==> is_lower(#[trigger] s[i]) || is_digit(s[i]) || s[i] == '-' || s[i]
            == '_'
}

/// Whether only small letters, digits, hyphens and underscores are in `s`.
pub fn user_text(s: &str) -> (r: bool)
    ensures
        r == is_user_text(s@),
{
    let v = chars_of(s);
    let mut i: usize = 0;
    while i < v.len()
        invariant
            v@ == s@,
            i <= v@.len(),
            forall|j: int|
                0 <= j < i ==> is_lower(#[trigger] s@[j]) || is_digit(s@[j]) || s@[j] == '-'
                    || s@[j] == '_',
        decreases v@.len() - i,
    {
        let c = v[i];
        assert(s@[i as int] == c);
        if !(('a' <= c && c <= 'z') || ('0' <= c && c <= '9') || c == '-' || c == '_') {
            return false;
        }
        i = i + 1;
    }
    true
}

/// `s` begins with a small letter.
pub open spec fn begins_small(s: Seq<char>) -> bool {
    s.len() > 0 && is_lower(s[0])
}

/// Whether `s` begins with a small letter.
pub fn starts_small(s: &str) -> (r: bool)
    ensures
        r == begins_small(s@),
{
    let v = chars_of(s);
    v.len() > 0 && 'a' <= v[0] && v[0] <= 'z'
}

/// What is wrong with the settings, the first fault in this order.
pub open spec fn config_fault(config: UserConfig) -> Option<Seq<char>> {
    let name = config.username@;
    if name.len() == 0 || encode_utf8(name).len() > 32 {
        Some("Kullanıcı adı 1-32 karakter olmalı."@)
    } else if !is_user_text(name) {
        Some("Kullanıcı adı yalnızca küçük harf, rakam, tire ve alt çizgi içerebilir."@)
    } else if !begins_small(name) {
        Some("Kullanıcı adı bir küçük harf ile başlamalı."@)
    } else if encode_utf8(config.password@).len() < 4 {
        Some("Şifre en az 4 karakter olmalı."@)
    } else if config.hostname@.len() == 0 {
        Some("Bilgisayar adı boş olamaz."@)
    } else {
        None
    }
}

/// Whether the settings can be used.
pub fn validate_user_config(config: &UserConfig) -> (r: Result<(), InstallerError>)
    ensures
        match config_fault(*config) {
            Some(m) => r is Err && r->Err_0@ == (ErrorKind::InvalidInput, m),
            None => r is Ok,
        },
        r is Ok <==> ({
            &&& config.username@.len() > 0 && 'a' <= config.username@[0] && config.username@[0] <= 'z' && (forall|i: int|
                0 <= i < config.username@.len() ==> ('a' <= #[trigger] config.username@[i] && config.username@[i] <= 'z') || ('0' <= config.username@[i] && config.username@[i]
                    <= '9') || config.username@[i] == '-' || config.username@[i] == '_') && encode_utf8(config.username@).len() <= 32
            &&& encode_utf8(config.password@).len() >= 4
            &&& config.hostname@.len() > 0
        }),
{
    proof {
        settings_are_accepted_by_their_conditions(*config);
    }
    let name = config.username.as_str();
    if name.is_empty() || byte_len(name) > 32 {
        return Err(InstallerError::InvalidInput("Kullanıcı adı 1-32 karakter olmalı.".to_owned()));
    }
    if !user_text(name) {
        return Err(
            InstallerError::InvalidInput(
                "Kullanıcı adı yalnızca küçük harf, rakam, tire ve alt çizgi içerebilir.".to_owned(),
            ),
        );
    }
    if !starts_small(name) {
        return Err(
            InstallerError::InvalidInput("Kullanıcı adı bir küçük harf ile başlamalı.".to_owned()),
        );
    }
    if byte_len(config.password.as_str()) < 4 {
        return Err(InstallerError::InvalidInput("Şifre en az 4 karakter olmalı.".to_owned()));
    }
    if config.hostname.as_str().is_empty() {
        return Err(InstallerError::InvalidInput("Bilgisayar adı boş olamaz.".to_owned()));
    }
    Ok(())
}

// ---------------------------------------------------------------------------
// Laws
// ---------------------------------------------------------------------------

/// Settings are accepted exactly where the user name begins with a small letter,
/// holds only small letters, digits, hyphens and underscores and has at most 32
/// bytes, the password has at least 4 bytes, and there is a host name.
pub proof fn settings_are_accepted_by_their_conditions(config: UserConfig)
    ensures
        config_fault(config) is None <==> ({
            &&& config.username@.len() > 0 && 'a' <= config.username@[0] && config.username@[0] <= 'z' && (forall|i: int|
                0 <= i < config.username@.len() ==> ('a' <= #[trigger] config.username@[i] && config.username@[i] <= 'z') || ('0' <= config.username@[i] && config.username@[i]
                    <= '9') || config.username@[i] == '-' || config.username@[i] == '_') && encode_utf8(config.username@).len() <= 32
            &&& encode_utf8(config.password@).len() >= 4
            &&& config.hostname@.len() > 0
        }),
{
}

/// Settings stay accepted with any longer password and with any other host name
/// that is not empty, and whatever the other settings are.
pub proof fn other_settings_do_not_matter(a: UserConfig, b: UserConfig, more: Seq<char>)
    requires
        config_fault(a) is None,
        b.username@ == a.username@,
        b.password@ == a.password@ + more,
        b.hostname@.len() > 0,
    ensures
        config_fault(b) is None,
{
    bytes_of_joined_texts(a.password@, more);
}

/// A refusal names the first thing that is wrong: the length of the name, its
/// characters, its first character, the password, the name of the computer.
pub proof fn refused_settings_are_told_by_their_fault(config: UserConfig)
    ensures
        ({
            let name = config.username@;
            let long = name.len() > 0 && encode_utf8(name).len() <= 32;
            let plain = forall|i: int|
                0 <= i < name.len() ==> ('a' <= #[trigger] name[i] && name[i] <= 'z') || ('0'
                    <= name[i] && name[i] <= '9') || name[i] == '-' || name[i] == '_';
            let small = 'a' <= name[0] && name[0] <= 'z';
            let secret = encode_utf8(config.password@).len() >= 4;
            &&& !long ==> config_fault(config) == Some("Kullanıcı adı 1-32 karakter olmalı."@)
            &&& long && !plain ==> config_fault(config) == Some(
                "Kullanıcı adı yalnızca küçük harf, rakam, tire ve alt çizgi içerebilir."@,
            )
            &&& long && plain && !small ==> config_fault(config) == Some(
                "Kullanıcı adı bir küçük harf ile başlamalı."@,
            )
            &&& long && plain && small && !secret ==> config_fault(config) == Some(
                "Şifre en az 4 karakter olmalı."@,
            )
            &&& long && plain && small && secret && config.hostname@.len() == 0 ==> config_fault(
                config,
            ) == Some("Bilgisayar adı boş olamaz."@)
        }),
{
}

} // verus!
