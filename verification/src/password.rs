//! Password hashes as `/etc/shadow` holds them. Only the hash of a password is
//! ever written to a disk.
use crate::error::{ErrorKind, InstallerError};
use crate::text::has_prefix;
use sha_crypt::{PasswordHasher, PasswordVerifier};
use vstd::prelude::*;
use vstd::utf8::encode_utf8;

verus! {

/// `sha_crypt` accepts `password` for `hash`.
pub uninterp spec fn crypt_accepts(password: Seq<u8>, hash: Seq<char>) -> bool;

/// `verify_password` of `sha_crypt::ShaCrypt::SHA512` on a hash in text form:
/// whether the password belongs to the hash. The answer depends on the two
/// alone.
#[verifier::external_body]
fn crypt_verify(password: &[u8], hash: &str) -> (r: bool)
    ensures
        r == crypt_accepts(password@, hash@),
{
    sha_crypt::ShaCrypt::SHA512.verify_password(password, hash).is_ok()
}

/// `hash_password` of `sha_crypt::ShaCrypt::SHA512`: the SHA-512 crypt of the
/// password with 5000 rounds and a random salt, in text form, or the error as
/// it is displayed and as it is written for debugging. It names the method and
/// the rounds at its beginning, and the password is accepted for it. Which hash
/// comes, and whether the system gives a salt at all, is not said.
#[verifier::external_body]
fn crypt_hash(password: &[u8]) -> (r: Result<String, (String, String)>)
    ensures
        r is Ok ==> has_prefix(r->Ok_0@, "$6$rounds=5000$"@),
        r is Ok ==> crypt_accepts(password@, r->Ok_0@),
{
    match sha_crypt::ShaCrypt::SHA512.hash_password(password) {
        Ok(h) => Ok(h.as_str().to_string()),
        Err(e) => Err((e.to_string(), format!("{:?}", e))),
    }
}

/// `hash` is a hash of `password`: SHA-512 crypt with 5000 rounds, for which
/// the password is accepted.
pub open spec fn is_hash_of(password: Seq<char>, hash: Seq<char>) -> bool {
    has_prefix(hash, "$6$rounds=5000$"@) && crypt_accepts(encode_utf8(password), hash)
}

/// Hash `password`, with the error as it is displayed and as it is written for
/// debugging.
pub(crate) fn hash_text(password: &str) -> (r: Result<String, (String, String)>)
    ensures
        r is Ok ==> is_hash_of(password@, r->Ok_0@),
{
    crypt_hash(password.as_bytes())
}

/// Whether `password` is accepted for `hash`.
pub fn password_matches(password: &str, hash: &str) -> (r: bool)
    ensures
        r == crypt_accepts(encode_utf8(password@), hash@),
{
    crypt_verify(password.as_bytes(), hash)
}

/// What hashing a password answers, with its error as an error of the installer.
pub fn hash_outcome(h: Result<String, (String, String)>) -> (r: Result<String, InstallerError>)
    ensures
        h is Ok ==> r == Ok::<String, InstallerError>(h->Ok_0),
        h is Err ==> r is Err && r->Err_0@ == (
            ErrorKind::CommandExecution,
            "password hashing failed: "@ + h->Err_0.0@,
        ),
{
    match h {
        Ok(t) => Ok(t),
        Err((shown, _)) => Err(
            InstallerError::CommandExecution(
                "password hashing failed: ".to_owned().concat(shown.as_str()),
            ),
        ),
    }
}

/// Hash the user's password as SHA-512 crypt. The hash is applied on the first
/// boot; the password is accepted for it.
pub fn hash_password_sha512(password: &str) -> (r: Result<String, InstallerError>)
    ensures
        r matches Ok(h) ==> has_prefix(h@, "$6$rounds=5000$"@) && crypt_accepts(
            encode_utf8(password@),
            h@,
        ),
        match r {
            Ok(h) => is_hash_of(password@, h@),
            Err(e) => e@.0 == ErrorKind::CommandExecution && has_prefix(
                e@.1,
                "password hashing failed: "@,
            ),
        },
{
    let h = hash_text(password);
    let r = hash_outcome(h);
    proof {
        if h is Err {
            let p = "password hashing failed: "@;
            assert((p + h->Err_0.0@).take(p.len() as int) =~= p);
        }
    }
    r
}

/// A password that was hashed. Only the hash is kept.
pub struct HashedPassword {
    hash: String,
    of: Ghost<Seq<char>>,
}

impl HashedPassword {
    #[verifier::type_invariant]
    spec fn wf(self) -> bool {
        is_hash_of(self.of@, self.hash@)
    }

    /// The password that was hashed, which is known to proofs only.
    pub closed spec fn password(self) -> Seq<char> {
        self.of@
    }

    /// The hash.
    pub closed spec fn hash(self) -> Seq<char> {
        self.hash@
    }

    /// Hash `password`.
    pub fn new(password: &str) -> (r: Result<HashedPassword, InstallerError>)
        ensures
            match r {
                Ok(h) => h.password() == password@,
                Err(e) => e@.0 == ErrorKind::CommandExecution && has_prefix(
                    e@.1,
                    "password hashing failed: "@,
                ),
            },
    {
        match hash_password_sha512(password) {
            Ok(hash) => Ok(HashedPassword { hash, of: Ghost(password@) }),
            Err(e) => Err(e),
        }
    }

    /// The hash, for which the password is accepted.
    pub fn text(&self) -> (r: &str)
        ensures
            r@ == self.hash(),
            is_hash_of(self.password(), self.hash()),
            has_prefix(r@, "$6$rounds=5000$"@),
            crypt_accepts(encode_utf8(self.password()), r@),
    {
        proof {
            use_type_invariant(self);
        }
        self.hash.as_str()
    }
}

} // verus!
