use vstd::prelude::*;
use crate::crypto::backend::{CryptoBackend, CryptoError};
use crate::paths::{ext_of, has_ext, extension_of, str_eq};

verus! {

/// Which of the two supported tools handles a file.
#[derive(Clone, Copy, PartialEq, Eq, Structural, Debug)]
pub enum BackendKind {
    Age,
    Rage,
}

/// How the backend for a file is chosen: from the file's extension (the
/// default), or fixed once for the whole session. The choice is explicit
/// configuration threaded through the call chain, never ambient state.
#[derive(Clone, Copy, PartialEq, Eq, Structural, Debug)]
pub enum BackendPolicy {
    ByExtension,
    Fixed(BackendKind),
}

/// The backend a path's extension selects: `age` for `.age` files, `rage`
/// otherwise.
pub open spec fn kind_for_path(path: Seq<char>) -> BackendKind {
    if has_ext(path) && ext_of(path) == "age"@ {
        BackendKind::Age
    } else {
        BackendKind::Rage
    }
}

/// The backend a policy selects for a path.
pub open spec fn policy_kind(p: BackendPolicy, path: Seq<char>) -> BackendKind {
    match p {
        BackendPolicy::ByExtension => kind_for_path(path),
        BackendPolicy::Fixed(k) => k,
    }
}

/// Pick the backend that will encrypt to `output_file`, from its extension.
pub fn default_encrypt_backend(output_file: &str) -> (r: BackendKind)
    ensures
        r == kind_for_path(output_file@),
{
    backend_for_path(output_file)
}

/// Pick the backend that will decrypt `input_file`, from its extension.
pub fn default_decrypt_backend(input_file: &str) -> (r: BackendKind)
    ensures
        r == kind_for_path(input_file@),
{
    backend_for_path(input_file)
}

fn backend_for_path(path: &str) -> (r: BackendKind)
    ensures
        r == kind_for_path(path@),
{
    match extension_of(path) {
        Some(e) => {
            if str_eq(e.as_str(), "age") {
                BackendKind::Age
            } else {
                BackendKind::Rage
            }
        },
        None => BackendKind::Rage,
    }
}

/// The registry of backends: one capability per tool, and the policy that
/// picks between them for each operation.
pub struct Registry<A: CryptoBackend, R: CryptoBackend> {
    pub age: A,
    pub rage: R,
    pub encrypt_policy: BackendPolicy,
    pub decrypt_policy: BackendPolicy,
}

impl<A: CryptoBackend, R: CryptoBackend> Registry<A, R> {
    /// A registry with both capabilities, choosing by extension.
    pub fn new(age: A, rage: R) -> (r: Registry<A, R>)
        ensures
            r.age == age,
            r.rage == rage,
            r.encrypt_policy == BackendPolicy::ByExtension,
            r.decrypt_policy == BackendPolicy::ByExtension,
    {
        Registry { age, rage, encrypt_policy: BackendPolicy::ByExtension, decrypt_policy: BackendPolicy::ByExtension }
    }

    /// Whether the backend chosen to encrypt to `path` accepts this input.
    pub open spec fn accepts_for(&self, path: Seq<char>, recipient: Seq<char>, plaintext: Seq<u8>) -> bool {
        match policy_kind(self.encrypt_policy, path) {
            BackendKind::Age => self.age.accepts(recipient, plaintext),
            BackendKind::Rage => self.rage.accepts(recipient, plaintext),
        }
    }

    /// The ciphertext the backend chosen for `path` produces.
    pub open spec fn enc_for(&self, path: Seq<char>, recipient: Seq<char>, plaintext: Seq<u8>) -> Seq<u8> {
        match policy_kind(self.encrypt_policy, path) {
            BackendKind::Age => self.age.enc(recipient, plaintext),
            BackendKind::Rage => self.rage.enc(recipient, plaintext),
        }
    }

    /// The round-trip hypothesis for decrypting `cipher` read from `path`
    /// with `identity`: the bytes are an accepted encryption of `plaintext`
    /// to `rec` under the backend the decrypt policy picks, with a matching
    /// key.
    pub open spec fn dec_hypothesis(
        &self,
        path: Seq<char>,
        identity: Seq<char>,
        rec: Seq<char>,
        plaintext: Seq<u8>,
        cipher: Seq<u8>,
    ) -> bool {
        match policy_kind(self.decrypt_policy, path) {
            BackendKind::Age => self.age.key_matches(identity, rec) && self.age.accepts(rec, plaintext)
                && cipher == self.age.enc(rec, plaintext),
            BackendKind::Rage => self.rage.key_matches(identity, rec) && self.rage.accepts(rec, plaintext)
                && cipher == self.rage.enc(rec, plaintext),
        }
    }

    /// Both policies pick the same backend for `path`: then what `enc_for`
    /// stored satisfies `dec_hypothesis`, which is how an entry written by
    /// create is read back by show and edit.
    pub open spec fn policies_agree(&self, path: Seq<char>) -> bool {
        policy_kind(self.encrypt_policy, path) == policy_kind(self.decrypt_policy, path)
    }

    /// Key hypothesis under the encrypt policy's choice for `path`.
    pub open spec fn key_matches_for(&self, path: Seq<char>, identity: Seq<char>, rec: Seq<char>) -> bool {
        match policy_kind(self.encrypt_policy, path) {
            BackendKind::Age => self.age.key_matches(identity, rec),
            BackendKind::Rage => self.rage.key_matches(identity, rec),
        }
    }
}

/// Encrypt `plaintext` to `recipient` with the backend the registry picks for
/// `output_file`.
pub fn encrypt<A: CryptoBackend, R: CryptoBackend>(
    reg: &Registry<A, R>,
    recipient: &str,
    output_file: &str,
    plaintext: &[u8],
) -> (r: Result<Vec<u8>, CryptoError>)
    ensures
        reg.accepts_for(output_file@, recipient@, plaintext@) ==> r is Ok,
        r matches Ok(c) ==> reg.accepts_for(output_file@, recipient@, plaintext@) && c@
            == reg.enc_for(output_file@, recipient@, plaintext@),
{
    let kind = match reg.encrypt_policy {
        BackendPolicy::ByExtension => default_encrypt_backend(output_file),
        BackendPolicy::Fixed(k) => k,
    };
    match kind {
        BackendKind::Age => reg.age.encrypt(recipient, plaintext),
        BackendKind::Rage => reg.rage.encrypt(recipient, plaintext),
    }
}

/// Decrypt `ciphertext`, read from `encrypted_file`, with the backend the
/// registry picks for that file and the identity at `identity_file`.
pub fn decrypt<A: CryptoBackend, R: CryptoBackend>(
    reg: &Registry<A, R>,
    identity_file: &str,
    encrypted_file: &str,
    ciphertext: &[u8],
) -> (r: Result<Vec<u8>, CryptoError>)
    ensures
        forall|rec: Seq<char>, p: Seq<u8>|
            reg.dec_hypothesis(encrypted_file@, identity_file@, rec, p, ciphertext@)
                ==> (r matches Ok(q) && q@ == p),
{
    let kind = match reg.decrypt_policy {
        BackendPolicy::ByExtension => default_decrypt_backend(encrypted_file),
        BackendPolicy::Fixed(k) => k,
    };
    match kind {
        BackendKind::Age => reg.age.decrypt(identity_file, ciphertext),
        BackendKind::Rage => reg.rage.decrypt(identity_file, ciphertext),
    }
}

/// Fix the backend choice for encryption (the explicit-configuration form of
/// injecting an encryption factory).
pub fn set_encrypt_factory<A: CryptoBackend, R: CryptoBackend>(
    reg: &mut Registry<A, R>,
    policy: BackendPolicy,
)
    ensures
        final(reg).encrypt_policy == policy,
        final(reg).decrypt_policy == old(reg).decrypt_policy,
        final(reg).age == old(reg).age,
        final(reg).rage == old(reg).rage,
{
    reg.encrypt_policy = policy;
}

/// Fix the backend choice for decryption (the explicit-configuration form of
/// injecting a decryption factory).
pub fn set_decrypt_factory<A: CryptoBackend, R: CryptoBackend>(
    reg: &mut Registry<A, R>,
    policy: BackendPolicy,
)
    ensures
        final(reg).decrypt_policy == policy,
        final(reg).encrypt_policy == old(reg).encrypt_policy,
        final(reg).age == old(reg).age,
        final(reg).rage == old(reg).rage,
{
    reg.decrypt_policy = policy;
}

/// Decide which backend the environment offers; the facade over the probe's
/// decision logic.
pub fn detect_backend(has_rage: bool, has_age: bool, answers: &Vec<String>) -> (r: Result<
    String,
    crate::crypto::detect::DetectError,
>)
    ensures
        crate::crypto::detect::detect_post(has_rage, has_age, answers.deep_view(), r),
{
    crate::crypto::detect::detect_crypto_backend(has_rage, has_age, answers)
}

} // verus!
