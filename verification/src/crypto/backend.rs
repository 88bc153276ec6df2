use vstd::prelude::*;

verus! {

/// Why an encryption or decryption attempt failed.
#[derive(Debug, PartialEq, Eq)]
pub enum CryptoError {
    /// The tool could not be launched at all.
    LaunchFailure,
    /// The tool ran and reported failure; carries its diagnostic output.
    Failure(String),
}

/// An encryption capability: what the spec calls a crypto backend.
///
/// Every verified operation that encrypts or decrypts is parameterized by an
/// implementation of this trait, so the vault logic is proved for any backend
/// that honours the contract. `PlainBackend` is the in-library implementation
/// that tests run against; the real tools are driven at the binary's
/// unverified edge and are trusted to invert each other the same way.
pub trait CryptoBackend {
    /// Whether `identity` can decrypt what was encrypted to `recipient`.
    spec fn key_matches(&self, identity: Seq<char>, recipient: Seq<char>) -> bool;

    /// The plaintexts this backend can encrypt for `recipient`.
    spec fn accepts(&self, recipient: Seq<char>, plaintext: Seq<u8>) -> bool;

    /// The ciphertext produced for `recipient` and `plaintext`.
    spec fn enc(&self, recipient: Seq<char>, plaintext: Seq<u8>) -> Seq<u8>;

    /// Encrypt `plaintext` to `recipient`.
    fn encrypt(&self, recipient: &str, plaintext: &[u8]) -> (r: Result<Vec<u8>, CryptoError>)
        ensures
            self.accepts(recipient@, plaintext@) ==> r is Ok,
            r matches Ok(c) ==> self.accepts(recipient@, plaintext@) && c@ == self.enc(
                recipient@,
                plaintext@,
            ),
    ;

    /// Decrypt `ciphertext` with `identity`: whenever the bytes are the
    /// encryption of some plaintext under a matching key, exactly that
    /// plaintext comes back.
    fn decrypt(&self, identity: &str, ciphertext: &[u8]) -> (r: Result<Vec<u8>, CryptoError>)
        ensures
            forall|rec: Seq<char>, p: Seq<u8>|
                self.key_matches(identity@, rec) && self.accepts(rec, p) && ciphertext@
                    == self.enc(rec, p) ==> (r matches Ok(q) && q@ == p),
    ;
}

} // verus!
