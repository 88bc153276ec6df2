use vstd::prelude::*;
use vstd::slice::slice_to_vec;
use crate::crypto::backend::{CryptoBackend, CryptoError};

verus! {

/// The identity backend: its "ciphertext" is the plaintext itself, every key
/// matches, and every input is accepted. It protects nothing; it exists so
/// the pipeline can be exercised end to end (and tested) without any
/// external tool.
pub struct PlainBackend;

impl CryptoBackend for PlainBackend {
    open spec fn key_matches(&self, identity: Seq<char>, recipient: Seq<char>) -> bool {
        true
    }

    open spec fn accepts(&self, recipient: Seq<char>, plaintext: Seq<u8>) -> bool {
        true
    }

    open spec fn enc(&self, recipient: Seq<char>, plaintext: Seq<u8>) -> Seq<u8> {
        plaintext
    }

    fn encrypt(&self, recipient: &str, plaintext: &[u8]) -> (r: Result<Vec<u8>, CryptoError>) {
        Ok(slice_to_vec(plaintext))
    }

    fn decrypt(&self, identity: &str, ciphertext: &[u8]) -> (r: Result<Vec<u8>, CryptoError>) {
        Ok(slice_to_vec(ciphertext))
    }
}

} // verus!
