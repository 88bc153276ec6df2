use vstd::prelude::*;
use crate::config::Config;
use crate::crypto::backend::CryptoBackend;
use crate::crypto::crypto::{decrypt, Registry};
use crate::errors::{crypto_err_to_vault, VaultError};
use crate::paths::{lines_spec, nth_line};
use crate::vault::{lookup, EntrySpec, Node, NodeSpec, Vault};

verus! {

/// The bytes stored under `key`, when a file is stored there.
pub open spec fn stored_file(v: Seq<EntrySpec>, key: Seq<char>) -> Option<Seq<u8>> {
    match lookup(v, key) {
        Some(NodeSpec::File(d)) => Some(d),
        _ => None,
    }
}

/// The round-trip hypothesis of a show or edit: a file is stored under `rel`
/// and its bytes are an accepted encryption of `p` to `rec` under the backend
/// the registry picks for `full`, with a key matching `secret`.
pub open spec fn shows_plain<A: CryptoBackend, R: CryptoBackend>(
    reg: &Registry<A, R>,
    v: Seq<EntrySpec>,
    rel: Seq<char>,
    full: Seq<char>,
    secret: Seq<char>,
    rec: Seq<char>,
    p: Seq<u8>,
) -> bool {
    stored_file(v, rel) matches Some(c) && reg.dec_hypothesis(full, secret, rec, p, c)
}

/// What show outputs for plaintext `p` and line request `line`: the whole
/// plaintext when no line (or line 0) is asked for, the requested line when
/// it exists, nothing when the plaintext has too few lines.
pub open spec fn show_sel(p: Seq<u8>, line: Option<usize>) -> Option<Seq<u8>> {
    match line {
        None => Some(p),
        Some(n) => if n == 0 {
            Some(p)
        } else if n - 1 < lines_spec(p).len() {
            Some(lines_spec(p)[n - 1])
        } else {
            None
        },
    }
}

/// Show an entry: decrypt it with the identity file and return the whole
/// plaintext, or just the requested line.
pub fn run<A: CryptoBackend, R: CryptoBackend>(
    vault: &Vault,
    cfg: &Config,
    reg: &Registry<A, R>,
    name: &str,
    line: Option<usize>,
) -> (r: Result<Vec<u8>, VaultError>)
    ensures
        // The entry's file must exist.
        lookup(vault@, cfg.entry_rel_spec(name@)) is None ==> (r matches Err(e)
            && e matches VaultError::NotFound { path } && path@ == cfg.entry_path_spec(name@)),
        (r matches Err(e) && e is NotFound) ==> lookup(vault@, cfg.entry_rel_spec(name@)) is None,
        // A directory cannot be decrypted.
        lookup(vault@, cfg.entry_rel_spec(name@)) matches Some(NodeSpec::Dir) ==> (r matches Err(e)
            && e is CryptoFailure),
        // Round trip: whatever plaintext the stored bytes encrypt comes back,
        // whole or line by line; a line past the end names the entry and the
        // line in its error.
        forall|rec: Seq<char>, p: Seq<u8>|
            #[trigger] shows_plain(
                reg,
                vault@,
                cfg.entry_rel_spec(name@),
                cfg.entry_path_spec(name@),
                cfg.secret@,
                rec,
                p,
            ) ==> match show_sel(p, line) {
                Some(out_spec) => r matches Ok(out) && out@ == out_spec,
                None => r matches Err(e) && e matches VaultError::LineOutOfRange {
                    path,
                    line: m,
                } && path@ == name@ && line == Some(m),
            },
{
    let rel = cfg.entry_rel(name);
    let full = cfg.entry_path(name);
    match vault.lookup_node(rel.as_str()) {
        None => Err(VaultError::NotFound { path: full }),
        Some(Node::Dir) => Err(
            VaultError::CryptoFailure { detail: String::from_str("entry is a directory") },
        ),
        Some(Node::File(data)) => {
            let plain = match decrypt(reg, cfg.secret.as_str(), full.as_str(), data.as_slice()) {
                Ok(p) => p,
                Err(e) => {
                    return Err(crypto_err_to_vault(e));
                },
            };
            match line {
                None => Ok(plain),
                Some(n) => {
                    if n == 0 {
                        Ok(plain)
                    } else {
                        match nth_line(plain.as_slice(), n - 1) {
                            Some(l) => Ok(l),
                            None => Err(
                                VaultError::LineOutOfRange {
                                    path: String::from_str(name),
                                    line: n,
                                },
                            ),
                        }
                    }
                },
            }
        },
    }
}

} // verus!
