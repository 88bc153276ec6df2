use vstd::prelude::*;
use crate::commands::create::{editor_check, validate_editor_output, EditOutcome};
use crate::commands::show::shows_plain;
use crate::config::Config;
use crate::crypto::backend::CryptoBackend;
use crate::crypto::crypto::{decrypt, encrypt, Registry};
use crate::errors::{crypto_err_to_vault, VaultError};
use crate::vault::{idx_of, lookup, Node, NodeSpec, Vault};

verus! {

/// What one round with the editor collaborator did: whether the plaintext
/// could be written to the scoped temporary file beforehand, and what the
/// editor then produced. The explicit-configuration form of the injectable
/// temporary-file and editor collaborators.
pub struct EditSession {
    pub write_ok: bool,
    pub edited: EditOutcome,
}

impl EditSession {
    /// A session whose temporary-file write succeeds and whose editor
    /// produced nothing.
    pub fn new() -> (s: EditSession)
        ensures
            s.write_ok == true,
            s.edited@ is Content,
    {
        EditSession { write_ok: true, edited: EditOutcome::Content(Vec::new()) }
    }
}

/// Script whether the write of the decrypted plaintext into the temporary
/// file succeeds.
pub fn set_write_hook(s: &mut EditSession, ok: bool)
    ensures
        final(s).write_ok == ok,
        final(s).edited == old(s).edited,
{
    s.write_ok = ok;
}

/// Edit an existing entry: decrypt it, hand the plaintext to the editor
/// collaborator (through a temporary file whose write can fail), and
/// re-encrypt the result over the same path. An editor that produces nothing
/// leaves the stored entry unchanged.
pub fn run<A: CryptoBackend, R: CryptoBackend>(
    vault: &mut Vault,
    cfg: &Config,
    reg: &Registry<A, R>,
    public: &str,
    name: &str,
    session: &EditSession,
) -> (r: Result<(), VaultError>)
    requires
        old(vault).wf(),
    ensures
        final(vault).wf(),
        // No error path touches the stored entry: in particular an editor
        // that produces empty output leaves the encrypted file unchanged.
        r is Err ==> final(vault)@ == old(vault)@,
        // The entry must exist.
        lookup(old(vault)@, cfg.entry_rel_spec(name@)) is None ==> (r matches Err(e)
            && e matches VaultError::NotFound { path } && path@ == cfg.entry_path_spec(name@)),
        (r matches Err(e) && e is NotFound) ==> lookup(old(vault)@, cfg.entry_rel_spec(name@)) is None,
        // A directory cannot be decrypted.
        lookup(old(vault)@, cfg.entry_rel_spec(name@)) matches Some(NodeSpec::Dir) ==> (
        r matches Err(e) && e is CryptoFailure),
        // For a decryptable entry: the temporary-file write and the editor
        // each abort the edit, and a valid editor result is re-encrypted over
        // the same path.
        forall|rec: Seq<char>, p: Seq<u8>|
            #[trigger] shows_plain(
                reg,
                old(vault)@,
                cfg.entry_rel_spec(name@),
                cfg.entry_path_spec(name@),
                cfg.secret@,
                rec,
                p,
            ) ==> {
                &&& !session.write_ok ==> (r matches Err(e) && e is IoFailure)
                &&& session.write_ok ==> match editor_check(session.edited@) {
                    Err(f) => r matches Err(e) && e matches VaultError::EditorFailure { fault }
                        && fault == f,
                    Ok(t) => {
                        &&& reg.accepts_for(cfg.entry_path_spec(name@), public@, t) ==> r is Ok
                        &&& r is Ok ==> final(vault)@ == old(vault)@.update(
                            idx_of(old(vault)@, cfg.entry_rel_spec(name@)),
                            (
                                cfg.entry_rel_spec(name@),
                                NodeSpec::File(
                                    reg.enc_for(cfg.entry_path_spec(name@), public@, t),
                                ),
                            ),
                        )
                    },
                }
            },
{
    let rel = cfg.entry_rel(name);
    let full = cfg.entry_path(name);
    let i = match vault.position(rel.as_str()) {
        None => {
            return Err(VaultError::NotFound { path: full });
        },
        Some(i) => i,
    };
    let plain = match vault.node_at(i) {
        Node::Dir => {
            return Err(
                VaultError::CryptoFailure { detail: String::from_str("entry is a directory") },
            );
        },
        Node::File(data) => {
            match decrypt(reg, cfg.secret.as_str(), full.as_str(), data.as_slice()) {
                Ok(p) => p,
                Err(e) => {
                    return Err(crypto_err_to_vault(e));
                },
            }
        },
    };
    // `plain` is what the temporary file for the editor is filled with; a
    // failing write aborts before the editor result is looked at.
    let _ = plain;
    if !session.write_ok {
        return Err(VaultError::IoFailure { path: String::from_str("temporary file") });
    }
    let content = match validate_editor_output(&session.edited) {
        Ok(c) => c,
        Err(e) => {
            return Err(e);
        },
    };
    let cipher = match encrypt(reg, public, full.as_str(), content.as_slice()) {
        Ok(c) => c,
        Err(e) => {
            return Err(crypto_err_to_vault(e));
        },
    };
    vault.set_node_at(i, Node::File(cipher));
    Ok(())
}

} // verus!
