use vstd::prelude::*;
use crate::config::Config;
use crate::errors::VaultError;
use crate::vault::{idx_of, lookup, NodeSpec, Vault};

verus! {

/// Delete a stored entry, or fail when it is missing (or is a directory,
/// which a file delete cannot remove).
pub fn run(vault: &mut Vault, cfg: &Config, name: &str) -> (r: Result<(), VaultError>)
    requires
        old(vault).wf(),
    ensures
        final(vault).wf(),
        r is Err ==> final(vault)@ == old(vault)@,
        lookup(old(vault)@, cfg.entry_rel_spec(name@)) is None ==> (r matches Err(e)
            && e matches VaultError::NotFound { path } && path@ == cfg.entry_path_spec(name@)),
        (r matches Err(e) && e is NotFound) ==> lookup(old(vault)@, cfg.entry_rel_spec(name@)) is None,
        lookup(old(vault)@, cfg.entry_rel_spec(name@)) matches Some(NodeSpec::Dir) ==> (
        r matches Err(e) && e is IoFailure),
        lookup(old(vault)@, cfg.entry_rel_spec(name@)) matches Some(NodeSpec::File(_)) ==> (r is Ok
            && final(vault)@ == old(vault)@.remove(
            idx_of(old(vault)@, cfg.entry_rel_spec(name@)),
        )),
{
    let rel = cfg.entry_rel(name);
    let full = cfg.entry_path(name);
    match vault.position(rel.as_str()) {
        None => Err(VaultError::NotFound { path: full }),
        Some(i) => {
            let is_dir = vault.is_dir_at(i);
            if is_dir {
                Err(VaultError::IoFailure { path: full })
            } else {
                vault.remove_at(i);
                Ok(())
            }
        },
    }
}

} // verus!
