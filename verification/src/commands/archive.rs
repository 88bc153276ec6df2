use vstd::prelude::*;
use crate::config::Config;
use crate::errors::VaultError;
use crate::paths::{
    basename_is_hidden, extension_of, has_ext, hidden_sibling, hidden_sibling_spec, is_hidden,
    strip_ext, strip_extension, trim_dots, trim_leading_dots,
};
use crate::vault::{
    lookup, moved_key, rename_tree_spec, tree_free, EntrySpec, NodeSpec, Vault,
    lemma_under_decompose,
};

verus! {

/// The path archive actually acts on: when archiving a file whose name
/// carries no extension, the crypto extension (without its leading dots) is
/// appended; a folder path is taken as given.
pub open spec fn archive_target_spec(cfg: &Config, path: Seq<char>, folder: bool) -> Seq<char> {
    if !folder && !has_ext(path) {
        path + seq!['.'] + trim_leading_dots(cfg.crypto_extension@)
    } else {
        path
    }
}

/// Hide an entry (or a directory of entries) by renaming it to a dot-prefixed
/// sibling name; returns the entry name to echo, without its extension.
#[verifier::loop_isolation(false)]
pub fn run(vault: &mut Vault, cfg: &Config, path: &str, folder: bool) -> (r: Result<
    String,
    VaultError,
>)
    requires
        old(vault).wf(),
    ensures
        final(vault).wf(),
        r is Err ==> final(vault)@ == old(vault)@,
        // The target must exist ...
        lookup(old(vault)@, archive_target_spec(cfg, path@, folder)) is None ==> (r matches Err(e)
            && e matches VaultError::NotFound { path: q } && q@ == cfg.prefix@ + "/"@
            + archive_target_spec(cfg, path@, folder)),
        // ... and be of the mode asked for.
        folder && (lookup(old(vault)@, archive_target_spec(cfg, path@, folder)) matches Some(
            NodeSpec::File(_),
        )) ==> (r matches Err(e) && e matches VaultError::TypeMismatch {
            path: q,
            directory_expected: d,
        } && d == true && q@ == cfg.prefix@ + "/"@ + archive_target_spec(cfg, path@, folder)),
        !folder && (lookup(old(vault)@, archive_target_spec(cfg, path@, folder)) matches Some(
            NodeSpec::Dir,
        )) ==> (r matches Err(e) && e matches VaultError::TypeMismatch {
            path: q,
            directory_expected: d,
        } && d == false && q@ == cfg.prefix@ + "/"@ + archive_target_spec(cfg, path@, folder)),
        // Archiving an already dot-prefixed name is detected, exactly then.
        ({
            let target = archive_target_spec(cfg, path@, folder);
            lookup(old(vault)@, target) matches Some(node) && (node is Dir) == folder
                && is_hidden(target) ==> (r matches Err(e) && e matches VaultError::AlreadyArchived {
                directory,
            } && directory == folder)
        }),
        (r matches Err(e) && e is AlreadyArchived) ==> is_hidden(
            archive_target_spec(cfg, path@, folder),
        ),
        // When the dotted name is free the rename happens, moving the target
        // and everything under it.
        ({
            let target = archive_target_spec(cfg, path@, folder);
            let hidden = hidden_sibling_spec(target);
            lookup(old(vault)@, target) matches Some(node) && (node is Dir) == folder
                && !is_hidden(target) && tree_free(old(vault)@, hidden) ==> (r matches Ok(d)
                && d@ == strip_ext(path@) && final(vault)@ == rename_tree_spec(
                old(vault)@,
                target,
                hidden,
            ))
        }),
        ({
            let target = archive_target_spec(cfg, path@, folder);
            let hidden = hidden_sibling_spec(target);
            lookup(old(vault)@, target) matches Some(node) && (node is Dir) == folder
                && !is_hidden(target) && !tree_free(old(vault)@, hidden) ==> (r matches Err(e)
                && e is IoFailure)
        }),
{
    // Resolve the target, appending the crypto extension when a file is
    // archived by its bare name.
    let target = if !folder && extension_of(path).is_none() {
        let mut t = String::from_str(path);
        t.append(".");
        t.append(trim_dots(cfg.crypto_extension.as_str()).as_str());
        proof {
            reveal_strlit(".");
            assert(t@ =~= archive_target_spec(cfg, path@, folder));
        }
        t
    } else {
        String::from_str(path)
    };
    let mut full = cfg.prefix.clone();
    full.append("/");
    full.append(target.as_str());

    let node_is_dir = match vault.lookup_node(target.as_str()) {
        None => {
            return Err(VaultError::NotFound { path: full });
        },
        Some(n) => n.is_dir(),
    };
    if folder && !node_is_dir {
        return Err(VaultError::TypeMismatch { path: full, directory_expected: true });
    }
    if !folder && node_is_dir {
        return Err(VaultError::TypeMismatch { path: full, directory_expected: false });
    }
    if basename_is_hidden(target.as_str()) {
        return Err(VaultError::AlreadyArchived { directory: folder });
    }
    let hidden = hidden_sibling(target.as_str());
    if !vault.rename_tree(target.as_str(), hidden.as_str()) {
        return Err(VaultError::IoFailure { path: full });
    }
    Ok(strip_extension(path))
}

/// Law: archiving is reversible. Renaming a name (and its subtree) to its
/// dot-prefixed sibling and then renaming that back restores the vault
/// exactly, so the original entry is again what show and list see; the
/// dotted target only needs to have been free beforehand.
pub proof fn lemma_archive_roundtrip(v: Seq<EntrySpec>, a: Seq<char>, b: Seq<char>)
    requires
        tree_free(v, b),
    ensures
        rename_tree_spec(rename_tree_spec(v, a, b), b, a) == v,
{
    let w = rename_tree_spec(rename_tree_spec(v, a, b), b, a);
    assert forall|k: int| 0 <= k < v.len() implies w[k] == v[k] by {
        let key = v[k].0;
        let al = a.len() as int;
        let bl = b.len() as int;
        if key == a || crate::paths::is_prefix(a + seq!['/'], key) {
            lemma_under_decompose(a, key);
            let m = b + key.skip(al);
            if key == a {
                assert(key.skip(al) =~= Seq::<char>::empty());
                assert(m =~= b);
                assert(moved_key(b, a, m) == a + m.skip(bl));
                assert(a + m.skip(bl) =~= key);
            } else {
                assert(m.subrange(0, bl + 1) =~= b + seq!['/']) by {
                    assert forall|i: int| 0 <= i <= bl implies m.subrange(0, bl + 1)[i] == (b
                        + seq!['/'])[i] by {
                        if i < bl {
                            assert(m[i] == b[i]);
                        } else {
                            assert(m[bl] == key.skip(al)[0]);
                            assert(key.skip(al)[0] == key[al]);
                        }
                    }
                }
                assert(crate::paths::is_prefix(b + seq!['/'], m));
                assert(moved_key(b, a, m) == a + m.skip(bl));
                assert(a + m.skip(bl) =~= a + key.skip(al));
                assert(a + key.skip(al) == key);
            }
        } else {
            assert(moved_key(a, b, key) == key);
            assert(v[k].0 != b && !crate::paths::is_prefix(b + seq!['/'], v[k].0));
            assert(moved_key(b, a, key) == key);
        }
    }
    assert(w =~= v);
}

} // verus!
