use vstd::prelude::*;
use crate::config::Config;
use crate::crypto::backend::CryptoBackend;
use crate::crypto::crypto::{encrypt, Registry};
use crate::errors::{crypto_err_to_vault, EditorFault, VaultError};
use crate::paths::{slash_prefixes, slash_prefixes_of, trim_end_bytes, trim_end_bytes_spec};
use crate::vault::{lookup, EntrySpec, Node, NodeSpec, Vault};
use crate::vault::{lemma_lookup_props, lemma_lookup_push};

verus! {

/// What the editor collaborator handed back: it could not be launched, it
/// exited non-zero, or it produced these bytes.
#[derive(Clone, Debug, PartialEq, Eq)]
pub enum EditOutcome {
    LaunchFailed,
    ExitError,
    Content(Vec<u8>),
}

/// Spec-level editor outcome.
pub enum EditOutcomeSpec {
    LaunchFailed,
    ExitError,
    Content(Seq<u8>),
}

impl View for EditOutcome {
    type V = EditOutcomeSpec;

    open spec fn view(&self) -> EditOutcomeSpec {
        match self {
            EditOutcome::LaunchFailed => EditOutcomeSpec::LaunchFailed,
            EditOutcome::ExitError => EditOutcomeSpec::ExitError,
            EditOutcome::Content(c) => EditOutcomeSpec::Content(c@),
        }
    }
}

/// The plaintext an editor run yields: its output with trailing whitespace
/// trimmed, refused when the editor failed or the trimmed output is empty.
pub open spec fn editor_check(o: EditOutcomeSpec) -> Result<Seq<u8>, EditorFault> {
    match o {
        EditOutcomeSpec::LaunchFailed => Err(EditorFault::LaunchFailed),
        EditOutcomeSpec::ExitError => Err(EditorFault::ExitError),
        EditOutcomeSpec::Content(c) => {
            let t = trim_end_bytes_spec(c);
            if t.len() == 0 {
                Err(EditorFault::Empty)
            } else {
                Ok(t)
            }
        },
    }
}

/// Validate an editor run: trim its output, abort when it failed or wrote
/// nothing.
pub fn validate_editor_output(o: &EditOutcome) -> (r: Result<Vec<u8>, VaultError>)
    ensures
        editor_check(o@) matches Ok(t) ==> (r matches Ok(c) && c@ == t),
        editor_check(o@) matches Err(f) ==> (r matches Err(e) && e matches VaultError::EditorFailure { fault } && fault == f),
{
    match o {
        EditOutcome::LaunchFailed => Err(VaultError::EditorFailure { fault: EditorFault::LaunchFailed }),
        EditOutcome::ExitError => Err(VaultError::EditorFailure { fault: EditorFault::ExitError }),
        EditOutcome::Content(c) => {
            let t = trim_end_bytes(c.as_slice());
            if t.len() == 0 {
                Err(VaultError::EditorFailure { fault: EditorFault::Empty })
            } else {
                Ok(t)
            }
        },
    }
}

/// Script what the editor collaborator hands back for the next create or
/// edit.
pub fn set_edit_hook(s: &mut crate::commands::edit::EditSession, outcome: EditOutcome)
    ensures
        final(s).edited == outcome,
        final(s).write_ok == old(s).write_ok,
{
    s.edited = outcome;
}

/// `v` with a directory added under each path of `ps` that is not yet bound,
/// in order: what creating a file's missing parent directories does.
pub open spec fn add_dirs(v: Seq<EntrySpec>, ps: Seq<Seq<char>>) -> Seq<EntrySpec>
    decreases ps.len(),
{
    if ps.len() == 0 {
        v
    } else {
        let v1 = if lookup(v, ps[0]) is Some {
            v
        } else {
            v.push((ps[0], NodeSpec::Dir))
        };
        add_dirs(v1, ps.drop_first())
    }
}

/// The first path of `ps` that is bound to a file in `v` (`ps.len()` if
/// none): a file standing where a directory must be created.
pub open spec fn first_blocked(v: Seq<EntrySpec>, ps: Seq<Seq<char>>) -> int
    decreases ps.len(),
{
    if ps.len() == 0 {
        0
    } else if lookup(v, ps[0]) matches Some(NodeSpec::File(_)) {
        0
    } else {
        1 + first_blocked(v, ps.drop_first())
    }
}

/// Whether some parent directory of the new entry is blocked by a file.
pub open spec fn parent_blocked(v: Seq<EntrySpec>, ps: Seq<Seq<char>>) -> bool {
    first_blocked(v, ps) < ps.len()
}

proof fn lemma_first_blocked_at(v: Seq<EntrySpec>, ps: Seq<Seq<char>>, i: int)
    requires
        0 <= i < ps.len(),
        lookup(v, ps[i]) matches Some(NodeSpec::File(_)),
        forall|k: int| 0 <= k < i ==> !(#[trigger] lookup(v, ps[k]) matches Some(NodeSpec::File(_))),
    ensures
        first_blocked(v, ps) == i,
    decreases ps.len(),
{
    if i > 0 {
        assert forall|k: int| 0 <= k < i - 1 implies !(#[trigger] lookup(v, ps.drop_first()[k]) matches Some(
            NodeSpec::File(_),
        )) by {
            assert(ps.drop_first()[k] == ps[k + 1]);
        }
        assert(ps.drop_first()[i - 1] == ps[i]);
        lemma_first_blocked_at(v, ps.drop_first(), i - 1);
    }
}

proof fn lemma_first_blocked_none(v: Seq<EntrySpec>, ps: Seq<Seq<char>>)
    requires
        forall|k: int| 0 <= k < ps.len() ==> !(#[trigger] lookup(v, ps[k]) matches Some(NodeSpec::File(_))),
    ensures
        first_blocked(v, ps) == ps.len(),
    decreases ps.len(),
{
    if ps.len() > 0 {
        assert forall|k: int| 0 <= k < ps.drop_first().len() implies !(#[trigger] lookup(
            v,
            ps.drop_first()[k],
        ) matches Some(NodeSpec::File(_))) by {
            assert(ps.drop_first()[k] == ps[k + 1]);
        }
        lemma_first_blocked_none(v, ps.drop_first());
    }
}

/// Adding directories under paths other than `key` never changes `key`'s
/// binding, and keeps the keys unique.
pub proof fn lemma_add_dirs_lookup(v: Seq<EntrySpec>, ps: Seq<Seq<char>>, key: Seq<char>)
    requires
        crate::vault::unique_keys(v),
        forall|k: int| 0 <= k < ps.len() ==> ps[k] != key,
    ensures
        crate::vault::unique_keys(add_dirs(v, ps)),
        lookup(add_dirs(v, ps), key) == lookup(v, key),
    decreases ps.len(),
{
    if ps.len() > 0 {
        let v1 = if lookup(v, ps[0]) is Some {
            v
        } else {
            v.push((ps[0], NodeSpec::Dir))
        };
        if lookup(v, ps[0]) is None {
            lemma_lookup_props(v, ps[0]);
            assert forall|a: int, b: int| 0 <= a < b < v1.len() implies v1[a].0 != v1[b].0 by {
                if b < v1.len() - 1 {
                    assert(v[a].0 != v[b].0);
                } else {
                    assert(v[a].0 != ps[0]);
                }
            }
            lemma_lookup_push(v, (ps[0], NodeSpec::Dir), key);
        }
        assert forall|k: int| 0 <= k < ps.drop_first().len() implies ps.drop_first()[k] != key by {
            assert(ps.drop_first()[k] == ps[k + 1]);
        }
        lemma_add_dirs_lookup(v1, ps.drop_first(), key);
    }
}

/// Every parent prefix is strictly shorter than the path itself.
proof fn lemma_slash_prefixes_shorter(s: Seq<char>)
    ensures
        forall|i: int| 0 <= i < slash_prefixes(s).len() ==> #[trigger] slash_prefixes(s)[i].len()
            < s.len(),
    decreases s.len(),
{
    if s.len() > 0 {
        lemma_slash_prefixes_shorter(s.drop_last());
        let inner = slash_prefixes(s.drop_last());
        assert forall|i: int| 0 <= i < slash_prefixes(s).len() implies #[trigger] slash_prefixes(
            s,
        )[i].len() < s.len() by {
            if i < inner.len() {
                assert(slash_prefixes(s)[i] == inner[i]);
            } else {
                assert(slash_prefixes(s)[i] == s.drop_last());
            }
        }
    }
}

/// The vault after a successful create: missing parents added, then the
/// encrypted entry appended.
pub open spec fn create_post(
    v: Seq<EntrySpec>,
    ps: Seq<Seq<char>>,
    rel: Seq<char>,
    data: Seq<u8>,
) -> Seq<EntrySpec> {
    add_dirs(v, ps).push((rel, NodeSpec::File(data)))
}

/// Create a new entry: refuse an existing target, create missing parent
/// directories, take the plaintext from the editor collaborator, encrypt it
/// to `public` with the registry's backend and store the ciphertext.
#[verifier::loop_isolation(false)]
pub fn run<A: CryptoBackend, R: CryptoBackend>(
    vault: &mut Vault,
    cfg: &Config,
    reg: &Registry<A, R>,
    public: &str,
    name: &str,
    edited: &EditOutcome,
) -> (r: Result<(), VaultError>)
    requires
        old(vault).wf(),
    ensures
        final(vault).wf(),
        r is Err ==> final(vault)@ == old(vault)@,
        // A create collides exactly when the entry's file already exists.
        lookup(old(vault)@, cfg.entry_rel_spec(name@)) is Some ==> (r matches Err(e)
            && e matches VaultError::AlreadyExists { path } && path@ == cfg.entry_path_spec(name@)),
        (r matches Err(e) && e is AlreadyExists) ==> lookup(
            old(vault)@,
            cfg.entry_rel_spec(name@),
        ) is Some,
        // A file standing where a parent directory must go aborts the create.
        ({
            let rel = cfg.entry_rel_spec(name@);
            let ps = slash_prefixes(rel);
            lookup(old(vault)@, rel) is None && parent_blocked(old(vault)@, ps) ==> (
            r matches Err(e) && e matches VaultError::IoFailure { path } && path@ == cfg.prefix@
                + "/"@ + ps[first_blocked(old(vault)@, ps)])
        }),
        // Editor failures abort the create.
        ({
            let rel = cfg.entry_rel_spec(name@);
            let ps = slash_prefixes(rel);
            lookup(old(vault)@, rel) is None && !parent_blocked(old(vault)@, ps) ==> (
            editor_check(edited@) matches Err(f) ==> (r matches Err(e)
                && e matches VaultError::EditorFailure { fault } && fault == f))
        }),
        // When nothing stands in the way and the backend accepts the input,
        // the create succeeds.
        ({
            let rel = cfg.entry_rel_spec(name@);
            let ps = slash_prefixes(rel);
            &&& (lookup(old(vault)@, rel) is None && !parent_blocked(old(vault)@, ps)
                && (editor_check(edited@) matches Ok(t) && reg.accepts_for(
                cfg.entry_path_spec(name@),
                public@,
                t,
            )) ==> r is Ok)
            &&& (r is Ok ==> (editor_check(edited@) matches Ok(t) && final(vault)@ == create_post(
                old(vault)@,
                ps,
                rel,
                reg.enc_for(cfg.entry_path_spec(name@), public@, t),
            )))
        }),
{
    let rel = cfg.entry_rel(name);
    let full = cfg.entry_path(name);
    if vault.position(rel.as_str()).is_some() {
        return Err(VaultError::AlreadyExists { path: full });
    }
    proof {
        lemma_lookup_props(vault@, rel@);
    }
    let parents = slash_prefixes_of(rel.as_str());
    let ghost ps = parents.deep_view();

    // Check that no parent directory is blocked by a file.
    let np: usize = parents.len();
    let mut i: usize = 0;
    while i < np
        invariant
            0 <= i <= np,
            np == ps.len(),
            ps == parents.deep_view(),
            vault@ == old(vault)@,
            forall|k: int| 0 <= k < i ==> !(#[trigger] lookup(vault@, ps[k]) matches Some(NodeSpec::File(_))),
        decreases np - i,
    {
        proof {
            assert(ps[i as int] == parents@[i as int]@);
        }
        match vault.lookup_node(parents[i].as_str()) {
            Some(Node::File(_)) => {
                proof {
                    lemma_first_blocked_at(vault@, ps, i as int);
                }
                let mut p = cfg.prefix.clone();
                p.append("/");
                p.append(parents[i].as_str());
                return Err(VaultError::IoFailure { path: p });
            },
            _ => {},
        }
        i = i + 1;
    }
    proof {
        lemma_first_blocked_none(vault@, ps);
    }

    // Obtain the plaintext from the editor run.
    let content = match validate_editor_output(edited) {
        Ok(c) => c,
        Err(e) => {
            return Err(e);
        },
    };

    // Encrypt it for the recipient.
    let cipher = match encrypt(reg, public, full.as_str(), content.as_slice()) {
        Ok(c) => c,
        Err(e) => {
            return Err(crypto_err_to_vault(e));
        },
    };

    // Add the missing parent directories.
    proof {
        lemma_slash_prefixes_shorter(rel@);
        assert(ps.skip(0) =~= ps);
    }
    let mut j: usize = 0;
    while j < np
        invariant
            0 <= j <= np,
            np == ps.len(),
            ps == parents.deep_view(),
            vault.wf(),
            lookup(vault@, rel@) is None,
            forall|k: int| 0 <= k < ps.len() ==> #[trigger] ps[k].len() < rel@.len(),
            add_dirs(old(vault)@, ps) == add_dirs(vault@, ps.skip(j as int)),
        decreases np - j,
    {
        proof {
            assert(ps[j as int] == parents@[j as int]@);
            assert(ps.skip(j as int)[0] == ps[j as int]);
            assert(ps.skip(j as int).drop_first() =~= ps.skip(j + 1));
        }
        let ghost pre = vault@;
        match vault.position(parents[j].as_str()) {
            Some(_) => {},
            None => {
                vault.insert_node(parents[j].as_str(), Node::Dir);
                proof {
                    lemma_lookup_push(pre, (ps[j as int], NodeSpec::Dir), rel@);
                }
            },
        }
        j = j + 1;
    }
    proof {
        assert(ps.skip(np as int) =~= Seq::<Seq<char>>::empty());
    }

    // Store the encrypted entry.
    let ghost cipher_view = cipher@;
    vault.insert_node(rel.as_str(), Node::File(cipher));
    Ok(())
}

/// Law: create followed by show returns the plaintext unchanged. After a
/// successful create of `name` with plaintext `p` encrypted to `rec`, the
/// vault stores exactly the ciphertext the registry produced, and that
/// ciphertext satisfies the round-trip hypothesis under which show's (and
/// edit's) contract returns `p`.
pub proof fn lemma_create_then_show<A: CryptoBackend, R: CryptoBackend>(
    reg: &Registry<A, R>,
    v: Seq<EntrySpec>,
    cfg: &Config,
    name: Seq<char>,
    rec: Seq<char>,
    p: Seq<u8>,
)
    requires
        crate::vault::unique_keys(v),
        lookup(v, cfg.entry_rel_spec(name)) is None,
        reg.policies_agree(cfg.entry_path_spec(name)),
        reg.key_matches_for(cfg.entry_path_spec(name), cfg.secret@, rec),
        reg.accepts_for(cfg.entry_path_spec(name), rec, p),
    ensures
        ({
            let rel = cfg.entry_rel_spec(name);
            let full = cfg.entry_path_spec(name);
            let v2 = create_post(v, slash_prefixes(rel), rel, reg.enc_for(full, rec, p));
            crate::commands::show::shows_plain(reg, v2, rel, full, cfg.secret@, rec, p)
        }),
{
    let rel = cfg.entry_rel_spec(name);
    let full = cfg.entry_path_spec(name);
    let ps = slash_prefixes(rel);
    let cipher = reg.enc_for(full, rec, p);
    lemma_slash_prefixes_shorter(rel);
    assert forall|k: int| 0 <= k < ps.len() implies ps[k] != rel by {
        assert(ps[k].len() < rel.len());
    }
    lemma_add_dirs_lookup(v, ps, rel);
    lemma_lookup_push(add_dirs(v, ps), (rel, NodeSpec::File(cipher)), rel);
}

} // verus!
