use vstd::prelude::*;
use crate::config::Config;
use crate::errors::VaultError;
use crate::paths::{has_prefix, has_suffix, is_prefix, is_suffix, split_on, split_str, str_eq};
use crate::vault::{lookup, EntrySpec, Node, NodeSpec, Vault};

verus! {

/// What a listing produces: the bare name echoed back when the path names a
/// single entry, or the visible paths under a directory.
#[derive(Debug, PartialEq, Eq)]
pub enum ListOutcome {
    FileEcho(String),
    Entries(Vec<String>),
}

/// The crypto extension with a leading dot, however it was configured.
pub open spec fn ext_norm_spec(e: Seq<char>) -> Seq<char> {
    if e.len() > 0 && e[0] == '.' {
        e
    } else {
        seq!['.'] + e
    }
}

/// The part of `p` below `base` (all of `p` when listing the root).
pub open spec fn below_of(p: Seq<char>, base: Seq<char>) -> Seq<char> {
    if base.len() == 0 {
        p
    } else {
        p.skip(base.len() as int + 1)
    }
}

/// Whether `p` lies below `base`.
pub open spec fn in_scope(p: Seq<char>, base: Seq<char>) -> bool {
    base.len() == 0 || is_prefix(base + seq!['/'], p)
}

/// One path component passes the filter: never the version-control metadata
/// directory, and dot-prefixed (archived) names only when `show_all` is set.
pub open spec fn comp_ok(c: Seq<char>, show_all: bool) -> bool {
    c != ".git"@ && (show_all || !(c.len() > 0 && c[0] == '.'))
}

/// Every component of `p` below `base` passes the filter.
pub open spec fn components_ok(p: Seq<char>, base: Seq<char>, show_all: bool) -> bool {
    forall|k: int|
        0 <= k < split_on(below_of(p, base), '/').len() ==> comp_ok(
            #[trigger] split_on(below_of(p, base), '/')[k],
            show_all,
        )
}

/// Whether a stored path is listed: it lies below the base, every component
/// passes the filter, and a file must carry the crypto extension.
pub open spec fn visible_key(
    p: Seq<char>,
    is_dir: bool,
    base: Seq<char>,
    show_all: bool,
    ext: Seq<char>,
) -> bool {
    in_scope(p, base) && components_ok(p, base, show_all) && (is_dir || is_suffix(ext, p))
}

pub open spec fn visible_entry(e: EntrySpec, base: Seq<char>, show_all: bool, ext: Seq<char>) -> bool {
    visible_key(e.0, e.1 is Dir, base, show_all, ext)
}

/// The visible paths of the vault, in storage order.
pub open spec fn visible_paths(
    v: Seq<EntrySpec>,
    base: Seq<char>,
    show_all: bool,
    ext: Seq<char>,
) -> Seq<Seq<char>>
    decreases v.len(),
{
    if v.len() == 0 {
        Seq::empty()
    } else {
        (if visible_entry(v[0], base, show_all, ext) {
            seq![v[0].0]
        } else {
            Seq::empty()
        }) + visible_paths(v.drop_first(), base, show_all, ext)
    }
}

/// Executable filter for one stored path.
#[verifier::loop_isolation(false)]
fn key_visible(p: &str, is_dir: bool, base: &str, show_all: bool, ext: &str) -> (r: bool)
    ensures
        r == visible_key(p@, is_dir, base@, show_all, ext@),
{
    let n: usize = p.unicode_len();
    let bl: usize = base.unicode_len();
    let below_string = if bl == 0 {
        String::from_str(p)
    } else {
        let mut bs = String::from_str(base);
        bs.append("/");
        proof {
            reveal_strlit("/");
            assert(bs@ =~= base@ + seq!['/']);
        }
        if !has_prefix(p, bs.as_str()) {
            return false;
        }
        let below = p.substring_char(bl + 1, n);
        proof {
            assert(below@ =~= below_of(p@, base@));
        }
        String::from_str(below)
    };
    let comps = split_str(below_string.as_str(), '/');
    let nc: usize = comps.len();
    let mut i: usize = 0;
    while i < nc
        invariant
            0 <= i <= nc,
            nc == split_on(below_of(p@, base@), '/').len(),
            comps.deep_view() == split_on(below_of(p@, base@), '/'),
            forall|k: int|
                0 <= k < i ==> comp_ok(
                    #[trigger] split_on(below_of(p@, base@), '/')[k],
                    show_all,
                ),
        decreases nc - i,
    {
        proof {
            assert(comps.deep_view()[i as int] == comps@[i as int]@);
        }
        if str_eq(comps[i].as_str(), ".git") {
            return false;
        }
        if !show_all {
            let cl: usize = comps[i].as_str().unicode_len();
            if cl > 0 && comps[i].as_str().get_char(0) == '.' {
                return false;
            }
        }
        i = i + 1;
    }
    if !is_dir && !has_suffix(p, ext) {
        return false;
    }
    true
}

/// Collect the visible paths of the vault, in storage order.
#[verifier::loop_isolation(false)]
fn collect_visible(vault: &Vault, base: &str, show_all: bool, ext: &str) -> (es: Vec<String>)
    ensures
        es.deep_view() == visible_paths(vault@, base@, show_all, ext@),
{
    let n: usize = vault.len();
    let mut es: Vec<String> = Vec::new();
    proof {
        assert(vault@.skip(0) =~= vault@);
        assert(es.deep_view() =~= Seq::<Seq<char>>::empty());
        assert(es.deep_view() + visible_paths(vault@, base@, show_all, ext@) =~= visible_paths(
            vault@,
            base@,
            show_all,
            ext@,
        ));
    }
    let mut i: usize = 0;
    while i < n
        invariant
            0 <= i <= n,
            n == vault@.len(),
            visible_paths(vault@, base@, show_all, ext@) == es.deep_view() + visible_paths(
                vault@.skip(i as int),
                base@,
                show_all,
                ext@,
            ),
        decreases n - i,
    {
        proof {
            assert(vault@.skip(i as int)[0] == vault@[i as int]);
            assert(vault@.skip(i as int).drop_first() =~= vault@.skip(i + 1));
        }
        let p = vault.path_at(i);
        let d = vault.is_dir_at(i);
        if key_visible(p.as_str(), d, base, show_all, ext) {
            let ghost old_es = es.deep_view();
            es.push(p.clone());
            proof {
                assert(es.deep_view() =~= old_es + seq![vault@[i as int].0]);
                assert((old_es + seq![vault@[i as int].0]) + visible_paths(
                    vault@.skip(i + 1),
                    base@,
                    show_all,
                    ext@,
                ) =~= old_es + (seq![vault@[i as int].0] + visible_paths(
                    vault@.skip(i + 1),
                    base@,
                    show_all,
                    ext@,
                )));
            }
        }
        i = i + 1;
    }
    proof {
        assert(vault@.skip(n as int) =~= Seq::<EntrySpec>::empty());
        assert(es.deep_view() + visible_paths(
            Seq::<EntrySpec>::empty(),
            base@,
            show_all,
            ext@,
        ) =~= es.deep_view());
    }
    es
}

/// List the vault: a named directory (or the root) yields its visible
/// entries; a name that resolves to a single entry is echoed back; anything
/// else is not found.
pub fn run(vault: &Vault, cfg: &Config, path: Option<String>, show_all: bool) -> (r: Result<
    ListOutcome,
    VaultError,
>)
    ensures
        path matches Some(sub) ==> {
            let ext = ext_norm_spec(cfg.crypto_extension@);
            &&& (lookup(vault@, sub@) matches Some(NodeSpec::Dir) ==> (r matches Ok(o)
                && o matches ListOutcome::Entries(es) && es.deep_view() == visible_paths(
                vault@,
                sub@,
                show_all,
                ext,
            )))
            &&& (!(lookup(vault@, sub@) matches Some(NodeSpec::Dir)) ==> {
                &&& (lookup(vault@, sub@ + ext) is Some ==> (r matches Ok(o)
                    && o matches ListOutcome::FileEcho(s) && s@ == sub@))
                &&& (lookup(vault@, sub@ + ext) is None ==> (r matches Err(e)
                    && e matches VaultError::NotFound { path: q } && q@ == sub@))
            })
        },
        path is None ==> (r matches Ok(o) && o matches ListOutcome::Entries(es) && es.deep_view()
            == visible_paths(
            vault@,
            Seq::<char>::empty(),
            show_all,
            ext_norm_spec(cfg.crypto_extension@),
        )),
{
    // Normalize the extension to start with a dot.
    let el: usize = cfg.crypto_extension.as_str().unicode_len();
    let ext = if el > 0 && cfg.crypto_extension.as_str().get_char(0) == '.' {
        cfg.crypto_extension.clone()
    } else {
        let mut e = String::from_str(".");
        e.append(cfg.crypto_extension.as_str());
        proof {
            reveal_strlit(".");
            assert(e@ =~= ext_norm_spec(cfg.crypto_extension@));
        }
        e
    };
    match path {
        Some(sub) => {
            let sub_is_dir = match vault.lookup_node(sub.as_str()) {
                Some(Node::Dir) => true,
                _ => false,
            };
            if sub_is_dir {
                let es = collect_visible(vault, sub.as_str(), show_all, ext.as_str());
                Ok(ListOutcome::Entries(es))
            } else {
                let mut we = sub.clone();
                we.append(ext.as_str());
                match vault.position(we.as_str()) {
                    Some(_) => Ok(ListOutcome::FileEcho(sub)),
                    None => Err(VaultError::NotFound { path: sub }),
                }
            }
        },
        None => {
            let es = collect_visible(vault, "", show_all, ext.as_str());
            proof {
                reveal_strlit("");
                assert(""@ =~= Seq::<char>::empty());
            }
            Ok(ListOutcome::Entries(es))
        },
    }
}

/// Law: a listing never includes the version-control metadata directory, and
/// dot-prefixed (archived) components are excluded unless `show_all` asks
/// for them: every component of every listed path passes the filter.
pub proof fn lemma_list_filters(
    v: Seq<EntrySpec>,
    base: Seq<char>,
    show_all: bool,
    ext: Seq<char>,
    j: int,
    k: int,
)
    requires
        0 <= j < visible_paths(v, base, show_all, ext).len(),
        0 <= k < split_on(below_of(visible_paths(v, base, show_all, ext)[j], base), '/').len(),
    ensures
        split_on(below_of(visible_paths(v, base, show_all, ext)[j], base), '/')[k] != ".git"@,
        !show_all ==> !(split_on(below_of(visible_paths(v, base, show_all, ext)[j], base), '/')[k].len()
            > 0 && split_on(below_of(visible_paths(v, base, show_all, ext)[j], base), '/')[k][0]
            == '.'),
{
    lemma_visible_paths_ok(v, base, show_all, ext);
}

/// Every listed path has all its components pass the filter.
proof fn lemma_visible_paths_ok(v: Seq<EntrySpec>, base: Seq<char>, show_all: bool, ext: Seq<char>)
    ensures
        forall|j: int|
            0 <= j < visible_paths(v, base, show_all, ext).len() ==> components_ok(
                #[trigger] visible_paths(v, base, show_all, ext)[j],
                base,
                show_all,
            ),
    decreases v.len(),
{
    if v.len() > 0 {
        lemma_visible_paths_ok(v.drop_first(), base, show_all, ext);
        let head: Seq<Seq<char>> = if visible_entry(v[0], base, show_all, ext) {
            seq![v[0].0]
        } else {
            Seq::empty()
        };
        let tail = visible_paths(v.drop_first(), base, show_all, ext);
        assert forall|j: int|
            0 <= j < visible_paths(v, base, show_all, ext).len() implies components_ok(
            #[trigger] visible_paths(v, base, show_all, ext)[j],
            base,
            show_all,
        ) by {
            if j < head.len() {
                assert(visible_paths(v, base, show_all, ext)[j] == v[0].0);
            } else {
                assert(visible_paths(v, base, show_all, ext)[j] == tail[j - head.len()]);
            }
        }
    }
}

} // verus!
