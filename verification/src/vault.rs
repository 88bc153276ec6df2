use vstd::prelude::*;

verus! {

/// One node of the vault tree: an encrypted entry file (with its on-disk
/// bytes) or a directory.
#[derive(Clone, Debug, PartialEq, Eq)]
pub enum Node {
    File(Vec<u8>),
    Dir,
}

/// Spec-level node.
pub enum NodeSpec {
    File(Seq<u8>),
    Dir,
}

impl View for Node {
    type V = NodeSpec;

    open spec fn view(&self) -> NodeSpec {
        match self {
            Node::File(d) => NodeSpec::File(d@),
            Node::Dir => NodeSpec::Dir,
        }
    }
}

impl Node {
    /// Whether this node is a directory.
    pub fn is_dir(&self) -> (r: bool)
        ensures
            r == (self@ is Dir),
    {
        match self {
            Node::Dir => true,
            Node::File(_) => false,
        }
    }
}

/// A vault entry at spec level: path relative to the vault root, and node.
pub type EntrySpec = (Seq<char>, NodeSpec);

// ---------------------------------------------------------------------------
// Lookup theory over sequences of entries.
// ---------------------------------------------------------------------------

/// The node stored under `key`, scanning front to back.
pub open spec fn lookup(s: Seq<EntrySpec>, key: Seq<char>) -> Option<NodeSpec>
    decreases s.len(),
{
    if s.len() == 0 {
        None
    } else if s[0].0 == key {
        Some(s[0].1)
    } else {
        lookup(s.drop_first(), key)
    }
}

/// The index of the first entry with key `key` (`s.len()` if absent).
pub open spec fn idx_of(s: Seq<EntrySpec>, key: Seq<char>) -> int
    decreases s.len(),
{
    if s.len() == 0 {
        0
    } else if s[0].0 == key {
        0
    } else {
        1 + idx_of(s.drop_first(), key)
    }
}

/// No two entries share a path.
pub open spec fn unique_keys(s: Seq<EntrySpec>) -> bool {
    forall|i: int, j: int| 0 <= i < j < s.len() ==> s[i].0 != s[j].0
}

pub proof fn lemma_lookup_at(s: Seq<EntrySpec>, key: Seq<char>, i: int)
    requires
        0 <= i < s.len(),
        s[i].0 == key,
        forall|k: int| 0 <= k < i ==> s[k].0 != key,
    ensures
        lookup(s, key) == Some(s[i].1),
        idx_of(s, key) == i,
    decreases s.len(),
{
    if i > 0 {
        lemma_lookup_at(s.drop_first(), key, i - 1);
    }
}

pub proof fn lemma_lookup_none(s: Seq<EntrySpec>, key: Seq<char>)
    requires
        forall|k: int| 0 <= k < s.len() ==> s[k].0 != key,
    ensures
        lookup(s, key) is None,
        idx_of(s, key) == s.len(),
    decreases s.len(),
{
    if s.len() > 0 {
        lemma_lookup_none(s.drop_first(), key);
    }
}

/// What a successful or failed lookup says about the sequence.
pub proof fn lemma_lookup_props(s: Seq<EntrySpec>, key: Seq<char>)
    ensures
        lookup(s, key) is Some ==> {
            let i = idx_of(s, key);
            &&& 0 <= i < s.len()
            &&& s[i].0 == key
            &&& lookup(s, key) == Some(s[i].1)
            &&& forall|k: int| 0 <= k < i ==> s[k].0 != key
        },
        lookup(s, key) is None ==> idx_of(s, key) == s.len() && forall|k: int|
            0 <= k < s.len() ==> s[k].0 != key,
    decreases s.len(),
{
    if s.len() > 0 && s[0].0 != key {
        lemma_lookup_props(s.drop_first(), key);
        if lookup(s, key) is Some {
            let i = idx_of(s, key);
            assert forall|k: int| 0 <= k < i implies s[k].0 != key by {
                if k > 0 {
                    assert(s.drop_first()[k - 1].0 != key);
                }
            }
        } else {
            assert forall|k: int| 0 <= k < s.len() implies s[k].0 != key by {
                if k > 0 {
                    assert(s.drop_first()[k - 1].0 != key);
                }
            }
        }
    }
}

/// Appending an entry changes lookups only for its key, and only when the
/// key was absent.
pub proof fn lemma_lookup_push(s: Seq<EntrySpec>, e: EntrySpec, key: Seq<char>)
    ensures
        lookup(s.push(e), key) == if lookup(s, key) is Some {
            lookup(s, key)
        } else if e.0 == key {
            Some(e.1)
        } else {
            None
        },
    decreases s.len(),
{
    if s.len() == 0 {
        assert(s.push(e).drop_first() =~= Seq::<EntrySpec>::empty());
        if e.0 != key {
        }
    } else {
        assert(s.push(e).drop_first() =~= s.drop_first().push(e));
        lemma_lookup_push(s.drop_first(), e, key);
    }
}

// ---------------------------------------------------------------------------
// Renaming a node together with everything stored under it.
// ---------------------------------------------------------------------------

/// Where a path moves when `from` — and everything under it — moves to `to`.
pub open spec fn moved_key(from: Seq<char>, to: Seq<char>, k: Seq<char>) -> Seq<char> {
    if k == from || crate::paths::is_prefix(from + seq!['/'], k) {
        to + k.skip(from.len() as int)
    } else {
        k
    }
}

/// The whole vault after `from` and its subtree move to `to`.
pub open spec fn rename_tree_spec(v: Seq<EntrySpec>, from: Seq<char>, to: Seq<char>) -> Seq<
    EntrySpec,
> {
    v.map_values(|e: EntrySpec| (moved_key(from, to, e.0), e.1))
}

/// No key of `v` is `to` or lies under it: the rename target is free.
pub open spec fn tree_free(v: Seq<EntrySpec>, to: Seq<char>) -> bool {
    forall|i: int|
        #![trigger v[i]]
        0 <= i < v.len() ==> v[i].0 != to && !crate::paths::is_prefix(to + seq!['/'], v[i].0)
}

/// A key equal to `from` or under it decomposes as `from` plus its tail.
pub proof fn lemma_under_decompose(from: Seq<char>, a: Seq<char>)
    requires
        a == from || crate::paths::is_prefix(from + seq!['/'], a),
    ensures
        a == from + a.skip(from.len() as int),
        a != from ==> a.len() > from.len() && a[from.len() as int] == '/',
{
    let fl = from.len() as int;
    if a == from {
        assert(a =~= from + a.skip(fl));
    } else {
        let p = from + seq!['/'];
        assert(a.subrange(0, fl + 1) == p);
        assert forall|i: int| 0 <= i < fl implies a[i] == from[i] by {
            assert(a.subrange(0, fl + 1)[i] == a[i]);
            assert(p[i] == from[i]);
        }
        assert(a.subrange(0, fl + 1)[fl] == a[fl]);
        assert(p[fl] == '/');
        assert(a =~= from + a.skip(fl));
    }
}

/// Moving a subtree to a free target never makes two distinct keys collide.
pub proof fn lemma_moved_key_distinct(from: Seq<char>, to: Seq<char>, a: Seq<char>, b: Seq<char>)
    requires
        a != b,
        a != to && !crate::paths::is_prefix(to + seq!['/'], a),
        b != to && !crate::paths::is_prefix(to + seq!['/'], b),
    ensures
        moved_key(from, to, a) != moved_key(from, to, b),
{
    let fl = from.len() as int;
    let tl = to.len() as int;
    let amoved = a == from || crate::paths::is_prefix(from + seq!['/'], a);
    let bmoved = b == from || crate::paths::is_prefix(from + seq!['/'], b);
    if amoved {
        lemma_under_decompose(from, a);
    }
    if bmoved {
        lemma_under_decompose(from, b);
    }
    if amoved && bmoved {
        if moved_key(from, to, a) == moved_key(from, to, b) {
            assert(a.skip(fl) =~= (to + a.skip(fl)).skip(tl));
            assert(b.skip(fl) =~= (to + b.skip(fl)).skip(tl));
            assert(a.skip(fl) == b.skip(fl));
            assert(a == b);
        }
    } else if amoved && !bmoved {
        if moved_key(from, to, a) == moved_key(from, to, b) {
            // b would equal `to` plus a tail that is empty or starts with '/'.
            if a == from {
                assert(a.skip(fl) =~= Seq::<char>::empty());
                assert(to + a.skip(fl) =~= to);
            } else {
                let m = to + a.skip(fl);
                assert(m.subrange(0, tl + 1) =~= to + seq!['/']) by {
                    assert forall|i: int| 0 <= i <= tl implies m.subrange(0, tl + 1)[i] == (to
                        + seq!['/'])[i] by {
                        if i < tl {
                            assert(m[i] == to[i]);
                        } else {
                            assert(m[tl] == a.skip(fl)[0]);
                            assert(a.skip(fl)[0] == a[fl]);
                        }
                    }
                }
                assert(crate::paths::is_prefix(to + seq!['/'], b));
            }
        }
    } else if !amoved && bmoved {
        if moved_key(from, to, a) == moved_key(from, to, b) {
            if b == from {
                assert(b.skip(fl) =~= Seq::<char>::empty());
                assert(to + b.skip(fl) =~= to);
            } else {
                let m = to + b.skip(fl);
                assert(m.subrange(0, tl + 1) =~= to + seq!['/']) by {
                    assert forall|i: int| 0 <= i <= tl implies m.subrange(0, tl + 1)[i] == (to
                        + seq!['/'])[i] by {
                        if i < tl {
                            assert(m[i] == to[i]);
                        } else {
                            assert(m[tl] == b.skip(fl)[0]);
                            assert(b.skip(fl)[0] == b[fl]);
                        }
                    }
                }
                assert(crate::paths::is_prefix(to + seq!['/'], a));
            }
        }
    }
}

// ---------------------------------------------------------------------------
// The executable vault model.
// ---------------------------------------------------------------------------

/// The modeled vault: the nodes under the vault root, keyed by their path
/// relative to that root. Paths are unique; order is insertion order.
pub struct Vault {
    entries: Vec<(String, Node)>,
}

impl View for Vault {
    type V = Seq<EntrySpec>;

    closed spec fn view(&self) -> Seq<EntrySpec> {
        self.entries@.map_values(|e: (String, Node)| (e.0@, e.1@))
    }
}

impl Vault {
    /// Internal invariant: no two entries share a path.
    pub open spec fn wf(&self) -> bool {
        unique_keys(self@)
    }

    pub fn new() -> (v: Vault)
        ensures
            v@ == Seq::<EntrySpec>::empty(),
            v.wf(),
    {
        let v = Vault { entries: Vec::new() };
        proof {
            assert(v@ =~= Seq::<EntrySpec>::empty());
        }
        v
    }

    pub fn len(&self) -> (n: usize)
        ensures
            n == self@.len(),
    {
        self.entries.len()
    }

    /// The path of the entry at index `i`.
    pub fn path_at(&self, i: usize) -> (p: &String)
        requires
            i < self@.len(),
        ensures
            p@ == self@[i as int].0,
    {
        &self.entries[i].0
    }

    /// Whether the entry at index `i` is a directory.
    pub fn is_dir_at(&self, i: usize) -> (r: bool)
        requires
            i < self@.len(),
        ensures
            r == (self@[i as int].1 is Dir),
    {
        match &self.entries[i].1 {
            Node::Dir => true,
            Node::File(_) => false,
        }
    }

    /// The node of the entry at index `i`.
    pub fn node_at(&self, i: usize) -> (n: &Node)
        requires
            i < self@.len(),
        ensures
            n@ == self@[i as int].1,
    {
        &self.entries[i].1
    }

    /// The index of the entry stored under `path`, if any.
    pub fn position(&self, path: &str) -> (r: Option<usize>)
        ensures
            r matches Some(i) ==> {
                &&& i < self@.len()
                &&& self@[i as int].0 == path@
                &&& lookup(self@, path@) == Some(self@[i as int].1)
                &&& idx_of(self@, path@) == i
            },
            r is None ==> lookup(self@, path@) is None,
    {
        let key = String::from_str(path);
        let n: usize = self.entries.len();
        let mut i: usize = 0;
        while i < n
            invariant
                0 <= i <= n,
                n == self@.len(),
                key@ == path@,
                self@.len() == self.entries@.len(),
                forall|k: int| 0 <= k < i ==> self@[k].0 != path@,
            decreases n - i,
        {
            if self.entries[i].0 == key {
                proof {
                    lemma_lookup_at(self@, path@, i as int);
                }
                return Some(i);
            }
            proof {
                assert(self@[i as int].0 == self.entries@[i as int].0@);
            }
            i = i + 1;
        }
        proof {
            lemma_lookup_none(self@, path@);
        }
        None
    }

    /// The node stored under `path`, if any.
    pub fn lookup_node(&self, path: &str) -> (r: Option<&Node>)
        ensures
            r matches Some(n) ==> lookup(self@, path@) == Some(n@),
            r is None ==> lookup(self@, path@) is None,
    {
        match self.position(path) {
            Some(i) => Some(&self.entries[i].1),
            None => None,
        }
    }

    /// Add a node under a fresh path; refused (and the vault unchanged) when
    /// the path is already bound.
    pub fn insert_node(&mut self, path: &str, node: Node) -> (ok: bool)
        requires
            old(self).wf(),
        ensures
            final(self).wf(),
            ok == (lookup(old(self)@, path@) is None),
            ok ==> final(self)@ == old(self)@.push((path@, node@)),
            !ok ==> final(self)@ == old(self)@,
    {
        let found = self.position(path);
        match found {
            Some(_) => false,
            None => {
                proof {
                    lemma_lookup_props(old(self)@, path@);
                }
                let ghost old_view = self@;
                let ghost node_view = node@;
                self.entries.push((String::from_str(path), node));
                proof {
                    assert(self@ =~= old_view.push((path@, node_view)));
                    assert forall|a: int, b: int|
                        0 <= a < b < self@.len() implies self@[a].0 != self@[b].0 by {
                        if b < self@.len() - 1 {
                            assert(old_view[a].0 != old_view[b].0);
                        } else {
                            assert(old_view[a].0 != path@);
                        }
                    }
                }
                true
            },
        }
    }

    /// Replace the node at index `i`, keeping its path.
    pub fn set_node_at(&mut self, i: usize, node: Node)
        requires
            old(self).wf(),
            i < old(self)@.len(),
        ensures
            final(self).wf(),
            final(self)@ == old(self)@.update(i as int, (old(self)@[i as int].0, node@)),
    {
        let ghost old_view = self@;
        let ghost node_view = node@;
        let path = self.entries[i].0.clone();
        self.entries.set(i, (path, node));
        proof {
            assert(self@ =~= old_view.update(i as int, (old_view[i as int].0, node_view)));
            assert forall|a: int, b: int|
                0 <= a < b < self@.len() implies self@[a].0 != self@[b].0 by {
                assert(old_view[a].0 != old_view[b].0);
            }
        }
    }

    /// Move the entry at index `i` to a fresh path, keeping its node.
    pub fn rename_at(&mut self, i: usize, new_path: &str)
        requires
            old(self).wf(),
            i < old(self)@.len(),
            lookup(old(self)@, new_path@) is None,
        ensures
            final(self).wf(),
            final(self)@ == old(self)@.update(i as int, (new_path@, old(self)@[i as int].1)),
    {
        proof {
            lemma_lookup_props(old(self)@, new_path@);
        }
        let ghost old_view = self@;
        let node = self.entries.remove(i);
        let ghost node_view = node.1@;
        self.entries.insert(i, (String::from_str(new_path), node.1));
        proof {
            assert(self@ =~= old_view.update(i as int, (new_path@, old_view[i as int].1)));
            assert forall|a: int, b: int|
                0 <= a < b < self@.len() implies self@[a].0 != self@[b].0 by {
                if a != i && b != i {
                    assert(old_view[a].0 != old_view[b].0);
                } else if a == i {
                    assert(old_view[b].0 != new_path@);
                } else {
                    assert(old_view[a].0 != new_path@);
                }
            }
        }
    }

    /// Move the entry at `from` — and, when it is a directory, everything
    /// stored under it — to `to`, prepending nothing else. Refused (and the
    /// vault unchanged) when `to` or anything under it is already taken.
    #[verifier::loop_isolation(false)]
    pub fn rename_tree(&mut self, from: &str, to: &str) -> (ok: bool)
        requires
            old(self).wf(),
        ensures
            final(self).wf(),
            ok == tree_free(old(self)@, to@),
            ok ==> final(self)@ == rename_tree_spec(old(self)@, from@, to@),
            !ok ==> final(self)@ == old(self)@,
    {
        proof {
            reveal_strlit("/");
        }
        let from_string = String::from_str(from);
        let mut from_slash = String::from_str(from);
        from_slash.append("/");
        let to_string = String::from_str(to);
        let mut to_slash = String::from_str(to);
        to_slash.append("/");
        proof {
            assert(from_slash@ =~= from@ + seq!['/']);
            assert(to_slash@ =~= to@ + seq!['/']);
        }
        let n: usize = self.entries.len();

        // The target and everything under it must be free.
        let mut i: usize = 0;
        while i < n
            invariant
                0 <= i <= n,
                self@ == old(self)@,
                forall|k: int|
                    #![trigger old(self)@[k]]
                    0 <= k < i ==> old(self)@[k].0 != to@ && !crate::paths::is_prefix(
                        to@ + seq!['/'],
                        old(self)@[k].0,
                    ),
            decreases n - i,
        {
            proof {
                assert(self@[i as int].0 == self.entries@[i as int].0@);
            }
            if self.entries[i].0 == to_string {
                return false;
            }
            if crate::paths::has_prefix(self.entries[i].0.as_str(), to_slash.as_str()) {
                return false;
            }
            i = i + 1;
        }
        assert(tree_free(old(self)@, to@));

        // Move every key that is `from` or lies under it.
        let from_len: usize = from.unicode_len();
        let mut j: usize = 0;
        while j < n
            invariant
                0 <= j <= n,
                self@.len() == n,
                old(self)@.len() == n,
                forall|k: int|
                    #![trigger self@[k]]
                    0 <= k < j ==> self@[k] == (
                        moved_key(from@, to@, old(self)@[k].0),
                        old(self)@[k].1,
                    ),
                forall|k: int| #![trigger self@[k]] j <= k < n ==> self@[k] == old(self)@[k],
            decreases n - j,
        {
            proof {
                assert(self@[j as int].0 == self.entries@[j as int].0@);
            }
            let moves = if self.entries[j].0 == from_string {
                true
            } else {
                crate::paths::has_prefix(self.entries[j].0.as_str(), from_slash.as_str())
            };
            if moves {
                let ghost key = old(self)@[j as int].0;
                proof {
                    lemma_under_decompose(from@, key);
                }
                let plen: usize = self.entries[j].0.as_str().unicode_len();
                let suffix_string = {
                    let suffix = self.entries[j].0.as_str().substring_char(from_len, plen);
                    let mut np = String::from_str(to);
                    np.append(suffix);
                    np
                };
                proof {
                    assert(key.skip(from_len as int) =~= key.subrange(
                        from_len as int,
                        key.len() as int,
                    ));
                    assert(suffix_string@ == moved_key(from@, to@, key));
                }
                let ghost pre = self@;
                let e = self.entries.remove(j);
                self.entries.insert(j, (suffix_string, e.1));
                proof {
                    assert forall|k: int| 0 <= k < n implies self@[k] == (if k == j {
                        (moved_key(from@, to@, key), pre[j as int].1)
                    } else {
                        pre[k]
                    }) by {
                        assert(self.entries@[k] == (if k == j {
                            self.entries@[j as int]
                        } else if k < j {
                            self.entries@[k]
                        } else {
                            self.entries@[k]
                        }));
                    }
                }
            }
            j = j + 1;
        }
        proof {
            assert(final(self)@ =~= rename_tree_spec(old(self)@, from@, to@));
            assert forall|a: int, b: int|
                0 <= a < b < final(self)@.len() implies final(self)@[a].0 != final(self)@[b].0 by {
                assert(old(self)@[a].0 != old(self)@[b].0);
                lemma_moved_key_distinct(from@, to@, old(self)@[a].0, old(self)@[b].0);
            }
        }
        true
    }

    /// Delete the entry at index `i`.
    pub fn remove_at(&mut self, i: usize)
        requires
            old(self).wf(),
            i < old(self)@.len(),
        ensures
            final(self).wf(),
            final(self)@ == old(self)@.remove(i as int),
    {
        let ghost old_view = self@;
        self.entries.remove(i);
        proof {
            assert(self@ =~= old_view.remove(i as int));
            assert forall|a: int, b: int|
                0 <= a < b < self@.len() implies self@[a].0 != self@[b].0 by {
                let oa: int = if a < i { a } else { a + 1 };
                let ob: int = if b < i { b } else { b + 1 };
                assert(old_view[oa].0 != old_view[ob].0);
            }
        }
    }
}

} // verus!
