use vstd::prelude::*;

verus! {

// ---------------------------------------------------------------------------
// Generic splitting of a sequence on a separator element.
// ---------------------------------------------------------------------------

/// Index of the first occurrence of `sep` in `s`, or `s.len()` if absent.
pub open spec fn find_sep<A>(s: Seq<A>, sep: A) -> int
    decreases s.len(),
{
    if s.len() == 0 {
        0
    } else if s[0] == sep {
        0
    } else {
        1 + find_sep(s.drop_first(), sep)
    }
}

pub proof fn lemma_find_sep_bounds<A>(s: Seq<A>, sep: A)
    ensures
        0 <= find_sep(s, sep) <= s.len(),
        find_sep(s, sep) < s.len() ==> s[find_sep(s, sep)] == sep,
        forall|k: int| 0 <= k < find_sep(s, sep) ==> s[k] != sep,
    decreases s.len(),
{
    if s.len() == 0 {
    } else if s[0] == sep {
    } else {
        lemma_find_sep_bounds(s.drop_first(), sep);
        assert forall|k: int| 0 <= k < find_sep(s, sep) implies s[k] != sep by {
            if k > 0 {
                assert(s.drop_first()[k - 1] != sep);
            }
        }
    }
}

pub proof fn lemma_find_sep_is_first<A>(s: Seq<A>, sep: A, j: int)
    requires
        0 <= j < s.len(),
        s[j] == sep,
        forall|k: int| 0 <= k < j ==> s[k] != sep,
    ensures
        find_sep(s, sep) == j,
{
    lemma_find_sep_bounds(s, sep);
    if find_sep(s, sep) < j {
        assert(s[find_sep(s, sep)] != sep);
    }
}

/// Split `s` on `sep`. The separator is dropped; a trailing separator does
/// not produce a trailing empty segment (matching how text is split into
/// lines). The empty sequence has no segments.
pub open spec fn split_on<A>(s: Seq<A>, sep: A) -> Seq<Seq<A>>
    decreases s.len(),
{
    if s.len() == 0 {
        Seq::empty()
    } else {
        let i = find_sep(s, sep);
        if i == s.len() {
            seq![s]
        } else if 0 <= i < s.len() {
            seq![s.take(i)] + split_on(s.skip(i + 1), sep)
        } else {
            Seq::empty()
        }
    }
}

/// Unfolding rule for `split_on` when the first separator is known.
pub proof fn lemma_split_on_at<A>(s: Seq<A>, sep: A, j: int)
    requires
        0 <= j < s.len(),
        s[j] == sep,
        forall|k: int| 0 <= k < j ==> s[k] != sep,
    ensures
        split_on(s, sep) == seq![s.take(j)] + split_on(s.skip(j + 1), sep),
{
    lemma_find_sep_is_first(s, sep, j);
}

/// Unfolding rule for `split_on` when there is no separator.
pub proof fn lemma_split_on_none<A>(s: Seq<A>, sep: A)
    requires
        s.len() > 0,
        forall|k: int| 0 <= k < s.len() ==> s[k] != sep,
    ensures
        split_on(s, sep) == seq![s],
{
    lemma_find_sep_bounds(s, sep);
    if find_sep(s, sep) < s.len() {
        assert(s[find_sep(s, sep)] != sep);
    }
}

// ---------------------------------------------------------------------------
// Executable splitting.
// ---------------------------------------------------------------------------

/// Split a string into the segments between occurrences of `sep`.
pub fn split_str(s: &str, sep: char) -> (r: Vec<String>)
    ensures
        r.deep_view() == split_on(s@, sep),
{
    let n: usize = s.unicode_len();
    let mut r: Vec<String> = Vec::new();
    let mut seg_start: usize = 0;
    let mut i: usize = 0;
    proof {
        assert(s@.skip(0) =~= s@);
        assert(r.deep_view() =~= Seq::<Seq<char>>::empty());
        assert(r.deep_view() + split_on(s@, sep) =~= split_on(s@, sep));
    }
    while i < n
        invariant
            0 <= seg_start <= i <= n,
            n == s@.len(),
            forall|k: int| seg_start <= k < i ==> s@[k] != sep,
            split_on(s@, sep) == r.deep_view() + split_on(s@.skip(seg_start as int), sep),
        decreases n - i,
    {
        let c = s.get_char(i);
        if c == sep {
            let seg = s.substring_char(seg_start, i);
            let seg_string = String::from_str(seg);
            let ghost old_r = r.deep_view();
            proof {
                let tail = s@.skip(seg_start as int);
                lemma_split_on_at(tail, sep, i - seg_start);
                assert(tail.take(i - seg_start) =~= s@.subrange(seg_start as int, i as int));
                assert(tail.skip(i - seg_start + 1) =~= s@.skip(i + 1));
            }
            r.push(seg_string);
            proof {
                assert(r.deep_view() =~= old_r + seq![seg_string@]);
                assert((old_r + seq![seg_string@]) + split_on(s@.skip(i + 1), sep)
                    =~= old_r + (seq![seg_string@] + split_on(s@.skip(i + 1), sep)));
            }
            seg_start = i + 1;
        }
        i = i + 1;
    }
    if seg_start < n {
        let seg = s.substring_char(seg_start, n);
        let seg_string = String::from_str(seg);
        let ghost old_r = r.deep_view();
        proof {
            let tail = s@.skip(seg_start as int);
            lemma_split_on_none(tail, sep);
            assert(tail =~= s@.subrange(seg_start as int, n as int));
        }
        r.push(seg_string);
        proof {
            assert(r.deep_view() =~= old_r + seq![seg_string@]);
            assert(old_r + seq![seg_string@] =~= old_r + seq![s@.skip(seg_start as int)]);
        }
    } else {
        proof {
            assert(s@.skip(seg_start as int) =~= Seq::<char>::empty());
            assert(r.deep_view() + split_on(Seq::<char>::empty(), sep) =~= r.deep_view());
        }
    }
    r
}

/// Split a byte string into the segments between occurrences of `sep`.
pub fn split_bytes(s: &[u8], sep: u8) -> (r: Vec<Vec<u8>>)
    ensures
        r.deep_view() == split_on(s@, sep),
{
    let n: usize = s.len();
    let mut r: Vec<Vec<u8>> = Vec::new();
    let mut seg: Vec<u8> = Vec::new();
    let mut seg_start: usize = 0;
    let mut i: usize = 0;
    proof {
        assert(s@.skip(0) =~= s@);
        assert(r.deep_view() =~~= Seq::<Seq<u8>>::empty());
        assert(r.deep_view() + split_on(s@, sep) =~= split_on(s@, sep));
    }
    while i < n
        invariant
            0 <= seg_start <= i <= n,
            n == s@.len(),
            seg@ == s@.subrange(seg_start as int, i as int),
            forall|k: int| seg_start <= k < i ==> s@[k] != sep,
            split_on(s@, sep) == r.deep_view() + split_on(s@.skip(seg_start as int), sep),
        decreases n - i,
    {
        let b = s[i];
        if b == sep {
            proof {
                let tail = s@.skip(seg_start as int);
                lemma_split_on_at(tail, sep, i - seg_start);
                assert(tail.take(i - seg_start) =~= s@.subrange(seg_start as int, i as int));
                assert(tail.skip(i - seg_start + 1) =~= s@.skip(i + 1));
            }
            let ghost old_r = r.deep_view();
            let ghost seg_view = seg@;
            r.push(seg);
            proof {
                assert(r.deep_view() =~~= old_r + seq![seg_view]);
                assert((old_r + seq![seg_view]) + split_on(s@.skip(i + 1), sep)
                    =~= old_r + (seq![seg_view] + split_on(s@.skip(i + 1), sep)));
            }
            seg = Vec::new();
            seg_start = i + 1;
            proof {
                assert(seg@ =~= s@.subrange(seg_start as int, seg_start as int));
            }
        } else {
            seg.push(b);
            proof {
                assert(seg@ =~= s@.subrange(seg_start as int, i + 1));
            }
        }
        i = i + 1;
    }
    if seg_start < n {
        proof {
            let tail = s@.skip(seg_start as int);
            lemma_split_on_none(tail, sep);
            assert(tail =~= s@.subrange(seg_start as int, n as int));
        }
        let ghost old_r = r.deep_view();
        let ghost seg_view = seg@;
        r.push(seg);
        proof {
            assert(r.deep_view() =~~= old_r + seq![seg_view]);
            assert(split_on(s@, sep) =~= old_r + seq![seg_view]);
        }
    } else {
        proof {
            assert(s@.skip(seg_start as int) =~= Seq::<u8>::empty());
            assert(r.deep_view() + split_on(Seq::<u8>::empty(), sep) =~= r.deep_view());
        }
    }
    r
}

// ---------------------------------------------------------------------------
// String equality and prefix tests.
// ---------------------------------------------------------------------------

/// Equality of two string slices, by view.
pub fn str_eq(a: &str, b: &str) -> (r: bool)
    ensures
        r == (a@ == b@),
{
    let sa = String::from_str(a);
    let sb = String::from_str(b);
    sa == sb
}

/// Whether `p` is a prefix of `s`.
pub open spec fn is_prefix(p: Seq<char>, s: Seq<char>) -> bool {
    p.len() <= s.len() && s.subrange(0, p.len() as int) == p
}

/// Whether `q` is a suffix of `s`.
pub open spec fn is_suffix(q: Seq<char>, s: Seq<char>) -> bool {
    q.len() <= s.len() && s.subrange(s.len() - q.len(), s.len() as int) == q
}

pub fn has_suffix(s: &str, q: &str) -> (r: bool)
    ensures
        r == is_suffix(q@, s@),
{
    let nq: usize = q.unicode_len();
    let ns: usize = s.unicode_len();
    if nq > ns {
        return false;
    }
    let tail = s.substring_char(ns - nq, ns);
    let r = str_eq(tail, q);
    proof {
        assert(tail@ =~= s@.subrange(s@.len() - q@.len(), s@.len() as int));
    }
    r
}

/// `s` with its leading dots removed.
pub open spec fn trim_leading_dots(s: Seq<char>) -> Seq<char>
    decreases s.len(),
{
    if s.len() > 0 && s[0] == '.' {
        trim_leading_dots(s.drop_first())
    } else {
        s
    }
}

proof fn lemma_trim_leading_dots_at(s: Seq<char>, lo: int)
    requires
        0 <= lo <= s.len(),
        forall|k: int| 0 <= k < lo ==> s[k] == '.',
        lo < s.len() ==> s[lo] != '.',
    ensures
        trim_leading_dots(s) == s.skip(lo),
    decreases s.len(),
{
    if lo == 0 {
        assert(s.skip(0) =~= s);
    } else {
        lemma_trim_leading_dots_at(s.drop_first(), lo - 1);
        assert(s.drop_first().skip(lo - 1) =~= s.skip(lo));
    }
}

/// Executable counterpart of `trim_leading_dots`.
pub fn trim_dots(s: &str) -> (r: String)
    ensures
        r@ == trim_leading_dots(s@),
{
    let n: usize = s.unicode_len();
    let mut lo: usize = 0;
    while lo < n
        invariant
            0 <= lo <= n,
            n == s@.len(),
            forall|k: int| 0 <= k < lo ==> s@[k] == '.',
        decreases n - lo,
    {
        if s.get_char(lo) != '.' {
            proof {
                lemma_trim_leading_dots_at(s@, lo as int);
            }
            let tail = s.substring_char(lo, n);
            proof {
                assert(tail@ =~= s@.skip(lo as int));
            }
            return String::from_str(tail);
        }
        lo = lo + 1;
    }
    proof {
        lemma_trim_leading_dots_at(s@, n as int);
        assert(s@.skip(n as int) =~= Seq::<char>::empty());
    }
    String::new()
}

// ---------------------------------------------------------------------------
// Last occurrence of a character; basenames and extensions.
// ---------------------------------------------------------------------------

/// The index just after the last occurrence of `c` in `s`; 0 if `c` is absent.
pub open spec fn after_last(s: Seq<char>, c: char) -> int
    decreases s.len(),
{
    if s.len() == 0 {
        0
    } else if s[s.len() - 1] == c {
        s.len() as int
    } else {
        after_last(s.drop_last(), c)
    }
}

pub proof fn lemma_after_last_bounds(s: Seq<char>, c: char)
    ensures
        0 <= after_last(s, c) <= s.len(),
        after_last(s, c) > 0 ==> s[after_last(s, c) - 1] == c,
        forall|k: int| after_last(s, c) <= k < s.len() ==> s[k] != c,
    decreases s.len(),
{
    if s.len() == 0 {
    } else if s[s.len() - 1] == c {
    } else {
        lemma_after_last_bounds(s.drop_last(), c);
        assert forall|k: int| after_last(s, c) <= k < s.len() implies s[k] != c by {
            if k < s.len() - 1 {
                assert(s.drop_last()[k] != c);
            }
        }
    }
}

pub proof fn lemma_after_last_at(s: Seq<char>, c: char, j: int)
    requires
        0 <= j < s.len(),
        s[j] == c,
        forall|k: int| j < k < s.len() ==> s[k] != c,
    ensures
        after_last(s, c) == j + 1,
    decreases s.len(),
{
    if j == s.len() - 1 {
    } else {
        assert(s.drop_last()[j] == c);
        lemma_after_last_at(s.drop_last(), c, j);
    }
}

pub proof fn lemma_after_last_none(s: Seq<char>, c: char)
    requires
        forall|k: int| 0 <= k < s.len() ==> s[k] != c,
    ensures
        after_last(s, c) == 0,
{
    lemma_after_last_bounds(s, c);
    if after_last(s, c) > 0 {
        assert(s[after_last(s, c) - 1] == c);
    }
}

/// Executable counterpart of `after_last`.
pub fn after_last_char(s: &str, c: char) -> (r: usize)
    ensures
        r == after_last(s@, c),
{
    let n: usize = s.unicode_len();
    let mut i: usize = n;
    while i > 0
        invariant
            0 <= i <= n,
            n == s@.len(),
            forall|k: int| i <= k < n ==> s@[k] != c,
        decreases i,
    {
        if s.get_char(i - 1) == c {
            proof {
                lemma_after_last_at(s@, c, i - 1);
            }
            return i;
        }
        i = i - 1;
    }
    proof {
        lemma_after_last_none(s@, c);
    }
    0
}

/// Where the basename (the part after the last `/`) of `s` starts.
pub open spec fn base_start(s: Seq<char>) -> int {
    after_last(s, '/')
}

/// The basename of `s`: everything after the last `/`.
pub open spec fn basename(s: Seq<char>) -> Seq<char> {
    s.skip(base_start(s))
}

/// Whether the basename of `s` has an extension, as a path library sees it:
/// a `.` strictly after the basename's first character.
pub open spec fn has_ext(s: Seq<char>) -> bool {
    after_last(basename(s), '.') >= 2
}

/// The extension of `s` (meaningful only when `has_ext(s)`).
pub open spec fn ext_of(s: Seq<char>) -> Seq<char> {
    basename(s).skip(after_last(basename(s), '.'))
}

/// `s` without its extension (including the separating dot); `s` itself when
/// it has none.
pub open spec fn strip_ext(s: Seq<char>) -> Seq<char> {
    if has_ext(s) {
        s.take(base_start(s) + after_last(basename(s), '.') - 1)
    } else {
        s
    }
}

/// Whether the basename of `s` is dot-prefixed (archived / hidden).
pub open spec fn is_hidden(s: Seq<char>) -> bool {
    basename(s).len() > 0 && basename(s)[0] == '.'
}

/// `s` with a dot prepended to its basename.
pub open spec fn hidden_sibling_spec(s: Seq<char>) -> Seq<char> {
    s.take(base_start(s)) + seq!['.'] + s.skip(base_start(s))
}

/// The extension of `s`, when it has one.
pub fn extension_of(s: &str) -> (r: Option<String>)
    ensures
        r matches Some(e) ==> has_ext(s@) && e@ == ext_of(s@),
        r is None ==> !has_ext(s@),
{
    let n: usize = s.unicode_len();
    let base: usize = after_last_char(s, '/');
    proof {
        lemma_after_last_bounds(s@, '/');
    }
    let bn = s.substring_char(base, n);
    proof {
        assert(bn@ =~= basename(s@));
    }
    let d: usize = after_last_char(bn, '.');
    proof {
        lemma_after_last_bounds(bn@, '.');
    }
    if d >= 2 {
        let m: usize = bn.unicode_len();
        let e = bn.substring_char(d, m);
        proof {
            assert(e@ =~= ext_of(s@));
        }
        Some(String::from_str(e))
    } else {
        None
    }
}

/// Executable version of `strip_ext`.
pub fn strip_extension(s: &str) -> (r: String)
    ensures
        r@ == strip_ext(s@),
{
    let n: usize = s.unicode_len();
    let base: usize = after_last_char(s, '/');
    proof {
        lemma_after_last_bounds(s@, '/');
    }
    let bn = s.substring_char(base, n);
    proof {
        assert(bn@ =~= basename(s@));
    }
    let d: usize = after_last_char(bn, '.');
    proof {
        lemma_after_last_bounds(bn@, '.');
    }
    if d >= 2 {
        let head = s.substring_char(0, base + d - 1);
        proof {
            assert(head@ =~= strip_ext(s@));
        }
        String::from_str(head)
    } else {
        String::from_str(s)
    }
}

/// Executable test for `is_hidden`.
pub fn basename_is_hidden(s: &str) -> (r: bool)
    ensures
        r == is_hidden(s@),
{
    let n: usize = s.unicode_len();
    let base: usize = after_last_char(s, '/');
    proof {
        lemma_after_last_bounds(s@, '/');
        assert(s@.skip(base as int) =~= basename(s@));
    }
    if base < n {
        let c = s.get_char(base);
        c == '.'
    } else {
        false
    }
}

/// Executable version of `hidden_sibling_spec`: prepend a dot to the
/// basename.
pub fn hidden_sibling(s: &str) -> (r: String)
    ensures
        r@ == hidden_sibling_spec(s@),
{
    let n: usize = s.unicode_len();
    let base: usize = after_last_char(s, '/');
    proof {
        lemma_after_last_bounds(s@, '/');
    }
    let head = s.substring_char(0, base);
    let tail = s.substring_char(base, n);
    let mut r = String::from_str(head);
    r.append(".");
    r.append(tail);
    proof {
        reveal_strlit(".");
        assert(head@ =~= s@.take(base as int));
        assert(tail@ =~= s@.skip(base as int));
        assert(r@ =~= hidden_sibling_spec(s@));
    }
    r
}

// ---------------------------------------------------------------------------
// The proper prefixes of a path that end at a `/`: its parent directories.
// ---------------------------------------------------------------------------

/// All prefixes `s.take(j)` such that `s[j] == '/'`, in increasing order of
/// length: the parent directories a path needs.
pub open spec fn slash_prefixes(s: Seq<char>) -> Seq<Seq<char>>
    decreases s.len(),
{
    if s.len() == 0 {
        Seq::empty()
    } else if s[s.len() - 1] == '/' {
        slash_prefixes(s.drop_last()) + seq![s.drop_last()]
    } else {
        slash_prefixes(s.drop_last())
    }
}

/// Executable counterpart of `slash_prefixes`.
pub fn slash_prefixes_of(s: &str) -> (r: Vec<String>)
    ensures
        r.deep_view() == slash_prefixes(s@),
{
    let n: usize = s.unicode_len();
    let mut r: Vec<String> = Vec::new();
    let mut j: usize = 0;
    proof {
        assert(s@.take(0) =~= Seq::<char>::empty());
        assert(r.deep_view() =~= slash_prefixes(s@.take(0)));
    }
    while j < n
        invariant
            0 <= j <= n,
            n == s@.len(),
            r.deep_view() == slash_prefixes(s@.take(j as int)),
        decreases n - j,
    {
        let c = s.get_char(j);
        proof {
            assert(s@.take(j + 1).drop_last() =~= s@.take(j as int));
            assert(s@.take(j + 1)[j as int] == s@[j as int]);
        }
        if c == '/' {
            let head = s.substring_char(0, j);
            let head_string = String::from_str(head);
            let ghost old_r = r.deep_view();
            r.push(head_string);
            proof {
                assert(head_string@ =~= s@.take(j as int));
                assert(r.deep_view() =~= old_r + seq![head_string@]);
                assert(r.deep_view() =~= slash_prefixes(s@.take(j + 1)));
            }
        }
        j = j + 1;
    }
    proof {
        assert(s@.take(n as int) =~= s@);
    }
    r
}

// ---------------------------------------------------------------------------
// Whitespace trimming.
// ---------------------------------------------------------------------------

pub open spec fn is_ws_char(c: char) -> bool {
    c == ' ' || c == '\n' || c == '\t' || c == '\r'
}

pub open spec fn trim_end_chars(s: Seq<char>) -> Seq<char>
    decreases s.len(),
{
    if s.len() > 0 && is_ws_char(s[s.len() - 1]) {
        trim_end_chars(s.drop_last())
    } else {
        s
    }
}

pub open spec fn trim_start_chars(s: Seq<char>) -> Seq<char>
    decreases s.len(),
{
    if s.len() > 0 && is_ws_char(s[0]) {
        trim_start_chars(s.drop_first())
    } else {
        s
    }
}

/// Both ends trimmed of whitespace.
pub open spec fn trim_chars(s: Seq<char>) -> Seq<char> {
    trim_start_chars(trim_end_chars(s))
}

pub proof fn lemma_trim_end_at(s: Seq<char>, hi: int)
    requires
        0 <= hi <= s.len(),
        forall|k: int| hi <= k < s.len() ==> is_ws_char(s[k]),
        hi > 0 ==> !is_ws_char(s[hi - 1]),
    ensures
        trim_end_chars(s) == s.take(hi),
    decreases s.len(),
{
    if s.len() == 0 {
        assert(s.take(hi) =~= s);
    } else if hi == s.len() {
        assert(s.take(hi) =~= s);
    } else {
        lemma_trim_end_at(s.drop_last(), hi);
        assert(s.drop_last().take(hi) =~= s.take(hi));
    }
}

pub proof fn lemma_trim_start_at(s: Seq<char>, lo: int)
    requires
        0 <= lo <= s.len(),
        forall|k: int| 0 <= k < lo ==> is_ws_char(s[k]),
        lo < s.len() ==> !is_ws_char(s[lo]),
    ensures
        trim_start_chars(s) == s.skip(lo),
    decreases s.len(),
{
    if lo == 0 {
        assert(s.skip(0) =~= s);
    } else {
        assert(is_ws_char(s[0]));
        lemma_trim_start_at(s.drop_first(), lo - 1);
        assert(s.drop_first().skip(lo - 1) =~= s.skip(lo));
    }
}

fn is_ws(c: char) -> (r: bool)
    ensures
        r == is_ws_char(c),
{
    c == ' ' || c == '\n' || c == '\t' || c == '\r'
}

/// The index just after the last non-whitespace character of `s`.
fn ws_run_start(s: &str) -> (hi: usize)
    ensures
        0 <= hi <= s@.len(),
        forall|k: int| hi <= k < s@.len() ==> is_ws_char(s@[k]),
        hi > 0 ==> !is_ws_char(s@[hi - 1]),
{
    let n: usize = s.unicode_len();
    let mut hi: usize = n;
    while hi > 0
        invariant
            0 <= hi <= n,
            n == s@.len(),
            forall|k: int| hi <= k < n ==> is_ws_char(s@[k]),
        decreases hi,
    {
        if !is_ws(s.get_char(hi - 1)) {
            return hi;
        }
        hi = hi - 1;
    }
    0
}

/// The index of the first non-whitespace character of `s` at or before `hi`.
fn ws_prefix_end(s: &str, hi: usize) -> (lo: usize)
    requires
        hi <= s@.len(),
    ensures
        0 <= lo <= hi,
        forall|k: int| 0 <= k < lo ==> is_ws_char(s@[k]),
        lo < hi ==> !is_ws_char(s@[lo as int]),
{
    let mut lo: usize = 0;
    while lo < hi
        invariant
            0 <= lo <= hi <= s@.len(),
            forall|k: int| 0 <= k < lo ==> is_ws_char(s@[k]),
        decreases hi - lo,
    {
        if !is_ws(s.get_char(lo)) {
            return lo;
        }
        lo = lo + 1;
    }
    lo
}

/// Trim whitespace from both ends, as user input and key files are trimmed.
pub fn trim_str(s: &str) -> (r: String)
    ensures
        r@ == trim_chars(s@),
{
    let hi: usize = ws_run_start(s);
    proof {
        lemma_trim_end_at(s@, hi as int);
    }
    let lo: usize = ws_prefix_end(s, hi);
    let mid = s.substring_char(lo, hi);
    proof {
        let t = s@.take(hi as int);
        assert forall|k: int| 0 <= k < lo implies is_ws_char(t[k]) by {}
        if (lo as int) < t.len() {
            assert(!is_ws_char(t[lo as int]));
        }
        lemma_trim_start_at(t, lo as int);
        assert(t.skip(lo as int) =~= s@.subrange(lo as int, hi as int));
        assert(mid@ =~= trim_chars(s@));
    }
    String::from_str(mid)
}

// ---------------------------------------------------------------------------
// Byte-level trimming and line selection for decrypted content.
// ---------------------------------------------------------------------------

pub open spec fn is_ws_byte(b: u8) -> bool {
    b == 32 || b == 10 || b == 9 || b == 13
}

pub open spec fn trim_end_bytes_spec(s: Seq<u8>) -> Seq<u8>
    decreases s.len(),
{
    if s.len() > 0 && is_ws_byte(s[s.len() - 1]) {
        trim_end_bytes_spec(s.drop_last())
    } else {
        s
    }
}

pub proof fn lemma_trim_end_bytes_at(s: Seq<u8>, hi: int)
    requires
        0 <= hi <= s.len(),
        forall|k: int| hi <= k < s.len() ==> is_ws_byte(s[k]),
        hi > 0 ==> !is_ws_byte(s[hi - 1]),
    ensures
        trim_end_bytes_spec(s) == s.take(hi),
    decreases s.len(),
{
    if s.len() == 0 {
        assert(s.take(hi) =~= s);
    } else if hi == s.len() {
        assert(s.take(hi) =~= s);
    } else {
        lemma_trim_end_bytes_at(s.drop_last(), hi);
        assert(s.drop_last().take(hi) =~= s.take(hi));
    }
}

/// The index just after the last non-whitespace byte of `v`.
fn ws_byte_run_start(v: &[u8]) -> (hi: usize)
    ensures
        0 <= hi <= v@.len(),
        forall|k: int| hi <= k < v@.len() ==> is_ws_byte(v@[k]),
        hi > 0 ==> !is_ws_byte(v@[hi - 1]),
{
    let n: usize = v.len();
    let mut hi: usize = n;
    while hi > 0
        invariant
            0 <= hi <= n,
            n == v@.len(),
            forall|k: int| hi <= k < n ==> is_ws_byte(v@[k]),
        decreases hi,
    {
        let b = v[hi - 1];
        if !(b == 32 || b == 10 || b == 9 || b == 13) {
            return hi;
        }
        hi = hi - 1;
    }
    0
}

/// Trim trailing whitespace from editor output, as the editor collaborator's
/// result is trimmed before the empty check.
pub fn trim_end_bytes(v: &[u8]) -> (r: Vec<u8>)
    ensures
        r@ == trim_end_bytes_spec(v@),
{
    let n: usize = v.len();
    let hi: usize = ws_byte_run_start(v);
    proof {
        lemma_trim_end_bytes_at(v@, hi as int);
    }
    let mut r: Vec<u8> = Vec::new();
    let mut i: usize = 0;
    while i < hi
        invariant
            0 <= i <= hi <= n,
            n == v@.len(),
            r@ == v@.take(i as int),
        decreases hi - i,
    {
        r.push(v[i]);
        proof {
            assert(r@ =~= v@.take(i + 1));
        }
    i = i + 1;
    }
    proof {
        assert(r@ =~= v@.take(hi as int));
    }
    r
}

/// A line with a single trailing carriage return removed, as text is split
/// into lines.
pub open spec fn strip_cr(l: Seq<u8>) -> Seq<u8> {
    if l.len() > 0 && l[l.len() - 1] == 13 {
        l.drop_last()
    } else {
        l
    }
}

/// The lines of a byte string: segments between newlines, each with a
/// trailing carriage return removed; a trailing newline adds no empty line.
pub open spec fn lines_spec(s: Seq<u8>) -> Seq<Seq<u8>> {
    split_on(s, 10).map_values(|l: Seq<u8>| strip_cr(l))
}

/// The number of lines, and the line at `idx` when it exists.
pub fn nth_line(content: &[u8], idx: usize) -> (r: Option<Vec<u8>>)
    ensures
        r matches Some(l) ==> idx < lines_spec(content@).len() && l@ == lines_spec(content@)[idx as int],
        r is None ==> idx >= lines_spec(content@).len(),
{
    let parts = split_bytes(content, 10);
    if idx < parts.len() {
        let part = &parts[idx];
        let m: usize = part.len();
        let mut l: Vec<u8> = Vec::new();
        let keep: usize = if m > 0 && part[m - 1] == 13 {
            m - 1
        } else {
            m
        };
        let mut i: usize = 0;
        while i < keep
            invariant
                0 <= i <= keep <= part@.len(),
                l@ == part@.take(i as int),
            decreases keep - i,
        {
            l.push(part[i]);
            proof {
                assert(l@ =~= part@.take(i + 1));
            }
            i = i + 1;
        }
        proof {
            assert(part@ == parts.deep_view()[idx as int]);
            assert(l@ =~= strip_cr(parts.deep_view()[idx as int]));
        }
        Some(l)
    } else {
        None
    }
}

pub fn has_prefix(s: &str, p: &str) -> (r: bool)
    ensures
        r == is_prefix(p@, s@),
{
    let np: usize = p.unicode_len();
    let ns: usize = s.unicode_len();
    if np > ns {
        return false;
    }
    let head = s.substring_char(0, np);
    let r = str_eq(head, p);
    proof {
        assert(head@ =~= s@.subrange(0, np as int));
    }
    r
}

} // verus!
