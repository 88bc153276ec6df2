use vstd::prelude::*;
use crate::crypto::crypto::BackendKind;
use crate::paths::{trim_chars, trim_str};

verus! {

/// Why no backend could be settled on.
#[derive(Clone, Copy, PartialEq, Eq, Structural, Debug)]
pub enum DetectError {
    /// Neither tool is installed.
    NoBackend,
    /// Both tools are installed and no answer chose between them.
    NoChoice,
}

/// Case-insensitive (ASCII) equality of one character against a lowercase
/// target character.
pub open spec fn char_ci_eq(x: char, t: char) -> bool {
    x == t || (65 <= (x as u32) && (x as u32) <= 90 && (x as u32) + 32 == (t as u32))
}

/// Case-insensitive (ASCII) equality against a lowercase target.
pub open spec fn ci_matches(a: Seq<char>, t: Seq<char>) -> bool {
    a.len() == t.len() && forall|i: int| 0 <= i < a.len() ==> char_ci_eq(a[i], t[i])
}

fn eq_ci(x: char, t: char) -> (r: bool)
    ensures
        r == char_ci_eq(x, t),
{
    let ux: u32 = x as u32;
    let ut: u32 = t as u32;
    x == t || (65 <= ux && ux <= 90 && ux < 0xffff_ffff - 32 && ux + 32 == ut)
}

fn ci_equals(a: &str, t: &str) -> (r: bool)
    ensures
        r == ci_matches(a@, t@),
{
    let n: usize = a.unicode_len();
    let m: usize = t.unicode_len();
    if n != m {
        return false;
    }
    let mut i: usize = 0;
    while i < n
        invariant
            0 <= i <= n,
            n == a@.len(),
            n == t@.len(),
            forall|k: int| 0 <= k < i ==> char_ci_eq(a@[k], t@[k]),
        decreases n - i,
    {
        if !eq_ci(a.get_char(i), t.get_char(i)) {
            return false;
        }
        i = i + 1;
    }
    true
}

/// What one interactive answer chooses: "rage" or "age", case-insensitively,
/// after trimming; anything else chooses nothing.
pub open spec fn answer_choice(a: Seq<char>) -> Option<BackendKind> {
    if ci_matches(trim_chars(a), "rage"@) {
        Some(BackendKind::Rage)
    } else if ci_matches(trim_chars(a), "age"@) {
        Some(BackendKind::Age)
    } else {
        None
    }
}

/// Parse one interactive answer to the "which tool?" prompt.
pub fn resolve_backend_answer(answer: &str) -> (r: Option<BackendKind>)
    ensures
        r == answer_choice(answer@),
{
    let t = trim_str(answer);
    if ci_equals(t.as_str(), "rage") {
        Some(BackendKind::Rage)
    } else if ci_equals(t.as_str(), "age") {
        Some(BackendKind::Age)
    } else {
        None
    }
}

/// The first answer that chooses a backend, if any.
pub open spec fn first_choice(answers: Seq<Seq<char>>) -> Option<BackendKind>
    decreases answers.len(),
{
    if answers.len() == 0 {
        None
    } else if answer_choice(answers[0]) is Some {
        answer_choice(answers[0])
    } else {
        first_choice(answers.drop_first())
    }
}

/// The lowercase name of a backend.
pub open spec fn kind_name(k: BackendKind) -> Seq<char> {
    match k {
        BackendKind::Age => "age"@,
        BackendKind::Rage => "rage"@,
    }
}

/// The full contract of the backend probe's decision: with exactly one tool
/// installed it is chosen silently; with none the probe fails; with both, the
/// first deciding answer wins, and without one nothing is chosen.
pub open spec fn detect_post(
    has_rage: bool,
    has_age: bool,
    answers: Seq<Seq<char>>,
    r: Result<String, DetectError>,
) -> bool {
    if !has_rage && !has_age {
        r matches Err(e) && e is NoBackend
    } else if has_rage && !has_age {
        r matches Ok(s) && s@ == "rage"@
    } else if !has_rage && has_age {
        r matches Ok(s) && s@ == "age"@
    } else {
        match first_choice(answers) {
            Some(k) => r matches Ok(s) && s@ == kind_name(k),
            None => r matches Err(e) && e is NoChoice,
        }
    }
}

/// Decide which backend to use from what is installed and, when both tools
/// are present, from the operator's answers, first deciding answer first.
pub fn detect_crypto_backend(has_rage: bool, has_age: bool, answers: &Vec<String>) -> (r: Result<
    String,
    DetectError,
>)
    ensures
        detect_post(has_rage, has_age, answers.deep_view(), r),
{
    if !has_rage && !has_age {
        return Err(DetectError::NoBackend);
    }
    if has_rage && !has_age {
        return Ok(String::from_str("rage"));
    }
    if !has_rage && has_age {
        return Ok(String::from_str("age"));
    }
    let n: usize = answers.len();
    let ghost all = answers.deep_view();
    let mut i: usize = 0;
    proof {
        assert(all.skip(0) =~= all);
    }
    while i < n
        invariant
            has_rage,
            has_age,
            0 <= i <= n,
            n == all.len(),
            all == answers.deep_view(),
            first_choice(all) == first_choice(all.skip(i as int)),
        decreases n - i,
    {
        proof {
            assert(all[i as int] == answers@[i as int]@);
            assert(all.skip(i as int)[0] == all[i as int]);
        }
        match resolve_backend_answer(answers[i].as_str()) {
            Some(BackendKind::Rage) => {
                proof {
                    assert(first_choice(all.skip(i as int)) == Some(BackendKind::Rage));
                }
                return Ok(String::from_str("rage"));
            },
            Some(BackendKind::Age) => {
                proof {
                    assert(first_choice(all.skip(i as int)) == Some(BackendKind::Age));
                }
                return Ok(String::from_str("age"));
            },
            None => {},
        }
        proof {
            assert(all.skip(i as int).drop_first() =~= all.skip(i + 1));
        }
        i = i + 1;
    }
    proof {
        assert(all.skip(n as int) =~= Seq::<Seq<char>>::empty());
    }
    Err(DetectError::NoChoice)
}

} // verus!
