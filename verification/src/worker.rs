//! Worker-side decision logic.
//!
//! The worker's dispatch loops are plain plumbing: they poll the server,
//! run a handler, and send the outcome back. The decisions in that loop —
//! how a handler outcome becomes a completion request, how a completion
//! envelope is read back as an outcome, and how a handler's registered name
//! is derived from its type path — are pure and live here.

use vstd::prelude::*;

use crate::trusted;

verus! {

/// Reads a completion envelope by the wire convention: a non-empty
/// `result` is a success, else a non-empty `error` is a failure, else the
/// completion carries nothing and the caller keeps polling.
pub fn completion_outcome(result: String, error: String) -> (r: Option<Result<String, String>>)
    ensures
        result@.len() > 0 ==> r == Some(Ok::<String, String>(result)),
        result@.len() == 0 && error@.len() > 0 ==> r == Some(Err::<String, String>(error)),
        result@.len() == 0 && error@.len() == 0 ==> r is None,
{
    if !result.as_str().is_empty() {
        Some(Ok(result))
    } else if !error.as_str().is_empty() {
        Some(Err(error))
    } else {
        None
    }
}

/// Turns a handler outcome into the `(result, error)` pair of a completion
/// request: the payload travels in the field matching the outcome and the
/// other field is the empty string.
pub fn outcome_to_completion(outcome: Result<String, String>) -> (r: (String, String))
    ensures
        outcome matches Ok(v) ==> r.0 == v && r.1@ == Seq::<char>::empty(),
        outcome matches Err(e) ==> r.1 == e && r.0@ == Seq::<char>::empty(),
{
    match outcome {
        Ok(v) => (v, String::new()),
        Err(e) => (String::new(), e),
    }
}

/// The short name of a type path: the suffix after the last `::`, or the
/// whole string when no `::` occurs. Registration derives a handler's name
/// this way from its fully qualified type name.
pub fn short_type_name(s: &str) -> (r: String)
    ensures
        exists|cut: int|
            #![trigger s@.subrange(cut, s@.len() as int)]
            0 <= cut <= s@.len() && r@ == s@.subrange(cut, s@.len() as int) && (cut == 0 || (cut
                >= 2 && s@[cut - 1] == ':' && s@[cut - 2] == ':')) && (forall|j: int|
                #![trigger s@[j]]
                0 <= j < s@.len() - 1 && j >= cut - 1 ==> !(s@[j] == ':' && s@[j + 1] == ':')),
{
    let n = s.unicode_len();
    let mut cut: usize = 0;
    let mut i: usize = n;
    loop
        invariant_except_break
            n == s@.len(),
            cut == 0,
            i <= n,
            forall|j: int|
                #![trigger s@[j]]
                0 <= j < n - 1 && j >= i as int - 1 ==> !(s@[j] == ':' && s@[j + 1] == ':'),
        ensures
            cut <= n && (cut == 0 || (cut >= 2 && s@[cut as int - 1] == ':' && s@[cut as int - 2]
                == ':')) && (forall|j: int|
                #![trigger s@[j]]
                0 <= j < n - 1 && j >= cut as int - 1 ==> !(s@[j] == ':' && s@[j + 1] == ':')),
        decreases i,
    {
        if i < 2 {
            break ;
        }
        if s.get_char(i - 1) == ':' && s.get_char(i - 2) == ':' {
            cut = i;
            break ;
        }
        i = i - 1;
    }
    let ghost gcut = cut as int;
    let mut r = String::new();
    let mut k: usize = cut;
    proof {
        assert(s@.subrange(gcut, gcut) =~= Seq::<char>::empty());
    }
    while k < n
        invariant
            n == s@.len(),
            0 <= gcut <= k <= n,
            r@ == s@.subrange(gcut, k as int),
        decreases n - k,
    {
        let c = s.get_char(k);
        trusted::push_char(&mut r, c);
        proof {
            assert(s@.subrange(gcut, k + 1) =~= s@.subrange(gcut, k as int).push(s@[k as int]));
        }
        k = k + 1;
    }
    proof {
        assert(r@ == s@.subrange(gcut, s@.len() as int));
    }
    r
}

} // verus!
