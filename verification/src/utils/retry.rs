//! When a failed call to another canister is tried again.

use vstd::prelude::*;

verus! {

/// How many times a failed call is tried again at most.
pub const MAX_RETRIES: u32 = 5;

/// Whether `p` occurs in `s`.
pub open spec fn has_substring(s: Seq<char>, p: Seq<char>) -> bool {
    exists|i: int| 0 <= i && i + p.len() <= s.len() && #[trigger] s.subrange(i, i + p.len()) == p
}

/// Whether the text of an error names a failure that may pass: replicas that
/// disagreed, a timeout, a transient system error, a pending or missing
/// response, or a transaction already known.
pub open spec fn is_transient_error(s: Seq<char>) -> bool {
    ||| has_substring(s, "Canister http responses were different across replicas"@)
    ||| has_substring(s, "Timeout expired"@)
    ||| has_substring(s, "SysTransient"@)
    ||| has_substring(s, "pending"@)
    ||| has_substring(s, "No response"@)
    ||| has_substring(s, "already known"@)
}

/// An error text in which any of the transient markers occurs, at any place,
/// names a failure that may pass, so the call is tried again while fewer than
/// `MAX_RETRIES` retries were made.
pub proof fn transient_marker_anywhere_is_retried(s: Seq<char>, i: int)
    requires
        0 <= i,
    ensures
        i + "Canister http responses were different across replicas"@.len() <= s.len() && s.subrange(
            i,
            i + "Canister http responses were different across replicas"@.len(),
        ) == "Canister http responses were different across replicas"@ ==> is_transient_error(s),
        i + "Timeout expired"@.len() <= s.len() && s.subrange(i, i + "Timeout expired"@.len())
            == "Timeout expired"@ ==> is_transient_error(s),
        i + "SysTransient"@.len() <= s.len() && s.subrange(i, i + "SysTransient"@.len())
            == "SysTransient"@ ==> is_transient_error(s),
        i + "pending"@.len() <= s.len() && s.subrange(i, i + "pending"@.len()) == "pending"@
            ==> is_transient_error(s),
        i + "No response"@.len() <= s.len() && s.subrange(i, i + "No response"@.len())
            == "No response"@ ==> is_transient_error(s),
        i + "already known"@.len() <= s.len() && s.subrange(i, i + "already known"@.len())
            == "already known"@ ==> is_transient_error(s),
{
}

/// An error text in which none of the transient markers occurs, at any place,
/// is never tried again.
pub proof fn no_marker_is_not_retried(s: Seq<char>)
    requires
        forall|i: int|
            0 <= i && i + "Canister http responses were different across replicas"@.len() <= s.len() ==> #[trigger] s.subrange(i, i + "Canister http responses were different across replicas"@.len())
                != "Canister http responses were different across replicas"@,
        forall|i: int|
            0 <= i && i + "Timeout expired"@.len() <= s.len() ==> #[trigger] s.subrange(i, i + "Timeout expired"@.len())
                != "Timeout expired"@,
        forall|i: int|
            0 <= i && i + "SysTransient"@.len() <= s.len() ==> #[trigger] s.subrange(i, i + "SysTransient"@.len())
                != "SysTransient"@,
        forall|i: int|
            0 <= i && i + "pending"@.len() <= s.len() ==> #[trigger] s.subrange(i, i + "pending"@.len())
                != "pending"@,
        forall|i: int|
            0 <= i && i + "No response"@.len() <= s.len() ==> #[trigger] s.subrange(i, i + "No response"@.len())
                != "No response"@,
        forall|i: int|
            0 <= i && i + "already known"@.len() <= s.len() ==> #[trigger] s.subrange(i, i + "already known"@.len())
                != "already known"@,
    ensures
        !is_transient_error(s),
{
}

/// The characters of a text.
fn chars_of(s: &str) -> (res: Vec<char>)
    ensures
        res@ == s@,
{
    let mut res: Vec<char> = Vec::new();
    for c in it: s.chars()
        invariant
            it.seq() == s@,
            res@ == s@.take(it.index() as int),
    {
        proof {
            assert(s@.take(it.index() + 1) =~= s@.take(it.index() as int).push(c));
        }
        res.push(c);
    }
    proof {
        assert(s@.take(s@.len() as int) =~= s@);
    }
    res
}

/// Whether `needle` occurs in `hay` at position `at`.
fn occurs_at(hay: &Vec<char>, needle: &Vec<char>, at: usize) -> (res: bool)
    requires
        at + needle.len() <= hay.len(),
    ensures
        res == (hay@.subrange(at as int, at + needle.len()) == needle@),
{
    let mut k: usize = 0;
    while k < needle.len()
        invariant
            at + needle.len() <= hay.len(),
            k <= needle.len(),
            forall|j: int| 0 <= j < k ==> hay@[at + j] == needle@[j],
        decreases needle.len() - k,
    {
        if hay[at + k] != needle[k] {
            proof {
                assert(hay@.subrange(at as int, at + needle.len())[k as int] != needle@[k as int]);
            }
            return false;
        }
        k = k + 1;
    }
    proof {
        assert(hay@.subrange(at as int, at + needle.len()) =~= needle@);
    }
    true
}

/// Whether `needle` occurs in `hay`.
fn contains_text(hay: &Vec<char>, needle: &str) -> (res: bool)
    ensures
        res == has_substring(hay@, needle@),
{
    let pat = chars_of(needle);
    if pat.len() == 0 {
        proof {
            assert(hay@.subrange(0int, 0int + needle@.len()) =~= needle@);
        }
        return true;
    }
    if pat.len() > hay.len() {
        return false;
    }
    let last = hay.len() - pat.len();
    let mut i: usize = 0;
    while i <= last
        invariant
            pat@ == needle@,
            last == hay.len() - pat.len(),
            0 < pat.len() <= hay.len(),
            i <= last + 1,
            forall|j: int| 0 <= j < i ==> #[trigger] hay@.subrange(j, j + pat@.len()) != pat@,
        decreases last + 1 - i,
    {
        if occurs_at(hay, &pat, i) {
            return true;
        }
        i = i + 1;
    }
    proof {
        assert forall|j: int| 0 <= j && j + pat@.len() <= hay@.len() implies #[trigger] hay@.subrange(
            j,
            j + pat@.len(),
        ) != pat@ by {
            assert(j < i);
        }
    }
    false
}

/// Whether a call that failed with the error text `error`, after `attempts`
/// retries already, is tried again: only while fewer than `MAX_RETRIES`
/// retries were made and the error may pass.
pub fn should_retry(error: &str, attempts: u32) -> (res: bool)
    ensures
        res == (attempts < MAX_RETRIES && is_transient_error(error@)),
        res ==> attempts < MAX_RETRIES,
        forall|i: int|
            0 <= i && i + "Canister http responses were different across replicas"@.len() <= error@.len() && #[trigger] error@.subrange(
                i,
                i + "Canister http responses were different across replicas"@.len(),
            ) == "Canister http responses were different across replicas"@ && attempts < MAX_RETRIES ==> res,
        forall|i: int|
            0 <= i && i + "Timeout expired"@.len() <= error@.len() && #[trigger] error@.subrange(
                i,
                i + "Timeout expired"@.len(),
            ) == "Timeout expired"@ && attempts < MAX_RETRIES ==> res,
        forall|i: int|
            0 <= i && i + "SysTransient"@.len() <= error@.len() && #[trigger] error@.subrange(
                i,
                i + "SysTransient"@.len(),
            ) == "SysTransient"@ && attempts < MAX_RETRIES ==> res,
        forall|i: int|
            0 <= i && i + "pending"@.len() <= error@.len() && #[trigger] error@.subrange(
                i,
                i + "pending"@.len(),
            ) == "pending"@ && attempts < MAX_RETRIES ==> res,
        forall|i: int|
            0 <= i && i + "No response"@.len() <= error@.len() && #[trigger] error@.subrange(
                i,
                i + "No response"@.len(),
            ) == "No response"@ && attempts < MAX_RETRIES ==> res,
        forall|i: int|
            0 <= i && i + "already known"@.len() <= error@.len() && #[trigger] error@.subrange(
                i,
                i + "already known"@.len(),
            ) == "already known"@ && attempts < MAX_RETRIES ==> res,
{
    proof {
        assert forall|i: int|
            0 <= i && i + "Canister http responses were different across replicas"@.len() <= error@.len() && #[trigger] error@.subrange(
                i,
                i + "Canister http responses were different across replicas"@.len(),
            ) == "Canister http responses were different across replicas"@ implies is_transient_error(error@) by {
            transient_marker_anywhere_is_retried(error@, i);
        }
        assert forall|i: int|
            0 <= i && i + "Timeout expired"@.len() <= error@.len() && #[trigger] error@.subrange(
                i,
                i + "Timeout expired"@.len(),
            ) == "Timeout expired"@ implies is_transient_error(error@) by {
            transient_marker_anywhere_is_retried(error@, i);
        }
        assert forall|i: int|
            0 <= i && i + "SysTransient"@.len() <= error@.len() && #[trigger] error@.subrange(
                i,
                i + "SysTransient"@.len(),
            ) == "SysTransient"@ implies is_transient_error(error@) by {
            transient_marker_anywhere_is_retried(error@, i);
        }
        assert forall|i: int|
            0 <= i && i + "pending"@.len() <= error@.len() && #[trigger] error@.subrange(
                i,
                i + "pending"@.len(),
            ) == "pending"@ implies is_transient_error(error@) by {
            transient_marker_anywhere_is_retried(error@, i);
        }
        assert forall|i: int|
            0 <= i && i + "No response"@.len() <= error@.len() && #[trigger] error@.subrange(
                i,
                i + "No response"@.len(),
            ) == "No response"@ implies is_transient_error(error@) by {
            transient_marker_anywhere_is_retried(error@, i);
        }
        assert forall|i: int|
            0 <= i && i + "already known"@.len() <= error@.len() && #[trigger] error@.subrange(
                i,
                i + "already known"@.len(),
            ) == "already known"@ implies is_transient_error(error@) by {
            transient_marker_anywhere_is_retried(error@, i);
        }
    }
    if attempts >= MAX_RETRIES {
        return false;
    }
    let text = chars_of(error);
    contains_text(&text, "Canister http responses were different across replicas")
        || contains_text(&text, "Timeout expired")
        || contains_text(&text, "SysTransient")
        || contains_text(&text, "pending")
        || contains_text(&text, "No response")
        || contains_text(&text, "already known")
}

} // verus!
