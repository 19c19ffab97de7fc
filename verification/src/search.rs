//! Verified first-occurrence substring search over the character view of
//! a string, the workhorse behind the reply grammar parser.

use vstd::prelude::*;
use vstd::string::*;

verus! {

/// `pat` occurs in `s` starting at character position `i`.
pub open spec fn match_at(s: Seq<char>, pat: Seq<char>, i: int) -> bool {
    &&& 0 <= i
    &&& i + pat.len() <= s.len()
    &&& s.subrange(i, i + pat.len() as int) == pat
}

/// Position of the first occurrence of `pat` in `s` at or after `from`,
/// or `None` when there is none.
pub open spec fn spec_find(s: Seq<char>, pat: Seq<char>, from: int) -> Option<int>
    decreases s.len() - from,
{
    if from < 0 || from + pat.len() > s.len() {
        None
    } else if pat.len() == 0 || s.subrange(from, from + pat.len() as int) == pat {
        Some(from)
    } else {
        spec_find(s, pat, from + 1)
    }
}

/// A found position is a match, and the first one at or after `from`.
pub proof fn lemma_spec_find_some(s: Seq<char>, pat: Seq<char>, from: int)
    requires
        0 <= from,
        spec_find(s, pat, from) is Some,
    ensures
        from <= spec_find(s, pat, from)->Some_0,
        match_at(s, pat, spec_find(s, pat, from)->Some_0),
        forall|j: int| from <= j < spec_find(s, pat, from)->Some_0 ==> !match_at(s, pat, j),
    decreases s.len() - from,
{
    if from + pat.len() > s.len() {
        // spec_find is None here; contradiction with the precondition.
    } else if pat.len() == 0 || s.subrange(from, from + pat.len() as int) == pat {
        assert(s.subrange(from, from + pat.len() as int) =~= pat);
    } else {
        lemma_spec_find_some(s, pat, from + 1);
    }
}

/// `None` from `spec_find` means no match at or after `from`.
pub proof fn lemma_spec_find_none(s: Seq<char>, pat: Seq<char>, from: int)
    requires
        0 <= from,
        spec_find(s, pat, from) is None,
    ensures
        forall|j: int| from <= j ==> !match_at(s, pat, j),
    decreases s.len() - from,
{
    if from + pat.len() > s.len() {
        assert forall|j: int| from <= j implies !match_at(s, pat, j) by {
            assert(j + pat.len() > s.len());
        }
    } else if pat.len() == 0 || s.subrange(from, from + pat.len() as int) == pat {
        // spec_find is Some here; contradiction with the precondition.
    } else {
        lemma_spec_find_none(s, pat, from + 1);
    }
}

/// Whether `pat` occurs in `s` starting exactly at character position `i`.
fn match_at_exec(s: &str, pat: &str, i: usize) -> (b: bool)
    requires
        i + pat@.len() <= s@.len(),
    ensures
        b == match_at(s@, pat@, i as int),
{
    let s_len = s.unicode_len();
    let pat_len = pat.unicode_len();
    let mut j: usize = 0;
    while j < pat_len
        invariant
            0 <= j <= pat_len,
            pat_len == pat@.len(),
            s_len == s@.len(),
            i + pat_len <= s_len,
            forall|k: int| 0 <= k < j ==> s@[i + k] == pat@[k],
        decreases pat_len - j,
    {
        let sc = s.get_char(i + j);
        let pc = pat.get_char(j);
        if sc != pc {
            assert(!match_at(s@, pat@, i as int)) by {
                if match_at(s@, pat@, i as int) {
                    assert(s@.subrange(i as int, i + pat@.len() as int)[j as int] == pat@[j as int]);
                }
            }
            return false;
        }
        j += 1;
    }
    assert(s@.subrange(i as int, i + pat@.len() as int) =~= pat@);
    true
}

/// Character position of the first occurrence of `pat` in `s` at or after
/// position `from`: exactly what `spec_find` describes, so `Some(i)` is a
/// match and nothing matches between `from` and `i`, while `None` means
/// nothing matches anywhere at or after `from`.
pub fn find_from(s: &str, pat: &str, from: usize) -> (r: Option<usize>)
    ensures
        match r {
            Some(i) => {
                &&& spec_find(s@, pat@, from as int) == Some(i as int)
                &&& from <= i
                &&& match_at(s@, pat@, i as int)
                &&& forall|j: int| from <= j < i ==> !match_at(s@, pat@, j)
            },
            None => {
                &&& spec_find(s@, pat@, from as int) is None
                &&& forall|j: int| from <= j ==> !match_at(s@, pat@, j)
            },
        },
{
    let s_len = s.unicode_len();
    let pat_len = pat.unicode_len();
    if pat_len > s_len || from > s_len - pat_len {
        assert(spec_find(s@, pat@, from as int) is None);
        proof {
            lemma_spec_find_none(s@, pat@, from as int);
        }
        return None;
    }
    if pat_len == 0 {
        proof {
            assert(s@.subrange(from as int, from as int) =~= pat@);
        }
        assert(spec_find(s@, pat@, from as int) == Some(from as int));
        return Some(from);
    }
    let mut i: usize = from;
    while i <= s_len - pat_len
        invariant
            from <= i,
            1 <= pat_len <= s_len,
            i <= s_len - pat_len + 1,
            pat_len == pat@.len(),
            s_len == s@.len(),
            spec_find(s@, pat@, from as int) == spec_find(s@, pat@, i as int),
        decreases s_len - i,
    {
        if match_at_exec(s, pat, i) {
            assert(spec_find(s@, pat@, i as int) == Some(i as int));
            proof {
                lemma_spec_find_some(s@, pat@, from as int);
            }
            return Some(i);
        }
        assert(spec_find(s@, pat@, i as int) == spec_find(s@, pat@, i + 1));
        i += 1;
    }
    assert(spec_find(s@, pat@, i as int) is None);
    proof {
        lemma_spec_find_none(s@, pat@, from as int);
    }
    None
}

} // verus!
