//! Substring containment on character sequences, with a verified search.
//!
//! The repair algorithm decides whether a candidate directory is already
//! present in `PATH` by raw substring containment, so this is the basic
//! predicate everything else is stated over.

use vstd::prelude::*;
use vstd::string::StrSliceExecFns;

verus! {

/// `needle` occurs at position `i` of `hay`.
pub open spec fn matches_at(needle: Seq<char>, hay: Seq<char>, i: int) -> bool {
    &&& 0 <= i
    &&& i + needle.len() <= hay.len()
    &&& hay.subrange(i, i + needle.len() as int) == needle
}

/// `needle` occurs contiguously somewhere inside `hay`.
pub open spec fn is_substring_of(needle: Seq<char>, hay: Seq<char>) -> bool {
    exists|i: int| matches_at(needle, hay, i)
}

/// Decides whether `needle@` occurs at position `i` of `hay@`.
pub(crate) fn matches_prefix_at(hay: &str, needle: &str, i: usize) -> (found: bool)
    requires
        i + needle@.len() <= hay@.len(),
        hay@.len() <= usize::MAX,
    ensures
        found == matches_at(needle@, hay@, i as int),
{
    let needle_len: usize = needle.unicode_len();
    let mut j: usize = 0;
    while j < needle_len
        invariant
            i + needle_len <= hay@.len() <= usize::MAX,
            needle_len == needle@.len(),
            j <= needle_len,
            forall|l: int| 0 <= l < j ==> hay@[i + l] == needle@[l],
        decreases needle_len - j,
    {
        if hay.get_char(i + j) != needle.get_char(j) {
            proof {
                assert(hay@.subrange(i as int, i + needle@.len() as int)[j as int]
                    == hay@[i + j]);
            }
            return false;
        }
        j += 1;
    }
    proof {
        assert(hay@.subrange(i as int, i + needle@.len() as int) =~= needle@);
    }
    true
}

/// Decides substring containment: whether the directory `needle` already
/// occurs somewhere inside the `PATH` value `hay`.
pub fn contains_dir(hay: &str, needle: &str) -> (found: bool)
    ensures
        found == is_substring_of(needle@, hay@),
{
    let hay_len: usize = hay.unicode_len();
    let needle_len: usize = needle.unicode_len();
    if needle_len == 0 {
        proof {
            assert(hay@.subrange(0, 0) =~= needle@);
            assert(matches_at(needle@, hay@, 0));
        }
        return true;
    }
    if needle_len > hay_len {
        proof {
            assert forall|i: int| !matches_at(needle@, hay@, i) by {}
        }
        return false;
    }
    let mut i: usize = 0;
    while i <= hay_len - needle_len
        invariant
            needle_len <= hay_len,
            hay_len == hay@.len(),
            needle_len == needle@.len(),
            1 <= needle_len,
            i <= hay_len - needle_len + 1,
            forall|k: int| 0 <= k < i ==> !matches_at(needle@, hay@, k),
        decreases hay_len - needle_len + 1 - i,
    {
        if matches_prefix_at(hay, needle, i) {
            proof {
                assert(matches_at(needle@, hay@, i as int));
            }
            return true;
        }
        i += 1;
    }
    proof {
        assert forall|k: int| !matches_at(needle@, hay@, k) by {
            if 0 <= k < i {
            } else if k >= i {
                assert(k + needle@.len() > hay@.len());
            }
        }
    }
    false
}

/// A substring of `hay` is still a substring after extending `hay` on the
/// right.
pub proof fn lemma_substring_extend_right(needle: Seq<char>, hay: Seq<char>, ext: Seq<char>)
    requires
        is_substring_of(needle, hay),
    ensures
        is_substring_of(needle, hay + ext),
{
    let i = choose|i: int| matches_at(needle, hay, i);
    assert((hay + ext).subrange(i, i + needle.len() as int)
        =~= hay.subrange(i, i + needle.len() as int));
    assert(matches_at(needle, hay + ext, i));
}

/// A substring of `hay` is still a substring after extending `hay` on the
/// left.
pub proof fn lemma_substring_extend_left(needle: Seq<char>, hay: Seq<char>, ext: Seq<char>)
    requires
        is_substring_of(needle, hay),
    ensures
        is_substring_of(needle, ext + hay),
{
    let i = choose|i: int| matches_at(needle, hay, i);
    let shifted = ext.len() + i;
    assert((ext + hay).subrange(shifted, shifted + needle.len() as int)
        =~= hay.subrange(i, i + needle.len() as int));
    assert(matches_at(needle, ext + hay, shifted));
}

/// Every sequence is a substring of itself.
pub proof fn lemma_substring_self(s: Seq<char>)
    ensures
        is_substring_of(s, s),
{
    assert(s.subrange(0, s.len() as int) =~= s);
    assert(matches_at(s, s, 0));
}

} // verus!
