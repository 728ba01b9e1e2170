//! Laws of the repair: idempotence, candidate coverage without duplication,
//! preservation of the original value as a suffix, and exact identity when
//! nothing is missing. All are stated for every `PATH` value and every
//! candidate list.

use vstd::prelude::*;
use crate::repair::{join_colon, missing_candidates, repaired_path};
use crate::substring::{
    is_substring_of,
    lemma_substring_extend_left,
    lemma_substring_extend_right,
    lemma_substring_self,
    matches_at,
};

verus! {

/// Each part of a colon-join is a substring of the joined value.
proof fn lemma_join_colon_contains(parts: Seq<Seq<char>>, j: int)
    requires
        0 <= j < parts.len(),
    ensures
        is_substring_of(parts[j], join_colon(parts)),
    decreases parts.len(),
{
    if parts.len() == 1 {
        lemma_substring_self(parts[0]);
    } else if j == parts.len() - 1 {
        lemma_substring_self(parts.last());
        lemma_substring_extend_left(
            parts.last(),
            parts.last(),
            join_colon(parts.drop_last()) + seq![':'],
        );
    } else {
        lemma_join_colon_contains(parts.drop_last(), j);
        lemma_substring_extend_right(parts[j], join_colon(parts.drop_last()), seq![':']);
        lemma_substring_extend_right(
            parts[j],
            join_colon(parts.drop_last()) + seq![':'],
            parts.last(),
        );
    }
}

/// Every candidate that is not a substring of `path` is listed among the
/// missing candidates.
proof fn lemma_missing_complete(path: Seq<char>, cands: Seq<Seq<char>>, i: int)
    requires
        0 <= i < cands.len(),
        !is_substring_of(cands[i], path),
    ensures
        missing_candidates(path, cands).contains(cands[i]),
    decreases cands.len(),
{
    let m = missing_candidates(path, cands);
    let before = missing_candidates(path, cands.drop_last());
    if i == cands.len() - 1 {
        assert(m[m.len() - 1] == cands[i]);
    } else {
        lemma_missing_complete(path, cands.drop_last(), i);
        let k = choose|k: int| 0 <= k < before.len() && before[k] == cands[i];
        assert(m[k] == cands[i]);
    }
}

/// Every listed missing candidate really is a candidate that is not a
/// substring of `path`.
proof fn lemma_missing_sound(path: Seq<char>, cands: Seq<Seq<char>>, j: int)
    requires
        0 <= j < missing_candidates(path, cands).len(),
    ensures
        !is_substring_of(missing_candidates(path, cands)[j], path),
        cands.contains(missing_candidates(path, cands)[j]),
    decreases cands.len(),
{
    let m = missing_candidates(path, cands);
    let before = missing_candidates(path, cands.drop_last());
    if is_substring_of(cands.last(), path) {
        lemma_missing_sound(path, cands.drop_last(), j);
        let k = choose|k: int| 0 <= k < cands.drop_last().len() && cands.drop_last()[k] == m[j];
        assert(cands[k] == m[j]);
    } else if j == m.len() - 1 {
        assert(m[j] == cands.last());
        assert(cands[cands.len() - 1] == m[j]);
    } else {
        lemma_missing_sound(path, cands.drop_last(), j);
        assert(before[j] == m[j]);
        let k = choose|k: int| 0 <= k < cands.drop_last().len() && cands.drop_last()[k] == m[j];
        assert(cands[k] == m[j]);
    }
}

/// No candidate is missing exactly when every candidate is already a
/// substring of `path`.
proof fn lemma_missing_empty_iff(path: Seq<char>, cands: Seq<Seq<char>>)
    ensures
        missing_candidates(path, cands).len() == 0 <==> (forall|i: int|
            0 <= i < cands.len() ==> is_substring_of(#[trigger] cands[i], path)),
    decreases cands.len(),
{
    if cands.len() > 0 {
        let dl = cands.drop_last();
        lemma_missing_empty_iff(path, dl);
        assert(forall|i: int| 0 <= i < dl.len() ==> #[trigger] dl[i] == cands[i]);
        if is_substring_of(cands.last(), path) {
            if missing_candidates(path, dl).len() == 0 {
                assert forall|i: int|
                    0 <= i < cands.len() implies is_substring_of(
                    #[trigger] cands[i],
                    path,
                ) by {
                    if i < cands.len() - 1 {
                        assert(dl[i] == cands[i]);
                    } else {
                        assert(cands[i] == cands.last());
                    }
                }
            } else {
                let i = choose|i: int| 0 <= i < dl.len() && !is_substring_of(#[trigger] dl[i], path);
                assert(!is_substring_of(cands[i], path));
            }
        } else {
            assert(!is_substring_of(cands[cands.len() - 1], path));
        }
    }
}

/// Law: every candidate directory, whether it was already present or had to
/// be prepended, is a substring of the repaired value.
pub proof fn lemma_every_candidate_present(path: Seq<char>, cands: Seq<Seq<char>>, i: int)
    requires
        0 <= i < cands.len(),
    ensures
        is_substring_of(cands[i], repaired_path(path, cands)),
{
    let m = missing_candidates(path, cands);
    let r = repaired_path(path, cands);
    if is_substring_of(cands[i], path) {
        if m.len() > 0 && path.len() == 0 {
            let k = choose|k: int| matches_at(cands[i], path, k);
            assert(cands[i].len() == 0);
            assert(r.subrange(0, 0) =~= cands[i]);
            assert(matches_at(cands[i], r, 0));
        } else if m.len() > 0 {
            lemma_substring_extend_left(cands[i], path, join_colon(m) + seq![':']);
        }
    } else {
        lemma_missing_complete(path, cands, i);
        let j = choose|j: int| 0 <= j < m.len() && m[j] == cands[i];
        lemma_join_colon_contains(m, j);
        if path.len() > 0 {
            lemma_substring_extend_right(cands[i], join_colon(m), seq![':']);
            lemma_substring_extend_right(cands[i], join_colon(m) + seq![':'], path);
        }
    }
}

/// Law: every candidate not already a substring of `path` appears in the
/// repaired value, and a candidate that is already present is never
/// prepended: the prepended prefix is the colon-join of exactly those
/// candidates that were absent, in candidate order, so nothing already
/// present is duplicated.
pub proof fn lemma_candidates_covered_without_duplicates(path: Seq<char>, cands: Seq<Seq<char>>)
    ensures
        forall|i: int|
            0 <= i < cands.len() ==> is_substring_of(
                #[trigger] cands[i],
                repaired_path(path, cands),
            ),
        forall|j: int|
            0 <= j < missing_candidates(path, cands).len() ==> !is_substring_of(
                #[trigger] missing_candidates(path, cands)[j],
                path,
            ) && cands.contains(missing_candidates(path, cands)[j]),
{
    assert forall|i: int|
        0 <= i < cands.len() implies is_substring_of(
        #[trigger] cands[i],
        repaired_path(path, cands),
    ) by {
        lemma_every_candidate_present(path, cands, i);
    }
    assert forall|j: int|
        0 <= j < missing_candidates(path, cands).len() implies !is_substring_of(
        #[trigger] missing_candidates(path, cands)[j],
        path,
    ) && cands.contains(missing_candidates(path, cands)[j]) by {
        lemma_missing_sound(path, cands, j);
    }
}

/// Law: the original `PATH` value is preserved verbatim, in full, as the
/// suffix of the repaired value; stripping the prepended prefix yields the
/// original exactly.
pub proof fn lemma_original_preserved_as_suffix(path: Seq<char>, cands: Seq<Seq<char>>)
    ensures
        repaired_path(path, cands).len() >= path.len(),
        repaired_path(path, cands).subrange(
            repaired_path(path, cands).len() - path.len(),
            repaired_path(path, cands).len() as int,
        ) == path,
{
    let r = repaired_path(path, cands);
    assert(r.subrange(r.len() - path.len(), r.len() as int) =~= path);
}

/// Law: when every candidate is already a substring of `path`, the repaired
/// value is `path` itself, unchanged — no write, no stray colon.
pub proof fn lemma_all_present_means_unchanged(path: Seq<char>, cands: Seq<Seq<char>>)
    requires
        forall|i: int| 0 <= i < cands.len() ==> is_substring_of(#[trigger] cands[i], path),
    ensures
        repaired_path(path, cands) == path,
{
    lemma_missing_empty_iff(path, cands);
}

/// Law: the repair is idempotent — repairing an already repaired value
/// changes nothing.
pub proof fn lemma_repair_idempotent(path: Seq<char>, cands: Seq<Seq<char>>)
    ensures
        repaired_path(repaired_path(path, cands), cands) == repaired_path(path, cands),
{
    let r = repaired_path(path, cands);
    assert forall|i: int| 0 <= i < cands.len() implies is_substring_of(
        #[trigger] cands[i],
        r,
    ) by {
        lemma_every_candidate_present(path, cands, i);
    }
    lemma_all_present_means_unchanged(r, cands);
}

} // verus!

