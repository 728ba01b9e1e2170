//! The static-list `PATH` repair.
//!
//! Given the current `PATH` value and an ordered list of candidate
//! directories, the repaired value prepends, in order, every candidate that
//! is not already a substring of the current value, joined by colons, and
//! keeps the original value verbatim as the suffix. When no candidate is
//! missing the value is left untouched, and an empty original value gets no
//! separator, so no write and no stray colon is ever introduced.

use vstd::prelude::*;
use vstd::string::StringExecFns;
use crate::substring::{contains_dir, is_substring_of, matches_at};

verus! {

/// The fixed candidate directories, in the order they are prepended:
/// Homebrew on Apple Silicon, Homebrew on Intel Mac / Linux, Linuxbrew,
/// and the standard Linux binary directory.
pub open spec fn default_candidates() -> Seq<Seq<char>> {
    seq![
        "/opt/homebrew/bin"@,
        "/usr/local/bin"@,
        "/home/linuxbrew/.linuxbrew/bin"@,
        "/usr/bin"@,
    ]
}

/// The candidates of `cands`, in order, that are not already a substring of
/// `path`: exactly the directories the repair prepends.
pub open spec fn missing_candidates(path: Seq<char>, cands: Seq<Seq<char>>) -> Seq<Seq<char>>
    decreases cands.len(),
{
    if cands.len() == 0 {
        Seq::empty()
    } else if is_substring_of(cands.last(), path) {
        missing_candidates(path, cands.drop_last())
    } else {
        missing_candidates(path, cands.drop_last()).push(cands.last())
    }
}

/// The parts joined with a single colon between consecutive parts, with no
/// leading or trailing colon.
pub open spec fn join_colon(parts: Seq<Seq<char>>) -> Seq<char>
    decreases parts.len(),
{
    if parts.len() == 0 {
        Seq::empty()
    } else if parts.len() == 1 {
        parts[0]
    } else {
        join_colon(parts.drop_last()) + seq![':'] + parts.last()
    }
}

/// The repaired `PATH` value: the missing candidates joined by colons and
/// prepended to the original value, or the original value unchanged when
/// every candidate is already present. An empty original value contributes
/// nothing — the joined missing candidates stand alone, with no trailing
/// colon.
pub open spec fn repaired_path(path: Seq<char>, cands: Seq<Seq<char>>) -> Seq<char> {
    if missing_candidates(path, cands).len() == 0 {
        path
    } else if path.len() == 0 {
        join_colon(missing_candidates(path, cands))
    } else {
        join_colon(missing_candidates(path, cands)) + seq![':'] + path
    }
}

/// Computes the repaired `PATH` for an arbitrary candidate list.
///
/// Returns `Some(new_path)` exactly when at least one candidate is missing
/// from `current`, in which case `new_path` is the repaired value; returns
/// `None` exactly when every candidate is already present, in which case the
/// repaired value is `current` itself and no write is needed.
pub fn repair_with(current: &str, candidates: &Vec<String>) -> (update: Option<String>)
    ensures
        update is Some <==> missing_candidates(current@, candidates.deep_view()).len() > 0,
        update matches Some(new_path) ==> new_path@ == repaired_path(
            current@,
            candidates.deep_view(),
        ),
        update is None ==> repaired_path(current@, candidates.deep_view()) == current@,
{
    let ghost cands: Seq<Seq<char>> = candidates.deep_view();
    let mut acc = String::new();
    let mut idx: usize = 0;
    while idx < candidates.len()
        invariant
            idx <= candidates.len(),
            cands == candidates.deep_view(),
            acc@ == join_colon(missing_candidates(current@, cands.take(idx as int))),
            acc@.len() == 0 <==> missing_candidates(current@, cands.take(idx as int)).len()
                == 0,
        decreases candidates.len() - idx,
    {
        let candidate: &String = &candidates[idx];
        proof {
            reveal_strlit(":");
            assert(cands.take(idx + 1).drop_last() =~= cands.take(idx as int));
            assert(cands.take(idx + 1).last() == candidate@);
        }
        let ghost before = missing_candidates(current@, cands.take(idx as int));
        if !contains_dir(current, candidate.as_str()) {
            if !acc.as_str().is_empty() {
                acc.append(":");
            }
            acc.append(candidate.as_str());
            proof {
                if candidate@.len() == 0 {
                    assert(current@.subrange(0, 0) =~= candidate@);
                    assert(matches_at(candidate@, current@, 0));
                }
                let after = missing_candidates(current@, cands.take(idx + 1));
                assert(after == before.push(candidate@));
                if before.len() == 0 {
                    assert(join_colon(after) == candidate@);
                    assert(acc@ =~= candidate@);
                } else {
                    assert(after.drop_last() =~= before);
                    assert(join_colon(after) == join_colon(before) + seq![':'] + candidate@);
                    assert(":"@ =~= seq![':']);
                }
            }
        } else {
            proof {
                assert(missing_candidates(current@, cands.take(idx + 1)) == before);
            }
        }
        idx += 1;
    }
    proof {
        assert(cands.take(candidates.len() as int) =~= cands);
    }
    if acc.as_str().is_empty() {
        None
    } else {
        if !current.is_empty() {
            acc.append(":");
            acc.append(current);
            proof {
                reveal_strlit(":");
                assert(":"@ =~= seq![':']);
            }
        }
        Some(acc)
    }
}

/// Computes the repaired `PATH` for the fixed default candidate list.
///
/// Returns `Some(new_path)` exactly when at least one default candidate is
/// missing from `current`; returns `None` exactly when every default
/// candidate is already present, so the caller should leave the environment
/// untouched.
pub fn repair(current: &str) -> (update: Option<String>)
    ensures
        update is Some <==> missing_candidates(current@, default_candidates()).len() > 0,
        update matches Some(new_path) ==> new_path@ == repaired_path(
            current@,
            default_candidates(),
        ),
        update is None ==> repaired_path(current@, default_candidates()) == current@,
{
    let mut candidates: Vec<String> = Vec::new();
    candidates.push(String::from_str("/opt/homebrew/bin"));
    candidates.push(String::from_str("/usr/local/bin"));
    candidates.push(String::from_str("/home/linuxbrew/.linuxbrew/bin"));
    candidates.push(String::from_str("/usr/bin"));
    proof {
        assert(candidates.deep_view() =~~= default_candidates());
    }
    repair_with(current, &candidates)
}

} // verus!
