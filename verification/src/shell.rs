//! The login-shell repair strategy.
//!
//! As an alternative to the static candidate list, the `PATH` a user would
//! see in a terminal can be captured by running a login shell and reading
//! its environment back. The subprocess spawn itself is the embedding
//! application's concern; this module holds the decidable part: given what
//! the spawn attempt observed, either the captured `PATH` value to install
//! verbatim, or the error to report. On any error the caller must fail open
//! and leave `PATH` unmodified.

use vstd::prelude::*;
use vstd::string::{StrSliceExecFns, StringExecFns};
use crate::substring::{matches_at, matches_prefix_at};

verus! {

/// Why the login-shell strategy produced no `PATH` value.
#[derive(Clone, Copy, Debug, PartialEq, Eq, Structural)]
pub enum ShellRepairError {
    /// The login shell binary could not be located.
    ShellUnavailable,
    /// The shell was run but exited abnormally or timed out.
    ShellExecutionFailed,
    /// The captured output held no usable `PATH` assignment.
    ShellOutputUnparseable,
}

/// What an attempt to run the login shell and capture its environment
/// observed, as plain values.
pub enum ShellCapture {
    /// No login shell binary could be located.
    ShellMissing,
    /// The shell was run but exited abnormally or timed out.
    ShellFailed,
    /// The shell ran to completion and printed this output.
    Output(String),
}

/// A `PATH=` assignment starts at position `i` of the captured output: the
/// five characters `PATH=` stand there, at the very start or right after a
/// newline.
pub open spec fn assignment_at(s: Seq<char>, i: int) -> bool {
    &&& matches_at("PATH="@, s, i)
    &&& (i == 0 || s[i - 1] == '\n')
}

/// The captured output holds a usable `PATH` assignment somewhere.
pub open spec fn has_path_assignment(s: Seq<char>) -> bool {
    exists|i: int| assignment_at(s, i)
}

/// The position of the first newline at or after `from`, or the end of the
/// sequence when the rest holds none.
pub open spec fn line_end(s: Seq<char>, from: int) -> int
    decreases s.len() - from,
{
    if from < 0 || from >= s.len() {
        s.len() as int
    } else if s[from] == '\n' {
        from
    } else {
        line_end(s, from + 1)
    }
}

/// The position of the first `PATH=` assignment at or after `i`, scanning
/// left to right.
pub open spec fn first_assignment_from(s: Seq<char>, i: int) -> Option<int>
    decreases s.len() - i,
{
    if i < 0 || i >= s.len() {
        None
    } else if assignment_at(s, i) {
        Some(i)
    } else {
        first_assignment_from(s, i + 1)
    }
}

/// The value of the first `PATH=` assignment of the captured output: the
/// characters between the `PATH=` key and the end of its line. `None` when
/// the output holds no assignment.
pub open spec fn extracted_path_value(s: Seq<char>) -> Option<Seq<char>> {
    match first_assignment_from(s, 0) {
        Some(i) => Some(s.subrange(i + 5, line_end(s, i + 5))),
        None => None,
    }
}

/// When the left-to-right scan finds nothing, no position holds an
/// assignment.
proof fn lemma_no_assignment_after(s: Seq<char>, i: int)
    requires
        0 <= i,
        first_assignment_from(s, i) is None,
    ensures
        forall|j: int| i <= j ==> !assignment_at(s, j),
    decreases s.len() - i,
{
    reveal_strlit("PATH=");
    if i < s.len() {
        assert(!assignment_at(s, i));
        lemma_no_assignment_after(s, i + 1);
        assert forall|j: int| i <= j implies !assignment_at(s, j) by {
            if j > i {
                assert(!assignment_at(s, j));
            }
        }
    } else {
        assert forall|j: int| i <= j implies !assignment_at(s, j) by {
            assert(j + 5 > s.len());
        }
    }
}

/// Extracts the value of the first `PATH=` assignment of the captured
/// output: the characters between the key and the end of that line. Returns
/// `None` exactly when the output holds no such assignment.
pub fn extract_path_assignment(output: &str) -> (value: Option<String>)
    ensures
        value is Some <==> has_path_assignment(output@),
        match value {
            Some(v) => extracted_path_value(output@) == Some(v@),
            None => extracted_path_value(output@) is None,
        },
{
    let len: usize = output.unicode_len();
    let mut i: usize = 0;
    while i < len
        invariant
            i <= len,
            len == output@.len(),
            first_assignment_from(output@, 0) == first_assignment_from(output@, i as int),
        decreases len - i,
    {
        proof {
            reveal_strlit("PATH=");
        }
        let boundary = i == 0 || output.get_char(i - 1) == '\n';
        let key_fits = len - i >= 5;
        if boundary && key_fits && matches_prefix_at(output, "PATH=", i) {
            proof {
                assert(assignment_at(output@, i as int));
                assert(first_assignment_from(output@, i as int) == Some(i as int));
            }
            let mut j: usize = i + 5;
            while j < len && output.get_char(j) != '\n'
                invariant
                    i + 5 <= j <= len,
                    len == output@.len(),
                    line_end(output@, i + 5) == line_end(output@, j as int),
                decreases len - j,
            {
                j += 1;
            }
            proof {
                assert(line_end(output@, j as int) == j);
            }
            let v = output.substring_char(i + 5, j);
            return Some(String::from_str(v));
        }
        proof {
            assert(!assignment_at(output@, i as int));
        }
        i += 1;
    }
    proof {
        lemma_no_assignment_after(output@, 0);
        assert forall|k: int| !assignment_at(output@, k) by {
            if k >= 0 {
                assert(!assignment_at(output@, k));
            }
        }
    }
    None
}

/// Computes the `PATH` value the login-shell strategy installs, given what
/// the spawn attempt observed: the captured value verbatim on success, or
/// the error the caller reports before failing open.
pub fn repair_via_login_shell(capture: ShellCapture) -> (result: Result<
    String,
    ShellRepairError,
>)
    ensures
        capture is ShellMissing ==> result == Err::<String, ShellRepairError>(
            ShellRepairError::ShellUnavailable,
        ),
        capture is ShellFailed ==> result == Err::<String, ShellRepairError>(
            ShellRepairError::ShellExecutionFailed,
        ),
        capture matches ShellCapture::Output(out) ==> match result {
            Ok(path) => has_path_assignment(out@) && extracted_path_value(out@) == Some(
                path@,
            ),
            Err(e) => e == ShellRepairError::ShellOutputUnparseable && !has_path_assignment(
                out@,
            ),
        },
{
    match capture {
        ShellCapture::ShellMissing => Err(ShellRepairError::ShellUnavailable),
        ShellCapture::ShellFailed => Err(ShellRepairError::ShellExecutionFailed),
        ShellCapture::Output(out) => match extract_path_assignment(out.as_str()) {
            Some(path) => Ok(path),
            None => Err(ShellRepairError::ShellOutputUnparseable),
        },
    }
}

} // verus!
