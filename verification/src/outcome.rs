//! What the exploration of one path of a function can end in, and what the
//! outcomes of all explored paths say about the function as a whole.
use vstd::prelude::*;

verus! {

/// The kind of error that stopped the analysis of a path, other than a
/// constant-time violation.
#[derive(PartialEq, Eq, Structural, Clone, Copy, Debug)]
pub enum ErrorKind {
    Unsat,
    LoopBoundExceeded,
    NullPointerDereference,
    FunctionNotFound,
    /// A solver error, including a timeout.
    SolverError,
    UnsupportedInstruction,
    MalformedInstruction,
    UnreachableInstruction,
    FailedToResolveFunctionPointer,
    HookReturnValueMismatch,
    OtherError,
}

/// What the analysis of the paths of a function records, in order: for each
/// path, the constant-time violations found on it, then how it ended
/// (explored to its end, or stopped by an error). A violation does not stop
/// its path.
#[derive(PartialEq, Eq, Structural, Clone, Copy, Debug)]
pub enum PathOutcome {
    /// The path was explored to its end.
    Completed,
    /// A constant-time violation was found on the path.
    Violation,
    /// An error stopped the analysis of the path.
    OtherError(ErrorKind),
}

/// What the outcomes of the explored paths say about the function.
#[derive(PartialEq, Eq, Structural, Clone, Copy, Debug)]
pub enum Verdict {
    /// No path was explored: there were no valid paths and no errors.
    NoPaths,
    /// Every explored path was explored to its end without a violation.
    ConstantTime,
    /// At least one constant-time violation was found.
    NotConstantTime,
    /// No path has a violation, but the analysis of at least one path ended
    /// in another error.
    Inconclusive,
}

/// Does some outcome in `s` satisfy `p`?
pub open spec fn some_outcome(s: Seq<PathOutcome>, p: spec_fn(PathOutcome) -> bool) -> bool {
    exists|i: int| 0 <= i < s.len() && p(s[i])
}

/// The verdict that a sequence of path outcomes gives.
pub open spec fn spec_verdict(s: Seq<PathOutcome>) -> Verdict {
    if s.len() == 0 {
        Verdict::NoPaths
    } else if some_outcome(s, |o: PathOutcome| o is Violation) {
        Verdict::NotConstantTime
    } else if some_outcome(s, |o: PathOutcome| o is OtherError) {
        Verdict::Inconclusive
    } else {
        Verdict::ConstantTime
    }
}

/// The verdict on a function from the outcomes of its explored paths:
/// constant-time only when every explored path is, and not constant-time as
/// soon as one path has a violation.
pub fn verdict(outcomes: &Vec<PathOutcome>) -> (r: Verdict)
    ensures
        r == spec_verdict(outcomes@),
{
    if outcomes.len() == 0 {
        return Verdict::NoPaths;
    }
    let mut violation = false;
    let mut error = false;
    let mut i: usize = 0;
    while i < outcomes.len()
        invariant
            i <= outcomes@.len(),
            violation == some_outcome(outcomes@.subrange(0, i as int), |o: PathOutcome| o is Violation),
            error == some_outcome(outcomes@.subrange(0, i as int), |o: PathOutcome| o is OtherError),
        decreases outcomes.len() - i,
    {
        let ghost before = outcomes@.subrange(0, i as int);
        let ghost after = outcomes@.subrange(0, i + 1);
        proof {
            assert(after =~= before.push(outcomes@[i as int]));
            assert forall|p: spec_fn(PathOutcome) -> bool|
                some_outcome(after, p) == (some_outcome(before, p) || p(outcomes@[i as int])) by {
                if some_outcome(before, p) {
                    let j = choose|j: int| 0 <= j < before.len() && p(before[j]);
                    assert(after[j] == before[j]);
                }
                if some_outcome(after, p) && !p(outcomes@[i as int]) {
                    let j = choose|j: int| 0 <= j < after.len() && p(after[j]);
                    assert(before[j] == after[j]);
                }
                if p(outcomes@[i as int]) {
                    assert(after[i as int] == outcomes@[i as int]);
                }
            }
        }
        match outcomes[i] {
            PathOutcome::Completed => {},
            PathOutcome::Violation => {
                violation = true;
            },
            PathOutcome::OtherError(_) => {
                error = true;
            },
        }
        i = i + 1;
    }
    assert(outcomes@.subrange(0, i as int) =~= outcomes@);
    if violation {
        Verdict::NotConstantTime
    } else if error {
        Verdict::Inconclusive
    } else {
        Verdict::ConstantTime
    }
}

/// The position of the first outcome that is an error other than a
/// constant-time violation, if there is one.
pub fn first_error(outcomes: &Vec<PathOutcome>) -> (r: Option<usize>)
    ensures
        match r {
            Some(i) => {
                &&& i < outcomes@.len()
                &&& outcomes@[i as int] is OtherError
                &&& forall|j: int| 0 <= j < i ==> !(outcomes@[j] is OtherError)
            },
            None => forall|j: int| 0 <= j < outcomes@.len() ==> !(outcomes@[j] is OtherError),
        },
{
    let mut i: usize = 0;
    while i < outcomes.len()
        invariant
            i <= outcomes@.len(),
            forall|j: int| 0 <= j < i ==> !(outcomes@[j] is OtherError),
        decreases outcomes.len() - i,
    {
        match outcomes[i] {
            PathOutcome::OtherError(_) => {
                return Some(i);
            },
            _ => {},
        }
        i = i + 1;
    }
    None
}

/// Does `sub` occur in `s` at position `i`?
pub open spec fn occurs_at(s: Seq<char>, sub: Seq<char>, i: int) -> bool {
    0 <= i && i + sub.len() <= s.len() && s.subrange(i, i + sub.len()) == sub
}

/// Does `sub` occur anywhere in `s`?
pub open spec fn occurs_in(s: Seq<char>, sub: Seq<char>) -> bool {
    exists|i: int| occurs_at(s, sub, i)
}

/// Does `sub` occur in `s`?
pub fn contains_text(s: &str, sub: &str) -> (r: bool)
    ensures
        r == occurs_in(s@, sub@),
{
    let n = s.unicode_len();
    let m = sub.unicode_len();
    if m > n {
        assert forall|i: int| !occurs_at(s@, sub@, i) by {}
        return false;
    }
    let mut i: usize = 0;
    while i <= n - m
        invariant
            n == s@.len(),
            m == sub@.len(),
            m <= n,
            i <= n - m + 1,
            forall|k: int| 0 <= k < i ==> !occurs_at(s@, sub@, k),
        decreases n - m + 1 - i,
    {
        let mut j: usize = 0;
        let mut same = true;
        while j < m
            invariant
                n == s@.len(),
                m == sub@.len(),
                i + m <= n,
                j <= m,
                same == forall|l: int| 0 <= l < j ==> s@[i + l] == sub@[l],
            decreases m - j,
        {
            if s.get_char(i + j) != sub.get_char(j) {
                same = false;
            }
            j = j + 1;
        }
        if same {
            assert(s@.subrange(i as int, i + m) =~= sub@);
            assert(occurs_at(s@, sub@, i as int));
            return true;
        }
        assert(!occurs_at(s@, sub@, i as int)) by {
            let l = choose|l: int| 0 <= l < m && s@[i + l] != sub@[l];
            assert(s@.subrange(i as int, i + m)[l] == s@[i + l]);
        }
        i = i + 1;
    }
    assert forall|k: int| !occurs_at(s@, sub@, k) by {
        if 0 <= k && k + m <= n {
            assert(k < i);
        }
    }
    false
}

/// How the analysis of a path that ended in an error with the message `msg`
/// ended: a constant-time violation when the message says so, another
/// error (of the given kind) otherwise.
pub fn outcome_of_error(kind: ErrorKind, msg: &str) -> (r: PathOutcome)
    ensures
        r == (if kind == ErrorKind::OtherError && occurs_in(msg@, "Constant-time violation"@) {
            PathOutcome::Violation
        } else {
            PathOutcome::OtherError(kind)
        }),
{
    match kind {
        ErrorKind::OtherError => if contains_text(msg, "Constant-time violation") {
            PathOutcome::Violation
        } else {
            PathOutcome::OtherError(kind)
        },
        _ => PathOutcome::OtherError(kind),
    }
}

} // verus!
