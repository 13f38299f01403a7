//! Counts of how the explored paths of a function ended.
use vstd::prelude::*;
use crate::outcome::{some_outcome, spec_verdict, ErrorKind, PathOutcome, Verdict};

verus! {

/// Some statistics which can be computed from the outcomes of the explored
/// paths of a function.
#[derive(PartialEq, Eq, Structural, Clone, Copy, Debug)]
pub struct PathStatistics {
    /// How many paths were explored to their end (with or without
    /// constant-time violations)
    pub num_complete: usize,
    /// How many constant-time violations did we find
    pub num_ct_violations: usize,
    /// How many Unsat errors did we find
    pub num_unsats: usize,
    /// How many LoopBoundExceeded errors did we find
    pub num_loop_bound_exceeded: usize,
    /// How many NullPointerDereference errors did we find
    pub num_null_ptr_deref: usize,
    /// How many FunctionNotFound errors did we find
    pub num_function_not_found: usize,
    /// How many solver errors (including timeouts) did we find
    pub num_solver_errors: usize,
    /// How many UnsupportedInstruction errors did we find
    pub num_unsupported_instruction: usize,
    /// How many MalformedInstruction errors did we find
    pub num_malformed_instruction: usize,
    /// How many UnreachableInstruction errors did we find
    pub num_unreachable_instruction: usize,
    /// How many FailedToResolveFunctionPointer errors did we find
    pub num_failed_resolve_fptr: usize,
    /// How many HookReturnValueMismatch errors did we find
    pub num_hook_retval_mismatch: usize,
    /// How many other errors did we find
    pub num_other_errors: usize,
}

/// How many of the outcomes in `s` are `o`.
pub open spec fn occurrences(s: Seq<PathOutcome>, o: PathOutcome) -> nat
    decreases s.len(),
{
    if s.len() == 0 {
        0
    } else {
        occurrences(s.drop_last(), o) + (if s.last() == o { 1nat } else { 0nat })
    }
}

proof fn lemma_occurrences_bounded(s: Seq<PathOutcome>, o: PathOutcome)
    ensures
        occurrences(s, o) <= s.len(),
    decreases s.len(),
{
    if s.len() > 0 {
        lemma_occurrences_bounded(s.drop_last(), o);
    }
}

/// The entries of the summary that the statistics are shown as, in the order
/// in which they are shown.
#[derive(PartialEq, Eq, Structural, Clone, Copy, Debug)]
pub enum StatisticsEntry {
    CompletedPaths,
    Violations,
    NullPointerDereferences,
    FunctionNotFound,
    UnsupportedInstruction,
    MalformedInstruction,
    Unsats,
    LoopBoundExceeded,
    UnreachableInstruction,
    FailedFunctionPointerResolution,
    HookReturnValueMismatch,
    SolverErrors,
    OtherErrors,
}

/// The summary entries in the order in which they are shown.
pub open spec fn entry_order() -> Seq<StatisticsEntry> {
    seq![
        StatisticsEntry::CompletedPaths,
        StatisticsEntry::Violations,
        StatisticsEntry::NullPointerDereferences,
        StatisticsEntry::FunctionNotFound,
        StatisticsEntry::UnsupportedInstruction,
        StatisticsEntry::MalformedInstruction,
        StatisticsEntry::Unsats,
        StatisticsEntry::LoopBoundExceeded,
        StatisticsEntry::UnreachableInstruction,
        StatisticsEntry::FailedFunctionPointerResolution,
        StatisticsEntry::HookReturnValueMismatch,
        StatisticsEntry::SolverErrors,
        StatisticsEntry::OtherErrors,
    ]
}

/// The path outcome that an entry of the summary counts.
pub open spec fn entry_outcome(e: StatisticsEntry) -> PathOutcome {
    match e {
        StatisticsEntry::CompletedPaths => PathOutcome::Completed,
        StatisticsEntry::Violations => PathOutcome::Violation,
        StatisticsEntry::NullPointerDereferences => PathOutcome::OtherError(ErrorKind::NullPointerDereference),
        StatisticsEntry::FunctionNotFound => PathOutcome::OtherError(ErrorKind::FunctionNotFound),
        StatisticsEntry::UnsupportedInstruction => PathOutcome::OtherError(ErrorKind::UnsupportedInstruction),
        StatisticsEntry::MalformedInstruction => PathOutcome::OtherError(ErrorKind::MalformedInstruction),
        StatisticsEntry::Unsats => PathOutcome::OtherError(ErrorKind::Unsat),
        StatisticsEntry::LoopBoundExceeded => PathOutcome::OtherError(ErrorKind::LoopBoundExceeded),
        StatisticsEntry::UnreachableInstruction => PathOutcome::OtherError(ErrorKind::UnreachableInstruction),
        StatisticsEntry::FailedFunctionPointerResolution => PathOutcome::OtherError(ErrorKind::FailedToResolveFunctionPointer),
        StatisticsEntry::HookReturnValueMismatch => PathOutcome::OtherError(ErrorKind::HookReturnValueMismatch),
        StatisticsEntry::SolverErrors => PathOutcome::OtherError(ErrorKind::SolverError),
        StatisticsEntry::OtherErrors => PathOutcome::OtherError(ErrorKind::OtherError),
    }
}

impl PathStatistics {
    /// The counter that records outcome `o`.
    pub open spec fn count(self, o: PathOutcome) -> usize {
        match o {
            PathOutcome::Completed => self.num_complete,
            PathOutcome::Violation => self.num_ct_violations,
            PathOutcome::OtherError(k) => match k {
                ErrorKind::Unsat => self.num_unsats,
                ErrorKind::LoopBoundExceeded => self.num_loop_bound_exceeded,
                ErrorKind::NullPointerDereference => self.num_null_ptr_deref,
                ErrorKind::FunctionNotFound => self.num_function_not_found,
                ErrorKind::SolverError => self.num_solver_errors,
                ErrorKind::UnsupportedInstruction => self.num_unsupported_instruction,
                ErrorKind::MalformedInstruction => self.num_malformed_instruction,
                ErrorKind::UnreachableInstruction => self.num_unreachable_instruction,
                ErrorKind::FailedToResolveFunctionPointer => self.num_failed_resolve_fptr,
                ErrorKind::HookReturnValueMismatch => self.num_hook_retval_mismatch,
                ErrorKind::OtherError => self.num_other_errors,
            },
        }
    }

    /// The number of paths counted, whatever their outcome.
    pub open spec fn total(self) -> int {
        self.num_complete + self.num_ct_violations + self.num_unsats + self.num_loop_bound_exceeded
            + self.num_null_ptr_deref + self.num_function_not_found + self.num_solver_errors
            + self.num_unsupported_instruction + self.num_malformed_instruction
            + self.num_unreachable_instruction + self.num_failed_resolve_fptr
            + self.num_hook_retval_mismatch + self.num_other_errors
    }

    /// A fresh `PathStatistics` with all zeroes
    pub fn new() -> (r: Self)
        ensures
            forall|o: PathOutcome| #[trigger] r.count(o) == 0,
            r.total() == 0,
    {
        Self {
            num_complete: 0,
            num_ct_violations: 0,
            num_unsats: 0,
            num_loop_bound_exceeded: 0,
            num_null_ptr_deref: 0,
            num_function_not_found: 0,
            num_solver_errors: 0,
            num_unsupported_instruction: 0,
            num_malformed_instruction: 0,
            num_unreachable_instruction: 0,
            num_failed_resolve_fptr: 0,
            num_hook_retval_mismatch: 0,
            num_other_errors: 0,
        }
    }

    /// Counts one more path with the given outcome: its counter goes up by
    /// one and every other counter stays.
    pub fn add_path_result(&mut self, path_result: &PathOutcome)
        requires
            old(self).count(*path_result) < usize::MAX,
        ensures
            forall|o: PathOutcome| #[trigger] final(self).count(o)
                == old(self).count(o) + (if o == *path_result { 1int } else { 0int }),
            final(self).total() == old(self).total() + 1,
    {
        match path_result {
            PathOutcome::Completed => self.num_complete += 1,
            PathOutcome::Violation => self.num_ct_violations += 1,
            PathOutcome::OtherError(ErrorKind::Unsat) => self.num_unsats += 1,
            PathOutcome::OtherError(ErrorKind::LoopBoundExceeded) => self.num_loop_bound_exceeded += 1,
            PathOutcome::OtherError(ErrorKind::NullPointerDereference) => self.num_null_ptr_deref += 1,
            PathOutcome::OtherError(ErrorKind::FunctionNotFound) => self.num_function_not_found += 1,
            PathOutcome::OtherError(ErrorKind::SolverError) => self.num_solver_errors += 1,
            PathOutcome::OtherError(ErrorKind::UnsupportedInstruction) => self.num_unsupported_instruction += 1,
            PathOutcome::OtherError(ErrorKind::MalformedInstruction) => self.num_malformed_instruction += 1,
            PathOutcome::OtherError(ErrorKind::UnreachableInstruction) => self.num_unreachable_instruction += 1,
            PathOutcome::OtherError(ErrorKind::FailedToResolveFunctionPointer) => self.num_failed_resolve_fptr += 1,
            PathOutcome::OtherError(ErrorKind::HookReturnValueMismatch) => self.num_hook_retval_mismatch += 1,
            PathOutcome::OtherError(ErrorKind::OtherError) => self.num_other_errors += 1,
        }
    }

    /// The statistics of the given path outcomes: each counter holds the
    /// number of paths with its outcome.
    pub fn of_outcomes(outcomes: &Vec<PathOutcome>) -> (r: Self)
        ensures
            forall|o: PathOutcome| #[trigger] r.count(o) == occurrences(outcomes@, o),
            r.total() == outcomes@.len(),
    {
        let mut stats = PathStatistics::new();
        let mut i: usize = 0;
        while i < outcomes.len()
            invariant
                i <= outcomes@.len(),
                forall|o: PathOutcome| #[trigger] stats.count(o) == occurrences(outcomes@.subrange(0, i as int), o),
                stats.total() == i,
            decreases outcomes.len() - i,
        {
            let ghost before = outcomes@.subrange(0, i as int);
            let ghost after = outcomes@.subrange(0, i + 1);
            proof {
                assert(after.drop_last() =~= before);
                lemma_occurrences_bounded(before, outcomes@[i as int]);
            }
            stats.add_path_result(&outcomes[i]);
            i = i + 1;
            assert forall|o: PathOutcome| #[trigger] stats.count(o) == occurrences(after, o) by {
                assert(after.last() == outcomes@[i - 1]);
            }
        }
        assert(outcomes@.subrange(0, i as int) =~= outcomes@);
        stats
    }

    /// The number of paths counted with outcome `o`.
    pub fn count_of(&self, o: &PathOutcome) -> (r: usize)
        ensures
            r == self.count(*o),
    {
        match o {
            PathOutcome::Completed => self.num_complete,
            PathOutcome::Violation => self.num_ct_violations,
            PathOutcome::OtherError(ErrorKind::Unsat) => self.num_unsats,
            PathOutcome::OtherError(ErrorKind::LoopBoundExceeded) => self.num_loop_bound_exceeded,
            PathOutcome::OtherError(ErrorKind::NullPointerDereference) => self.num_null_ptr_deref,
            PathOutcome::OtherError(ErrorKind::FunctionNotFound) => self.num_function_not_found,
            PathOutcome::OtherError(ErrorKind::SolverError) => self.num_solver_errors,
            PathOutcome::OtherError(ErrorKind::UnsupportedInstruction) => self.num_unsupported_instruction,
            PathOutcome::OtherError(ErrorKind::MalformedInstruction) => self.num_malformed_instruction,
            PathOutcome::OtherError(ErrorKind::UnreachableInstruction) => self.num_unreachable_instruction,
            PathOutcome::OtherError(ErrorKind::FailedToResolveFunctionPointer) => self.num_failed_resolve_fptr,
            PathOutcome::OtherError(ErrorKind::HookReturnValueMismatch) => self.num_hook_retval_mismatch,
            PathOutcome::OtherError(ErrorKind::OtherError) => self.num_other_errors,
        }
    }

    /// The value of one entry of the summary.
    pub fn entry_value(&self, e: StatisticsEntry) -> (r: usize)
        ensures
            r == self.count(entry_outcome(e)),
    {
        match e {
            StatisticsEntry::CompletedPaths => self.num_complete,
            StatisticsEntry::Violations => self.num_ct_violations,
            StatisticsEntry::NullPointerDereferences => self.num_null_ptr_deref,
            StatisticsEntry::FunctionNotFound => self.num_function_not_found,
            StatisticsEntry::UnsupportedInstruction => self.num_unsupported_instruction,
            StatisticsEntry::MalformedInstruction => self.num_malformed_instruction,
            StatisticsEntry::Unsats => self.num_unsats,
            StatisticsEntry::LoopBoundExceeded => self.num_loop_bound_exceeded,
            StatisticsEntry::UnreachableInstruction => self.num_unreachable_instruction,
            StatisticsEntry::FailedFunctionPointerResolution => self.num_failed_resolve_fptr,
            StatisticsEntry::HookReturnValueMismatch => self.num_hook_retval_mismatch,
            StatisticsEntry::SolverErrors => self.num_solver_errors,
            StatisticsEntry::OtherErrors => self.num_other_errors,
        }
    }

    /// The entries that the summary shows, in order, with their values: the
    /// completed paths and the constant-time violations always, every other
    /// kind of error only where it occurred.
    pub fn summary(&self) -> (r: Vec<(StatisticsEntry, usize)>)
        ensures
            r@ == entry_order().filter(|e: StatisticsEntry| self.shows(e)).map_values(
                |e: StatisticsEntry| (e, self.count(entry_outcome(e))),
            ),
    {
        let order: Vec<StatisticsEntry> = vec![
            StatisticsEntry::CompletedPaths,
            StatisticsEntry::Violations,
            StatisticsEntry::NullPointerDereferences,
            StatisticsEntry::FunctionNotFound,
            StatisticsEntry::UnsupportedInstruction,
            StatisticsEntry::MalformedInstruction,
            StatisticsEntry::Unsats,
            StatisticsEntry::LoopBoundExceeded,
            StatisticsEntry::UnreachableInstruction,
            StatisticsEntry::FailedFunctionPointerResolution,
            StatisticsEntry::HookReturnValueMismatch,
            StatisticsEntry::SolverErrors,
            StatisticsEntry::OtherErrors,
        ];
        assert(order@ =~= entry_order());
        let ghost keep = |e: StatisticsEntry| self.shows(e);
        let ghost pair = |e: StatisticsEntry| (e, self.count(entry_outcome(e)));
        let mut r: Vec<(StatisticsEntry, usize)> = Vec::new();
        let mut i: usize = 0;
        while i < order.len()
            invariant
                i <= order@.len(),
                order@ == entry_order(),
                keep == (|e: StatisticsEntry| self.shows(e)),
                pair == (|e: StatisticsEntry| (e, self.count(entry_outcome(e)))),
                r@ == order@.subrange(0, i as int).filter(keep).map_values(pair),
            decreases order.len() - i,
        {
            let e = order[i];
            let v = self.entry_value(e);
            proof {
                assert(order@.subrange(0, i + 1).drop_last() =~= order@.subrange(0, i as int));
                reveal(Seq::filter);
            }
            let always = match e {
                StatisticsEntry::CompletedPaths => true,
                StatisticsEntry::Violations => true,
                _ => false,
            };
            if always || v > 0 {
                r.push((e, v));
                assert(r@ =~= order@.subrange(0, i + 1).filter(keep).map_values(pair));
            } else {
                assert(r@ =~= order@.subrange(0, i + 1).filter(keep).map_values(pair));
            }
            i = i + 1;
        }
        assert(order@.subrange(0, i as int) =~= order@);
        r
    }

    /// Does the summary show entry `e`? The completed paths and the violations
    /// always; any other entry only when its count is positive.
    pub open spec fn shows(self, e: StatisticsEntry) -> bool {
        e is CompletedPaths || e is Violations || self.count(entry_outcome(e)) > 0
    }
}

proof fn lemma_occurrences_some(s: Seq<PathOutcome>, o: PathOutcome)
    ensures
        occurrences(s, o) > 0 <==> exists|i: int| 0 <= i < s.len() && s[i] == o,
        occurrences(s, o) == s.len() <==> forall|i: int| 0 <= i < s.len() ==> s[i] == o,
    decreases s.len(),
{
    if s.len() > 0 {
        let u = s.drop_last();
        lemma_occurrences_some(u, o);
        lemma_occurrences_bounded(u, o);
        assert forall|i: int| 0 <= i < u.len() implies u[i] == s[i] by {}
        if exists|i: int| 0 <= i < s.len() && s[i] == o {
            let i = choose|i: int| 0 <= i < s.len() && s[i] == o;
            if i < s.len() - 1 {
                assert(u[i] == o);
            }
        }
        if occurrences(s, o) == s.len() {
            assert forall|i: int| 0 <= i < s.len() implies s[i] == o by {
                if i < s.len() - 1 {
                    assert(u[i] == s[i]);
                }
            }
        }
        if forall|i: int| 0 <= i < s.len() ==> s[i] == o {
            assert forall|i: int| 0 <= i < u.len() implies u[i] == o by {
                assert(u[i] == s[i]);
            }
            assert(s.last() == s[s.len() - 1]);
        }
    }
}

/// The verdict on a function agrees with the statistics of its paths: it is
/// constant-time exactly when something was recorded and every record is a
/// path explored to its end (no violation, no error), not constant-time
/// exactly when some violation was found, and there are no paths exactly
/// when nothing was recorded.
pub proof fn law_verdict_agrees_with_statistics(s: Seq<PathOutcome>)
    ensures
        (spec_verdict(s) == Verdict::ConstantTime) <==> (s.len() > 0 && occurrences(
            s,
            PathOutcome::Completed,
        ) == s.len()),
        (spec_verdict(s) == Verdict::NotConstantTime) <==> occurrences(s, PathOutcome::Violation) > 0,
        (spec_verdict(s) == Verdict::NoPaths) <==> s.len() == 0,
{
    lemma_occurrences_some(s, PathOutcome::Completed);
    lemma_occurrences_some(s, PathOutcome::Violation);
    let violation = |o: PathOutcome| o is Violation;
    let error = |o: PathOutcome| o is OtherError;
    if some_outcome(s, violation) {
        let i = choose|i: int| 0 <= i < s.len() && violation(s[i]);
        assert(s[i] == PathOutcome::Violation);
        assert(s[i] != PathOutcome::Completed);
    } else {
        assert forall|i: int| 0 <= i < s.len() implies s[i] != PathOutcome::Violation by {
            assert(!violation(s[i]));
        }
    }
    if some_outcome(s, error) {
        let i = choose|i: int| 0 <= i < s.len() && error(s[i]);
        assert(s[i] != PathOutcome::Completed);
    } else if s.len() > 0 && !some_outcome(s, violation) {
        assert forall|i: int| 0 <= i < s.len() implies s[i] == PathOutcome::Completed by {
            assert(!violation(s[i]));
            assert(!error(s[i]));
        }
    }
}

} // verus!
