use haybale_pitchfork::outcome::{contains_text, first_error, outcome_of_error, verdict, ErrorKind, PathOutcome, Verdict};
use haybale_pitchfork::progress::{elapsed, Elapsed};
use haybale_pitchfork::path_statistics::{PathStatistics, StatisticsEntry};
use haybale_pitchfork::pitchfork_config::{KeepGoing, PitchforkConfig};

#[test]
fn fresh_statistics_are_zero() {
    let s = PathStatistics::new();
    assert_eq!(s.num_complete, 0);
    assert_eq!(s.num_ct_violations, 0);
    assert_eq!(s.num_other_errors, 0);
}

#[test]
fn each_outcome_has_its_own_counter() {
    let mut s = PathStatistics::new();
    s.add_path_result(&PathOutcome::Completed);
    s.add_path_result(&PathOutcome::Completed);
    s.add_path_result(&PathOutcome::Violation);
    s.add_path_result(&PathOutcome::OtherError(ErrorKind::Unsat));
    s.add_path_result(&PathOutcome::OtherError(ErrorKind::LoopBoundExceeded));
    s.add_path_result(&PathOutcome::OtherError(ErrorKind::NullPointerDereference));
    s.add_path_result(&PathOutcome::OtherError(ErrorKind::FunctionNotFound));
    s.add_path_result(&PathOutcome::OtherError(ErrorKind::SolverError));
    s.add_path_result(&PathOutcome::OtherError(ErrorKind::UnsupportedInstruction));
    s.add_path_result(&PathOutcome::OtherError(ErrorKind::MalformedInstruction));
    s.add_path_result(&PathOutcome::OtherError(ErrorKind::UnreachableInstruction));
    s.add_path_result(&PathOutcome::OtherError(ErrorKind::FailedToResolveFunctionPointer));
    s.add_path_result(&PathOutcome::OtherError(ErrorKind::HookReturnValueMismatch));
    s.add_path_result(&PathOutcome::OtherError(ErrorKind::OtherError));
    s.add_path_result(&PathOutcome::OtherError(ErrorKind::OtherError));
    assert_eq!(s.num_complete, 2);
    assert_eq!(s.num_ct_violations, 1);
    assert_eq!(s.num_unsats, 1);
    assert_eq!(s.num_loop_bound_exceeded, 1);
    assert_eq!(s.num_null_ptr_deref, 1);
    assert_eq!(s.num_function_not_found, 1);
    assert_eq!(s.num_solver_errors, 1);
    assert_eq!(s.num_unsupported_instruction, 1);
    assert_eq!(s.num_malformed_instruction, 1);
    assert_eq!(s.num_unreachable_instruction, 1);
    assert_eq!(s.num_failed_resolve_fptr, 1);
    assert_eq!(s.num_hook_retval_mismatch, 1);
    assert_eq!(s.num_other_errors, 2);
}

#[test]
fn statistics_of_outcomes_count_every_path_once() {
    let outcomes = vec![
        PathOutcome::Completed,
        PathOutcome::Violation,
        PathOutcome::Completed,
        PathOutcome::OtherError(ErrorKind::Unsat),
    ];
    let s = PathStatistics::of_outcomes(&outcomes);
    assert_eq!(s.num_complete, 2);
    assert_eq!(s.num_ct_violations, 1);
    assert_eq!(s.num_unsats, 1);
    let total = s.num_complete + s.num_ct_violations + s.num_unsats + s.num_other_errors;
    assert_eq!(total, outcomes.len());
}

#[test]
fn summary_shows_first_two_always_and_others_when_present() {
    let s = PathStatistics::new();
    assert_eq!(
        s.summary(),
        vec![(StatisticsEntry::CompletedPaths, 0), (StatisticsEntry::Violations, 0)]
    );
    let mut s = PathStatistics::new();
    s.add_path_result(&PathOutcome::OtherError(ErrorKind::SolverError));
    s.add_path_result(&PathOutcome::OtherError(ErrorKind::NullPointerDereference));
    s.add_path_result(&PathOutcome::Completed);
    assert_eq!(
        s.summary(),
        vec![
            (StatisticsEntry::CompletedPaths, 1),
            (StatisticsEntry::Violations, 0),
            (StatisticsEntry::NullPointerDereferences, 1),
            (StatisticsEntry::SolverErrors, 1),
        ]
    );
    assert_eq!(s.entry_value(StatisticsEntry::SolverErrors), 1);
    assert_eq!(s.entry_value(StatisticsEntry::Unsats), 0);
}

#[test]
fn verdicts() {
    assert_eq!(verdict(&vec![]), Verdict::NoPaths);
    assert_eq!(verdict(&vec![PathOutcome::Completed, PathOutcome::Completed]), Verdict::ConstantTime);
    assert_eq!(
        verdict(&vec![PathOutcome::Completed, PathOutcome::OtherError(ErrorKind::Unsat)]),
        Verdict::Inconclusive
    );
    assert_eq!(
        verdict(&vec![
            PathOutcome::OtherError(ErrorKind::Unsat),
            PathOutcome::Violation,
            PathOutcome::Completed,
        ]),
        Verdict::NotConstantTime
    );
}

#[test]
fn first_error_skips_violations() {
    let outcomes = vec![
        PathOutcome::Completed,
        PathOutcome::Violation,
        PathOutcome::OtherError(ErrorKind::FunctionNotFound),
        PathOutcome::OtherError(ErrorKind::Unsat),
    ];
    assert_eq!(first_error(&outcomes), Some(2));
    assert_eq!(first_error(&vec![PathOutcome::Completed, PathOutcome::Violation]), None);
    assert_eq!(first_error(&vec![]), None);
}

#[test]
fn default_config() {
    let c = PitchforkConfig::default();
    assert_eq!(c.keep_going, KeepGoing::Stop);
    assert!(c.dump_errors);
    assert!(c.dump_coverage_stats);
    assert!(c.progress_updates);
    assert!(!c.debug_logging);
}

#[test]
fn keep_going_decides_whether_to_continue() {
    let mut c = PitchforkConfig::default();
    assert!(c.continues_after(&PathOutcome::Completed, 0));
    // a path with a violation stops the analysis, though the path completed
    assert!(!c.continues_after(&PathOutcome::Completed, 2));
    assert!(!c.continues_after(&PathOutcome::OtherError(ErrorKind::Unsat), 0));
    assert!(!c.dumps_errors());
    c.keep_going = KeepGoing::StopPerPath;
    assert!(c.continues_after(&PathOutcome::Completed, 2));
    assert!(c.dumps_errors());
    c.keep_going = KeepGoing::Full;
    assert!(c.continues_after(&PathOutcome::Completed, 1));
    assert!(c.continues_after(&PathOutcome::OtherError(ErrorKind::Unsat), 0));
    assert!(c.dumps_errors());
    c.dump_errors = false;
    assert!(!c.dumps_errors());
}

#[test]
fn violations_are_counted_on_completed_paths() {
    // three paths explored to their end, two of them with a violation
    let outcomes = vec![
        PathOutcome::Violation,
        PathOutcome::Completed,
        PathOutcome::Completed,
        PathOutcome::Violation,
        PathOutcome::Completed,
    ];
    let stats = PathStatistics::of_outcomes(&outcomes);
    assert_eq!(stats.num_complete, 3);
    assert_eq!(stats.num_ct_violations, 2);
    assert_eq!(verdict(&outcomes), Verdict::NotConstantTime);
}

#[test]
fn violation_messages() {
    assert!(contains_text("abc", "b"));
    assert!(contains_text("abc", ""));
    assert!(!contains_text("ab", "abc"));
    assert_eq!(
        outcome_of_error(ErrorKind::OtherError, "Constant-time violation: control-flow may be influenced by secret data"),
        PathOutcome::Violation
    );
    assert_eq!(outcome_of_error(ErrorKind::OtherError, "something else"), PathOutcome::OtherError(ErrorKind::OtherError));
    assert_eq!(
        outcome_of_error(ErrorKind::Unsat, "Constant-time violation"),
        PathOutcome::OtherError(ErrorKind::Unsat)
    );
}

#[test]
fn elapsed_time_breakdown() {
    assert_eq!(elapsed(59), Elapsed::Seconds(59));
    assert_eq!(elapsed(61), Elapsed::Minutes { minutes: 1, seconds: 1 });
    assert_eq!(elapsed(3599), Elapsed::Minutes { minutes: 59, seconds: 59 });
    assert_eq!(elapsed(3723), Elapsed::Hours { hours: 1, minutes: 2, seconds: 3 });
}

#[test]
fn verdicts_agree_with_statistics() {
    let all_verified = vec![PathOutcome::Completed, PathOutcome::Completed];
    let stats = PathStatistics::of_outcomes(&all_verified);
    assert_eq!(verdict(&all_verified), Verdict::ConstantTime);
    assert_eq!(stats.num_complete, all_verified.len());

    let mixed = vec![PathOutcome::Completed, PathOutcome::OtherError(ErrorKind::Unsat), PathOutcome::Violation];
    let stats = PathStatistics::of_outcomes(&mixed);
    assert_eq!(verdict(&mixed), Verdict::NotConstantTime);
    assert_eq!(stats.num_ct_violations, 1);

    let errors = vec![PathOutcome::Completed, PathOutcome::OtherError(ErrorKind::Unsat)];
    let stats = PathStatistics::of_outcomes(&errors);
    assert_eq!(verdict(&errors), Verdict::Inconclusive);
    assert_eq!((stats.num_ct_violations, stats.num_complete), (0, 1));

    assert_eq!(verdict(&Vec::new()), Verdict::NoPaths);
}

#[test]
fn counts_by_outcome() {
    let outcomes = vec![
        PathOutcome::OtherError(ErrorKind::SolverError),
        PathOutcome::OtherError(ErrorKind::SolverError),
        PathOutcome::Violation,
    ];
    let stats = PathStatistics::of_outcomes(&outcomes);
    assert_eq!(stats.count_of(&PathOutcome::OtherError(ErrorKind::SolverError)), 2);
    assert_eq!(stats.count_of(&PathOutcome::Violation), 1);
    assert_eq!(stats.count_of(&PathOutcome::Completed), 0);
    assert_eq!(stats.num_solver_errors, 2);
}
