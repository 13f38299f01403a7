use haybale_pitchfork::outcome::{ErrorKind, PathOutcome};
use haybale_pitchfork::path_statistics::StatisticsEntry;
use haybale_pitchfork::progress::{
    elapsed, handling, DisplayLine, Elapsed, Handling, LayoutError, MessageKind, ProgressDisplay, TermCommand,
};

/// Where the cursor ends, counting rows upwards from where it starts.
fn cursor(cmds: &[TermCommand], start: i64) -> i64 {
    cmds.iter().fold(start, |row, c| match c {
        TermCommand::Up(n) => row + *n as i64,
        TermCommand::Down(n) => row - *n as i64,
        TermCommand::Print(_) => row - 1,
        _ => row,
    })
}

fn height(d: &ProgressDisplay) -> i64 {
    11 + d.rows_of_loc as i64 + d.rows_of_log as i64 + d.rows_of_stats as i64
}

#[test]
fn a_fresh_display_and_its_first_lines() {
    let d = ProgressDisplay::new();
    assert_eq!((d.rows_of_log, d.rows_of_stats, d.rows_of_loc), (1, 2, 1));
    let cmds = d.initial_lines();
    assert_eq!(cmds[0], TermCommand::Print(DisplayLine::Title));
    assert_eq!(cmds[2], TermCommand::Print(DisplayLine::Stat(StatisticsEntry::CompletedPaths, 0)));
    assert_eq!(cmds[3], TermCommand::Print(DisplayLine::Stat(StatisticsEntry::Violations, 0)));
    assert_eq!(cmds.len(), 14);
    // the cursor ends on the first location row: 3 rows above home, 15 below the title
    assert_eq!(cursor(&cmds, 0), 3 - 15);
}

#[test]
fn elapsed_time_is_redrawn_only_when_it_changes() {
    let mut d = ProgressDisplay::new();
    let cmds = d.elapsed_update(75);
    assert_eq!(
        cmds,
        vec![
            TermCommand::Up(1),
            TermCommand::ClearLine,
            TermCommand::Print(DisplayLine::TimeElapsed(Elapsed::Minutes { minutes: 1, seconds: 15 })),
        ]
    );
    assert_eq!(d.elapsed_secs, 75);
    assert!(d.elapsed_update(75).is_empty());
    assert_eq!(elapsed(75), Elapsed::Minutes { minutes: 1, seconds: 15 });
}

#[test]
fn backtrack_points_and_warnings_return_home() {
    let mut d = ProgressDisplay::new();
    let cmds = d.backtrack_update(3);
    assert_eq!(
        cmds,
        vec![
            TermCommand::Up(10),
            TermCommand::ClearLine,
            TermCommand::Print(DisplayLine::Backtrack(3)),
            TermCommand::Down(9),
        ]
    );
    assert!(d.backtrack_update(3).is_empty());
    let cmds = d.warning_counted();
    assert_eq!(d.warnings_generated, 1);
    assert_eq!(cmds[2], TermCommand::Print(DisplayLine::Warnings(1)));
    assert_eq!(cursor(&cmds, 0), 0);
}

#[test]
fn finished_paths_update_the_statistics() {
    let mut d = ProgressDisplay::new();
    let cmds = d.path_completed(&PathOutcome::Completed);
    assert_eq!(d.path_stats.num_complete, 1);
    assert_eq!(d.rows_of_stats, 2);
    assert_eq!(cmds.last(), Some(&TermCommand::Down(11)));
    assert_eq!(cursor(&cmds, 0), 0);

    // a new kind of error adds a row, and everything below is drawn anew
    let before = height(&d);
    let cmds = d.path_completed(&PathOutcome::OtherError(ErrorKind::Unsat));
    assert_eq!(d.rows_of_stats, 3);
    assert_eq!(d.rows_of_loc, 1);
    assert!(cmds.contains(&TermCommand::Print(DisplayLine::Stat(StatisticsEntry::Unsats, 1))));
    assert!(cmds.contains(&TermCommand::Print(DisplayLine::JustFinishedPath)));
    assert_eq!(cursor(&cmds, 0), before - height(&d));

    // the same kind again does not
    let cmds = d.path_completed(&PathOutcome::OtherError(ErrorKind::Unsat));
    assert_eq!(d.rows_of_stats, 3);
    assert_eq!(cursor(&cmds, 0), 0);
}

#[test]
fn long_log_messages_make_room() {
    let mut d = ProgressDisplay::new();
    let cmds = d.log_begin(true);
    assert_eq!(d.warnings_generated, 1);
    assert_eq!(cursor(&cmds, 0), 6);
    let before = height(&d);
    let cmds = d.log_end(3).unwrap();
    assert_eq!(d.rows_of_log, 3);
    assert_eq!(cursor(&cmds, 6 - 2), before - height(&d));

    // a shorter message keeps the rows
    let cmds = d.log_begin(false);
    assert_eq!(cursor(&cmds, 0), 8);
    let cmds = d.log_end(1).unwrap();
    assert_eq!(d.rows_of_log, 3);
    assert_eq!(cmds, vec![TermCommand::Down(2), TermCommand::Down(6)]);
    assert_eq!(cursor(&cmds, 8), 0);

    assert_eq!(d.log_end(u16::MAX), Err(LayoutError::TooTall));
}

#[test]
fn locations_are_measured() {
    let mut d = ProgressDisplay::new();
    let (cmds, needed) = d.location_begin(20, 30, 10).unwrap();
    assert_eq!(needed, 7);
    // 7 rows may be needed and only 3 are there: blank rows first
    assert_eq!(cmds.iter().filter(|c| **c == TermCommand::Print(DisplayLine::Blank)).count(), 7);
    assert_eq!(cursor(&cmds, 0), 3);
    let before = height(&d);
    let cmds = d.location_end(2).unwrap();
    assert_eq!(d.rows_of_loc, 2);
    assert_eq!(cursor(&cmds, 3 - 2), before - height(&d));

    let (cmds, needed) = d.location_begin(5, 5, 80).unwrap();
    assert_eq!(needed, 2);
    assert_eq!(cmds, vec![TermCommand::Up(4), TermCommand::ClearBelow, TermCommand::ToLineStart]);
    assert_eq!(d.location_begin(70000, 5, 80), Err(LayoutError::LocationTooLong));
    assert_eq!(d.location_begin(65535, 5, 1), Err(LayoutError::LocationTooLong));
}

#[test]
fn finalizing_clears_the_display() {
    let d = ProgressDisplay::new();
    let cmds = d.finalize();
    assert_eq!(cmds[0], TermCommand::Up(15));
    assert_eq!(cmds[1], TermCommand::ClearBelow);
    assert_eq!(cursor(&cmds, 0), 13);
}

#[test]
fn messages_replaced_at_once_are_skipped() {
    let warning = MessageKind::LogMessage { warning: true };
    let info = MessageKind::LogMessage { warning: false };
    assert_eq!(handling(MessageKind::ProgressUpdate, Some(MessageKind::ProgressUpdate)), Handling::Skip);
    assert_eq!(handling(MessageKind::ProgressUpdate, Some(info)), Handling::Handle);
    assert_eq!(handling(MessageKind::ProgressUpdate, None), Handling::Handle);
    assert_eq!(handling(warning, Some(info)), Handling::SkipCountingWarning);
    assert_eq!(handling(info, Some(warning)), Handling::Skip);
    assert_eq!(handling(info, Some(MessageKind::PathCompleted)), Handling::Handle);
    assert_eq!(handling(MessageKind::PathCompleted, Some(MessageKind::PathCompleted)), Handling::Handle);
}

#[test]
fn statistics_are_drawn_with_their_counts() {
    let mut d = ProgressDisplay::new();
    d.path_completed(&PathOutcome::Completed);
    d.warning_counted();
    d.backtrack_update(4);
    let cmds = d.initial_lines();
    assert_eq!(
        cmds,
        vec![
            TermCommand::Print(DisplayLine::Title),
            TermCommand::Print(DisplayLine::Blank),
            TermCommand::Print(DisplayLine::Stat(StatisticsEntry::CompletedPaths, 1)),
            TermCommand::Print(DisplayLine::Stat(StatisticsEntry::Violations, 0)),
            TermCommand::Print(DisplayLine::Blank),
            TermCommand::Print(DisplayLine::Backtrack(4)),
            TermCommand::Print(DisplayLine::Blank),
            TermCommand::Print(DisplayLine::Warnings(1)),
            TermCommand::Print(DisplayLine::LogHeader),
            TermCommand::Print(DisplayLine::NoMessagesYet),
            TermCommand::Print(DisplayLine::Blank),
            TermCommand::Print(DisplayLine::LocationHeader),
            TermCommand::Print(DisplayLine::Blank),
            TermCommand::Up(1),
        ]
    );
    let cmds = d.path_completed(&PathOutcome::Violation);
    assert_eq!(
        cmds,
        vec![
            TermCommand::Up(11),
            TermCommand::Up(1),
            TermCommand::ClearLine,
            TermCommand::Up(1),
            TermCommand::ClearLine,
            TermCommand::Print(DisplayLine::Stat(StatisticsEntry::CompletedPaths, 1)),
            TermCommand::Print(DisplayLine::Stat(StatisticsEntry::Violations, 1)),
            TermCommand::Down(11),
        ]
    );
}
