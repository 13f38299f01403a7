//! The progress display: a block of lines at the bottom of the terminal,
//! kept up to date while a function is analyzed. This module decides what to
//! draw where; the terminal front end carries out the cursor movements and
//! prints, and reports how many rows the free-form texts (log messages,
//! locations) took.
//!
//! Layout, from the top:
//!
//! ```text
//! Progress on <funcname>:
//!
//! <path statistics, one row per shown entry>
//!
//! backtrack points remaining: <n>
//!
//! warnings generated: <n>
//! Most recent log message (INFO or higher):
//! <log message rows>
//!
//! Currently at location:
//! <location rows>
//!
//! Time elapsed: <t>
//! <home row: the cursor rests here between updates>
//! ```
use vstd::prelude::*;
use crate::outcome::PathOutcome;
use crate::path_statistics::{entry_order, entry_outcome, PathStatistics, StatisticsEntry};

verus! {

/// The time elapsed, broken down as it is shown: seconds alone under a
/// minute, minutes and seconds under an hour, else hours, minutes and seconds.
#[derive(PartialEq, Eq, Structural, Clone, Copy, Debug)]
pub enum Elapsed {
    Seconds(u64),
    Minutes { minutes: u64, seconds: u64 },
    Hours { hours: u64, minutes: u64, seconds: u64 },
}

/// The breakdown of `secs` seconds: seconds alone under a minute, minutes
/// and seconds under an hour, else hours, minutes and seconds.
pub open spec fn breakdown(secs: u64) -> Elapsed {
    if secs < 60 {
        Elapsed::Seconds(secs)
    } else if secs < 3600 {
        Elapsed::Minutes { minutes: secs / 60, seconds: secs % 60 }
    } else {
        Elapsed::Hours { hours: secs / 3600, minutes: (secs / 60) % 60, seconds: secs % 60 }
    }
}

/// The breakdown of `secs` seconds for the display.
pub fn elapsed(secs: u64) -> (r: Elapsed)
    ensures
        r == breakdown(secs),
{
    if secs < 60 {
        Elapsed::Seconds(secs)
    } else {
        let minutes = secs / 60;
        let seconds = secs % 60;
        if minutes < 60 {
            Elapsed::Minutes { minutes, seconds }
        } else {
            let hours = minutes / 60;
            assert(hours == secs / 3600) by (nonlinear_arith)
                requires
                    minutes == secs / 60,
                    hours == minutes / 60,
            {
                vstd::arithmetic::div_mod::lemma_div_denominator(secs as int, 60, 60);
            }
            Elapsed::Hours { hours, minutes: minutes % 60, seconds }
        }
    }
}

/// A line of the display, printed by the terminal front end followed by a
/// line break.
#[derive(PartialEq, Eq, Structural, Clone, Copy, Debug)]
pub enum DisplayLine {
    /// "Progress on <funcname>:"
    Title,
    Blank,
    /// One entry of the path statistics, with its value.
    Stat(StatisticsEntry, usize),
    /// "backtrack points remaining: <n>"
    Backtrack(usize),
    /// "warnings generated: <n>"
    Warnings(usize),
    /// "Most recent log message (INFO or higher):"
    LogHeader,
    /// "  <no messages yet>"
    NoMessagesYet,
    /// "Currently at location:"
    LocationHeader,
    /// "  <just finished a path>"
    JustFinishedPath,
    /// "Time elapsed: <t>"
    TimeElapsed(Elapsed),
}

/// What the terminal front end does, in order.
#[derive(PartialEq, Eq, Structural, Clone, Copy, Debug)]
pub enum TermCommand {
    /// Move the cursor up this many rows, to the start of the row.
    Up(u16),
    /// Move the cursor down this many rows, to the start of the row.
    Down(u16),
    /// Clear the row the cursor is on.
    ClearLine,
    /// Clear everything from the cursor down.
    ClearBelow,
    /// Move the cursor to the start of its row.
    ToLineStart,
    /// Print the line; the cursor goes to the start of the next row.
    Print(DisplayLine),
}

/// The row the cursor is on after one command, counting rows upwards.
pub open spec fn moved(row: int, c: TermCommand) -> int {
    match c {
        TermCommand::Up(n) => row + n,
        TermCommand::Down(n) => row - n,
        TermCommand::Print(_) => row - 1,
        _ => row,
    }
}

/// The row the cursor is on after the commands, starting from `row`
/// (counting rows upwards).
pub open spec fn cursor_after(cmds: Seq<TermCommand>, row: int) -> int
    decreases cmds.len(),
{
    if cmds.len() == 0 {
        row
    } else {
        moved(cursor_after(cmds.drop_last(), row), cmds.last())
    }
}

fn emit(cmds: &mut Vec<TermCommand>, c: TermCommand)
    ensures
        final(cmds)@ == old(cmds)@.push(c),
        forall|row: int| #[trigger] cursor_after(final(cmds)@, row) == moved(cursor_after(old(cmds)@, row), c),
{
    cmds.push(c);
    assert(cmds@.drop_last() =~= old(cmds)@);
}

/// Moving up `n` rows one at a time, clearing each.
pub open spec fn clear_rows(n: nat) -> Seq<TermCommand>
    decreases n,
{
    if n == 0 {
        Seq::empty()
    } else {
        clear_rows((n - 1) as nat) + seq![TermCommand::Up(1), TermCommand::ClearLine]
    }
}

/// `n` blank lines.
pub open spec fn blank_lines(n: nat) -> Seq<TermCommand> {
    Seq::new(n, |i: int| TermCommand::Print(DisplayLine::Blank))
}

/// The rows of the path statistics: one per shown entry, in order, with its
/// count.
pub open spec fn stat_lines(p: PathStatistics) -> Seq<TermCommand> {
    entry_order().filter(|e: StatisticsEntry| p.shows(e)).map_values(
        |e: StatisticsEntry| TermCommand::Print(DisplayLine::Stat(e, p.count(entry_outcome(e)))),
    )
}

fn push_clear_rows(cmds: &mut Vec<TermCommand>, n: u16)
    ensures
        final(cmds)@ == old(cmds)@ + clear_rows(n as nat),
        forall|row: int| #[trigger] cursor_after(final(cmds)@, row) == cursor_after(old(cmds)@, row) + n,
{
    let mut i: u16 = 0;
    while i < n
        invariant
            i <= n,
            cmds@ == old(cmds)@ + clear_rows(i as nat),
            forall|row: int| #[trigger] cursor_after(cmds@, row) == cursor_after(old(cmds)@, row) + i,
        decreases n - i,
    {
        emit(cmds, TermCommand::Up(1));
        emit(cmds, TermCommand::ClearLine);
        i = i + 1;
        assert(cmds@ =~= old(cmds)@ + clear_rows(i as nat));
    }
}

fn push_blank_lines(cmds: &mut Vec<TermCommand>, n: u16)
    ensures
        final(cmds)@ == old(cmds)@ + blank_lines(n as nat),
        forall|row: int| #[trigger] cursor_after(final(cmds)@, row) == cursor_after(old(cmds)@, row) - n,
{
    let mut i: u16 = 0;
    while i < n
        invariant
            i <= n,
            cmds@ == old(cmds)@ + blank_lines(i as nat),
            forall|row: int| #[trigger] cursor_after(cmds@, row) == cursor_after(old(cmds)@, row) - i,
        decreases n - i,
    {
        emit(cmds, TermCommand::Print(DisplayLine::Blank));
        i = i + 1;
        assert(cmds@ =~= old(cmds)@ + blank_lines(i as nat));
    }
}

fn push_stat_lines(cmds: &mut Vec<TermCommand>, p: &PathStatistics)
    ensures
        final(cmds)@ == old(cmds)@ + stat_lines(*p),
        stat_lines(*p).len() == stats_rows(*p),
        forall|row: int| #[trigger] cursor_after(final(cmds)@, row) == cursor_after(old(cmds)@, row) - stats_rows(*p),
{
    let lines = p.summary();
    let ghost want = stat_lines(*p);
    assert(want.len() == lines@.len());
    let mut j: usize = 0;
    while j < lines.len()
        invariant
            j <= lines@.len(),
            want == stat_lines(*p),
            want.len() == lines@.len(),
            lines@ == entry_order().filter(|e: StatisticsEntry| p.shows(e)).map_values(
                |e: StatisticsEntry| (e, p.count(entry_outcome(e))),
            ),
            cmds@ == old(cmds)@ + want.subrange(0, j as int),
            forall|row: int| #[trigger] cursor_after(cmds@, row) == cursor_after(old(cmds)@, row) - j,
        decreases lines.len() - j,
    {
        let (e, n) = lines[j];
        emit(cmds, TermCommand::Print(DisplayLine::Stat(e, n)));
        assert(want[j as int] == TermCommand::Print(DisplayLine::Stat(e, n)));
        j = j + 1;
        assert(cmds@ =~= old(cmds)@ + want.subrange(0, j as int));
    }
    assert(want.subrange(0, j as int) =~= want);
}

/// The state of the progress display.
#[derive(PartialEq, Eq, Structural, Clone, Copy, Debug)]
pub struct ProgressDisplay {
    /// The statistics of the paths finished so far.
    pub path_stats: PathStatistics,
    /// The number of backtrack points remaining, as shown.
    pub backtrack_points_remaining: usize,
    /// The number of warnings generated so far.
    pub warnings_generated: usize,
    /// The rows taken by the most recent log message. Starts at 1 and never
    /// decreases: rows are not reclaimed after a long message is replaced by
    /// a short one.
    pub rows_of_log: u16,
    /// The rows taken by the path statistics: one per shown entry. Starts at
    /// 2 and never decreases.
    pub rows_of_stats: u16,
    /// The rows taken by the current location.
    pub rows_of_loc: u16,
    /// The elapsed time shown, in seconds.
    pub elapsed_secs: u64,
}

/// The number of rows of the path statistics: one per shown entry.
pub open spec fn stats_rows(p: PathStatistics) -> nat {
    entry_order().filter(|e: StatisticsEntry| p.shows(e)).len()
}

impl ProgressDisplay {
    /// How far the title row is above the home row.
    pub open spec fn height(self) -> int {
        11 + self.rows_of_loc + self.rows_of_log + self.rows_of_stats
    }

    /// How far the first row of the log message is above the home row.
    pub open spec fn log_row(self) -> int {
        4 + self.rows_of_loc + self.rows_of_log
    }

    /// How far the first row of the location is above the home row.
    pub open spec fn location_row(self) -> int {
        2 + self.rows_of_loc
    }

    /// The rows of the display agree with what it shows, and it is small
    /// enough for every cursor movement to be counted in a `u16`, with room
    /// for the statistics to grow to all their entries.
    pub open spec fn wf(self) -> bool {
        &&& self.rows_of_log >= 1
        &&& self.rows_of_loc >= 1
        &&& self.rows_of_stats == stats_rows(self.path_stats)
        &&& self.rows_of_loc + self.rows_of_log + 40 <= u16::MAX
    }

    /// Moves to the time-elapsed row and redraws it when the elapsed time
    /// shown changes; nothing to do otherwise.
    pub fn elapsed_update(&mut self, secs: u64) -> (r: Vec<TermCommand>)
        requires
            old(self).wf(),
        ensures
            final(self).wf(),
            *final(self) == (ProgressDisplay { elapsed_secs: secs, ..*old(self) }),
            secs == old(self).elapsed_secs ==> r@ == Seq::<TermCommand>::empty(),
            secs != old(self).elapsed_secs ==> r@ == seq![
                TermCommand::Up(1),
                TermCommand::ClearLine,
                TermCommand::Print(DisplayLine::TimeElapsed(breakdown(secs))),
            ],
            cursor_after(r@, 0) == 0,
    {
        let mut r: Vec<TermCommand> = Vec::new();
        if secs != self.elapsed_secs {
            self.elapsed_secs = secs;
            emit(&mut r, TermCommand::Up(1));
            emit(&mut r, TermCommand::ClearLine);
            emit(&mut r, TermCommand::Print(DisplayLine::TimeElapsed(elapsed(secs))));
        }
        r
    }

    /// Redraws the backtrack-points row when the number changes; nothing to
    /// do otherwise.
    pub fn backtrack_update(&mut self, num_backtrack_points: usize) -> (r: Vec<TermCommand>)
        requires
            old(self).wf(),
        ensures
            final(self).wf(),
            *final(self) == (ProgressDisplay { backtrack_points_remaining: num_backtrack_points, ..*old(self) }),
            num_backtrack_points == old(self).backtrack_points_remaining ==> r@ == Seq::<TermCommand>::empty(),
            num_backtrack_points != old(self).backtrack_points_remaining ==> r@ == seq![
                TermCommand::Up((old(self).log_row() + 4) as u16),
                TermCommand::ClearLine,
                TermCommand::Print(DisplayLine::Backtrack(num_backtrack_points)),
                TermCommand::Down((old(self).log_row() + 3) as u16),
            ],
            cursor_after(r@, 0) == 0,
    {
        let mut r: Vec<TermCommand> = Vec::new();
        if num_backtrack_points != self.backtrack_points_remaining {
            self.backtrack_points_remaining = num_backtrack_points;
            emit(&mut r, TermCommand::Up(8 + self.rows_of_loc + self.rows_of_log));
            emit(&mut r, TermCommand::ClearLine);
            emit(&mut r, TermCommand::Print(DisplayLine::Backtrack(num_backtrack_points)));
            emit(&mut r, TermCommand::Down(7 + self.rows_of_loc + self.rows_of_log));
        }
        r
    }

    /// Counts one more warning and redraws the warnings row, leaving the log
    /// message as it is.
    pub fn warning_counted(&mut self) -> (r: Vec<TermCommand>)
        requires
            old(self).wf(),
            old(self).warnings_generated < usize::MAX,
        ensures
            final(self).wf(),
            *final(self) == (ProgressDisplay { warnings_generated: (old(self).warnings_generated + 1) as usize, ..*old(self) }),
            r@ == seq![
                TermCommand::Up((old(self).log_row() + 2) as u16),
                TermCommand::ClearLine,
                TermCommand::Print(DisplayLine::Warnings(final(self).warnings_generated)),
                TermCommand::Down((old(self).log_row() + 1) as u16),
            ],
            cursor_after(r@, 0) == 0,
    {
        self.warnings_generated = self.warnings_generated + 1;
        let mut r: Vec<TermCommand> = Vec::new();
        emit(&mut r, TermCommand::Up(6 + self.rows_of_loc + self.rows_of_log));
        emit(&mut r, TermCommand::ClearLine);
        emit(&mut r, TermCommand::Print(DisplayLine::Warnings(self.warnings_generated)));
        emit(&mut r, TermCommand::Down(5 + self.rows_of_loc + self.rows_of_log));
        r
    }
}

proof fn lemma_filter_len_weaker<A>(s: Seq<A>, p: spec_fn(A) -> bool, q: spec_fn(A) -> bool)
    requires
        forall|x: A| #[trigger] p(x) ==> q(x),
    ensures
        s.filter(p).len() <= s.filter(q).len(),
    decreases s.len(),
{
    reveal(Seq::filter);
    if s.len() > 0 {
        lemma_filter_len_weaker(s.drop_last(), p, q);
    }
}

impl ProgressDisplay {
    /// Counts a finished path in the statistics and redraws them. When the
    /// statistics gain a row, everything below them is drawn anew, with the
    /// location showing that a path was just finished.
    pub fn path_completed(&mut self, outcome: &PathOutcome) -> (r: Vec<TermCommand>)
        requires
            old(self).wf(),
            old(self).path_stats.count(*outcome) < usize::MAX,
        ensures
            final(self).wf(),
            forall|o: PathOutcome| #[trigger] final(self).path_stats.count(o)
                == old(self).path_stats.count(o) + (if o == *outcome { 1int } else { 0int }),
            final(self).rows_of_stats >= old(self).rows_of_stats,
            final(self).rows_of_stats == old(self).rows_of_stats ==> final(self).rows_of_loc == old(self).rows_of_loc,
            final(self).rows_of_stats > old(self).rows_of_stats ==> final(self).rows_of_loc == 1,
            final(self).rows_of_log == old(self).rows_of_log,
            final(self).backtrack_points_remaining == old(self).backtrack_points_remaining,
            final(self).warnings_generated == old(self).warnings_generated,
            final(self).elapsed_secs == old(self).elapsed_secs,
            r@ == seq![TermCommand::Up((old(self).log_row() + 5) as u16)] + clear_rows(old(self).rows_of_stats as nat)
                + stat_lines(final(self).path_stats) + if final(self).rows_of_stats > old(self).rows_of_stats {
                redrawn_below_stats(*final(self))
            } else {
                seq![TermCommand::Down((old(self).log_row() + 5) as u16)]
            },
            cursor_after(r@, 0) == old(self).height() - final(self).height(),
    {
        let ghost old_stats = self.path_stats;
        let mut r: Vec<TermCommand> = Vec::new();
        emit(&mut r, TermCommand::Up(9 + self.rows_of_loc + self.rows_of_log));
        push_clear_rows(&mut r, self.rows_of_stats);
        self.path_stats.add_path_result(outcome);
        proof {
            let p = |e: StatisticsEntry| old_stats.shows(e);
            let q = |e: StatisticsEntry| self.path_stats.shows(e);
            assert forall|e: StatisticsEntry| #[trigger] p(e) implies q(e) by {
                assert(self.path_stats.count(entry_outcome(e)) >= old_stats.count(entry_outcome(e)));
            }
            lemma_filter_len_weaker(entry_order(), p, q);
            entry_order().lemma_filter_len(q);
            assert(entry_order().len() == 13);
        }
        let ghost head = r@;
        push_stat_lines(&mut r, &self.path_stats);
        let new_rows = self.path_stats.summary().len() as u16;
        if new_rows > self.rows_of_stats {
            self.rows_of_stats = new_rows;
            let ghost mid = r@;
            emit(&mut r, TermCommand::ClearBelow);
            emit(&mut r, TermCommand::Print(DisplayLine::Blank));
            emit(&mut r, TermCommand::Print(DisplayLine::Backtrack(self.backtrack_points_remaining)));
            emit(&mut r, TermCommand::Print(DisplayLine::Blank));
            emit(&mut r, TermCommand::Print(DisplayLine::Warnings(self.warnings_generated)));
            emit(&mut r, TermCommand::Print(DisplayLine::LogHeader));
            push_blank_lines(&mut r, self.rows_of_log);
            emit(&mut r, TermCommand::Print(DisplayLine::Blank));
            emit(&mut r, TermCommand::Print(DisplayLine::LocationHeader));
            emit(&mut r, TermCommand::Print(DisplayLine::JustFinishedPath));
            self.rows_of_loc = 1;
            emit(&mut r, TermCommand::Print(DisplayLine::Blank));
            emit(&mut r, TermCommand::Print(DisplayLine::TimeElapsed(elapsed(self.elapsed_secs))));
            assert(r@ =~= mid + redrawn_below_stats(*self));
        } else {
            let ghost mid = r@;
            emit(&mut r, TermCommand::Down(9 + self.rows_of_loc + self.rows_of_log));
        }
        r
    }
}

/// What is drawn below the statistics when they gain a row: the backtrack
/// points, the warnings, an empty log message, the location showing that a
/// path was just finished, and the time elapsed.
pub open spec fn redrawn_below_stats(s: ProgressDisplay) -> Seq<TermCommand> {
    seq![
        TermCommand::ClearBelow,
        TermCommand::Print(DisplayLine::Blank),
        TermCommand::Print(DisplayLine::Backtrack(s.backtrack_points_remaining)),
        TermCommand::Print(DisplayLine::Blank),
        TermCommand::Print(DisplayLine::Warnings(s.warnings_generated)),
        TermCommand::Print(DisplayLine::LogHeader),
    ] + blank_lines(s.rows_of_log as nat) + seq![
        TermCommand::Print(DisplayLine::Blank),
        TermCommand::Print(DisplayLine::LocationHeader),
        TermCommand::Print(DisplayLine::JustFinishedPath),
        TermCommand::Print(DisplayLine::Blank),
        TermCommand::Print(DisplayLine::TimeElapsed(breakdown(s.elapsed_secs))),
    ]
}

/// Why the display cannot be updated as asked.
#[derive(PartialEq, Eq, Structural, Clone, Copy, Debug)]
pub enum LayoutError {
    /// A location text is too long for its rows to be counted.
    LocationTooLong,
    /// The display would grow too tall for its cursor movements to be
    /// counted.
    TooTall,
}

/// The number of rows that a location of `llvm_len` and one of `src_len`
/// characters take at most on a terminal `cols` columns wide.
pub open spec fn rows_needed(llvm_len: nat, src_len: nat, cols: nat) -> nat {
    llvm_len / cols + 1 + src_len / cols + 1
}

impl ProgressDisplay {
    /// A fresh display: no paths, warnings or backtrack points yet, one row
    /// for the log message and for the location, and the two statistics rows
    /// that are always shown.
    pub fn new() -> (r: Self)
        ensures
            r.wf(),
            forall|o: PathOutcome| #[trigger] r.path_stats.count(o) == 0,
            r.backtrack_points_remaining == 0,
            r.warnings_generated == 0,
            r.rows_of_log == 1,
            r.rows_of_stats == 2,
            r.rows_of_loc == 1,
            r.elapsed_secs == 0,
    {
        let path_stats = PathStatistics::new();
        let lines = path_stats.summary();
        proof {
            reveal_with_fuel(Seq::filter, 14);
            assert(entry_order().filter(|e: StatisticsEntry| path_stats.shows(e)) =~= seq![
                StatisticsEntry::CompletedPaths,
                StatisticsEntry::Violations,
            ]);
        }
        ProgressDisplay {
            path_stats,
            backtrack_points_remaining: 0,
            warnings_generated: 0,
            rows_of_log: 1,
            rows_of_stats: 2,
            rows_of_loc: 1,
            elapsed_secs: 0,
        }
    }

    /// The display as first drawn, down to the row where the location goes:
    /// the title, the statistics, the backtrack points, the warnings, a log
    /// header with no message yet, and the location header. The cursor ends
    /// where the location's first row goes.
    pub fn initial_lines(&self) -> (r: Vec<TermCommand>)
        requires
            self.wf(),
            self.rows_of_log == 1,
        ensures
            r@ == seq![TermCommand::Print(DisplayLine::Title), TermCommand::Print(DisplayLine::Blank)] + stat_lines(
                self.path_stats,
            ) + seq![
                TermCommand::Print(DisplayLine::Blank),
                TermCommand::Print(DisplayLine::Backtrack(self.backtrack_points_remaining)),
                TermCommand::Print(DisplayLine::Blank),
                TermCommand::Print(DisplayLine::Warnings(self.warnings_generated)),
                TermCommand::Print(DisplayLine::LogHeader),
                TermCommand::Print(DisplayLine::NoMessagesYet),
                TermCommand::Print(DisplayLine::Blank),
                TermCommand::Print(DisplayLine::LocationHeader),
                TermCommand::Print(DisplayLine::Blank),
                TermCommand::Up(1),
            ],
            cursor_after(r@, 0) == self.location_row() - self.height(),
    {
        let mut r: Vec<TermCommand> = Vec::new();
        emit(&mut r, TermCommand::Print(DisplayLine::Title));
        emit(&mut r, TermCommand::Print(DisplayLine::Blank));
        push_stat_lines(&mut r, &self.path_stats);
        let ghost mid = r@;
        emit(&mut r, TermCommand::Print(DisplayLine::Blank));
        emit(&mut r, TermCommand::Print(DisplayLine::Backtrack(self.backtrack_points_remaining)));
        emit(&mut r, TermCommand::Print(DisplayLine::Blank));
        emit(&mut r, TermCommand::Print(DisplayLine::Warnings(self.warnings_generated)));
        emit(&mut r, TermCommand::Print(DisplayLine::LogHeader));
        emit(&mut r, TermCommand::Print(DisplayLine::NoMessagesYet));
        emit(&mut r, TermCommand::Print(DisplayLine::Blank));
        emit(&mut r, TermCommand::Print(DisplayLine::LocationHeader));
        // a blank row first, so that the terminal scrolls before the location
        // is printed and measured
        emit(&mut r, TermCommand::Print(DisplayLine::Blank));
        emit(&mut r, TermCommand::Up(1));
        assert(r@ =~= mid + seq![
            TermCommand::Print(DisplayLine::Blank),
            TermCommand::Print(DisplayLine::Backtrack(self.backtrack_points_remaining)),
            TermCommand::Print(DisplayLine::Blank),
            TermCommand::Print(DisplayLine::Warnings(self.warnings_generated)),
            TermCommand::Print(DisplayLine::LogHeader),
            TermCommand::Print(DisplayLine::NoMessagesYet),
            TermCommand::Print(DisplayLine::Blank),
            TermCommand::Print(DisplayLine::LocationHeader),
            TermCommand::Print(DisplayLine::Blank),
            TermCommand::Up(1),
        ]);
        r
    }

    /// Clears the log message rows (counting a warning first when the
    /// message is one) and leaves the cursor on the first of them, where the
    /// front end writes the message, without a final line break.
    pub fn log_begin(&mut self, warning: bool) -> (r: Vec<TermCommand>)
        requires
            old(self).wf(),
            warning ==> old(self).warnings_generated < usize::MAX,
        ensures
            final(self).wf(),
            *final(self) == (ProgressDisplay {
                warnings_generated: if warning {
                    (old(self).warnings_generated + 1) as usize
                } else {
                    old(self).warnings_generated
                },
                ..*old(self)
            }),
            r@ == seq![TermCommand::Up((old(self).rows_of_loc + 4) as u16)] + clear_rows(old(self).rows_of_log as nat)
                + if warning {
                seq![
                    TermCommand::Up(2),
                    TermCommand::ClearLine,
                    TermCommand::Print(DisplayLine::Warnings(final(self).warnings_generated)),
                    TermCommand::Down(1),
                ]
            } else {
                Seq::<TermCommand>::empty()
            },
            cursor_after(r@, 0) == old(self).log_row(),
    {
        let mut r: Vec<TermCommand> = Vec::new();
        emit(&mut r, TermCommand::Up(4 + self.rows_of_loc));
        push_clear_rows(&mut r, self.rows_of_log);
        let ghost mid = r@;
        if warning {
            self.warnings_generated = self.warnings_generated + 1;
            emit(&mut r, TermCommand::Up(2));
            emit(&mut r, TermCommand::ClearLine);
            emit(&mut r, TermCommand::Print(DisplayLine::Warnings(self.warnings_generated)));
            emit(&mut r, TermCommand::Down(1));
        } else {
            assert(r@ =~= mid + Seq::<TermCommand>::empty());
        }
        r
    }

    /// After a log message of `rows` rows was written from the first log
    /// row: when it took more rows than the display had for it, the display
    /// keeps that many from now on and everything below is drawn anew;
    /// otherwise the cursor goes back home.
    pub fn log_end(&mut self, rows: u16) -> (r: Result<Vec<TermCommand>, LayoutError>)
        requires
            old(self).wf(),
            rows >= 1,
        ensures
            final(self).wf(),
            match r {
                Ok(cmds) => {
                    &&& final(self).rows_of_log == if rows > old(self).rows_of_log {
                        rows
                    } else {
                        old(self).rows_of_log
                    }
                    &&& final(self).rows_of_loc == if rows > old(self).rows_of_log {
                        1
                    } else {
                        old(self).rows_of_loc
                    }
                    &&& *final(self) == (ProgressDisplay {
                        rows_of_log: final(self).rows_of_log,
                        rows_of_loc: final(self).rows_of_loc,
                        ..*old(self)
                    })
                    &&& cmds@ == if rows > old(self).rows_of_log {
                        seq![
                            TermCommand::Print(DisplayLine::Blank),
                            TermCommand::ClearBelow,
                            TermCommand::Print(DisplayLine::Blank),
                            TermCommand::Print(DisplayLine::LocationHeader),
                            TermCommand::Print(DisplayLine::Blank),
                            TermCommand::Print(DisplayLine::Blank),
                            TermCommand::Print(DisplayLine::TimeElapsed(breakdown(old(self).elapsed_secs))),
                        ]
                    } else if rows < old(self).rows_of_log {
                        seq![
                            TermCommand::Down((old(self).rows_of_log - rows) as u16),
                            TermCommand::Down((old(self).rows_of_loc + 5) as u16),
                        ]
                    } else {
                        seq![TermCommand::Down((old(self).rows_of_loc + 5) as u16)]
                    }
                    &&& cursor_after(cmds@, old(self).log_row() - (rows - 1)) == old(self).height() - final(self).height()
                },
                Err(e) => {
                    &&& e == LayoutError::TooTall
                    &&& *final(self) == *old(self)
                },
            },
            r is Err <==> rows > old(self).rows_of_log && rows as int + 41 > u16::MAX,
    {
        let mut r: Vec<TermCommand> = Vec::new();
        if rows > self.rows_of_log {
            if rows > u16::MAX - 41 {
                return Err(LayoutError::TooTall);
            }
            self.rows_of_log = rows;
            emit(&mut r, TermCommand::Print(DisplayLine::Blank));
            emit(&mut r, TermCommand::ClearBelow);
            emit(&mut r, TermCommand::Print(DisplayLine::Blank));
            emit(&mut r, TermCommand::Print(DisplayLine::LocationHeader));
            emit(&mut r, TermCommand::Print(DisplayLine::Blank));
            self.rows_of_loc = 1;
            emit(&mut r, TermCommand::Print(DisplayLine::Blank));
            emit(&mut r, TermCommand::Print(DisplayLine::TimeElapsed(elapsed(self.elapsed_secs))));
        } else {
            if rows < self.rows_of_log {
                emit(&mut r, TermCommand::Down(self.rows_of_log - rows));
            }
            emit(&mut r, TermCommand::Down(5 + self.rows_of_loc));
        }
        Ok(r)
    }

    /// Clears the location rows and leaves the cursor on the first of them,
    /// where the front end prints the LLVM location and the source location
    /// (`llvm_len` and `src_len` characters, each on its rows), on a terminal
    /// `cols` columns wide. Returns the most rows they can take; when that is
    /// more than the display has below the location header, blank rows are
    /// printed first so that the terminal scrolls before the location is
    /// printed.
    pub fn location_begin(&self, llvm_len: usize, src_len: usize, cols: u16) -> (r: Result<
        (Vec<TermCommand>, u16),
        LayoutError,
    >)
        requires
            self.wf(),
            cols > 0,
        ensures
            match r {
                Ok((cmds, needed)) => {
                    &&& needed == rows_needed(llvm_len as nat, src_len as nat, cols as nat)
                    &&& cmds@ == seq![
                        TermCommand::Up((self.rows_of_loc + 2) as u16),
                        TermCommand::ClearBelow,
                        TermCommand::ToLineStart,
                    ] + if needed > self.rows_of_loc + 2 {
                        blank_lines(needed as nat) + seq![TermCommand::Up(needed)]
                    } else {
                        Seq::<TermCommand>::empty()
                    }
                    &&& cursor_after(cmds@, 0) == self.location_row()
                },
                Err(e) => e == LayoutError::LocationTooLong,
            },
            r is Err <==> llvm_len > u16::MAX || src_len > u16::MAX || rows_needed(
                llvm_len as nat,
                src_len as nat,
                cols as nat,
            ) > u16::MAX,
    {
        if llvm_len > u16::MAX as usize || src_len > u16::MAX as usize {
            return Err(LayoutError::LocationTooLong);
        }
        let llvm_rows: u32 = llvm_len as u32 / cols as u32 + 1;
        let src_rows: u32 = src_len as u32 / cols as u32 + 1;
        if llvm_rows + src_rows > u16::MAX as u32 {
            return Err(LayoutError::LocationTooLong);
        }
        let needed = (llvm_rows + src_rows) as u16;
        let mut r: Vec<TermCommand> = Vec::new();
        emit(&mut r, TermCommand::Up(2 + self.rows_of_loc));
        emit(&mut r, TermCommand::ClearBelow);
        emit(&mut r, TermCommand::ToLineStart);
        let ghost head = r@;
        if needed > self.rows_of_loc + 2 {
            push_blank_lines(&mut r, needed);
            emit(&mut r, TermCommand::Up(needed));
        } else {
            assert(r@ =~= head + Seq::<TermCommand>::empty());
        }
        Ok((r, needed))
    }

    /// After the location was printed from the first location row and took
    /// `rows` rows: the display keeps that many for it, and the time-elapsed
    /// row is drawn again below.
    pub fn location_end(&mut self, rows: u16) -> (r: Result<Vec<TermCommand>, LayoutError>)
        requires
            old(self).wf(),
            rows >= 1,
        ensures
            final(self).wf(),
            match r {
                Ok(cmds) => {
                    &&& *final(self) == (ProgressDisplay { rows_of_loc: rows, ..*old(self) })
                    &&& cmds@ == seq![
                        TermCommand::Print(DisplayLine::Blank),
                        TermCommand::Print(DisplayLine::TimeElapsed(breakdown(old(self).elapsed_secs))),
                    ]
                    &&& cursor_after(cmds@, old(self).location_row() - rows) == old(self).height() - final(self).height()
                },
                Err(e) => {
                    &&& e == LayoutError::TooTall
                    &&& *final(self) == *old(self)
                },
            },
            r is Err <==> rows as int + old(self).rows_of_log + 40 > u16::MAX,
    {
        if rows > u16::MAX - 40 - self.rows_of_log {
            return Err(LayoutError::TooTall);
        }
        self.rows_of_loc = rows;
        let mut r: Vec<TermCommand> = Vec::new();
        emit(&mut r, TermCommand::Print(DisplayLine::Blank));
        emit(&mut r, TermCommand::Print(DisplayLine::TimeElapsed(elapsed(self.elapsed_secs))));
        Ok(r)
    }

    /// Clears the whole display and leaves only the time elapsed.
    pub fn finalize(&self) -> (r: Vec<TermCommand>)
        requires
            self.wf(),
        ensures
            r@ == seq![
                TermCommand::Up(self.height() as u16),
                TermCommand::ClearBelow,
                TermCommand::Print(DisplayLine::TimeElapsed(breakdown(self.elapsed_secs))),
                TermCommand::Print(DisplayLine::Blank),
            ],
            cursor_after(r@, 0) == self.height() - 2,
    {
        let mut r: Vec<TermCommand> = Vec::new();
        emit(&mut r, TermCommand::Up(11 + self.rows_of_loc + self.rows_of_log + self.rows_of_stats));
        emit(&mut r, TermCommand::ClearBelow);
        emit(&mut r, TermCommand::Print(DisplayLine::TimeElapsed(elapsed(self.elapsed_secs))));
        emit(&mut r, TermCommand::Print(DisplayLine::Blank));
        r
    }
}

/// The kinds of message the display receives.
#[derive(PartialEq, Eq, Structural, Clone, Copy, Debug)]
pub enum MessageKind {
    /// A new location and number of backtrack points.
    ProgressUpdate,
    /// A log message; `warning` when its level is WARN or worse.
    LogMessage { warning: bool },
    /// A path was finished.
    PathCompleted,
}

/// What to do with a message, given the next one when it is already there.
#[derive(PartialEq, Eq, Structural, Clone, Copy, Debug)]
pub enum Handling {
    /// Draw it.
    Handle,
    /// Skip it: the next message replaces it.
    Skip,
    /// Skip drawing it, but count it as a warning.
    SkipCountingWarning,
}

/// A progress update or log message that is followed right away by another
/// of its kind is not drawn, as the next one replaces it at once; a skipped
/// warning is still counted. Everything else is drawn.
pub fn handling(current: MessageKind, next: Option<MessageKind>) -> (r: Handling)
    ensures
        r == match (current, next) {
            (MessageKind::ProgressUpdate, Some(MessageKind::ProgressUpdate)) => Handling::Skip,
            (MessageKind::LogMessage { warning }, Some(MessageKind::LogMessage { .. })) => if warning {
                Handling::SkipCountingWarning
            } else {
                Handling::Skip
            },
            _ => Handling::Handle,
        },
{
    match (current, next) {
        (MessageKind::ProgressUpdate, Some(MessageKind::ProgressUpdate)) => Handling::Skip,
        (MessageKind::LogMessage { warning }, Some(MessageKind::LogMessage { .. })) => if warning {
            Handling::SkipCountingWarning
        } else {
            Handling::Skip
        },
        _ => Handling::Handle,
    }
}

} // verus!
