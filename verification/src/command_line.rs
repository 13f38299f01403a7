//! The command line of the analysis program: options first, then the names
//! (or name prefixes) of the functions to check.
use vstd::prelude::*;
use crate::pitchfork_config::{KeepGoing, PitchforkConfig};

verus! {

/// The options the user gave on the command line.
#[derive(PartialEq, Eq, Structural, Clone, Copy, Debug)]
pub struct CommandLineOptions {
    pub pitchfork_config: PitchforkConfig,
    /// `None` means not specified / don't override
    pub loop_bound: Option<usize>,
    /// `None` means not specified / don't override
    pub max_callstack_depth: Option<usize>,
    /// `None` means not specified / don't override
    pub max_memcpy_length: Option<u64>,
    /// The solver timeout, in seconds. `None` means not specified / don't
    /// override
    pub solver_timeout_secs: Option<u64>,
    /// Are the function names prefixes, each standing for every function whose
    /// name begins with it?
    pub prefix: bool,
}

impl Default for CommandLineOptions {
    /// The analysis configuration's defaults, going on to other paths after
    /// an error or violation, with errors dumped, progress updates on and
    /// debug logging off; nothing else overridden.
    fn default() -> (r: Self)
        ensures
            r.pitchfork_config.keep_going == KeepGoing::StopPerPath,
            r.pitchfork_config.dump_errors,
            r.pitchfork_config.dump_coverage_stats,
            r.pitchfork_config.progress_updates,
            !r.pitchfork_config.debug_logging,
            r.loop_bound is None,
            r.max_callstack_depth is None,
            r.max_memcpy_length is None,
            r.solver_timeout_secs is None,
            !r.prefix,
    {
        let mut pitchfork_config = PitchforkConfig::default();
        pitchfork_config.keep_going = KeepGoing::StopPerPath;
        pitchfork_config.dump_errors = true;
        pitchfork_config.progress_updates = true;
        pitchfork_config.debug_logging = false;
        CommandLineOptions {
            pitchfork_config,
            loop_bound: None,
            max_callstack_depth: None,
            max_memcpy_length: None,
            solver_timeout_secs: None,
            prefix: false,
        }
    }
}

/// What the command line asks for.
#[derive(PartialEq, Eq, Debug)]
pub enum Command {
    /// Display the usage message and exit.
    Help,
    /// List the functions defined in the bitcode and exit.
    ListFunctions,
    /// Check the named functions, in order. When `misplaced_option` holds, an
    /// option-like argument followed them: after checking them, report that
    /// options must come before the function names.
    Check { options: CommandLineOptions, funcnames: Vec<String>, misplaced_option: bool },
}

/// A command line that cannot be carried out.
#[derive(PartialEq, Eq, Debug)]
pub enum CommandLineError {
    /// The option needs a value and none followed it.
    MissingValue(String),
    /// The value given to the option is not a number in range.
    InvalidNumber(String),
    /// An option that is not known.
    UnrecognizedOption(String),
    /// No function to check was named.
    NoFunctions,
}

/// Is `c` an ASCII decimal digit?
pub open spec fn is_digit(c: char) -> bool {
    '0' <= c <= '9'
}

/// The value of a sequence of decimal digits, most significant first.
pub open spec fn digits_value(s: Seq<char>) -> nat
    decreases s.len(),
{
    if s.len() == 0 {
        0
    } else {
        digits_value(s.drop_last()) * 10 + ((s.last() as u32 - '0' as u32) as nat)
    }
}

/// The digits of a number as written: all of `s`, after an optional `+`.
pub open spec fn number_digits(s: Seq<char>) -> Seq<char> {
    if s.len() > 0 && s[0] == '+' {
        s.drop_first()
    } else {
        s
    }
}

/// Is `s` an unsigned decimal number: an optional `+` then one or more digits?
pub open spec fn is_number(s: Seq<char>) -> bool {
    let d = number_digits(s);
    d.len() > 0 && forall|i: int| 0 <= i < d.len() ==> is_digit(d[i])
}

/// The value of `s` when it is a number no greater than `max`.
pub open spec fn number_at_most(s: Seq<char>, max: nat) -> Option<nat> {
    if is_number(s) && digits_value(number_digits(s)) <= max {
        Some(digits_value(number_digits(s)))
    } else {
        None
    }
}

proof fn lemma_digits_value_monotone(s: Seq<char>, n: int)
    requires
        0 <= n <= s.len(),
        forall|i: int| 0 <= i < s.len() ==> is_digit(s[i]),
    ensures
        digits_value(s.subrange(0, n)) <= digits_value(s),
    decreases s.len() - n,
{
    if n < s.len() {
        lemma_digits_value_monotone(s, n + 1);
        let p = s.subrange(0, n + 1);
        assert(p.drop_last() =~= s.subrange(0, n));
    } else {
        assert(s.subrange(0, n) =~= s);
    }
}

/// Parses an unsigned decimal number (an optional `+`, then digits) that is at
/// most `max`, as the standard library parses unsigned integers.
pub fn parse_number(s: &str, max: u64) -> (r: Option<u64>)
    ensures
        match r {
            Some(v) => number_at_most(s@, max as nat) == Some(v as nat),
            None => number_at_most(s@, max as nat) is None,
        },
{
    let len = s.unicode_len();
    let mut start: usize = 0;
    if len > 0 && s.get_char(0) == '+' {
        start = 1;
    }
    let ghost d = number_digits(s@);
    assert(d =~= s@.subrange(start as int, len as int));
    if start == len {
        return None;
    }
    // first: is every character a digit?
    let mut k: usize = start;
    while k < len
        invariant
            start <= k <= len,
            len == s@.len(),
            d == s@.subrange(start as int, len as int),
            d == number_digits(s@),
            forall|j: int| 0 <= j < k - start ==> is_digit(d[j]),
        decreases len - k,
    {
        let c = s.get_char(k);
        assert(d[k - start] == s@[k as int]);
        if c < '0' || c > '9' {
            assert(!is_digit(d[k - start]));
            assert(!is_number(s@));
            return None;
        }
        k = k + 1;
    }
    // then: its value, as long as it stays within `max`
    let mut value: u64 = 0;
    let mut i: usize = start;
    while i < len
        invariant
            start <= i <= len,
            len == s@.len(),
            d == s@.subrange(start as int, len as int),
            d == number_digits(s@),
            forall|j: int| 0 <= j < d.len() ==> is_digit(d[j]),
            value as nat == digits_value(d.subrange(0, i - start)),
            value <= max,
        decreases len - i,
    {
        let c = s.get_char(i);
        assert(c == d[i - start]);
        let digit = (c as u32 - '0' as u32) as u64;
        let ghost p = d.subrange(0, i + 1 - start);
        proof {
            assert(p.drop_last() =~= d.subrange(0, i - start));
            assert(p.last() == c);
            assert(digits_value(p) == value * 10 + digit);
        }
        if digit > max || value > (max - digit) / 10 {
            proof {
                if digit <= max {
                    assert(value * 10 + digit > max) by (nonlinear_arith)
                        requires
                            value > (max - digit) / 10,
                            digit <= max,
                    ;
                }
                lemma_digits_value_monotone(d, i + 1 - start);
                assert(digits_value(d) > max);
            }
            return None;
        }
        value = value * 10 + digit;
        i = i + 1;
    }
    assert(d.subrange(0, i - start) =~= d);
    Some(value)
}

/// The model of a `Command`: names as character sequences.
pub enum CommandView {
    Help,
    ListFunctions,
    Check { options: CommandLineOptions, funcnames: Seq<Seq<char>>, misplaced_option: bool },
}

/// The model of a `CommandLineError`.
pub enum CommandLineErrorView {
    MissingValue(Seq<char>),
    InvalidNumber(Seq<char>),
    UnrecognizedOption(Seq<char>),
    NoFunctions,
}

/// The options that apply when none is given.
pub open spec fn default_options() -> CommandLineOptions {
    CommandLineOptions {
        pitchfork_config: PitchforkConfig {
            keep_going: KeepGoing::StopPerPath,
            dump_errors: true,
            dump_coverage_stats: true,
            progress_updates: true,
            debug_logging: false,
        },
        loop_bound: None,
        max_callstack_depth: None,
        max_memcpy_length: None,
        solver_timeout_secs: None,
        prefix: false,
    }
}

/// Does the argument look like an option (begin with `-`)?
pub open spec fn is_option_like(a: Seq<char>) -> bool {
    a.len() > 0 && a[0] == '-'
}

/// The position of the first option-like argument at or after `i`, or the
/// number of arguments if there is none.
pub open spec fn first_option_like(args: Seq<Seq<char>>, i: int) -> int
    decreases args.len() - i,
{
    if i >= args.len() {
        args.len() as int
    } else if is_option_like(args[i]) {
        i
    } else {
        first_option_like(args, i + 1)
    }
}

/// The options that take a numeric value, with the largest value each
/// accepts.
pub open spec fn numeric_option_max(a: Seq<char>) -> Option<nat> {
    if a == "--loop-bound"@ || a == "--max-callstack-depth"@ {
        Some(usize::MAX as nat)
    } else if a == "--max-memcpy-length"@ || a == "--solver-timeout"@ {
        Some(u64::MAX as nat)
    } else {
        None
    }
}

/// The options after the numeric option `a` was given the value `v`.
pub open spec fn with_numeric_option(opts: CommandLineOptions, a: Seq<char>, v: nat) -> CommandLineOptions {
    if a == "--loop-bound"@ {
        CommandLineOptions { loop_bound: Some(v as usize), ..opts }
    } else if a == "--max-callstack-depth"@ {
        CommandLineOptions { max_callstack_depth: Some(v as usize), ..opts }
    } else if a == "--max-memcpy-length"@ {
        CommandLineOptions { max_memcpy_length: Some(v as u64), ..opts }
    } else {
        CommandLineOptions { solver_timeout_secs: Some(v as u64), ..opts }
    }
}

/// The options after the flag `a`, when it is one.
pub open spec fn with_flag(opts: CommandLineOptions, a: Seq<char>) -> Option<CommandLineOptions> {
    if a == "--debug-logging"@ {
        Some(CommandLineOptions { pitchfork_config: PitchforkConfig { debug_logging: true, ..opts.pitchfork_config }, ..opts })
    } else if a == "--no-progress-updates"@ {
        Some(CommandLineOptions { pitchfork_config: PitchforkConfig { progress_updates: false, ..opts.pitchfork_config }, ..opts })
    } else if a == "--keep-going"@ {
        Some(CommandLineOptions { pitchfork_config: PitchforkConfig { keep_going: KeepGoing::Full, ..opts.pitchfork_config }, ..opts })
    } else if a == "--prefix"@ {
        Some(CommandLineOptions { prefix: true, ..opts })
    } else {
        None
    }
}

/// What the arguments from position `i` on ask for, with the options given
/// before them being `opts`. Options come first, each taking effect in turn;
/// help and the function listing end the processing at once; the first
/// argument that is not option-like starts the function names, which end at
/// the next option-like argument.
pub open spec fn parse_from(args: Seq<Seq<char>>, i: int, opts: CommandLineOptions) -> Result<
    CommandView,
    CommandLineErrorView,
>
    decreases args.len() - i,
{
    if i < 0 || i >= args.len() {
        Err(CommandLineErrorView::NoFunctions)
    } else {
        let a = args[i];
        if a == "-h"@ || a == "--help"@ {
            Ok(CommandView::Help)
        } else if a == "--list-functions"@ {
            Ok(CommandView::ListFunctions)
        } else if numeric_option_max(a) is Some {
            if i + 1 >= args.len() {
                Err(CommandLineErrorView::MissingValue(a))
            } else {
                match number_at_most(args[i + 1], numeric_option_max(a).unwrap()) {
                    Some(v) => parse_from(args, i + 2, with_numeric_option(opts, a, v)),
                    None => Err(CommandLineErrorView::InvalidNumber(a)),
                }
            }
        } else if with_flag(opts, a) is Some {
            parse_from(args, i + 1, with_flag(opts, a).unwrap())
        } else if is_option_like(a) {
            Err(CommandLineErrorView::UnrecognizedOption(a))
        } else {
            let end = first_option_like(args, i);
            Ok(CommandView::Check {
                options: opts,
                funcnames: args.subrange(i, end),
                misplaced_option: end < args.len(),
            })
        }
    }
}

/// The arguments as character sequences.
pub open spec fn args_view(args: Seq<String>) -> Seq<Seq<char>> {
    Seq::new(args.len(), |i: int| args[i]@)
}

impl Command {
    pub open spec fn view(self) -> CommandView {
        match self {
            Command::Help => CommandView::Help,
            Command::ListFunctions => CommandView::ListFunctions,
            Command::Check { options, funcnames, misplaced_option } => CommandView::Check {
                options,
                funcnames: args_view(funcnames@),
                misplaced_option,
            },
        }
    }
}

impl CommandLineError {
    pub open spec fn view(self) -> CommandLineErrorView {
        match self {
            CommandLineError::MissingValue(a) => CommandLineErrorView::MissingValue(a@),
            CommandLineError::InvalidNumber(a) => CommandLineErrorView::InvalidNumber(a@),
            CommandLineError::UnrecognizedOption(a) => CommandLineErrorView::UnrecognizedOption(a@),
            CommandLineError::NoFunctions => CommandLineErrorView::NoFunctions,
        }
    }
}

/// Is `a` the same text as `lit`?
fn is(a: &String, lit: &str) -> (r: bool)
    ensures
        r == (a@ == lit@),
{
    *a == lit.to_owned()
}

/// Does the argument begin with `-`?
fn option_like(a: &String) -> (r: bool)
    ensures
        r == is_option_like(a@),
{
    let s = a.as_str();
    s.unicode_len() > 0 && s.get_char(0) == '-'
}

/// The arguments from `i` up to the first option-like one.
fn names_until_option(args: &Vec<String>, i: usize) -> (r: (Vec<String>, bool))
    requires
        i <= args@.len(),
    ensures
        args_view(r.0@) == args_view(args@).subrange(i as int, first_option_like(args_view(args@), i as int)),
        r.1 == (first_option_like(args_view(args@), i as int) < args@.len()),
{
    let ghost v = args_view(args@);
    let mut names: Vec<String> = Vec::new();
    let mut j: usize = i;
    while j < args.len()
        invariant
            i <= j <= args@.len(),
            v == args_view(args@),
            first_option_like(v, i as int) == first_option_like(v, j as int),
            args_view(names@) == v.subrange(i as int, j as int),
        decreases args.len() - j,
    {
        if option_like(&args[j]) {
            return (names, true);
        }
        let name = args[j].clone();
        assert(name@ == v[j as int]);
        let ghost before = names@;
        names.push(name);
        j = j + 1;
        assert(args_view(names@) =~= args_view(before).push(v[j - 1]));
        assert(v.subrange(i as int, j as int) =~= v.subrange(i as int, j - 1).push(v[j - 1]));
        assert(args_view(names@) =~= v.subrange(i as int, j as int));
    }
    (names, false)
}

/// Reads the command line (the arguments after the program's name): the
/// options, which come first, then the names of the functions to check.
pub fn parse_command_line(args: &Vec<String>) -> (r: Result<Command, CommandLineError>)
    ensures
        match r {
            Ok(c) => parse_from(args_view(args@), 0, default_options()) == Ok::<CommandView, CommandLineErrorView>(c.view()),
            Err(e) => parse_from(args_view(args@), 0, default_options()) == Err::<CommandView, CommandLineErrorView>(e.view()),
        },
{
    let ghost v = args_view(args@);
    let mut opts = CommandLineOptions::default();
    assert(opts == default_options());
    let mut i: usize = 0;
    while i < args.len()
        invariant
            i <= args@.len(),
            v == args_view(args@),
            parse_from(v, i as int, opts) == parse_from(v, 0, default_options()),
        decreases args.len() - i,
    {
        let a = &args[i];
        assert(a@ == v[i as int]);
        if is(a, "-h") || is(a, "--help") {
            return Ok(Command::Help);
        } else if is(a, "--list-functions") {
            return Ok(Command::ListFunctions);
        } else if is(a, "--loop-bound") || is(a, "--max-callstack-depth") || is(a, "--max-memcpy-length")
            || is(a, "--solver-timeout") {
            if i + 1 >= args.len() {
                return Err(CommandLineError::MissingValue(a.clone()));
            }
            let max: u64 = if is(a, "--loop-bound") || is(a, "--max-callstack-depth") {
                usize::MAX as u64
            } else {
                u64::MAX
            };
            assert(numeric_option_max(a@) == Some(max as nat));
            match parse_number(args[i + 1].as_str(), max) {
                None => {
                    return Err(CommandLineError::InvalidNumber(a.clone()));
                },
                Some(n) => {
                    assert(args[i + 1 as int]@ == v[i + 1]);
                    if is(a, "--loop-bound") {
                        opts.loop_bound = Some(n as usize);
                    } else if is(a, "--max-callstack-depth") {
                        opts.max_callstack_depth = Some(n as usize);
                    } else if is(a, "--max-memcpy-length") {
                        opts.max_memcpy_length = Some(n);
                    } else {
                        opts.solver_timeout_secs = Some(n);
                    }
                    i = i + 2;
                },
            }
        } else if is(a, "--debug-logging") {
            opts.pitchfork_config.debug_logging = true;
            i = i + 1;
        } else if is(a, "--no-progress-updates") {
            opts.pitchfork_config.progress_updates = false;
            i = i + 1;
        } else if is(a, "--keep-going") {
            opts.pitchfork_config.keep_going = KeepGoing::Full;
            i = i + 1;
        } else if is(a, "--prefix") {
            opts.prefix = true;
            i = i + 1;
        } else if option_like(a) {
            return Err(CommandLineError::UnrecognizedOption(a.clone()));
        } else {
            let (funcnames, misplaced_option) = names_until_option(args, i);
            return Ok(Command::Check { options: opts, funcnames, misplaced_option });
        }
    }
    Err(CommandLineError::NoFunctions)
}

/// Does `s` begin with `p`?
pub fn has_prefix(s: &str, p: &str) -> (r: bool)
    ensures
        r == p@.is_prefix_of(s@),
{
    let n = p.unicode_len();
    if n > s.unicode_len() {
        return false;
    }
    let mut i: usize = 0;
    while i < n
        invariant
            i <= n,
            n == p@.len(),
            n <= s@.len(),
            forall|j: int| 0 <= j < i ==> p@[j] == s@[j],
        decreases n - i,
    {
        if p.get_char(i) != s.get_char(i) {
            return false;
        }
        i = i + 1;
    }
    true
}

/// The names among `all` that begin with `prefix`, in their order: the
/// functions that a prefix given on the command line stands for.
pub fn functions_with_prefix(all: &Vec<String>, prefix: &str) -> (r: Vec<String>)
    ensures
        args_view(r@) == args_view(all@).filter(|name: Seq<char>| prefix@.is_prefix_of(name)),
{
    let ghost keep = |name: Seq<char>| prefix@.is_prefix_of(name);
    let mut r: Vec<String> = Vec::new();
    let mut i: usize = 0;
    while i < all.len()
        invariant
            i <= all@.len(),
            keep == (|name: Seq<char>| prefix@.is_prefix_of(name)),
            args_view(r@) == args_view(all@).subrange(0, i as int).filter(keep),
        decreases all.len() - i,
    {
        let ghost v = args_view(all@);
        proof {
            assert(v.subrange(0, i + 1).drop_last() =~= v.subrange(0, i as int));
            reveal(Seq::filter);
        }
        let ghost before = r@;
        if has_prefix(all[i].as_str(), prefix) {
            let name = all[i].clone();
            r.push(name);
            assert(args_view(r@) =~= args_view(before).push(v[i as int]));
        } else {
            assert(args_view(r@) =~= args_view(before));
        }
        i = i + 1;
    }
    assert(args_view(all@).subrange(0, i as int) =~= args_view(all@));
    r
}

} // verus!
