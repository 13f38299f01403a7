use haybale_pitchfork::pitchfork_config::KeepGoing;
use haybale_pitchfork::command_line::{
    functions_with_prefix, has_prefix, parse_command_line, parse_number, Command, CommandLineError, CommandLineOptions,
};

fn args(v: &[&str]) -> Vec<String> {
    v.iter().map(|s| s.to_string()).collect()
}

#[test]
fn help_and_listing() {
    assert_eq!(parse_command_line(&args(&["-h"])), Ok(Command::Help));
    assert_eq!(parse_command_line(&args(&["--help", "foo"])), Ok(Command::Help));
    assert_eq!(parse_command_line(&args(&["--keep-going", "--list-functions"])), Ok(Command::ListFunctions));
}

#[test]
fn no_functions_is_an_error() {
    assert_eq!(parse_command_line(&args(&[])), Err(CommandLineError::NoFunctions));
    assert_eq!(parse_command_line(&args(&["--prefix"])), Err(CommandLineError::NoFunctions));
}

#[test]
fn options_then_functions() {
    let r = parse_command_line(&args(&[
        "--loop-bound", "7", "--max-callstack-depth", "+3", "--max-memcpy-length", "4096", "--solver-timeout", "60",
        "--debug-logging", "--no-progress-updates", "--keep-going", "--prefix", "foo", "bar",
    ]));
    match r {
        Ok(Command::Check { options, funcnames, misplaced_option }) => {
            assert_eq!(options.loop_bound, Some(7));
            assert_eq!(options.max_callstack_depth, Some(3));
            assert_eq!(options.max_memcpy_length, Some(4096));
            assert_eq!(options.solver_timeout_secs, Some(60));
            assert!(options.pitchfork_config.debug_logging);
            assert!(!options.pitchfork_config.progress_updates);
            assert_eq!(options.pitchfork_config.keep_going, KeepGoing::Full);
            assert!(options.prefix);
            assert_eq!(funcnames, args(&["foo", "bar"]));
            assert!(!misplaced_option);
        },
        other => panic!("unexpected {:?}", other),
    }
}

#[test]
fn defaults_without_options() {
    let r = parse_command_line(&args(&["f"])).unwrap();
    assert_eq!(
        r,
        Command::Check { options: CommandLineOptions::default(), funcnames: args(&["f"]), misplaced_option: false }
    );
    let d = CommandLineOptions::default();
    assert_eq!(d.pitchfork_config.keep_going, KeepGoing::StopPerPath);
    assert!(d.pitchfork_config.dump_errors);
    assert!(d.pitchfork_config.progress_updates);
    assert!(!d.pitchfork_config.debug_logging);
    assert!(!d.prefix);
}

#[test]
fn option_after_function_names() {
    let r = parse_command_line(&args(&["f", "g", "--keep-going", "h"])).unwrap();
    assert_eq!(
        r,
        Command::Check { options: CommandLineOptions::default(), funcnames: args(&["f", "g"]), misplaced_option: true }
    );
}

#[test]
fn option_errors() {
    assert_eq!(
        parse_command_line(&args(&["--loop-bound"])),
        Err(CommandLineError::MissingValue("--loop-bound".to_string()))
    );
    assert_eq!(
        parse_command_line(&args(&["--solver-timeout", "ten", "f"])),
        Err(CommandLineError::InvalidNumber("--solver-timeout".to_string()))
    );
    assert_eq!(
        parse_command_line(&args(&["--frobnicate", "f"])),
        Err(CommandLineError::UnrecognizedOption("--frobnicate".to_string()))
    );
    assert_eq!(
        parse_command_line(&args(&["-x"])),
        Err(CommandLineError::UnrecognizedOption("-x".to_string()))
    );
}

#[test]
fn numbers() {
    assert_eq!(parse_number("0", u64::MAX), Some(0));
    assert_eq!(parse_number("+42", u64::MAX), Some(42));
    assert_eq!(parse_number("18446744073709551615", u64::MAX), Some(u64::MAX));
    assert_eq!(parse_number("18446744073709551616", u64::MAX), None);
    assert_eq!(parse_number("256", 255), None);
    assert_eq!(parse_number("255", 255), Some(255));
    assert_eq!(parse_number("", u64::MAX), None);
    assert_eq!(parse_number("+", u64::MAX), None);
    assert_eq!(parse_number("-1", u64::MAX), None);
    assert_eq!(parse_number("1a", u64::MAX), None);
    // the same as the standard library
    assert_eq!(parse_number("+17", u64::MAX), "+17".parse::<u64>().ok());
}

#[test]
fn prefixes() {
    assert!(has_prefix("ct_simple", "ct_"));
    assert!(has_prefix("ct", ""));
    assert!(!has_prefix("ct", "ct_"));
    let all = args(&["ct_a", "notct_b", "ct_c", "c"]);
    assert_eq!(functions_with_prefix(&all, "ct_"), args(&["ct_a", "ct_c"]));
    assert_eq!(functions_with_prefix(&all, "zz"), args(&[]));
}
