use rust_parallel::command::metrics::{CommandCompletion, CommandMetrics};
use rust_parallel::command::path_cache::{path_key_of, CommandPathCache, PathResolution};
use rust_parallel::command::{spawn_decision, SpawnDecision};
use rust_parallel::command_line_args::{CommandLineArgs, DiscardOutput};
use rust_parallel::common::{OwnedCommandAndArgs, OwnedCommandAndArgsConversionError, StdinData};
use rust_parallel::input::{
    build_input_list, BufferedInput, Input, InputLineNumber, InputList, LineNumberOrRange,
    PipeLineRange,
};
use rust_parallel::output::{output_should_be_sent, OutputOrderBuffer};
use rust_parallel::parser::buffered::BufferedInputLineParser;
use rust_parallel::parser::command_line::CommandLineArgsParser;
use rust_parallel::parser::pipe::PipeModeParser;
use rust_parallel::parser::regex::RegexProcessor;
use rust_parallel::process::{ChildProcessExecutionError, ChildProcessOutputSettings};
use rust_parallel::text::{decimal_string, join, parse_usize, split_whitespace};

fn strings(v: &[&str]) -> Vec<String> {
    v.iter().map(|s| s.to_string()).collect()
}

// ---------------------------------------------------------------------------
// text
// ---------------------------------------------------------------------------

#[test]
fn decimal_string_writes_digits() {
    assert_eq!(decimal_string(0), "0");
    assert_eq!(decimal_string(7), "7");
    assert_eq!(decimal_string(1234567890), "1234567890");
    assert_eq!(decimal_string(u64::MAX), "18446744073709551615");
}

#[test]
fn parse_usize_follows_from_str() {
    assert_eq!(parse_usize("0"), Some(0));
    assert_eq!(parse_usize("42"), Some(42));
    assert_eq!(parse_usize("+42"), Some(42));
    assert_eq!(parse_usize("007"), Some(7));
    assert_eq!(parse_usize(""), None);
    assert_eq!(parse_usize("+"), None);
    assert_eq!(parse_usize("-1"), None);
    assert_eq!(parse_usize("4 2"), None);
    assert_eq!(parse_usize("12a"), None);
    assert_eq!(parse_usize(&usize::MAX.to_string()), Some(usize::MAX));
    assert_eq!(parse_usize(&format!("{}0", usize::MAX)), None);
    for s in ["0", "1", "99", "+5", "x", "", "-0", "123456789"] {
        assert_eq!(parse_usize(s), s.parse::<usize>().ok());
    }
}

#[test]
fn split_whitespace_and_join() {
    assert_eq!(split_whitespace("  a b\t c\n"), strings(&["a", "b", "c"]));
    assert_eq!(split_whitespace("   "), Vec::<String>::new());
    assert_eq!(join(&strings(&["a", "b", "c"]), ", "), "a, b, c");
    assert_eq!(join(&Vec::new(), ", "), "");
}

// ---------------------------------------------------------------------------
// command line settings
// ---------------------------------------------------------------------------

#[test]
fn semaphore_permits_in_range() {
    assert_eq!(CommandLineArgs::parse_semaphore_permits("1"), Ok(1));
    assert_eq!(CommandLineArgs::parse_semaphore_permits("8"), Ok(8));
    assert_eq!(
        CommandLineArgs::parse_semaphore_permits(&(usize::MAX >> 3).to_string()),
        Ok(usize::MAX >> 3)
    );
}

#[test]
fn semaphore_permits_out_of_range() {
    let expected = format!("value not in range {:?}", 1..=(usize::MAX >> 3));
    assert_eq!(CommandLineArgs::parse_semaphore_permits("0"), Err(expected.clone()));
    assert_eq!(
        CommandLineArgs::parse_semaphore_permits(&((usize::MAX >> 3) + 1).to_string()),
        Err(expected)
    );
}

#[test]
fn semaphore_permits_not_a_number() {
    assert_eq!(
        CommandLineArgs::parse_semaphore_permits("four"),
        Err("`four` isn't a number".to_string())
    );
    assert_eq!(
        CommandLineArgs::parse_semaphore_permits("-3"),
        Err("`-3` isn't a number".to_string())
    );
}

#[test]
fn default_settings() {
    let args = CommandLineArgs::default();
    assert_eq!(args.shell_path, "/bin/bash");
    assert_eq!(args.shell_argument, "-c");
    assert!(!args.commands_from_args_mode());
}

#[test]
fn commands_from_args_mode_needs_separator() {
    let with = CommandLineArgs {
        command_and_initial_arguments: strings(&["echo", ":::", "a"]),
        ..Default::default()
    };
    let without = CommandLineArgs {
        command_and_initial_arguments: strings(&["echo", "::", "a"]),
        ..Default::default()
    };
    assert!(with.commands_from_args_mode());
    assert!(!without.commands_from_args_mode());
}

// ---------------------------------------------------------------------------
// commands
// ---------------------------------------------------------------------------

#[test]
fn owned_command_from_words() {
    let o = OwnedCommandAndArgs::try_from_vec(strings(&["ls", "-l", "/tmp"])).unwrap();
    assert_eq!(o.command_path, "ls");
    assert_eq!(o.args, strings(&["-l", "/tmp"]));
    assert_eq!(o.stdin, StdinData(None));
    assert_eq!(
        OwnedCommandAndArgs::try_from_vec(vec![]),
        Err(OwnedCommandAndArgsConversionError::EmptyInput)
    );
    let o = o
        .with_command_path("/bin/ls".to_string())
        .with_stdin(StdinData(Some("x".to_string())));
    assert_eq!(o.command_path, "/bin/ls");
    assert_eq!(o.args, strings(&["-l", "/tmp"]));
    assert_eq!(o.stdin, StdinData(Some("x".to_string())));
}

#[test]
fn stdin_data_display() {
    assert_eq!(StdinData(None).to_display_string(), "None");
    let shown = StdinData(Some("x".repeat(2048))).to_display_string();
    assert_eq!(shown, bytesize::ByteSize::b(2048).to_string());
    assert_ne!(shown, "None");
    assert_ne!(StdinData(Some(String::new())).to_display_string(), shown);
}

#[test]
fn spawn_decisions() {
    assert_eq!(spawn_decision(true, true, true), SpawnDecision::DryRun);
    assert_eq!(spawn_decision(true, false, false), SpawnDecision::DryRun);
    assert_eq!(spawn_decision(false, true, true), SpawnDecision::SkipAfterError);
    assert_eq!(spawn_decision(false, true, false), SpawnDecision::Spawn);
    assert_eq!(spawn_decision(false, false, true), SpawnDecision::Spawn);
}

#[test]
fn metrics_count_failures() {
    let mut m = CommandMetrics::new();
    assert!(!m.error_occurred());
    m.increment_commands_run();
    m.increment_commands_run();
    m.increment_commands_run();
    m.increment_commands_run();
    m.record_completion(CommandCompletion::Exited { success: true });
    assert!(!m.error_occurred());
    m.record_completion(CommandCompletion::SpawnError);
    m.record_completion(CommandCompletion::ExecutionError(ChildProcessExecutionError::Timeout(
        "deadline has elapsed".to_string(),
    )));
    m.handle_child_process_execution_error(ChildProcessExecutionError::IOError("broken".to_string()));
    m.record_completion(CommandCompletion::Exited { success: false });
    m.increment_exit_status_errors();
    assert!(m.error_occurred());
    assert_eq!(m.commands_run(), 4);
    assert_eq!(m.spawn_errors(), 1);
    assert_eq!(m.timeouts(), 1);
    assert_eq!(m.io_errors(), 1);
    assert_eq!(m.exit_status_errors(), 2);
    assert_eq!(m.total_failures(), 5);
    assert_eq!(
        m.to_display_string(),
        "commands_run=4 total_failures=5 spawn_errors=1 timeouts=1 io_errors=1 exit_status_errors=2"
    );
}

#[test]
fn metrics_error_flag_stays_set() {
    let mut m = CommandMetrics::new();
    m.increment_spawn_errors();
    assert!(m.error_occurred());
    m.increment_commands_run();
    m.record_completion(CommandCompletion::Exited { success: true });
    assert!(m.error_occurred());
    assert_eq!(spawn_decision(false, true, m.error_occurred()), SpawnDecision::SkipAfterError);
}

#[test]
fn output_settings_from_discard_output() {
    let none = ChildProcessOutputSettings::new(None);
    assert!(!none.discard_stdout && !none.discard_stderr && !none.discard_all_output());
    let out = ChildProcessOutputSettings::new(Some(DiscardOutput::Stdout));
    assert!(out.discard_stdout && !out.discard_stderr && !out.discard_all_output());
    let err = ChildProcessOutputSettings::new(Some(DiscardOutput::Stderr));
    assert!(!err.discard_stdout && err.discard_stderr && !err.discard_all_output());
    let all = ChildProcessOutputSettings::new(Some(DiscardOutput::All));
    assert!(all.discard_stdout && all.discard_stderr && all.discard_all_output());
}

// ---------------------------------------------------------------------------
// path cache
// ---------------------------------------------------------------------------

#[test]
fn path_cache_remembers_first_answer() {
    let args = CommandLineArgs::default();
    let mut cache = CommandPathCache::new(&args);
    assert_eq!(
        cache.record_resolution("ls".to_string(), Some("/bin/ls".to_string())),
        Some("/bin/ls".to_string())
    );
    assert_eq!(
        cache.record_resolution("ls".to_string(), Some("/usr/bin/ls".to_string())),
        Some("/bin/ls".to_string())
    );
    assert_eq!(cache.record_resolution("nope".to_string(), None), None);
    assert_eq!(
        cache.record_resolution("nope".to_string(), Some("/bin/nope".to_string())),
        None
    );
}

#[test]
fn path_cache_disabled_uses_path() {
    let args = CommandLineArgs {
        disable_path_cache: true,
        ..Default::default()
    };
    let mut cache = CommandPathCache::new(&args);
    assert_eq!(
        cache.record_resolution("ls".to_string(), Some("/bin/ls".to_string())),
        Some("ls".to_string())
    );
    assert_eq!(
        cache.resolve_command_path("no-such-command-here"),
        PathResolution::Resolved(Some("no-such-command-here".to_string()))
    );
}

#[test]
fn path_cache_asks_for_a_lookup_once() {
    let args = CommandLineArgs::default();
    let mut cache = CommandPathCache::new(&args);
    assert_eq!(cache.resolve_command_path("ls"), PathResolution::LookupNeeded);
    assert_eq!(
        cache.record_resolution("ls".to_string(), Some("/bin/ls".to_string())),
        Some("/bin/ls".to_string())
    );
    assert_eq!(
        cache.resolve_command_path("ls"),
        PathResolution::Resolved(Some("/bin/ls".to_string()))
    );
    assert_eq!(cache.resolve_command_path("nope"), PathResolution::LookupNeeded);
    assert_eq!(cache.record_resolution("nope".to_string(), None), None);
    assert_eq!(cache.resolve_command_path("nope"), PathResolution::Resolved(None));
}

// ---------------------------------------------------------------------------
// inputs
// ---------------------------------------------------------------------------

#[test]
fn input_list_from_settings() {
    let pipe = CommandLineArgs {
        pipe: true,
        command_and_initial_arguments: strings(&["echo", ":::", "a"]),
        ..Default::default()
    };
    assert_eq!(build_input_list(&pipe), InputList::Pipe);

    let from_args = CommandLineArgs {
        command_and_initial_arguments: strings(&["echo", ":::", "a"]),
        ..Default::default()
    };
    assert_eq!(build_input_list(&from_args), InputList::CommandLineArgs);

    let stdin = CommandLineArgs::default();
    assert_eq!(build_input_list(&stdin), InputList::Buffered(vec![BufferedInput::Stdin]));

    let files = CommandLineArgs {
        input_file: strings(&["a.txt", "-", "b.txt"]),
        ..Default::default()
    };
    assert_eq!(
        build_input_list(&files),
        InputList::Buffered(vec![
            BufferedInput::File { file_name: "a.txt".to_string() },
            BufferedInput::Stdin,
            BufferedInput::File { file_name: "b.txt".to_string() },
        ])
    );
}

#[test]
fn input_line_numbers_display() {
    let n = InputLineNumber {
        input: Input::Buffered(BufferedInput::Stdin),
        line_number: LineNumberOrRange::Single(12),
    };
    assert_eq!(n.to_display_string(), "stdin:12");
    let n = InputLineNumber {
        input: Input::Buffered(BufferedInput::File { file_name: "in.txt".to_string() }),
        line_number: LineNumberOrRange::Range(3, 9),
    };
    assert_eq!(n.to_display_string(), "in.txt:3-9");
    let n = InputLineNumber {
        input: Input::CommandLineArgs,
        line_number: LineNumberOrRange::from(1),
    };
    assert_eq!(n.to_display_string(), "command_line_args:1");
    assert_eq!(LineNumberOrRange::from((4, 5)), LineNumberOrRange::Range(4, 5));
}

#[test]
fn pipe_line_ranges() {
    let mut r = PipeLineRange::new();
    assert_eq!(r.record_segment(1, false), None);
    assert_eq!(r.record_segment(2, true), Some((1, 2)));
    assert_eq!(r.record_segment(3, false), None);
    assert_eq!(r.record_segment(4, false), None);
    assert_eq!(r.last_range(), (3, 4));
}

// ---------------------------------------------------------------------------
// output
// ---------------------------------------------------------------------------

#[test]
fn outputs_worth_sending() {
    assert!(!output_should_be_sent(true, true, true));
    assert!(output_should_be_sent(false, true, true));
    assert!(output_should_be_sent(true, false, true));
    assert!(output_should_be_sent(true, true, false));
}

#[test]
fn output_buffer_releases_in_line_order() {
    let mut b = OutputOrderBuffer::new();
    assert_eq!(b.insert(3, "three"), Vec::<&str>::new());
    assert_eq!(b.insert(2, "two"), Vec::<&str>::new());
    assert_eq!(b.insert(1, "one"), vec!["one", "two", "three"]);
    assert_eq!(b.insert(5, "five"), Vec::<&str>::new());
    assert_eq!(b.insert(7, "seven"), Vec::<&str>::new());
    assert_eq!(b.insert(4, "four"), vec!["four", "five"]);
    assert_eq!(b.insert(9, "nine"), Vec::<&str>::new());
    assert_eq!(b.take_remaining(), vec!["seven", "nine"]);
}

// ---------------------------------------------------------------------------
// argument groups and pipe blocks
// ---------------------------------------------------------------------------

#[test]
fn argument_groups_give_every_combination() {
    let args = CommandLineArgs {
        command_and_initial_arguments: strings(&["echo", ":::", "a", "b", ":::", "1", "2", "3"]),
        ..Default::default()
    };
    let regex_processor = RegexProcessor::new(&args).unwrap();
    let mut parser = CommandLineArgsParser::new(&args, regex_processor);
    assert_eq!(parser.num_argument_groups(), 6);
    let mut got = vec![];
    while parser.has_remaining_argument_groups() {
        let c = parser.parse_next_argument_group().unwrap();
        assert_eq!(c.command_path, "echo");
        got.push(c.args);
    }
    assert_eq!(
        got,
        vec![
            strings(&["a", "1"]),
            strings(&["a", "2"]),
            strings(&["a", "3"]),
            strings(&["b", "1"]),
            strings(&["b", "2"]),
            strings(&["b", "3"]),
        ]
    );
    assert_eq!(parser.parse_next_argument_group(), None);
}

#[test]
fn adjacent_separators_make_no_empty_group() {
    let args = CommandLineArgs {
        command_and_initial_arguments: strings(&["echo", ":::", "a", ":::", ":::", "b"]),
        ..Default::default()
    };
    let regex_processor = RegexProcessor::new(&args).unwrap();
    let mut parser = CommandLineArgsParser::new(&args, regex_processor);
    assert_eq!(parser.num_argument_groups(), 1);
    let c = parser.parse_next_argument_group().unwrap();
    assert_eq!(c.args, strings(&["a", "b"]));
    assert!(!parser.has_remaining_argument_groups());
}

#[test]
fn pipe_blocks_keep_all_data() {
    let args = CommandLineArgs {
        command_and_initial_arguments: strings(&["wc", "-l"]),
        block_size: 8,
        ..Default::default()
    };
    let mut parser = PipeModeParser::new(&args);
    let lines = ["one", "two", "three", "four", "five", "six"];
    let mut blocks = vec![];
    for line in lines {
        if let Some(p) = parser.parse_line(line) {
            let stdin = p.stdin.unwrap();
            assert!(stdin.len() >= 8);
            blocks.push(stdin);
        }
    }
    if let Some(p) = parser.parse_last_command() {
        blocks.push(p.stdin.unwrap());
    }
    assert_eq!(blocks, strings(&["one\ntwo\n", "three\nfour\n", "five\nsix\n"]));
    assert_eq!(blocks.concat(), "one\ntwo\nthree\nfour\nfive\nsix\n");
    assert!(parser.parse_last_command().is_none());
}

#[test]
fn pipe_segment_not_utf8_is_skipped() {
    let args = CommandLineArgs {
        command_and_initial_arguments: strings(&["cat"]),
        block_size: 1,
        ..Default::default()
    };
    let mut parser = PipeModeParser::new(&args);
    assert!(parser.parse_segment(vec![0xff, 0xfe]).is_none());
    let p = parser.parse_segment(b"ok".to_vec()).unwrap();
    assert_eq!(p.stdin, Some("ok\n".to_string()));
    assert_eq!(p.command_and_args, strings(&["cat"]));
}

#[test]
fn no_run_if_empty_skips_blank_lines() {
    let args = CommandLineArgs {
        no_run_if_empty: true,
        command_and_initial_arguments: strings(&["echo"]),
        ..Default::default()
    };
    let parser = BufferedInputLineParser::new(&args, RegexProcessor::new(&args).unwrap());
    assert_eq!(parser.parse_line(""), None);
    assert_eq!(parser.parse_line("  \t"), None);
    assert_eq!(parser.parse_segment(Vec::new()), None);
    assert_eq!(parser.parse_line("x").unwrap().args, strings(&["x"]));

    let args = CommandLineArgs {
        command_and_initial_arguments: strings(&["echo"]),
        ..Default::default()
    };
    let parser = BufferedInputLineParser::new(&args, RegexProcessor::new(&args).unwrap());
    let c = parser.parse_line("").unwrap();
    assert_eq!(c.command_path, "echo");
    assert!(c.args.is_empty());
}

#[test]
fn error_flag_matches_failures() {
    let mut m = CommandMetrics::new();
    assert_eq!(m.error_occurred(), m.total_failures() > 0);
    m.increment_commands_run();
    assert!(!m.error_occurred());
    assert_eq!(m.error_occurred(), m.total_failures() > 0);
    m.handle_child_process_execution_error(ChildProcessExecutionError::Timeout("t".to_string()));
    assert!(m.error_occurred());
    assert_eq!(m.timeouts(), 1);
    assert_eq!(m.io_errors(), 0);
    assert_eq!(m.error_occurred(), m.total_failures() > 0);
    m.record_completion(CommandCompletion::ExecutionError(ChildProcessExecutionError::IOError(
        "e".to_string(),
    )));
    assert_eq!(m.timeouts(), 1);
    assert_eq!(m.io_errors(), 1);
    m.record_completion(CommandCompletion::Exited { success: true });
    assert!(m.error_occurred());
    assert_eq!(m.total_failures(), 2);
}

#[test]
fn path_cache_keys_compare_as_paths() {
    assert_eq!(path_key_of("a//b/./"), strings(&["a", "b"]));
    assert_eq!(path_key_of("/usr/bin/"), strings(&["/", "usr", "bin"]));
    assert_eq!(path_key_of("./x/."), strings(&[".", "x"]));
    assert_eq!(path_key_of("."), strings(&["."]));
    assert_eq!(path_key_of("../x"), strings(&["..", "x"]));
    assert_eq!(path_key_of(""), Vec::<String>::new());
    for (a, b) in [("a//b/./", "a/b"), ("./x", "x"), ("/a/", "/a"), ("a/.", "a"), ("../x", "x")] {
        assert_eq!(
            path_key_of(a) == path_key_of(b),
            std::path::PathBuf::from(a) == std::path::PathBuf::from(b)
        );
    }

    let args = CommandLineArgs::default();
    let mut cache = CommandPathCache::new(&args);
    assert_eq!(
        cache.record_resolution("tool".to_string(), Some("/opt/tool".to_string())),
        Some("/opt/tool".to_string())
    );
    assert_eq!(
        cache.resolve_command_path("tool/"),
        PathResolution::Resolved(Some("/opt/tool".to_string()))
    );
    assert_eq!(cache.resolve_command_path("./tool"), PathResolution::LookupNeeded);
    assert_eq!(
        cache.record_resolution("other".to_string(), None),
        None
    );
    assert_eq!(
        cache.record_resolution("tool".to_string(), Some("/elsewhere/tool".to_string())),
        Some("/opt/tool".to_string())
    );
}

#[test]
fn choose_progress_style_succeeds_for_every_known_style() {
    for style in ["default", "simple", "light_bg", "dark_bg"] {
        let args = CommandLineArgs {
            progress_bar_style: Some(style.to_string()),
            ..Default::default()
        };
        assert!(rust_parallel::progress::choose_progress_style(&args).is_ok());
    }
}

#[test]
fn default_metrics_count_nothing() {
    let m = CommandMetrics::default();
    assert!(!m.error_occurred());
    assert_eq!(m.total_failures(), 0);
    assert_eq!(m.commands_run(), 0);
}
