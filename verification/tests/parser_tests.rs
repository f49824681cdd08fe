use itertools::Itertools;

use rust_parallel::command_line_args::CommandLineArgs;
use rust_parallel::common::{OwnedCommandAndArgs, StdinData};
use rust_parallel::parser::buffered::BufferedInputLineParser;
use rust_parallel::parser::command_line::CommandLineArgsParser;
use rust_parallel::parser::pipe::PipeModeParser;
use rust_parallel::parser::regex::RegexProcessor;
use rust_parallel::parser::CommandBuilder;

fn command(command_path: &str, args: Vec<&str>) -> OwnedCommandAndArgs {
    OwnedCommandAndArgs {
        command_path: command_path.to_string(),
        args: args.into_iter().map_into().collect(),
        stdin: StdinData(None),
    }
}

// ---------------------------------------------------------------------------
// buffered input
// ---------------------------------------------------------------------------

#[test]
fn test_split_whitespace() {
    let command_line_args = CommandLineArgs {
        null_separator: false,
        shell: false,
        command_and_initial_arguments: vec![],
        ..Default::default()
    };

    let parser = BufferedInputLineParser::new(
        &command_line_args,
        RegexProcessor::new(&command_line_args).unwrap(),
    );

    let result = parser.parse_line("echo hi there");

    assert_eq!(result, Some(command("echo", vec!["hi", "there"])));

    let result = parser.parse_line(" echo  hi    there  ");

    assert_eq!(result, Some(command("echo", vec!["hi", "there"])));

    let result = parser.parse_line(" /bin/echo ");

    assert_eq!(result, Some(command("/bin/echo", vec![])));

    let result = parser.parse_line("");

    assert_eq!(result, None);
}

#[test]
fn test_null_separator() {
    let command_line_args = CommandLineArgs {
        null_separator: true,
        shell: false,
        command_and_initial_arguments: vec!["gzip".to_owned(), "-k".to_owned()],
        ..Default::default()
    };

    let parser = BufferedInputLineParser::new(
        &command_line_args,
        RegexProcessor::new(&command_line_args).unwrap(),
    );

    let result = parser.parse_line("file with spaces");

    assert_eq!(result, Some(command("gzip", vec!["-k", "file with spaces"])));
}

#[test]
fn test_shell() {
    let command_line_args = CommandLineArgs {
        null_separator: false,
        shell: true,
        command_and_initial_arguments: vec![],
        shell_path: "/bin/bash".to_owned(),
        ..Default::default()
    };

    let parser = BufferedInputLineParser::new(
        &command_line_args,
        RegexProcessor::new(&command_line_args).unwrap(),
    );

    let result = parser.parse_line("awesomebashfunction 1 2 3");

    assert_eq!(
        result,
        Some(command("/bin/bash", vec!["-c", "awesomebashfunction 1 2 3"]))
    );

    let command_line_args = CommandLineArgs {
        null_separator: false,
        shell: true,
        command_and_initial_arguments: vec![],
        shell_path: "/bin/zsh".to_owned(),
        ..Default::default()
    };

    let parser = BufferedInputLineParser::new(
        &command_line_args,
        RegexProcessor::new(&command_line_args).unwrap(),
    );

    let result = parser.parse_line(" awesomebashfunction 1 2 3 ");

    assert_eq!(
        result,
        Some(command("/bin/zsh", vec!["-c", "awesomebashfunction 1 2 3"]))
    );
}

#[test]
fn test_command_and_initial_arguments() {
    let command_line_args = CommandLineArgs {
        null_separator: false,
        shell: false,
        command_and_initial_arguments: vec!["md5".to_owned(), "-s".to_owned()],
        ..Default::default()
    };

    let parser = BufferedInputLineParser::new(
        &command_line_args,
        RegexProcessor::new(&command_line_args).unwrap(),
    );

    let result = parser.parse_line("stuff");

    assert_eq!(result, Some(command("md5", vec!["-s", "stuff"])));

    let result = parser.parse_line(" stuff things ");

    assert_eq!(result, Some(command("md5", vec!["-s", "stuff", "things"])));
}

#[test]
fn buffered_test_regex_named_groups() {
    let command_line_args = CommandLineArgs {
        command_and_initial_arguments: vec![
            "echo".to_owned(),
            "got arg1={arg1} arg2={arg2}".to_owned(),
        ],
        regex: Some("(?P<arg1>.*),(?P<arg2>.*)".to_owned()),
        ..Default::default()
    };

    let parser = BufferedInputLineParser::new(
        &command_line_args,
        RegexProcessor::new(&command_line_args).unwrap(),
    );

    let result = parser.parse_line("foo,bar");

    assert_eq!(result, Some(command("echo", vec!["got arg1=foo arg2=bar"])));
}

#[test]
fn buffered_test_regex_numbered_groups() {
    let command_line_args = CommandLineArgs {
        command_and_initial_arguments: vec![
            "echo".to_owned(),
            "got arg1={2} arg2={1} arg3={0}".to_owned(),
        ],
        regex: Some("(.*),(.*)".to_owned()),
        ..Default::default()
    };

    let parser = BufferedInputLineParser::new(
        &command_line_args,
        RegexProcessor::new(&command_line_args).unwrap(),
    );

    let result = parser.parse_line("foo,bar");

    assert_eq!(
        result,
        Some(command("echo", vec!["got arg1=bar arg2=foo arg3=foo,bar"]))
    );
}

// ---------------------------------------------------------------------------
// argument groups of the command line
// ---------------------------------------------------------------------------

fn collect_into_vec(mut parser: CommandLineArgsParser) -> Vec<OwnedCommandAndArgs> {
    let mut result = vec![];

    while parser.has_remaining_argument_groups() {
        let Some(cmd_and_args) = parser.parse_next_argument_group() else {
            continue;
        };

        result.push(cmd_and_args);
    }

    result
}

fn command_line_parser(command_line_args: &CommandLineArgs) -> CommandLineArgsParser {
    CommandLineArgsParser::new(
        command_line_args,
        RegexProcessor::new(command_line_args).unwrap(),
    )
}

#[test]
fn test_parse_command_line_args_with_intial_command() {
    let command_line_args = CommandLineArgs {
        shell: false,
        command_and_initial_arguments: vec!["echo", "-n", ":::", "A", "B", ":::", "C", "D", "E"]
            .into_iter()
            .map_into()
            .collect(),
        ..Default::default()
    };

    let result = collect_into_vec(command_line_parser(&command_line_args));

    assert_eq!(
        result,
        vec![
            command("echo", vec!["-n", "A", "C"]),
            command("echo", vec!["-n", "A", "D"]),
            command("echo", vec!["-n", "A", "E"]),
            command("echo", vec!["-n", "B", "C"]),
            command("echo", vec!["-n", "B", "D"]),
            command("echo", vec!["-n", "B", "E"]),
        ]
    );
}

#[test]
fn test_parse_command_line_args_no_intial_command() {
    let command_line_args = CommandLineArgs {
        shell: false,
        command_and_initial_arguments: vec![":::", "echo", "say", ":::", "arg1", "arg2", "arg3"]
            .into_iter()
            .map_into()
            .collect(),
        ..Default::default()
    };

    let result = collect_into_vec(command_line_parser(&command_line_args));

    assert_eq!(
        result,
        vec![
            command("echo", vec!["arg1"]),
            command("echo", vec!["arg2"]),
            command("echo", vec!["arg3"]),
            command("say", vec!["arg1"]),
            command("say", vec!["arg2"]),
            command("say", vec!["arg3"]),
        ]
    );
}

#[test]
fn test_parse_command_line_args_empty() {
    let command_line_args = CommandLineArgs {
        shell: false,
        command_and_initial_arguments: vec![],
        ..Default::default()
    };

    let result = collect_into_vec(command_line_parser(&command_line_args));

    assert_eq!(result, vec![]);
}

#[test]
fn test_parse_command_line_args_invalid() {
    let command_line_args = CommandLineArgs {
        shell: false,
        command_and_initial_arguments: vec![":::", ":::"].into_iter().map_into().collect(),
        ..Default::default()
    };

    let result = collect_into_vec(command_line_parser(&command_line_args));

    assert_eq!(result, vec![]);
}

#[test]
fn test_parse_command_line_args_shell_mode_with_initial_command() {
    let command_line_args = CommandLineArgs {
        shell: true,
        command_and_initial_arguments: vec!["echo", "-n", ":::", "A", "B", ":::", "C", "D", "E"]
            .into_iter()
            .map_into()
            .collect(),
        shell_path: "/bin/bash".to_owned(),
        shell_argument: "-c".to_owned(),
        ..Default::default()
    };

    let result = collect_into_vec(command_line_parser(&command_line_args));

    assert_eq!(
        result,
        vec![
            command("/bin/bash", vec!["-c", "echo -n A C"]),
            command("/bin/bash", vec!["-c", "echo -n A D"]),
            command("/bin/bash", vec!["-c", "echo -n A E"]),
            command("/bin/bash", vec!["-c", "echo -n B C"]),
            command("/bin/bash", vec!["-c", "echo -n B D"]),
            command("/bin/bash", vec!["-c", "echo -n B E"]),
        ]
    );
}

#[test]
fn test_parse_command_line_args_shell_mode_no_initial_command() {
    let command_line_args = CommandLineArgs {
        shell: true,
        command_and_initial_arguments: vec![":::", "say", "echo", ":::", "C", "D", "E"]
            .into_iter()
            .map_into()
            .collect(),
        shell_path: "/bin/bash".to_owned(),
        shell_argument: "-c".to_owned(),
        ..Default::default()
    };

    let result = collect_into_vec(command_line_parser(&command_line_args));

    assert_eq!(
        result,
        vec![
            command("/bin/bash", vec!["-c", "say C"]),
            command("/bin/bash", vec!["-c", "say D"]),
            command("/bin/bash", vec!["-c", "say E"]),
            command("/bin/bash", vec!["-c", "echo C"]),
            command("/bin/bash", vec!["-c", "echo D"]),
            command("/bin/bash", vec!["-c", "echo E"]),
        ]
    );
}

#[test]
fn command_line_test_regex_named_groups() {
    let command_line_args = CommandLineArgs {
        command_and_initial_arguments: vec![
            "echo",
            "got",
            "arg1={arg1}",
            "arg2={arg2}",
            "arg3={arg3}",
            ":::",
            "foo,bar,baz",
            "foo2,bar2,baz2",
        ]
        .into_iter()
        .map_into()
        .collect(),
        regex: Some("(?P<arg1>.*),(?P<arg2>.*),(?P<arg3>.*)".to_owned()),
        ..Default::default()
    };

    let result = collect_into_vec(command_line_parser(&command_line_args));

    assert_eq!(
        result,
        vec![
            command("echo", vec!["got", "arg1=foo", "arg2=bar", "arg3=baz"]),
            command("echo", vec!["got", "arg1=foo2", "arg2=bar2", "arg3=baz2"]),
        ]
    );
}

#[test]
fn command_line_test_regex_numbered_groups() {
    let command_line_args = CommandLineArgs {
        command_and_initial_arguments: vec![
            "echo",
            "got",
            "arg1={0}",
            "arg2={1}",
            "arg3={2}",
            ":::",
            "foo,bar,baz",
            "foo2,bar2,baz2",
        ]
        .into_iter()
        .map_into()
        .collect(),
        regex: Some("(.*),(.*),(.*)".to_owned()),
        ..Default::default()
    };

    let result = collect_into_vec(command_line_parser(&command_line_args));

    assert_eq!(
        result,
        vec![
            command("echo", vec!["got", "arg1=foo,bar,baz", "arg2=foo", "arg3=bar"]),
            command("echo", vec!["got", "arg1=foo2,bar2,baz2", "arg2=foo2", "arg3=bar2"]),
        ]
    );
}

// ---------------------------------------------------------------------------
// pipe mode
// ---------------------------------------------------------------------------

#[test]
fn test_two_segments_last_command_only() {
    let command_line_args = CommandLineArgs {
        command_and_initial_arguments: vec!["echo".to_string(), "hello".to_string()],
        block_size: 100,
        ..Default::default()
    };

    let mut parser = PipeModeParser::new(&command_line_args);
    let builder = CommandBuilder::new(&command_line_args);

    let segment1 = b"Hello, World!".to_vec();
    let segment2 = b"This is a test.".to_vec();

    assert!(parser.parse_segment(segment1).is_none());
    assert!(parser.parse_segment(segment2).is_none());

    let owned_command_and_args = builder.build(parser.parse_last_command().unwrap()).unwrap();
    assert_eq!(owned_command_and_args.command_path, "echo");
    assert_eq!(owned_command_and_args.args, vec!["hello".to_string()]);
    assert_eq!(
        owned_command_and_args.stdin.0.unwrap().as_str(),
        "Hello, World!\nThis is a test.\n"
    );
}

#[test]
fn test_two_segments_one_command() {
    let command_line_args = CommandLineArgs {
        command_and_initial_arguments: vec!["echo".to_string(), "hello".to_string()],
        block_size: 20,
        ..Default::default()
    };

    let mut parser = PipeModeParser::new(&command_line_args);
    let builder = CommandBuilder::new(&command_line_args);

    let segment1 = b"Hello, World!".to_vec();
    let segment2 = b"This is a test.".to_vec();

    assert!(parser.parse_segment(segment1).is_none());

    let owned_command_and_args = builder
        .build(parser.parse_segment(segment2).unwrap())
        .unwrap();
    assert_eq!(owned_command_and_args.command_path, "echo");
    assert_eq!(owned_command_and_args.args, vec!["hello".to_string()]);
    assert_eq!(
        owned_command_and_args.stdin.0.unwrap().as_str(),
        "Hello, World!\nThis is a test.\n"
    );

    assert!(parser.parse_last_command().is_none());
}

#[test]
fn test_two_segments_two_commands() {
    let command_line_args = CommandLineArgs {
        command_and_initial_arguments: vec!["echo".to_string(), "hello".to_string()],
        block_size: 10,
        ..Default::default()
    };

    let mut parser = PipeModeParser::new(&command_line_args);
    let builder = CommandBuilder::new(&command_line_args);

    let segment1 = b"Hello, World!".to_vec();
    let segment2 = b"This is a test.".to_vec();

    let owned_command_and_args1 = builder
        .build(parser.parse_segment(segment1).unwrap())
        .unwrap();
    assert_eq!(owned_command_and_args1.command_path, "echo");
    assert_eq!(owned_command_and_args1.args, vec!["hello".to_string()]);
    assert_eq!(
        owned_command_and_args1.stdin.0.unwrap().as_str(),
        "Hello, World!\n"
    );

    let owned_command_and_args2 = builder
        .build(parser.parse_segment(segment2).unwrap())
        .unwrap();
    assert_eq!(owned_command_and_args2.command_path, "echo");
    assert_eq!(owned_command_and_args2.args, vec!["hello".to_string()]);
    assert_eq!(
        owned_command_and_args2.stdin.0.unwrap().as_str(),
        "This is a test.\n"
    );

    assert!(parser.parse_last_command().is_none());
}
