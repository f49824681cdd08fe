use itertools::Itertools;

use rust_parallel::command_line_args::CommandLineArgs;
use rust_parallel::parser::regex::{CaptureGroupKeys, 
    ApplyRegexToArgumentsResult, AutoCommandLineArgsRegex, RegexProcessor,
};

#[test]
fn test_regex_disabled() {
    let command_line_args = CommandLineArgs {
        regex: None,
        ..Default::default()
    };

    let regex_processor = RegexProcessor::new(&command_line_args).unwrap();

    assert_eq!(regex_processor.regex_mode(), false);

    let arguments = vec!["{0}".to_string()];
    assert_eq!(
        regex_processor.apply_regex_to_arguments(&arguments, "input line"),
        None,
    );
}

#[test]
fn regex_test_regex_numbered_groups() {
    let command_line_args = CommandLineArgs {
        regex: Some("(.*),(.*)".to_string()),
        ..Default::default()
    };

    let regex_processor = RegexProcessor::new(&command_line_args).unwrap();

    assert_eq!(regex_processor.regex_mode(), true);

    let arguments = vec!["{1} {2}".to_string()];
    assert_eq!(
        regex_processor.apply_regex_to_arguments(&arguments, "hello,world"),
        Some(ApplyRegexToArgumentsResult {
            arguments: vec!["hello world".to_string()],
            modified_arguments: true,
        })
    );
}

#[test]
fn regex_test_regex_named_groups() {
    let command_line_args = CommandLineArgs {
        regex: Some("(?P<arg1>.*),(?P<arg2>.*)".to_string()),
        ..Default::default()
    };

    let regex_processor = RegexProcessor::new(&command_line_args).unwrap();

    assert_eq!(regex_processor.regex_mode(), true);

    let arguments = vec!["{arg1} {arg2}".to_string()];
    assert_eq!(
        regex_processor.apply_regex_to_arguments(&arguments, "hello,world"),
        Some(ApplyRegexToArgumentsResult {
            arguments: vec!["hello world".to_string()],
            modified_arguments: true,
        })
    );
}

#[test]
fn test_regex_numbered_groups_json() {
    let command_line_args = CommandLineArgs {
        regex: Some("(.*),(.*)".to_string()),
        ..Default::default()
    };

    let regex_processor = RegexProcessor::new(&command_line_args).unwrap();

    assert_eq!(regex_processor.regex_mode(), true);

    let arguments =
        vec![r#"{"id": 123, "$zero": "{0}", "one": "{1}", "two": "{2}"}"#.to_string()];
    assert_eq!(
        regex_processor.apply_regex_to_arguments(&arguments, "hello,world",),
        Some(ApplyRegexToArgumentsResult {
            arguments: vec![
                r#"{"id": 123, "$zero": "hello,world", "one": "hello", "two": "world"}"#
                    .to_string(),
            ],
            modified_arguments: true,
        })
    );
}

#[test]
fn test_regex_named_groups_json() {
    let command_line_args = CommandLineArgs {
        regex: Some("(?P<arg1>.*),(?P<arg2>.*)".to_string()),
        ..Default::default()
    };

    let regex_processor = RegexProcessor::new(&command_line_args).unwrap();

    assert_eq!(regex_processor.regex_mode(), true);

    let arguments =
        vec![r#"{"id": 123, "$zero": "{0}", "one": "{arg1}", "two": "{arg2}"}"#.to_string()];
    assert_eq!(
        regex_processor.apply_regex_to_arguments(&arguments, "hello,world",),
        Some(ApplyRegexToArgumentsResult {
            arguments: vec![
                r#"{"id": 123, "$zero": "hello,world", "one": "hello", "two": "world"}"#
                    .to_string()
            ],
            modified_arguments: true,
        })
    );
}

#[test]
fn test_regex_string_containing_dollar_curly_brace_variable() {
    let command_line_args = CommandLineArgs {
        regex: Some("(?P<arg1>.*),(?P<arg2>.*)".to_string()),
        ..Default::default()
    };

    let regex_processor = RegexProcessor::new(&command_line_args).unwrap();

    assert_eq!(regex_processor.regex_mode(), true);

    let arguments = vec![r#"{arg2}${FOO}{arg1}$BAR${BAR}{arg2}"#.to_string()];
    assert_eq!(
        regex_processor.apply_regex_to_arguments(&arguments, "hello,world"),
        Some(ApplyRegexToArgumentsResult {
            arguments: vec![r#"world${FOO}hello$BAR${BAR}world"#.to_string()],
            modified_arguments: true,
        })
    );
}

#[test]
fn test_regex_not_matching_input_data() {
    let command_line_args = CommandLineArgs {
        regex: Some("(?P<arg1>.*),(?P<arg2>.*)".to_string()),
        ..Default::default()
    };

    let regex_processor = RegexProcessor::new(&command_line_args).unwrap();

    assert_eq!(regex_processor.regex_mode(), true);

    let arguments = vec!["{arg2},{arg1}".to_string()];
    assert_eq!(
        regex_processor.apply_regex_to_arguments(&arguments, "hello,world"),
        Some(ApplyRegexToArgumentsResult {
            arguments: vec!["world,hello".to_string()],
            modified_arguments: true,
        }),
    );

    assert_eq!(
        regex_processor.apply_regex_to_arguments(&arguments, "hello world"),
        None,
    );
}

#[test]
fn test_regex_invalid() {
    let command_line_args = CommandLineArgs {
        regex: Some("(?Parg1>.*),(?P<arg2>.*)".to_string()),
        ..Default::default()
    };

    let result = RegexProcessor::new(&command_line_args);

    assert!(result.is_err());
}

#[test]
fn test_auto_regex_command_line_regex() {
    let command_line_args = CommandLineArgs {
        regex: Some("(?Parg1>.*),(?P<arg2>.*)".to_string()),
        ..Default::default()
    };

    let auto_regex = AutoCommandLineArgsRegex::new(&command_line_args);

    assert!(auto_regex.is_none());
}

#[test]
fn test_auto_regex_not_command_line_args_mode() {
    let command_line_args = CommandLineArgs {
        regex: None,
        command_and_initial_arguments: ["echo"].into_iter().map_into().collect(),
        ..Default::default()
    };

    let auto_regex = AutoCommandLineArgsRegex::new(&command_line_args);

    assert!(auto_regex.is_none());
}

#[test]
fn test_auto_regex() {
    let command_line_args = CommandLineArgs {
        regex: None,
        command_and_initial_arguments: ["echo", ":::", "A", "B", ":::", "C", "D"]
            .into_iter()
            .map_into()
            .collect(),
        ..Default::default()
    };

    let auto_regex = AutoCommandLineArgsRegex::new(&command_line_args);

    assert!(auto_regex.is_some());
    assert_eq!(auto_regex.unwrap().0, "(.*) (.*)");
}

// ---------------------------------------------------------------------------
// capture group keys on given groups
// ---------------------------------------------------------------------------

fn opt(s: Option<&str>) -> Option<String> {
    s.map(|s| s.to_string())
}

#[test]
fn capture_group_keys_numbered_and_named() {
    let keys = CaptureGroupKeys::new(&vec![None, opt(Some("first")), None]);
    let groups = vec![opt(Some("a,b")), opt(Some("a")), opt(Some("b"))];
    assert_eq!(
        keys.expand("{0}|{1}|{first}|{2}|{3}", &groups),
        ("a,b|a|a|b|{3}".to_string(), true)
    );
}

#[test]
fn capture_group_keys_skip_groups_not_in_match() {
    let keys = CaptureGroupKeys::new(&vec![None, opt(Some("first")), None]);
    let groups = vec![opt(Some("x")), None, opt(Some("y"))];
    assert_eq!(
        keys.expand("{1}-{first}", &groups),
        ("{1}-{first}".to_string(), false)
    );
}

#[test]
fn capture_group_keys_substitute_in_order() {
    let keys = CaptureGroupKeys::new(&vec![None, None]);
    let groups = vec![opt(Some("{1}")), opt(Some("z"))];
    assert_eq!(keys.expand("{0}", &groups), ("z".to_string(), true));
    assert_eq!(keys.expand("no keys", &groups), ("no keys".to_string(), false));
}
