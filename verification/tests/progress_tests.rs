use rust_parallel::command_line_args::CommandLineArgs;
use rust_parallel::progress::{
    build_progress_style, choose_progress_style, ProgressStyleError, ProgressStyleInfo,
    DARK_BG_PROGRESS_STYLE, DARK_BG_PROGRESS_STYLE_TEMPLATE, DEFAULT_PROGRESS_STYLE,
    LIGHT_BG_PROGRESS_STYLE, LIGHT_BG_PROGRESS_STYLE_TEMPLATE, PROGRESS_CHARS,
    SIMPLE_PROGRESS_STYLE, SIMPLE_PROGRESS_STYLE_TEMPLATE,
};

#[test]
fn test_choose_progress_style_no_style_specified() {
    let command_line_args = CommandLineArgs {
        ..Default::default()
    };

    let result = choose_progress_style(&command_line_args);
    assert_eq!(result.is_err(), false);
    let result = result.unwrap();
    assert_eq!(result._style_name, LIGHT_BG_PROGRESS_STYLE);
    assert_eq!(result.enable_steady_tick, true);
}

#[test]
fn test_choose_progress_style_default_style_specified() {
    let command_line_args = CommandLineArgs {
        progress_bar_style: Some(DEFAULT_PROGRESS_STYLE.to_string()),
        ..Default::default()
    };

    let result = choose_progress_style(&command_line_args);
    assert_eq!(result.is_err(), false);
    let result = result.unwrap();
    assert_eq!(result._style_name, LIGHT_BG_PROGRESS_STYLE);
    assert_eq!(result.enable_steady_tick, true);
}

#[test]
fn test_choose_progress_style_light_bg_style_specified() {
    let command_line_args = CommandLineArgs {
        progress_bar_style: Some(LIGHT_BG_PROGRESS_STYLE.to_string()),
        ..Default::default()
    };

    let result = choose_progress_style(&command_line_args);
    assert_eq!(result.is_err(), false);
    let result = result.unwrap();
    assert_eq!(result._style_name, LIGHT_BG_PROGRESS_STYLE);
    assert_eq!(result.enable_steady_tick, true);
}

#[test]
fn test_choose_progress_style_dark_bg_style_specified() {
    let command_line_args = CommandLineArgs {
        progress_bar_style: Some(DARK_BG_PROGRESS_STYLE.to_string()),
        ..Default::default()
    };

    let result = choose_progress_style(&command_line_args);
    assert_eq!(result.is_err(), false);
    let result = result.unwrap();
    assert_eq!(result._style_name, DARK_BG_PROGRESS_STYLE);
    assert_eq!(result.enable_steady_tick, true);
}

#[test]
fn test_choose_progress_style_simple_style_specified() {
    let command_line_args = CommandLineArgs {
        progress_bar_style: Some(SIMPLE_PROGRESS_STYLE.to_string()),
        ..Default::default()
    };

    let result = choose_progress_style(&command_line_args);
    assert_eq!(result.is_err(), false);
    let result = result.unwrap();
    assert_eq!(result._style_name, SIMPLE_PROGRESS_STYLE);
    assert_eq!(result.enable_steady_tick, false);
}

#[test]
fn test_choose_progress_style_unknown_style_specified() {
    let command_line_args = CommandLineArgs {
        progress_bar_style: Some("unknown".to_string()),
        ..Default::default()
    };

    let result = choose_progress_style(&command_line_args);
    assert_eq!(result.is_err(), true);
}

#[test]
fn unknown_style_error_names_the_style() {
    let command_line_args = CommandLineArgs {
        progress_bar_style: Some("plaid".to_string()),
        ..Default::default()
    };

    match choose_progress_style(&command_line_args) {
        Err(e) => assert_eq!(e, ProgressStyleError::UnknownStyle("plaid".to_string())),
        Ok(_) => panic!("an unknown style was accepted"),
    }
}

#[test]
fn chosen_styles_name_their_template_and_bar_characters() {
    use_style("simple", SIMPLE_PROGRESS_STYLE_TEMPLATE, None, false);
    use_style("default", LIGHT_BG_PROGRESS_STYLE_TEMPLATE, Some(PROGRESS_CHARS), true);
    use_style("light_bg", LIGHT_BG_PROGRESS_STYLE_TEMPLATE, Some(PROGRESS_CHARS), true);
    use_style("dark_bg", DARK_BG_PROGRESS_STYLE_TEMPLATE, Some(PROGRESS_CHARS), true);
}

fn use_style(name: &str, template: &str, chars: Option<&str>, tick: bool) {
    let command_line_args = CommandLineArgs {
        progress_bar_style: Some(name.to_string()),
        ..Default::default()
    };
    let info = choose_progress_style(&command_line_args).unwrap();
    assert_eq!(info.template, template);
    assert_eq!(info.progress_chars, chars);
    assert_eq!(info.enable_steady_tick, tick);
    assert!(build_progress_style(&info).is_some());
}

#[test]
fn styles_outside_the_known_ones_are_not_built() {
    let info = ProgressStyleInfo {
        _style_name: "custom",
        template: "{pos}",
        progress_chars: None,
        enable_steady_tick: false,
    };
    assert!(build_progress_style(&info).is_none());
    let info = ProgressStyleInfo {
        _style_name: "custom",
        template: SIMPLE_PROGRESS_STYLE_TEMPLATE,
        progress_chars: Some("=>"),
        enable_steady_tick: false,
    };
    assert!(build_progress_style(&info).is_none());
}
