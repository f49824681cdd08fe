//! Choosing the look of the progress bar.
use vstd::prelude::*;

use crate::command_line_args::CommandLineArgs;
use crate::text::same_text;

verus! {

pub const DEFAULT_PROGRESS_STYLE: &'static str = "default";

pub const SIMPLE_PROGRESS_STYLE: &'static str = "simple";

pub const SIMPLE_PROGRESS_STYLE_TEMPLATE: &'static str = "[{elapsed_precise}] Commands Done/Total: {pos:>2}/{len:2} {wide_bar} ETA {eta_precise}";

pub const LIGHT_BG_PROGRESS_STYLE: &'static str = "light_bg";

pub const LIGHT_BG_PROGRESS_STYLE_TEMPLATE: &'static str = "{spinner:.blue.bold} [{elapsed_precise}] Commands Done/Total: {pos:>2}/{len:2} [{wide_bar:.blue.bold/red}] ETA {eta_precise}";

pub const DARK_BG_PROGRESS_STYLE: &'static str = "dark_bg";

pub const DARK_BG_PROGRESS_STYLE_TEMPLATE: &'static str = "{spinner:.cyan.bold} [{elapsed_precise}] Commands Done/Total: {pos:>2}/{len:2} [{wide_bar:.cyan.bold/blue}] ETA {eta_precise}";

/// The characters of the bar: done, current, to do.
pub const PROGRESS_CHARS: &'static str = "#>-";

/// `indicatif::ProgressStyle`, declared so that it can be held; its contents
/// stay opaque.
#[verifier::external_type_specification]
#[verifier::external_body]
pub struct ExProgressStyle(::indicatif::ProgressStyle);

/// One of the templates of the known styles.
pub open spec fn known_template(template: Seq<char>) -> bool {
    ||| template == SIMPLE_PROGRESS_STYLE_TEMPLATE@
    ||| template == LIGHT_BG_PROGRESS_STYLE_TEMPLATE@
    ||| template == DARK_BG_PROGRESS_STYLE_TEMPLATE@
}

/// A style from a template (`indicatif::ProgressStyle::with_template`).
///
/// Trusted: the contract claims that `with_template` succeeds on the
/// templates of the known styles, which are the only ones admitted: its
/// template parser reports an error only for a character that cannot follow
/// in a placeholder (such as `:` or `}` right after `{`), which these
/// templates do not hold, and panics only on a placeholder width too large
/// for its integer, where these templates have widths of one digit. Nothing
/// is claimed of the style, which stays opaque.
#[verifier::external_body]
fn progress_style_with_template(template: &str) -> (r: Result<::indicatif::ProgressStyle, String>)
    requires
        known_template(template@),
    ensures
        r is Ok,
{
    ::indicatif::ProgressStyle::with_template(template).map_err(|e| e.to_string())
}

/// Every character is a printable ASCII character other than space.
pub open spec fn ascii_graphic(s: Seq<char>) -> bool {
    forall|i: int| 0 <= i < s.len() ==> 0x21 <= (#[trigger] s[i]) as u32 <= 0x7e
}

/// The style with `chars` as the characters of the bar
/// (`indicatif::ProgressStyle::progress_chars`).
///
/// Trusted: nothing is claimed of the style. `progress_chars` panics
/// unless it gets at least two grapheme clusters of equal width, which the
/// requirement of at least two printable ASCII characters ensures.
#[verifier::external_body]
fn progress_style_chars(style: ::indicatif::ProgressStyle, chars: &str) -> (r: ::indicatif::ProgressStyle)
    requires
        chars@.len() >= 2,
        ascii_graphic(chars@),
{
    style.progress_chars(chars)
}

/// The chosen style of the progress bar: its name, the template and bar
/// characters it is built from, and whether its spinner ticks steadily.
#[derive(Debug, PartialEq, Eq)]
pub struct ProgressStyleInfo {
    pub _style_name: &'static str,
    pub template: &'static str,
    pub progress_chars: Option<&'static str>,
    pub enable_steady_tick: bool,
}

/// Why no style could be chosen.
#[derive(Debug, PartialEq, Eq)]
pub enum ProgressStyleError {
    /// The style asked for is none of the known styles.
    UnknownStyle(String),
}

/// The style name that the settings ask for: `default` when none is given.
pub open spec fn style_setting(args: CommandLineArgs) -> Seq<char> {
    match args.progress_bar_style {
        None => DEFAULT_PROGRESS_STYLE@,
        Some(s) => s@,
    }
}

/// A style was chosen: named `name`, from `template`, with the bar
/// characters `chars` (none: indicatif's own), with or without a steady
/// tick.
pub open spec fn style_chosen(
    r: Result<ProgressStyleInfo, ProgressStyleError>,
    name: Seq<char>,
    template: Seq<char>,
    chars: Option<Seq<char>>,
    steady_tick: bool,
) -> bool {
    match r {
        Ok(info) => {
            &&& info._style_name@ == name
            &&& info.template@ == template
            &&& match info.progress_chars {
                Some(c) => chars == Some(c@),
                None => chars is None,
            }
            &&& info.enable_steady_tick == steady_tick
        },
        Err(_) => false,
    }
}

/// The progress bar style that the settings ask for: `simple`, from its
/// template with indicatif's bar characters and without a steady tick;
/// `light_bg` (also the default) or `dark_bg`, from their templates with
/// the bar characters `#>-` and a steady tick.
pub fn choose_progress_style(command_line_args: &CommandLineArgs) -> (r: Result<ProgressStyleInfo, ProgressStyleError>)
    ensures
        ({
            let setting = style_setting(*command_line_args);
            if setting == SIMPLE_PROGRESS_STYLE@ {
                style_chosen(r, SIMPLE_PROGRESS_STYLE@, SIMPLE_PROGRESS_STYLE_TEMPLATE@, None, false)
            } else if setting == LIGHT_BG_PROGRESS_STYLE@ || setting == DEFAULT_PROGRESS_STYLE@ {
                style_chosen(
                    r,
                    LIGHT_BG_PROGRESS_STYLE@,
                    LIGHT_BG_PROGRESS_STYLE_TEMPLATE@,
                    Some(PROGRESS_CHARS@),
                    true,
                )
            } else if setting == DARK_BG_PROGRESS_STYLE@ {
                style_chosen(
                    r,
                    DARK_BG_PROGRESS_STYLE@,
                    DARK_BG_PROGRESS_STYLE_TEMPLATE@,
                    Some(PROGRESS_CHARS@),
                    true,
                )
            } else {
                r matches Err(ProgressStyleError::UnknownStyle(s)) && s@ == setting
            }
        }),
{
    let setting: &str = match &command_line_args.progress_bar_style {
        None => DEFAULT_PROGRESS_STYLE,
        Some(style) => style.as_str(),
    };
    if same_text(setting, SIMPLE_PROGRESS_STYLE) {
        Ok(ProgressStyleInfo {
            _style_name: SIMPLE_PROGRESS_STYLE,
            template: SIMPLE_PROGRESS_STYLE_TEMPLATE,
            progress_chars: None,
            enable_steady_tick: false,
        })
    } else if same_text(setting, LIGHT_BG_PROGRESS_STYLE) || same_text(setting, DEFAULT_PROGRESS_STYLE) {
        Ok(ProgressStyleInfo {
            _style_name: LIGHT_BG_PROGRESS_STYLE,
            template: LIGHT_BG_PROGRESS_STYLE_TEMPLATE,
            progress_chars: Some(PROGRESS_CHARS),
            enable_steady_tick: true,
        })
    } else if same_text(setting, DARK_BG_PROGRESS_STYLE) {
        Ok(ProgressStyleInfo {
            _style_name: DARK_BG_PROGRESS_STYLE,
            template: DARK_BG_PROGRESS_STYLE_TEMPLATE,
            progress_chars: Some(PROGRESS_CHARS),
            enable_steady_tick: true,
        })
    } else {
        Err(ProgressStyleError::UnknownStyle(setting.to_owned()))
    }
}

/// The style can be built: its template is one of the known ones, and its
/// bar characters, if any, are `#>-`.
pub open spec fn style_buildable(info: ProgressStyleInfo) -> bool {
    &&& known_template(info.template@)
    &&& info.progress_chars matches Some(c) ==> c@ == PROGRESS_CHARS@
}

/// The indicatif style of `info`: built from its template, then given its
/// bar characters if it has any. `None` when the style cannot be built,
/// which is never so for a style that `choose_progress_style` chose.
pub fn build_progress_style(info: &ProgressStyleInfo) -> (r: Option<::indicatif::ProgressStyle>)
    ensures
        r is Some <==> style_buildable(*info),
{
    let known = same_text(info.template, SIMPLE_PROGRESS_STYLE_TEMPLATE) || same_text(
        info.template,
        LIGHT_BG_PROGRESS_STYLE_TEMPLATE,
    ) || same_text(info.template, DARK_BG_PROGRESS_STYLE_TEMPLATE);
    if !known {
        return None;
    }
    let style = match progress_style_with_template(info.template) {
        Ok(style) => style,
        Err(_) => return None,
    };
    match info.progress_chars {
        None => Some(style),
        Some(chars) => {
            if same_text(chars, PROGRESS_CHARS) {
                proof {
                    reveal_strlit("#>-");
                }
                Some(progress_style_chars(style, chars))
            } else {
                None
            }
        },
    }
}

} // verus!
