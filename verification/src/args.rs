//! The command lines of the helper processes: the video player and the web
//! view take `--pipe <name> --source <source>` (the web view also
//! `--respond-to-media-control-commands <bool>`), the settings opener takes
//! `--config <path>`. Flags may come in any order and a later one wins; an
//! unknown argument is refused.
use vstd::prelude::*;

use crate::text::{chars_of, text_equals};

verus! {

/// The helper program whose command line is read.
#[derive(Debug, Clone, Copy, PartialEq, Eq, Structural)]
pub enum ArgsProgram {
    Player,
    WebView,
    Settings,
}

/// The program's name in messages.
pub open spec fn program_name(p: ArgsProgram) -> Seq<char> {
    match p {
        ArgsProgram::Player => "x-desk-player"@,
        ArgsProgram::WebView => "x-desk-webview"@,
        ArgsProgram::Settings => "x-desk-settings"@,
    }
}

/// What a command line says so far.
pub struct ArgsState {
    pub pipe_name: Option<Seq<char>>,
    pub source: Option<Seq<char>>,
    pub config_path: Option<Seq<char>>,
    pub respond_to_media_control_commands: bool,
}

/// Why a command line was refused.
#[derive(Debug, Clone, PartialEq, Eq)]
pub enum ArgsError {
    /// An argument that the program does not know.
    UnknownArgument(ArgsProgram, String),
    /// `--respond-to-media-control-commands` came last, without its value.
    MissingMediaControlValue,
    /// The value of `--respond-to-media-control-commands` is not a boolean.
    InvalidBoolean(String),
    /// A required flag is missing (its name is given).
    MissingFlag(String),
}

/// The message of an [`ArgsError`].
pub open spec fn args_error_message(e: ArgsError) -> Seq<char> {
    match e {
        ArgsError::UnknownArgument(p, arg) => "Unknown "@ + program_name(p) + " argument: "@ + arg@,
        ArgsError::MissingMediaControlValue => "Missing --respond-to-media-control-commands value"@,
        ArgsError::InvalidBoolean(v) => "Invalid boolean value: "@ + v@,
        ArgsError::MissingFlag(flag) => "Missing "@ + flag@,
    }
}

/// A failure found while reading the flags, as spec values.
pub enum ScanFailure {
    Unknown(Seq<char>),
    MissingMediaControlValue,
    InvalidBoolean(Seq<char>),
}

/// The boolean that a flag value spells, if any.
pub open spec fn bool_value(v: Seq<char>) -> Option<bool> {
    if v == "true"@ || v == "1"@ || v == "yes"@ || v == "on"@ {
        Some(true)
    } else if v == "false"@ || v == "0"@ || v == "no"@ || v == "off"@ {
        Some(false)
    } else {
        None
    }
}

/// The argument after position `i`, if there is one.
pub open spec fn next_arg(args: Seq<Seq<char>>, i: int) -> Option<Seq<char>> {
    if i + 1 < args.len() {
        Some(args[i + 1])
    } else {
        None
    }
}

/// The position after a flag at `i` and the value that it consumed.
pub open spec fn after_value(args: Seq<Seq<char>>, i: int) -> int {
    if i + 1 < args.len() {
        i + 2
    } else {
        i + 1
    }
}

/// Reads the flags of `program` from position `i` on, starting from `state`.
pub open spec fn scan_args(
    program: ArgsProgram,
    args: Seq<Seq<char>>,
    i: int,
    state: ArgsState,
) -> Result<ArgsState, ScanFailure>
    decreases args.len() - i,
{
    if i < 0 || i >= args.len() {
        Ok(state)
    } else {
        let a = args[i];
        if program != ArgsProgram::Settings && a == "--pipe"@ {
            scan_args(
                program,
                args,
                after_value(args, i),
                ArgsState { pipe_name: next_arg(args, i), ..state },
            )
        } else if program != ArgsProgram::Settings && a == "--source"@ {
            scan_args(
                program,
                args,
                after_value(args, i),
                ArgsState { source: next_arg(args, i), ..state },
            )
        } else if program == ArgsProgram::Settings && a == "--config"@ {
            scan_args(
                program,
                args,
                after_value(args, i),
                ArgsState { config_path: next_arg(args, i), ..state },
            )
        } else if program == ArgsProgram::WebView && a == "--respond-to-media-control-commands"@ {
            match next_arg(args, i) {
                None => Err(ScanFailure::MissingMediaControlValue),
                Some(v) => match bool_value(v) {
                    None => Err(ScanFailure::InvalidBoolean(v)),
                    Some(b) => scan_args(
                        program,
                        args,
                        i + 2,
                        ArgsState { respond_to_media_control_commands: b, ..state },
                    ),
                },
            }
        } else {
            Err(ScanFailure::Unknown(a))
        }
    }
}

/// The state before any flag: nothing given, media control on.
pub open spec fn initial_args_state() -> ArgsState {
    ArgsState {
        pipe_name: None,
        source: None,
        config_path: None,
        respond_to_media_control_commands: true,
    }
}

/// The views of a list of strings.
pub open spec fn strings_view(v: Seq<String>) -> Seq<Seq<char>> {
    v.map_values(|s: String| s@)
}

/// The value of an optional string.
pub open spec fn opt_string_view(s: Option<String>) -> Option<Seq<char>> {
    match s {
        Some(s) => Some(s@),
        None => None,
    }
}

/// The boolean that `value` spells: `true`, `1`, `yes` or `on`, and
/// `false`, `0`, `no` or `off`.
pub fn parse_bool_arg(value: &str) -> (res: Result<bool, ArgsError>)
    ensures
        match res {
            Ok(b) => bool_value(value@) == Some(b),
            Err(e) => {
                &&& bool_value(value@) is None
                &&& e matches ArgsError::InvalidBoolean(v) && v@ == value@
            },
        },
{
    let c = chars_of(value);
    let s = c.as_slice();
    if text_equals(s, "true") || text_equals(s, "1") || text_equals(s, "yes") || text_equals(s, "on") {
        Ok(true)
    } else if text_equals(s, "false") || text_equals(s, "0") || text_equals(s, "no") || text_equals(
        s,
        "off",
    ) {
        Ok(false)
    } else {
        Err(ArgsError::InvalidBoolean(value.to_owned()))
    }
}


/// The error `e` reports the failure `f` of `program`'s command line.
pub open spec fn error_reports(program: ArgsProgram, e: ArgsError, f: ScanFailure) -> bool {
    match f {
        ScanFailure::Unknown(a) => e matches ArgsError::UnknownArgument(p, x) && p == program && x@
            == a,
        ScanFailure::MissingMediaControlValue => e matches ArgsError::MissingMediaControlValue,
        ScanFailure::InvalidBoolean(v) => e matches ArgsError::InvalidBoolean(x) && x@ == v,
    }
}

/// The error `e` reports that `flag` is missing.
pub open spec fn reports_missing(e: ArgsError, flag: Seq<char>) -> bool {
    e matches ArgsError::MissingFlag(f) && f@ == flag
}

impl ArgsError {
    /// The message that the program fails with.
    pub fn to_string(&self) -> (res: String)
        ensures
            res@ == args_error_message(*self),
    {
        match self {
            ArgsError::UnknownArgument(p, arg) => {
                let mut m = String::from_str("Unknown ");
                m.append(program_name_text(*p));
                m.append(" argument: ");
                m.append(arg.as_str());
                m
            },
            ArgsError::MissingMediaControlValue => String::from_str(
                "Missing --respond-to-media-control-commands value",
            ),
            ArgsError::InvalidBoolean(v) => {
                let mut m = String::from_str("Invalid boolean value: ");
                m.append(v.as_str());
                m
            },
            ArgsError::MissingFlag(flag) => {
                let mut m = String::from_str("Missing ");
                m.append(flag.as_str());
                m
            },
        }
    }
}

/// The program's name in messages.
pub fn program_name_text(p: ArgsProgram) -> (res: &'static str)
    ensures
        res@ == program_name(p),
{
    match p {
        ArgsProgram::Player => "x-desk-player",
        ArgsProgram::WebView => "x-desk-webview",
        ArgsProgram::Settings => "x-desk-settings",
    }
}

/// The flags read from a command line.
pub struct ArgsValues {
    pub pipe_name: Option<String>,
    pub source: Option<String>,
    pub config_path: Option<String>,
    pub respond_to_media_control_commands: bool,
}

/// The value of [`ArgsValues`].
pub open spec fn values_view(v: ArgsValues) -> ArgsState {
    ArgsState {
        pipe_name: opt_string_view(v.pipe_name),
        source: opt_string_view(v.source),
        config_path: opt_string_view(v.config_path),
        respond_to_media_control_commands: v.respond_to_media_control_commands,
    }
}

fn arg_after(args: &[String], i: usize) -> (res: Option<String>)
    requires
        i < args@.len(),
    ensures
        opt_string_view(res) == next_arg(strings_view(args@), i as int),
{
    if args.len() - i > 1 {
        Some(args[i + 1].clone())
    } else {
        None
    }
}

/// Reads the flags of `program` from `args` (the arguments after the
/// program's own name).
pub fn scan_command_line(program: ArgsProgram, args: &[String]) -> (res: Result<ArgsValues, ArgsError>)
    ensures
        match res {
            Ok(v) => scan_args(program, strings_view(args@), 0, initial_args_state()) == Ok::<
                ArgsState,
                ScanFailure,
            >(values_view(v)),
            Err(e) => scan_args(program, strings_view(args@), 0, initial_args_state()) matches Err(f)
                && error_reports(program, e, f),
        },
{
    let ghost a = strings_view(args@);
    let mut state = ArgsValues {
        pipe_name: None,
        source: None,
        config_path: None,
        respond_to_media_control_commands: true,
    };
    let mut i: usize = 0;
    while i < args.len()
        invariant
            i <= args@.len(),
            a == strings_view(args@),
            scan_args(program, a, 0, initial_args_state()) == scan_args(
                program,
                a,
                i as int,
                values_view(state),
            ),
        decreases args@.len() - i,
    {
        let arg = chars_of(args[i].as_str());
        let arg = arg.as_slice();
        proof {
            assert(a[i as int] == args@[i as int]@);
        }
        let not_settings = match program {
            ArgsProgram::Settings => false,
            _ => true,
        };
        let is_webview = match program {
            ArgsProgram::WebView => true,
            _ => false,
        };
        if not_settings && text_equals(arg, "--pipe") {
            state.pipe_name = arg_after(args, i);
            i = if i + 1 < args.len() {
                i + 2
            } else {
                i + 1
            };
        } else if not_settings && text_equals(arg, "--source") {
            state.source = arg_after(args, i);
            i = if i + 1 < args.len() {
                i + 2
            } else {
                i + 1
            };
        } else if !not_settings && text_equals(arg, "--config") {
            state.config_path = arg_after(args, i);
            i = if i + 1 < args.len() {
                i + 2
            } else {
                i + 1
            };
        } else if is_webview && text_equals(arg, "--respond-to-media-control-commands") {
            if i + 1 >= args.len() {
                return Err(ArgsError::MissingMediaControlValue);
            }
            proof {
                assert(a[i + 1] == args@[i + 1]@);
            }
            let b = parse_bool_arg(args[i + 1].as_str())?;
            state.respond_to_media_control_commands = b;
            i = i + 2;
        } else {
            return Err(ArgsError::UnknownArgument(program, args[i].clone()));
        }
    }
    Ok(state)
}

/// The command line of the video player.
pub struct PlayerArgs {
    pub pipe_name: String,
    pub source: String,
}

/// The command line of the web view.
pub struct WebViewArgs {
    pub pipe_name: String,
    pub source: String,
    pub respond_to_media_control_commands: bool,
}

/// The command line of the settings opener.
pub struct SettingsArgs {
    pub config_path: String,
}

impl PlayerArgs {
    /// Reads `--pipe` and `--source`, both required.
    pub fn parse(args: &[String]) -> (res: Result<PlayerArgs, ArgsError>)
        ensures
            match scan_args(ArgsProgram::Player, strings_view(args@), 0, initial_args_state()) {
                Err(f) => res matches Err(e) && error_reports(ArgsProgram::Player, e, f),
                Ok(st) => match (st.pipe_name, st.source) {
                    (Some(p), Some(s)) => res matches Ok(r) && r.pipe_name@ == p && r.source@ == s,
                    (None, _) => res matches Err(e) && reports_missing(e, "--pipe"@),
                    (Some(_), None) => res matches Err(e) && reports_missing(e, "--source"@),
                },
            },
    {
        let v = scan_command_line(ArgsProgram::Player, args)?;
        let pipe_name = match v.pipe_name {
            Some(p) => p,
            None => {
                return Err(ArgsError::MissingFlag(String::from_str("--pipe")));
            },
        };
        let source = match v.source {
            Some(s) => s,
            None => {
                return Err(ArgsError::MissingFlag(String::from_str("--source")));
            },
        };
        Ok(PlayerArgs { pipe_name, source })
    }
}

impl WebViewArgs {
    /// Reads `--pipe` and `--source`, both required, and the optional
    /// `--respond-to-media-control-commands` (on when absent).
    pub fn parse(args: &[String]) -> (res: Result<WebViewArgs, ArgsError>)
        ensures
            match scan_args(ArgsProgram::WebView, strings_view(args@), 0, initial_args_state()) {
                Err(f) => res matches Err(e) && error_reports(ArgsProgram::WebView, e, f),
                Ok(st) => match (st.pipe_name, st.source) {
                    (Some(p), Some(s)) => res matches Ok(r) && r.pipe_name@ == p && r.source@ == s
                        && r.respond_to_media_control_commands
                        == st.respond_to_media_control_commands,
                    (None, _) => res matches Err(e) && reports_missing(e, "--pipe"@),
                    (Some(_), None) => res matches Err(e) && reports_missing(e, "--source"@),
                },
            },
    {
        let v = scan_command_line(ArgsProgram::WebView, args)?;
        let pipe_name = match v.pipe_name {
            Some(p) => p,
            None => {
                return Err(ArgsError::MissingFlag(String::from_str("--pipe")));
            },
        };
        let source = match v.source {
            Some(s) => s,
            None => {
                return Err(ArgsError::MissingFlag(String::from_str("--source")));
            },
        };
        Ok(
            WebViewArgs {
                pipe_name,
                source,
                respond_to_media_control_commands: v.respond_to_media_control_commands,
            },
        )
    }
}

impl SettingsArgs {
    /// Reads the required `--config`.
    pub fn parse(args: &[String]) -> (res: Result<SettingsArgs, ArgsError>)
        ensures
            match scan_args(ArgsProgram::Settings, strings_view(args@), 0, initial_args_state()) {
                Err(f) => res matches Err(e) && error_reports(ArgsProgram::Settings, e, f),
                Ok(st) => match st.config_path {
                    Some(c) => res matches Ok(r) && r.config_path@ == c,
                    None => res matches Err(e) && reports_missing(e, "--config"@),
                },
            },
    {
        let v = scan_command_line(ArgsProgram::Settings, args)?;
        match v.config_path {
            Some(c) => Ok(SettingsArgs { config_path: c }),
            None => Err(ArgsError::MissingFlag(String::from_str("--config"))),
        }
    }
}


/// The command line that starts a content process on pipe `pipe_name`
/// showing `source`.
pub open spec fn content_command_line(pipe_name: Seq<char>, source: Seq<char>) -> Seq<Seq<char>> {
    seq!["--pipe"@, pipe_name, "--source"@, source]
}

/// A content process reads back the command line that the host starts it
/// with: the player and the web view both find the pipe name and the
/// source that were passed, and the web view keeps media control on.
pub proof fn law_content_command_line_is_read_back(
    program: ArgsProgram,
    pipe_name: Seq<char>,
    source: Seq<char>,
)
    requires
        program != ArgsProgram::Settings,
    ensures
        scan_args(program, content_command_line(pipe_name, source), 0, initial_args_state()) == Ok::<
            ArgsState,
            ScanFailure,
        >(
            ArgsState {
                pipe_name: Some(pipe_name),
                source: Some(source),
                config_path: None,
                respond_to_media_control_commands: true,
            },
        ),
{
    reveal_strlit("--pipe");
    reveal_strlit("--source");
    let args = content_command_line(pipe_name, source);
    assert("--source"@ != "--pipe"@) by {
        assert("--source"@.len() != "--pipe"@.len());
    }
    let s0 = initial_args_state();
    let s1 = ArgsState { pipe_name: next_arg(args, 0), ..s0 };
    let s2 = ArgsState { source: next_arg(args, 2), ..s1 };
    assert(scan_args(program, args, 4, s2) == Ok::<ArgsState, ScanFailure>(s2));
    assert(scan_args(program, args, 2, s1) == scan_args(program, args, 4, s2));
    assert(scan_args(program, args, 0, s0) == scan_args(program, args, 2, s1));
}

} // verus!
