use x_desk::args::{parse_bool_arg, ArgsError, ArgsProgram, PlayerArgs, SettingsArgs, WebViewArgs};

fn args(list: &[&str]) -> Vec<String> {
    list.iter().map(|s| s.to_string()).collect()
}

#[test]
fn player_arguments_are_read_in_any_order() {
    let a = PlayerArgs::parse(&args(&["--source", "C:\\v.mp4", "--pipe", "\\\\.\\pipe\\p"])).unwrap();
    assert_eq!(a.pipe_name, "\\\\.\\pipe\\p");
    assert_eq!(a.source, "C:\\v.mp4");
}

#[test]
fn missing_and_unknown_arguments_are_refused() {
    let e = PlayerArgs::parse(&args(&["--source", "x"])).err().unwrap();
    assert_eq!(e.to_string(), "Missing --pipe");
    let e = PlayerArgs::parse(&args(&["--pipe", "p"])).err().unwrap();
    assert_eq!(e.to_string(), "Missing --source");
    let e = PlayerArgs::parse(&args(&["--pipe", "p", "--verbose"])).err().unwrap();
    assert_eq!(e, ArgsError::UnknownArgument(ArgsProgram::Player, "--verbose".to_string()));
    assert_eq!(e.to_string(), "Unknown x-desk-player argument: --verbose");
    let e = PlayerArgs::parse(&args(&["--source", "s", "--pipe"])).err().unwrap();
    assert_eq!(e.to_string(), "Missing --pipe");
}

#[test]
fn webview_media_control_flag_is_optional() {
    let a = WebViewArgs::parse(&args(&["--pipe", "p", "--source", "s"])).unwrap();
    assert!(a.respond_to_media_control_commands);
    let a = WebViewArgs::parse(&args(&[
        "--respond-to-media-control-commands",
        "off",
        "--pipe",
        "p",
        "--source",
        "s",
    ]))
    .unwrap();
    assert!(!a.respond_to_media_control_commands);
    let e = WebViewArgs::parse(&args(&["--respond-to-media-control-commands"])).err().unwrap();
    assert_eq!(e.to_string(), "Missing --respond-to-media-control-commands value");
    let e = WebViewArgs::parse(&args(&["--respond-to-media-control-commands", "maybe"])).err().unwrap();
    assert_eq!(e.to_string(), "Invalid boolean value: maybe");
}

#[test]
fn settings_takes_only_config() {
    let a = SettingsArgs::parse(&args(&["--config", "C:\\c.toml"])).unwrap();
    assert_eq!(a.config_path, "C:\\c.toml");
    let e = SettingsArgs::parse(&args(&["--pipe", "p"])).err().unwrap();
    assert_eq!(e.to_string(), "Unknown x-desk-settings argument: --pipe");
    let e = SettingsArgs::parse(&args(&[])).err().unwrap();
    assert_eq!(e.to_string(), "Missing --config");
}

#[test]
fn booleans_have_four_spellings_each() {
    for v in ["true", "1", "yes", "on"] {
        assert_eq!(parse_bool_arg(v), Ok(true));
    }
    for v in ["false", "0", "no", "off"] {
        assert_eq!(parse_bool_arg(v), Ok(false));
    }
    assert!(parse_bool_arg("TRUE").is_err());
}

use x_desk::content::content_process_args;

#[test]
fn content_processes_read_back_their_command_line() {
    let line = content_process_args("\\\\.\\pipe\\x-desk-player-1-1", "--source");
    let a = PlayerArgs::parse(&line).unwrap();
    assert_eq!(a.pipe_name, "\\\\.\\pipe\\x-desk-player-1-1");
    assert_eq!(a.source, "--source");
    let w = WebViewArgs::parse(&line).unwrap();
    assert!(w.respond_to_media_control_commands);
}
