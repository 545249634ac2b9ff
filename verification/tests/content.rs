use x_desk::config::WallpaperKind;
use x_desk::content::{
    content_exe_name, content_pipe_name, content_process_args, parse_content_command, parse_window_ready,
    pipe_label, webview_command, ContentCommand, WindowReadyError,
};

#[test]
fn command_text_round_trips() {
    for c in [ContentCommand::Pause, ContentCommand::Resume, ContentCommand::Stop] {
        assert_eq!(parse_content_command(c.text()), Some(c));
    }
    assert_eq!(parse_content_command("pause"), None);
    assert_eq!(parse_content_command(""), None);
}

#[test]
fn webview_ignores_media_commands_when_told_to() {
    assert_eq!(webview_command("Pause", false), None);
    assert_eq!(webview_command("Resume", false), None);
    assert_eq!(webview_command("Stop", false), Some(ContentCommand::Stop));
    assert_eq!(webview_command("Pause", true), Some(ContentCommand::Pause));
    assert_eq!(webview_command("Play", true), None);
}

#[test]
fn window_ready_line_gives_the_handle() {
    assert_eq!(parse_window_ready("WindowReady 132456\r\n"), Ok(132456));
    assert_eq!(parse_window_ready("  WindowReady -42 "), Ok(-42));
    assert_eq!(parse_window_ready("WindowReady +7"), Ok(7));
    assert_eq!(parse_window_ready("WindowReady 12x"), Err(WindowReadyError::InvalidHandle));
    assert_eq!(
        parse_window_ready("WindowReady "),
        Err(WindowReadyError::UnexpectedMessage("WindowReady".to_string()))
    );
    assert_eq!(parse_window_ready("WindowReady  5"), Err(WindowReadyError::InvalidHandle));
    assert_eq!(
        parse_window_ready("WindowReady 99999999999999999999999"),
        Err(WindowReadyError::InvalidHandle)
    );
    let e = parse_window_ready(" Ready 1 ").unwrap_err();
    assert_eq!(e, WindowReadyError::UnexpectedMessage("Ready 1".to_string()));
    assert_eq!(e.to_string(), "Unexpected content process message: Ready 1");
    assert_eq!(WindowReadyError::InvalidHandle.to_string(), "Parse content HWND failed");
}

#[test]
fn pipe_names_and_arguments() {
    assert_eq!(content_pipe_name("player", 4321, 7), "\\\\.\\pipe\\x-desk-player-4321-7");
    assert_eq!(content_pipe_name(pipe_label(WallpaperKind::WebView), 0, 10), "\\\\.\\pipe\\x-desk-webview-0-10");
    assert_eq!(content_exe_name(WallpaperKind::Video), "x-desk-player.exe");
    assert_eq!(content_exe_name(WallpaperKind::WebView), "x-desk-webview.exe");
    assert_eq!(
        content_process_args("p", "s"),
        vec!["--pipe".to_string(), "p".to_string(), "--source".to_string(), "s".to_string()]
    );
}

use x_desk::content::{check_hwnd_owner, HwndOwnerMismatch};

#[test]
fn content_window_must_belong_to_started_process() {
    assert_eq!(check_hwnd_owner(42, 42), Ok(()));
    let e = check_hwnd_owner(7, 42).unwrap_err();
    assert_eq!(e, HwndOwnerMismatch { actual_process_id: 7, expected_process_id: 42 });
    assert_eq!(e.to_string(), "Content HWND belongs to process 7, expected 42");
}

use x_desk::content::window_ready_line;

#[test]
fn announced_window_is_read_back() {
    for hwnd in [0isize, 1, -1, 65_794, isize::MAX, isize::MIN] {
        let line = window_ready_line(hwnd);
        assert_eq!(line, format!("WindowReady {hwnd}"));
        assert_eq!(parse_window_ready(&format!("{line}\n")), Ok(hwnd));
    }
}
