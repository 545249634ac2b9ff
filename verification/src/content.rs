//! The line protocol between the wallpaper host and its content processes:
//! the commands that the host sends, the `WindowReady` line that a content
//! process answers with, and the names of the pipes they talk over.
use vstd::prelude::*;

use crate::config::WallpaperKind;
use crate::numbers::{
    decimal, law_signed_decimal_parses_back, lemma_decimal_digits, parse_isize, parse_isize_spec,
    push_decimal, push_signed_decimal, signed_decimal,
};
use crate::text::{
    chars_of, has_prefix, is_white_space, slice_has_prefix, string_from_chars, text_equals, trim,
    trim_end, trim_start, trim_str,
};
use crate::vec_util::append_copies;

verus! {

/// A command that the host sends to a content process.
#[derive(Debug, Clone, Copy, PartialEq, Eq, Structural)]
pub enum ContentCommand {
    Pause,
    Resume,
    Stop,
}

/// The text of a command on the pipe.
pub open spec fn command_text(c: ContentCommand) -> Seq<char> {
    match c {
        ContentCommand::Pause => "Pause"@,
        ContentCommand::Resume => "Resume"@,
        ContentCommand::Stop => "Stop"@,
    }
}

/// The command whose text is `t`, if any.
pub open spec fn command_named(t: Seq<char>) -> Option<ContentCommand> {
    if t == "Pause"@ {
        Some(ContentCommand::Pause)
    } else if t == "Resume"@ {
        Some(ContentCommand::Resume)
    } else if t == "Stop"@ {
        Some(ContentCommand::Stop)
    } else {
        None
    }
}

impl ContentCommand {
    /// The text of the command on the pipe.
    pub fn text(&self) -> (res: &'static str)
        ensures
            res@ == command_text(*self),
    {
        match self {
            ContentCommand::Pause => "Pause",
            ContentCommand::Resume => "Resume",
            ContentCommand::Stop => "Stop",
        }
    }
}

/// The command that a received line names; `text` is the line without its
/// surrounding whitespace.
pub fn parse_content_command(text: &str) -> (res: Option<ContentCommand>)
    ensures
        res == command_named(text@),
{
    let chars = chars_of(text);
    if text_equals(chars.as_slice(), "Pause") {
        Some(ContentCommand::Pause)
    } else if text_equals(chars.as_slice(), "Resume") {
        Some(ContentCommand::Resume)
    } else if text_equals(chars.as_slice(), "Stop") {
        Some(ContentCommand::Stop)
    } else {
        None
    }
}

/// The command that a web view content process acts on: with media control
/// turned off it ignores `Pause` and `Resume`, and it always acts on `Stop`.
pub open spec fn webview_command_for(t: Seq<char>, respond_to_media_control: bool) -> Option<
    ContentCommand,
> {
    match command_named(t) {
        Some(ContentCommand::Stop) => Some(ContentCommand::Stop),
        Some(c) => if respond_to_media_control {
            Some(c)
        } else {
            None
        },
        None => None,
    }
}

/// The command that a web view content process acts on for the line `text`.
pub fn webview_command(text: &str, respond_to_media_control: bool) -> (res: Option<ContentCommand>)
    ensures
        res == webview_command_for(text@, respond_to_media_control),
{
    match parse_content_command(text) {
        Some(ContentCommand::Stop) => Some(ContentCommand::Stop),
        Some(c) => if respond_to_media_control {
            Some(c)
        } else {
            None
        },
        None => None,
    }
}

/// Sending a command and reading it back gives the same command.
pub proof fn law_command_text_round_trip(c: ContentCommand)
    ensures
        command_named(command_text(c)) == Some(c),
{
    reveal_strlit("Pause");
    reveal_strlit("Resume");
    reveal_strlit("Stop");
    match c {
        ContentCommand::Pause => {},
        ContentCommand::Resume => {
            assert("Resume"@ != "Pause"@) by {
                assert("Resume"@.len() != "Pause"@.len());
            }
        },
        ContentCommand::Stop => {
            assert("Stop"@ != "Pause"@) by {
                assert("Stop"@.len() != "Pause"@.len());
            }
            assert("Stop"@ != "Resume"@) by {
                assert("Stop"@.len() != "Resume"@.len());
            }
        },
    }
}

/// Why a content process's first line was refused.
#[derive(Debug, Clone, PartialEq, Eq)]
pub enum WindowReadyError {
    /// The trimmed line does not start with `WindowReady `.
    UnexpectedMessage(String),
    /// The text after `WindowReady ` is not an `isize`.
    InvalidHandle,
}

/// The message of a [`WindowReadyError`].
pub open spec fn window_ready_error_message(e: WindowReadyError) -> Seq<char> {
    match e {
        WindowReadyError::UnexpectedMessage(line) => "Unexpected content process message: "@ + line@,
        WindowReadyError::InvalidHandle => "Parse content HWND failed"@,
    }
}

impl WindowReadyError {
    /// The message that is logged.
    pub fn to_string(&self) -> (res: String)
        ensures
            res@ == window_ready_error_message(*self),
    {
        match self {
            WindowReadyError::UnexpectedMessage(line) => {
                let mut m = String::from_str("Unexpected content process message: ");
                m.append(line.as_str());
                m
            },
            WindowReadyError::InvalidHandle => String::from_str("Parse content HWND failed"),
        }
    }
}

/// The window handle that a `WindowReady <handle>` line announces, the line
/// taken without its surrounding whitespace.
pub open spec fn window_ready_handle(line: Seq<char>) -> Option<Option<int>> {
    let t = trim(line);
    if has_prefix(t, "WindowReady "@) {
        Some(parse_isize_spec(t.skip("WindowReady "@.len() as int)))
    } else {
        None
    }
}

/// The window handle that a content process announces in its first line.
pub fn parse_window_ready(line: &str) -> (res: Result<isize, WindowReadyError>)
    ensures
        match res {
            Ok(h) => window_ready_handle(line@) == Some(Some(h as int)),
            Err(WindowReadyError::UnexpectedMessage(t)) => window_ready_handle(line@) is None
                && t@ == trim(line@),
            Err(WindowReadyError::InvalidHandle) => window_ready_handle(line@) == Some(
                None::<int>,
            ),
        },
{
    let t = trim_str(line);
    let chars = chars_of(t);
    let prefix = chars_of("WindowReady ");
    if !slice_has_prefix(chars.as_slice(), prefix.as_slice()) {
        return Err(WindowReadyError::UnexpectedMessage(t.to_owned()));
    }
    let mut rest: Vec<char> = Vec::new();
    let mut i = prefix.len();
    while i < chars.len()
        invariant
            prefix@.len() <= i <= chars@.len(),
            rest@ == chars@.subrange(prefix@.len() as int, i as int),
        decreases chars@.len() - i,
    {
        rest.push(chars[i]);
        i += 1;
        assert(chars@.subrange(prefix@.len() as int, i as int) =~= chars@.subrange(
            prefix@.len() as int,
            i - 1,
        ).push(chars@[i - 1]));
    }
    assert(rest@ =~= chars@.skip(prefix@.len() as int));
    match parse_isize(rest.as_slice()) {
        Some(h) => Ok(h),
        None => Err(WindowReadyError::InvalidHandle),
    }
}

/// The executable that shows content of the given kind.
pub open spec fn content_exe_name_of(kind: WallpaperKind) -> Seq<char> {
    match kind {
        WallpaperKind::Video => "x-desk-player.exe"@,
        WallpaperKind::WebView => "x-desk-webview.exe"@,
    }
}

/// The label of the pipes to processes that show content of the given kind.
pub open spec fn pipe_label_of(kind: WallpaperKind) -> Seq<char> {
    match kind {
        WallpaperKind::Video => "player"@,
        WallpaperKind::WebView => "webview"@,
    }
}

/// The executable that shows content of the given kind.
pub fn content_exe_name(kind: WallpaperKind) -> (res: &'static str)
    ensures
        res@ == content_exe_name_of(kind),
{
    match kind {
        WallpaperKind::Video => "x-desk-player.exe",
        WallpaperKind::WebView => "x-desk-webview.exe",
    }
}

/// The label of the pipes to processes that show content of the given kind.
pub fn pipe_label(kind: WallpaperKind) -> (res: &'static str)
    ensures
        res@ == pipe_label_of(kind),
{
    match kind {
        WallpaperKind::Video => "player",
        WallpaperKind::WebView => "webview",
    }
}

/// The name of the pipe to a content process: `\\.\pipe\x-desk-`, the
/// label, the host's process id and the pipe's sequence number, joined by
/// `-`.
pub open spec fn content_pipe_name_of(label: Seq<char>, process_id: nat, pipe_id: nat) -> Seq<
    char,
> {
    "\\\\.\\pipe\\x-desk-"@ + label + "-"@ + decimal(process_id) + "-"@ + decimal(pipe_id)
}

/// The name of the pipe to a content process.
pub fn content_pipe_name(label: &str, process_id: u32, pipe_id: u64) -> (res: String)
    ensures
        res@ == content_pipe_name_of(label@, process_id as nat, pipe_id as nat),
{
    let mut out: Vec<char> = chars_of("\\\\.\\pipe\\x-desk-");
    let l = chars_of(label);
    append_copies(&mut out, l.as_slice());
    let dash = chars_of("-");
    append_copies(&mut out, dash.as_slice());
    push_decimal(&mut out, process_id as u64);
    append_copies(&mut out, dash.as_slice());
    push_decimal(&mut out, pipe_id);
    string_from_chars(out.as_slice())
}

/// The command line arguments that start a content process on `pipe_name`
/// showing `source`.
pub fn content_process_args(pipe_name: &str, source: &str) -> (res: Vec<String>)
    ensures
        res@.len() == 4,
        res@[0]@ == "--pipe"@,
        res@[1]@ == pipe_name@,
        res@[2]@ == "--source"@,
        res@[3]@ == source@,
{
    let mut args: Vec<String> = Vec::new();
    args.push(String::from_str("--pipe"));
    args.push(pipe_name.to_owned());
    args.push(String::from_str("--source"));
    args.push(source.to_owned());
    args
}


/// A content window announced by a process other than the one started.
#[derive(Debug, Clone, Copy, PartialEq, Eq, Structural)]
pub struct HwndOwnerMismatch {
    /// The process that owns the announced window.
    pub actual_process_id: u32,
    /// The process that was started.
    pub expected_process_id: u32,
}

/// The message of a [`HwndOwnerMismatch`].
pub open spec fn hwnd_owner_mismatch_message(e: HwndOwnerMismatch) -> Seq<char> {
    "Content HWND belongs to process "@ + decimal(e.actual_process_id as nat) + ", expected "@
        + decimal(e.expected_process_id as nat)
}

impl HwndOwnerMismatch {
    /// The message that is logged.
    pub fn to_string(&self) -> (res: String)
        ensures
            res@ == hwnd_owner_mismatch_message(*self),
    {
        let mut out = chars_of("Content HWND belongs to process ");
        push_decimal(&mut out, self.actual_process_id as u64);
        let mid = chars_of(", expected ");
        append_copies(&mut out, mid.as_slice());
        push_decimal(&mut out, self.expected_process_id as u64);
        string_from_chars(out.as_slice())
    }
}

/// A content window is accepted only from the process that was started:
/// the window's owning process must be the expected one.
pub fn check_hwnd_owner(actual_process_id: u32, expected_process_id: u32) -> (res: Result<
    (),
    HwndOwnerMismatch,
>)
    ensures
        res is Ok <==> actual_process_id == expected_process_id,
        res matches Err(e) ==> e == (HwndOwnerMismatch { actual_process_id, expected_process_id }),
{
    if actual_process_id != expected_process_id {
        Err(HwndOwnerMismatch { actual_process_id, expected_process_id })
    } else {
        Ok(())
    }
}


/// The line with which a content process announces its window.
pub open spec fn window_ready_line_of(hwnd: int) -> Seq<char> {
    "WindowReady "@ + signed_decimal(hwnd)
}

/// The line with which a content process announces its window `hwnd`.
pub fn window_ready_line(hwnd: isize) -> (res: String)
    ensures
        res@ == window_ready_line_of(hwnd as int),
{
    let mut out = chars_of("WindowReady ");
    push_signed_decimal(&mut out, hwnd);
    string_from_chars(out.as_slice())
}

/// The host reads back the window that a content process announces: the
/// handle parsed from an announcement line is the handle it was written
/// from.
pub proof fn law_window_ready_round_trip(hwnd: isize)
    ensures
        window_ready_handle(window_ready_line_of(hwnd as int)) == Some(Some(hwnd as int)),
{
    let prefix = "WindowReady "@;
    let digits = signed_decimal(hwnd as int);
    let line = window_ready_line_of(hwnd as int);
    reveal_strlit("WindowReady ");
    law_signed_decimal_parses_back(hwnd);
    if hwnd < 0 {
        lemma_decimal_digits((-(hwnd as int)) as nat);
    } else {
        lemma_decimal_digits(hwnd as nat);
    }
    let last = line.last();
    assert(last == digits.last());
    assert(crate::numbers::is_digit(last)) by {
        if hwnd < 0 {
            let d = decimal((-(hwnd as int)) as nat);
            assert(digits.last() == d.last());
            assert(crate::numbers::is_digit(d[d.len() - 1]));
        } else {
            let d = decimal(hwnd as nat);
            assert(crate::numbers::is_digit(d[d.len() - 1]));
        }
    }
    assert(!is_white_space(line[0]));
    assert(trim_start(line) == line);
    assert(!is_white_space(last));
    assert(trim_end(line) == line);
    assert(trim(line) == line);
    assert(line.take(prefix.len() as int) =~= prefix);
    assert(line.skip(prefix.len() as int) =~= digits);
}

} // verus!
