//! The decisions behind the settings window: which local files can become a
//! monitor's video wallpaper, how a source turns into a `file://` URL, which
//! sources get a video preview, how an update request changes the
//! configuration, and the monitor layout shown to the user.
use vstd::prelude::*;

use crate::config::{
    content_at, disabled_entry, entry_content, entry_preview, law_read_after_write, preview_at,
    stored_preview, with_entry, Config, ContentView, MonitorView, WallpaperKind,
};
use crate::single_instance::SingleInstanceMessage;
use crate::occlusion::Rect;
use crate::text::{
    ascii_lowercase, chars_of, has_prefix, lowercase_chars, replace_char, replace_char_by_text,
    replace_char_with_text, replace_chars, slice_has_prefix, string_from_chars, string_from_range, trim, trim_str,
};
use crate::win_path::{extension, path_extension};

verus! {

/// The file extensions, in lower case, of the videos that a monitor can show.
pub open spec fn is_video_extension(e: Seq<char>) -> bool {
    ||| e == seq!['m', 'p', '4']
    ||| e == seq!['w', 'e', 'b', 'm']
    ||| e == seq!['m', 'o', 'v']
    ||| e == seq!['m', '4', 'v']
}

/// Whether `e` is one of the video extensions.
pub fn is_video_extension_chars(e: &[char]) -> (res: bool)
    ensures
        res == is_video_extension(e@),
{
    let n = e.len();
    let r = (n == 3 && e[0] == 'm' && e[1] == 'p' && e[2] == '4') || (n == 4 && e[0] == 'w' && e[1]
        == 'e' && e[2] == 'b' && e[3] == 'm') || (n == 3 && e[0] == 'm' && e[1] == 'o' && e[2]
        == 'v') || (n == 3 && e[0] == 'm' && e[1] == '4' && e[2] == 'v');
    proof {
        if e@ == seq!['m', 'p', '4'] {
            assert(e@[0] == 'm' && e@[1] == 'p' && e@[2] == '4');
        }
        if e@ == seq!['w', 'e', 'b', 'm'] {
            assert(e@[0] == 'w' && e@[1] == 'e' && e@[2] == 'b' && e@[3] == 'm');
        }
        if e@ == seq!['m', 'o', 'v'] {
            assert(e@[0] == 'm' && e@[1] == 'o' && e@[2] == 'v');
        }
        if e@ == seq!['m', '4', 'v'] {
            assert(e@[0] == 'm' && e@[1] == '4' && e@[2] == 'v');
        }
        if r {
            if n == 3 && e@[0] == 'm' && e@[1] == 'p' {
                assert(e@ =~= seq!['m', 'p', '4']);
            } else if n == 4 {
                assert(e@ =~= seq!['w', 'e', 'b', 'm']);
            } else if n == 3 && e@[1] == 'o' {
                assert(e@ =~= seq!['m', 'o', 'v']);
            } else {
                assert(e@ =~= seq!['m', '4', 'v']);
            }
        }
    }
    r
}

/// A local file chosen as a monitor's wallpaper.
#[derive(Debug, Clone, PartialEq, Eq)]
pub struct SelectedLocalFileSource {
    pub kind: WallpaperKind,
    pub source: String,
    pub preview_source: String,
}

/// Why a chosen local file cannot become a wallpaper.
#[derive(Debug, Clone, PartialEq, Eq)]
pub enum SelectedFileError {
    /// The file name has no extension.
    NoSupportedExtension,
    /// The file's extension, in lower case, is not a video extension.
    UnsupportedExtension(String),
}

/// The message of a [`SelectedFileError`].
pub open spec fn selected_file_error_message(e: SelectedFileError) -> Seq<char> {
    match e {
        SelectedFileError::NoSupportedExtension => "Selected file has no supported extension"@,
        SelectedFileError::UnsupportedExtension(ext) => "Unsupported selected file extension: ."@
            + ext@,
    }
}

impl SelectedFileError {
    /// The message that the user is shown.
    pub fn to_string(&self) -> (res: String)
        ensures
            res@ == selected_file_error_message(*self),
    {
        match self {
            SelectedFileError::NoSupportedExtension => String::from_str(
                "Selected file has no supported extension",
            ),
            SelectedFileError::UnsupportedExtension(ext) => {
                let mut m = String::from_str("Unsupported selected file extension: .");
                m.append(ext.as_str());
                m
            },
        }
    }
}

/// The lower-case extension of the file that `path` names.
pub open spec fn lower_extension(path: Seq<char>) -> Option<Seq<char>> {
    match extension(path) {
        Some(e) => Some(ascii_lowercase(e)),
        None => None,
    }
}

/// `s` folded to ASCII lower case.
fn lowercase_string(s: &str) -> (res: String)
    ensures
        res@ == ascii_lowercase(s@),
{
    let chars = chars_of(s);
    let lower = lowercase_chars(chars.as_slice());
    string_from_chars(lower.as_slice())
}

/// The wallpaper for a chosen local file: a video wallpaper showing the file
/// itself, previewed by the file itself, when its extension (in any case) is
/// a video extension.
pub fn source_for_selected_local_file(path: &str) -> (res: Result<
    SelectedLocalFileSource,
    SelectedFileError,
>)
    ensures
        match res {
            Ok(s) => {
                &&& lower_extension(path@) matches Some(e) && is_video_extension(e)
                &&& s.kind == WallpaperKind::Video
                &&& s.source@ == path@
                &&& s.preview_source@ == path@
            },
            Err(SelectedFileError::NoSupportedExtension) => extension(path@) is None,
            Err(SelectedFileError::UnsupportedExtension(e)) => {
                &&& lower_extension(path@) == Some(e@)
                &&& !is_video_extension(e@)
            },
        },
{
    let ext = match path_extension(path) {
        Some(e) => e,
        None => {
            return Err(SelectedFileError::NoSupportedExtension);
        },
    };
    let lower = lowercase_string(ext.as_str());
    let lower_chars = chars_of(lower.as_str());
    if is_video_extension_chars(lower_chars.as_slice()) {
        Ok(
            SelectedLocalFileSource {
                kind: WallpaperKind::Video,
                source: path.to_owned(),
                preview_source: path.to_owned(),
            },
        )
    } else {
        Err(SelectedFileError::UnsupportedExtension(lower))
    }
}

/// `path` with every space written as `%20`.
pub open spec fn encode_spaces(path: Seq<char>) -> Seq<char> {
    replace_char_by_text(path, ' ', "%20"@)
}

/// `path` with every space written as `%20`.
pub fn encode_file_url_spaces(path: &str) -> (res: String)
    ensures
        res@ == encode_spaces(path@),
{
    let chars = chars_of(path);
    let pct = chars_of("%20");
    let out = replace_char_with_text(chars.as_slice(), ' ', pct.as_slice());
    string_from_chars(out.as_slice())
}

/// The `file://` URL of a Windows path: backslashes become slashes, spaces
/// become `%20`, and a UNC path (`\\server\share\...`) keeps its server as
/// the URL's host.
pub open spec fn file_url_for_path(path: Seq<char>) -> Seq<char> {
    let normalized = replace_char(path, '\\', '/');
    if has_prefix(normalized, "//"@) {
        "file://"@ + encode_spaces(normalized.skip(2))
    } else {
        "file:///"@ + encode_spaces(normalized)
    }
}

/// The `file://` URL of the Windows path `path`.
pub fn path_to_file_url(path: &str) -> (res: String)
    ensures
        res@ == file_url_for_path(path@),
{
    let chars = chars_of(path);
    let normalized = replace_chars(chars.as_slice(), '\\', '/');
    let n = normalized.len();
    proof {
        reveal_strlit("//");
    }
    if n >= 2 && normalized[0] == '/' && normalized[1] == '/' {
        proof {
            assert(normalized@.take(2) =~= "//"@);
        }
        let rest = string_from_range(normalized.as_slice(), 2, n);
        let encoded = encode_file_url_spaces(rest.as_str());
        let mut url = String::from_str("file://");
        url.append(encoded.as_str());
        url
    } else {
        proof {
            if has_prefix(normalized@, "//"@) {
                assert(normalized@.take(2)[0] == '/');
                assert(normalized@.take(2)[1] == '/');
            }
        }
        let all = string_from_chars(normalized.as_slice());
        let encoded = encode_file_url_spaces(all.as_str());
        let mut url = String::from_str("file:///");
        url.append(encoded.as_str());
        url
    }
}


/// `source`, trimmed and in lower case, starts with `http://` or `https://`.
pub open spec fn is_internet_url(source: Seq<char>) -> bool {
    let s = ascii_lowercase(trim(source));
    has_prefix(s, "http://"@) || has_prefix(s, "https://"@)
}

/// Whether `source` is an internet video URL.
pub fn is_internet_video_url(source: &str) -> (res: bool)
    ensures
        res == is_internet_url(source@),
{
    let trimmed = trim_str(source);
    let chars = chars_of(trimmed);
    let lower = lowercase_chars(chars.as_slice());
    let http = chars_of("http://");
    let https = chars_of("https://");
    slice_has_prefix(lower.as_slice(), http.as_slice()) || slice_has_prefix(
        lower.as_slice(),
        https.as_slice(),
    )
}

/// The URL that plays `source`: a `file://` or internet URL as it is, a
/// Windows path as its `file://` URL.
pub open spec fn url_for_source(source: Seq<char>) -> Seq<char> {
    if has_prefix(ascii_lowercase(source), "file://"@) || is_internet_url(source) {
        source
    } else {
        file_url_for_path(source)
    }
}

/// The URL that plays `source`.
pub fn file_url_from_source(source: &str) -> (res: String)
    ensures
        res@ == url_for_source(source@),
{
    let chars = chars_of(source);
    let lower = lowercase_chars(chars.as_slice());
    let file = chars_of("file://");
    if slice_has_prefix(lower.as_slice(), file.as_slice()) {
        source.to_owned()
    } else if is_internet_video_url(source) {
        source.to_owned()
    } else {
        path_to_file_url(source)
    }
}

/// The position of the first `?` or `#` in `s`, or `s.len()`.
pub open spec fn query_start(s: Seq<char>) -> int
    decreases s.len(),
{
    if s.len() == 0 {
        0
    } else if s[0] == '?' || s[0] == '#' {
        0
    } else {
        1 + query_start(s.drop_first())
    }
}

proof fn lemma_query_start(s: Seq<char>)
    ensures
        0 <= query_start(s) <= s.len(),
        forall|i: int| 0 <= i < query_start(s) ==> s[i] != '?' && s[i] != '#',
        query_start(s) < s.len() ==> (s[query_start(s)] == '?' || s[query_start(s)] == '#'),
    decreases s.len(),
{
    if s.len() > 0 && s[0] != '?' && s[0] != '#' {
        lemma_query_start(s.drop_first());
        assert forall|i: int| 0 <= i < query_start(s) implies s[i] != '?' && s[i] != '#' by {
            if i > 0 {
                assert(s.drop_first()[i - 1] == s[i]);
            }
        }
        if query_start(s) < s.len() {
            assert(s.drop_first()[query_start(s) - 1] == s[query_start(s)]);
        }
    }
}

/// The lower-case extension of the file that `source` names, once trimmed
/// and cut at its query or fragment.
pub open spec fn source_extension(source: Seq<char>) -> Option<Seq<char>> {
    let t = trim(source);
    lower_extension(t.take(query_start(t)))
}

/// The lower-case extension of the file that `source` names.
pub fn extension_from_source(source: &str) -> (res: Option<String>)
    ensures
        match res {
            Some(e) => source_extension(source@) == Some(e@),
            None => source_extension(source@) is None,
        },
{
    let trimmed = trim_str(source);
    let chars = chars_of(trimmed);
    let mut q: usize = 0;
    proof {
        lemma_query_start(chars@);
    }
    while q < chars.len() && chars[q] != '?' && chars[q] != '#'
        invariant
            q <= chars@.len(),
            q <= query_start(chars@),
            0 <= query_start(chars@) <= chars@.len(),
            forall|i: int| 0 <= i < query_start(chars@) ==> chars@[i] != '?' && chars@[i] != '#',
            query_start(chars@) < chars@.len() ==> (chars@[query_start(chars@)] == '?'
                || chars@[query_start(chars@)] == '#'),
        decreases chars@.len() - q,
    {
        q += 1;
    }
    let head = string_from_range(chars.as_slice(), 0, q);
    proof {
        assert(chars@.subrange(0, q as int) =~= chars@.take(q as int));
    }
    match path_extension(head.as_str()) {
        Some(e) => Some(lowercase_string(e.as_str())),
        None => None,
    }
}

/// The kind of preview shown for a monitor.
#[derive(Debug, Clone, Copy, PartialEq, Eq, Structural)]
pub enum MonitorPreviewKind {
    Video,
}

/// The preview shown for a monitor: a video played from `url`.
#[derive(Debug, Clone, PartialEq, Eq)]
pub struct MonitorPreviewViewModel {
    pub kind: MonitorPreviewKind,
    pub url: String,
}

/// The URL of the video preview for a source and its optional preview
/// source: the (trimmed) preview source, or else the source, when it is an
/// internet URL or names a file with a video extension.
pub open spec fn preview_url(source: Seq<char>, preview_source: Option<Seq<char>>) -> Option<
    Seq<char>,
> {
    let p = trim(
        match preview_source {
            Some(p) => p,
            None => source,
        },
    );
    if is_internet_url(p) {
        Some(url_for_source(p))
    } else {
        match source_extension(p) {
            Some(e) => if is_video_extension(e) {
                Some(url_for_source(p))
            } else {
                None
            },
            None => None,
        }
    }
}

/// The URL of an optional preview.
pub open spec fn preview_view(p: Option<MonitorPreviewViewModel>) -> Option<Seq<char>> {
    match p {
        Some(p) => Some(p.url@),
        None => None,
    }
}

/// The video preview of a monitor whose source is `source`, previewed by
/// `preview_source` when there is one.
pub fn preview_for_video_source(source: &str, preview_source: Option<&str>) -> (res: Option<
    MonitorPreviewViewModel,
>)
    ensures
        preview_view(res) == preview_url(
            source@,
            match preview_source {
                Some(p) => Some(p@),
                None => None,
            },
        ),
{
    let chosen = match preview_source {
        Some(p) => p,
        None => source,
    };
    let p = trim_str(chosen);
    proof {
        lemma_trim_idempotent(chosen@);
    }
    if !is_internet_video_url(p) {
        let ext = match extension_from_source(p) {
            Some(e) => e,
            None => {
                return None;
            },
        };
        let ext_chars = chars_of(ext.as_str());
        if !is_video_extension_chars(ext_chars.as_slice()) {
            return None;
        }
    }
    Some(MonitorPreviewViewModel { kind: MonitorPreviewKind::Video, url: file_url_from_source(p) })
}

proof fn lemma_trim_idempotent(s: Seq<char>)
    ensures
        trim(trim(s)) == trim(s),
{
    crate::text::lemma_trim_twice(s);
}

/// A change of one monitor's content, as the user asks for it.
#[derive(Debug, Clone, PartialEq, Eq)]
pub enum MonitorContentUpdateRequest {
    /// Show the local video file at `path`.
    LocalVideo { path: String },
    /// Show the internet video at `url`.
    InternetVideo { url: String },
    /// Show nothing.
    Nothing,
}

/// Why a content update was refused.
#[derive(Debug, Clone, PartialEq, Eq)]
pub enum ContentUpdateError {
    /// The local video path is blank.
    LocalVideoPathEmpty,
    /// The internet video URL does not start with `http://` or `https://`.
    InvalidInternetVideoUrl,
    /// The local file cannot become a wallpaper.
    SelectedFile(SelectedFileError),
}

/// The message of a [`ContentUpdateError`].
pub open spec fn content_update_error_message(e: ContentUpdateError) -> Seq<char> {
    match e {
        ContentUpdateError::LocalVideoPathEmpty => "Local video path is empty"@,
        ContentUpdateError::InvalidInternetVideoUrl => "Internet video URL must start with http:// or https://"@,
        ContentUpdateError::SelectedFile(f) => selected_file_error_message(f),
    }
}

impl ContentUpdateError {
    /// The message that the user is shown.
    pub fn to_string(&self) -> (res: String)
        ensures
            res@ == content_update_error_message(*self),
    {
        match self {
            ContentUpdateError::LocalVideoPathEmpty => String::from_str("Local video path is empty"),
            ContentUpdateError::InvalidInternetVideoUrl => String::from_str(
                "Internet video URL must start with http:// or https://",
            ),
            ContentUpdateError::SelectedFile(f) => f.to_string(),
        }
    }
}

/// The entry of a monitor that shows the video `source`, previewed by
/// `preview`.
pub open spec fn video_entry(source: Seq<char>, preview: Seq<char>) -> MonitorView {
    MonitorView {
        kind: WallpaperKind::Video,
        source,
        preview_source: stored_preview(Some(preview)),
    }
}

/// The request is accepted and so writes the configuration: a local video
/// path that is not blank and names a file with a video extension, an
/// internet video URL starting with `http://` or `https://`, or no content.
pub open spec fn update_writes(request: MonitorContentUpdateRequest) -> bool {
    match request {
        MonitorContentUpdateRequest::LocalVideo { path } => {
            &&& trim(path@).len() > 0
            &&& lower_extension(trim(path@)) matches Some(e) && is_video_extension(e)
        },
        MonitorContentUpdateRequest::InternetVideo { url } => is_internet_url(trim(url@)),
        MonitorContentUpdateRequest::Nothing => true,
    }
}

/// Applies a content update request to monitor `monitor_index` of `config`.
///
/// A local video needs a non-blank path naming a file with a video
/// extension; the trimmed path becomes both source and preview source. An
/// internet video needs a URL that starts with `http://` or `https://`; the
/// trimmed URL becomes both source and preview source. A request for no
/// content disables the monitor. On an error the configuration is unchanged.
pub fn save_monitor_content_update(
    config: &mut Config,
    monitor_index: usize,
    request: MonitorContentUpdateRequest,
) -> (res: Result<(), ContentUpdateError>)
    requires
        update_writes(request) ==> monitor_index < usize::MAX,
    ensures
        match request {
            MonitorContentUpdateRequest::LocalVideo { path } => {
                let p = trim(path@);
                if p.len() == 0 {
                    res == Err::<(), ContentUpdateError>(ContentUpdateError::LocalVideoPathEmpty)
                        && final(config)@ == old(config)@
                } else if lower_extension(p) matches Some(e) && is_video_extension(e) {
                    res is Ok && final(config)@ == with_entry(old(config)@, monitor_index as int,
                        video_entry(p, p),
                    )
                } else {
                    &&& res matches Err(ContentUpdateError::SelectedFile(f))
                    &&& match f {
                        SelectedFileError::NoSupportedExtension => extension(p) is None,
                        SelectedFileError::UnsupportedExtension(e) => lower_extension(p) == Some(
                            e@,
                        ),
                    }
                    &&& final(config)@ == old(config)@
                }
            },
            MonitorContentUpdateRequest::InternetVideo { url } => {
                let u = trim(url@);
                if is_internet_url(u) {
                    res is Ok && final(config)@ == with_entry(old(config)@, monitor_index as int,
                        video_entry(u, u),
                    )
                } else {
                    res == Err::<(), ContentUpdateError>(ContentUpdateError::InvalidInternetVideoUrl)
                        && final(config)@ == old(config)@
                }
            },
            MonitorContentUpdateRequest::Nothing => {
                res is Ok && final(config)@ == with_entry(old(config)@, monitor_index as int,
                    disabled_entry(),
                )
            },
        },
{
    match request {
        MonitorContentUpdateRequest::LocalVideo { path } => {
            let p = trim_str(path.as_str());
            if p.is_empty() {
                return Err(ContentUpdateError::LocalVideoPathEmpty);
            }
            let source = match source_for_selected_local_file(p) {
                Ok(s) => s,
                Err(e) => {
                    return Err(ContentUpdateError::SelectedFile(e));
                },
            };
            config.set_video_monitor_source(
                monitor_index,
                source.source,
                Some(source.preview_source),
            );
            Ok(())
        },
        MonitorContentUpdateRequest::InternetVideo { url } => {
            let u = trim_str(url.as_str());
            proof {
                lemma_trim_idempotent(url@);
            }
            if !is_internet_video_url(u) {
                return Err(ContentUpdateError::InvalidInternetVideoUrl);
            }
            config.set_video_monitor_source(monitor_index, u.to_owned(), Some(u.to_owned()));
            Ok(())
        },
        MonitorContentUpdateRequest::Nothing => {
            config.clear_monitor_source(monitor_index);
            Ok(())
        },
    }
}

/// A monitor's rectangle, with its width and height.
#[derive(Debug, Clone, Copy, PartialEq, Eq, Structural)]
pub struct MonitorRectViewModel {
    pub left: i32,
    pub top: i32,
    pub right: i32,
    pub bottom: i32,
    pub width: i32,
    pub height: i32,
}

impl MonitorRectViewModel {
    /// The view model of a monitor rectangle whose width and height fit in
    /// an `i32`.
    pub fn from_rect(rect: Rect) -> (res: Self)
        requires
            i32::MIN <= rect.right - rect.left <= i32::MAX,
            i32::MIN <= rect.bottom - rect.top <= i32::MAX,
        ensures
            res.left == rect.left,
            res.top == rect.top,
            res.right == rect.right,
            res.bottom == rect.bottom,
            res.width == rect.right - rect.left,
            res.height == rect.bottom - rect.top,
    {
        MonitorRectViewModel {
            left: rect.left,
            top: rect.top,
            right: rect.right,
            bottom: rect.bottom,
            width: rect.right - rect.left,
            height: rect.bottom - rect.top,
        }
    }
}

/// A display monitor as the system reports it.
#[derive(Debug, Clone, Copy, PartialEq, Eq, Structural)]
pub struct DisplayMonitorInfo {
    pub is_primary: bool,
    pub rect: MonitorRectViewModel,
}

/// The content shown for a monitor in the layout.
#[derive(Debug, Clone, PartialEq, Eq)]
pub struct MonitorContentViewModel {
    pub kind: WallpaperKind,
    pub source: String,
    pub preview: Option<MonitorPreviewViewModel>,
}

/// One monitor of the layout.
#[derive(Debug, Clone, PartialEq, Eq)]
pub struct MonitorViewModel {
    pub index: usize,
    pub is_primary: bool,
    pub rect: MonitorRectViewModel,
    pub content: Option<MonitorContentViewModel>,
}

/// The monitor layout shown to the user.
#[derive(Debug, Clone, PartialEq, Eq)]
pub struct MonitorLayoutViewModel {
    pub monitors: Vec<MonitorViewModel>,
}

/// The preview of content of the given kind: video content is previewed as
/// [`preview_url`] says, web view content has no preview.
pub open spec fn content_preview(c: ContentView, preview_source: Option<Seq<char>>) -> Option<
    Seq<char>,
> {
    match c.kind {
        WallpaperKind::Video => preview_url(c.source, preview_source),
        WallpaperKind::WebView => None,
    }
}

/// `c` is the content view model of the configuration entry `m`.
pub open spec fn content_matches(c: Option<MonitorContentViewModel>, m: Option<MonitorView>) -> bool {
    match m {
        None => c is None,
        Some(m) => match entry_content(m) {
            None => c is None,
            Some(cv) => c matches Some(c) && c.kind == cv.kind && c.source@ == cv.source
                && preview_view(c.preview) == content_preview(cv, entry_preview(m)),
        },
    }
}

/// The configuration entry of monitor `i`, if there is one.
pub open spec fn entry_at(config: Seq<MonitorView>, i: int) -> Option<MonitorView> {
    if 0 <= i < config.len() {
        Some(config[i])
    } else {
        None
    }
}

/// The monitor layout: one view model per display monitor, in order, each
/// with its index, its position and the content that `config` gives it.
pub fn monitor_layout_view_model_from_parts(
    monitors: Vec<DisplayMonitorInfo>,
    config: &Config,
) -> (res: MonitorLayoutViewModel)
    ensures
        res.monitors@.len() == monitors@.len(),
        forall|i: int|
            0 <= i < monitors@.len() ==> {
                let m = #[trigger] res.monitors@[i];
                &&& m.index == i
                &&& m.is_primary == monitors@[i].is_primary
                &&& m.rect == monitors@[i].rect
                &&& content_matches(m.content, entry_at(config@, i))
            },
{
    let mut out: Vec<MonitorViewModel> = Vec::new();
    let mut i: usize = 0;
    while i < monitors.len()
        invariant
            i <= monitors@.len(),
            out@.len() == i,
            forall|j: int|
                0 <= j < i ==> {
                    let m = #[trigger] out@[j];
                    &&& m.index == j
                    &&& m.is_primary == monitors@[j].is_primary
                    &&& m.rect == monitors@[j].rect
                    &&& content_matches(m.content, entry_at(config@, j))
                },
        decreases monitors@.len() - i,
    {
        let monitor = monitors[i];
        let content = match config.content_for_monitor(i) {
            Some(c) => {
                let preview = match c.kind {
                    WallpaperKind::Video => preview_for_video_source(
                        c.source.as_str(),
                        config.preview_source_for_monitor(i),
                    ),
                    WallpaperKind::WebView => None,
                };
                Some(MonitorContentViewModel { kind: c.kind, source: c.source, preview })
            },
            None => None,
        };
        out.push(
            MonitorViewModel { index: i, is_primary: monitor.is_primary, rect: monitor.rect, content },
        );
        i += 1;
    }
    MonitorLayoutViewModel { monitors: out }
}

/// Whether the first monitor has content configured.
pub fn has_wallpaper_config(config: &Config) -> (res: bool)
    ensures
        res == (config@.len() > 0 && entry_content(config@[0]) is Some),
{
    config.content_for_monitor(0).is_some()
}


/// A local video saved for a monitor reads back as that monitor's video
/// content, previewed by the same path: the trimmed path that was saved is
/// both the content's source and its preview source.
pub proof fn law_saved_local_video_reads_back(config: Seq<MonitorView>, index: int, path: Seq<char>)
    requires
        0 <= index,
        trim(path).len() > 0,
    ensures
        ({
            let p = trim(path);
            let after = with_entry(config, index, video_entry(p, p));
            &&& content_at(after, index) == Some(ContentView { kind: WallpaperKind::Video, source: p })
            &&& preview_at(after, index) == Some(p)
        }),
{
    let p = trim(path);
    crate::text::lemma_trim_twice(path);
    law_read_after_write(config, index, WallpaperKind::Video, p, Some(p));
}

/// What the settings window does with a message from another instance.
#[derive(Debug, Clone, Copy, PartialEq, Eq, Structural)]
pub enum MainUiReaction {
    /// Show, restore and focus the main window.
    ShowWindow,
    /// Exit the application.
    Exit,
}

/// The settings window's reaction to a message from another instance: a
/// second instance brings the window to the front, an exit request exits.
pub fn main_ui_reaction(message: SingleInstanceMessage) -> (res: MainUiReaction)
    ensures
        res == (match message {
            SingleInstanceMessage::SecondInstanceStarted => MainUiReaction::ShowWindow,
            SingleInstanceMessage::ExitRequested => MainUiReaction::Exit,
        }),
{
    match message {
        SingleInstanceMessage::SecondInstanceStarted => MainUiReaction::ShowWindow,
        SingleInstanceMessage::ExitRequested => MainUiReaction::Exit,
    }
}

} // verus!
