//! The wallpaper configuration: one entry per monitor, bound by monitor index,
//! each naming a content kind and a source. An empty or whitespace-only source
//! disables its monitor.
use vstd::prelude::*;

use crate::text::{is_blank, trim, trim_str};

verus! {

/// The kind of renderer that shows a monitor's wallpaper content.
#[derive(Debug, Clone, Copy, PartialEq, Eq, Structural)]
pub enum WallpaperKind {
    Video,
    WebView,
}

/// The content that a monitor shows: its kind and its (trimmed) source.
#[derive(Debug, Clone, PartialEq, Eq)]
pub struct WallpaperContentSpec {
    pub kind: WallpaperKind,
    pub source: String,
}

/// The mathematical value of a [`WallpaperContentSpec`].
pub struct ContentView {
    pub kind: WallpaperKind,
    pub source: Seq<char>,
}

impl View for WallpaperContentSpec {
    type V = ContentView;

    open spec fn view(&self) -> ContentView {
        ContentView { kind: self.kind, source: self.source@ }
    }
}

/// The value of an optional content spec.
pub open spec fn content_view(c: Option<WallpaperContentSpec>) -> Option<ContentView> {
    match c {
        Some(c) => Some(c@),
        None => None,
    }
}

/// One monitor's entry in the configuration.
#[derive(Debug)]
pub struct MonitorConfig {
    kind: WallpaperKind,
    source: String,
    preview_source: Option<String>,
}

/// The mathematical value of a [`MonitorConfig`].
pub struct MonitorView {
    pub kind: WallpaperKind,
    pub source: Seq<char>,
    pub preview_source: Option<Seq<char>>,
}

/// The value of an optional string.
pub open spec fn opt_view(s: Option<String>) -> Option<Seq<char>> {
    match s {
        Some(s) => Some(s@),
        None => None,
    }
}

impl View for MonitorConfig {
    type V = MonitorView;

    closed spec fn view(&self) -> MonitorView {
        MonitorView {
            kind: self.kind,
            source: self.source@,
            preview_source: opt_view(self.preview_source),
        }
    }
}

/// The entry that stands for a monitor without content: a web view entry with
/// an empty source and no preview source.
pub open spec fn disabled_entry() -> MonitorView {
    MonitorView { kind: WallpaperKind::WebView, source: Seq::empty(), preview_source: None }
}

/// The content of a monitor entry: none when its trimmed source is empty,
/// otherwise its kind with the trimmed source.
pub open spec fn entry_content(m: MonitorView) -> Option<ContentView> {
    if trim(m.source).len() == 0 {
        None
    } else {
        Some(ContentView { kind: m.kind, source: trim(m.source) })
    }
}

/// The preview source of a monitor entry: its trimmed preview source, when it
/// has one that is not blank.
pub open spec fn entry_preview(m: MonitorView) -> Option<Seq<char>> {
    match m.preview_source {
        Some(p) => if trim(p).len() == 0 {
            None
        } else {
            Some(trim(p))
        },
        None => None,
    }
}

/// A preview source as it is stored: kept only when it is not blank.
pub open spec fn stored_preview(p: Option<Seq<char>>) -> Option<Seq<char>> {
    match p {
        Some(p) => if trim(p).len() == 0 {
            None
        } else {
            Some(p)
        },
        None => None,
    }
}

/// `monitors` extended with disabled entries so that `index` is a position in it.
pub open spec fn padded_to(monitors: Seq<MonitorView>, index: int) -> Seq<MonitorView> {
    if index < monitors.len() {
        monitors
    } else {
        monitors + Seq::new((index + 1 - monitors.len()) as nat, |i: int| disabled_entry())
    }
}

impl MonitorConfig {
    /// An entry with the given kind, source and preview source.
    pub fn new(kind: WallpaperKind, source: String, preview_source: Option<String>) -> (res: Self)
        ensures
            res@ == (MonitorView {
                kind,
                source: source@,
                preview_source: opt_view(preview_source),
            }),
    {
        MonitorConfig { kind, source, preview_source }
    }

    /// The entry's kind.
    pub fn kind(&self) -> (res: WallpaperKind)
        ensures
            res == self@.kind,
    {
        self.kind
    }

    /// The entry's source, as stored.
    pub fn source(&self) -> (res: &str)
        ensures
            res@ == self@.source,
    {
        self.source.as_str()
    }

    /// The entry's preview source, as stored.
    pub fn stored_preview_source(&self) -> (res: Option<&str>)
        ensures
            match res {
                Some(p) => self@.preview_source == Some(p@),
                None => self@.preview_source is None,
            },
    {
        match &self.preview_source {
            Some(p) => Some(p.as_str()),
            None => None,
        }
    }

    fn disabled() -> (res: Self)
        ensures
            res@ == disabled_entry(),
    {
        MonitorConfig { kind: WallpaperKind::WebView, source: String::new(), preview_source: None }
    }
}

/// The wallpaper configuration: the monitor entries, by monitor index.
#[derive(Debug)]
pub struct Config {
    monitors: Vec<MonitorConfig>,
}

impl View for Config {
    type V = Seq<MonitorView>;

    closed spec fn view(&self) -> Seq<MonitorView> {
        self.monitors@.map_values(|m: MonitorConfig| m@)
    }
}

impl Default for Config {
    /// A configuration without entries.
    fn default() -> (res: Self)
        ensures
            res@ == Seq::<MonitorView>::empty(),
    {
        let res = Config { monitors: Vec::new() };
        assert(res@ =~= Seq::<MonitorView>::empty());
        res
    }
}

impl Config {
    /// A configuration with the given entries.
    pub fn from_monitors(monitors: Vec<MonitorConfig>) -> (res: Self)
        ensures
            res@ == monitors@.map_values(|m: MonitorConfig| m@),
    {
        Config { monitors }
    }

    /// The entries, by monitor index.
    pub fn monitors(&self) -> (res: &[MonitorConfig])
        ensures
            res@.map_values(|m: MonitorConfig| m@) == self@,
    {
        self.monitors.as_slice()
    }

    /// The content of monitor `index`: none when there is no entry for it or
    /// its source is blank, otherwise its kind with the trimmed source.
    pub fn content_for_monitor(&self, index: usize) -> (res: Option<WallpaperContentSpec>)
        ensures
            content_view(res) == content_at(self@, index as int),
    {
        if index >= self.monitors.len() {
            return None;
        }
        let monitor = &self.monitors[index];
        let source = trim_str(monitor.source.as_str());
        if source.is_empty() {
            return None;
        }
        Some(WallpaperContentSpec { kind: monitor.kind, source: source.to_owned() })
    }

    /// The trimmed preview source of monitor `index`, when its entry has one
    /// that is not blank.
    pub fn preview_source_for_monitor(&self, index: usize) -> (res: Option<&str>)
        ensures
            match res {
                Some(p) => preview_at(self@, index as int) == Some(p@),
                None => preview_at(self@, index as int) is None,
            },
    {
        if index >= self.monitors.len() {
            return None;
        }
        match &self.monitors[index].preview_source {
            Some(p) => {
                let t = trim_str(p.as_str());
                if t.is_empty() {
                    None
                } else {
                    Some(t)
                }
            },
            None => None,
        }
    }

    /// Extends the entries with disabled ones so that `index` has an entry.
    fn ensure_monitor_entry(&mut self, index: usize)
        requires
            index < usize::MAX,
        ensures
            final(self)@ == padded_to(old(self)@, index as int),
    {
        let ghost start = self@;
        while self.monitors.len() <= index
            invariant
                index < usize::MAX,
                start.len() <= self@.len(),
                self@.len() <= index + 1 || self@.len() == start.len(),
                self@ == (if self@.len() == start.len() {
                    start
                } else {
                    start + Seq::new((self@.len() - start.len()) as nat, |i: int| disabled_entry())
                }),
            decreases index + 1 - self.monitors@.len(),
        {
            let ghost before = self@;
            self.monitors.push(MonitorConfig::disabled());
            proof {
                assert(self@ =~= before.push(disabled_entry()));
                assert(self@ =~= start + Seq::new(
                    (self@.len() - start.len()) as nat,
                    |i: int| disabled_entry(),
                ));
            }
        }
        proof {
            if index < start.len() {
                assert(self@ == start);
            } else {
                assert(self@.len() == index + 1);
            }
        }
    }

    fn set_monitor_source(
        &mut self,
        index: usize,
        kind: WallpaperKind,
        source: String,
        preview_source: Option<String>,
    )
        requires
            index < usize::MAX,
        ensures
            final(self)@ == with_entry(
                old(self)@,
                index as int,
                MonitorView {
                    kind,
                    source: source@,
                    preview_source: stored_preview(opt_view(preview_source)),
                },
            ),
    {
        self.ensure_monitor_entry(index);
        let preview = match preview_source {
            Some(p) => if is_blank(p.as_str()) {
                None
            } else {
                Some(p)
            },
            None => None,
        };
        let ghost before = self@;
        assert(self.monitors@.len() == before.len());
        assert(index < before.len());
        self.monitors.set(index, MonitorConfig { kind, source, preview_source: preview });
        proof {
            assert(self@ =~= before.update(
                index as int,
                MonitorView {
                    kind,
                    source: source@,
                    preview_source: stored_preview(opt_view(preview_source)),
                },
            ));
        }
    }

    /// Makes monitor `index` show web view content from `source`, padding the
    /// entries with disabled ones up to `index`; a blank preview source is
    /// dropped.
    pub fn set_webview_monitor_source(
        &mut self,
        index: usize,
        source: String,
        preview_source: Option<String>,
    )
        requires
            index < usize::MAX,
        ensures
            final(self)@ == with_entry(
                old(self)@,
                index as int,
                MonitorView {
                    kind: WallpaperKind::WebView,
                    source: source@,
                    preview_source: stored_preview(opt_view(preview_source)),
                },
            ),
    {
        self.set_monitor_source(index, WallpaperKind::WebView, source, preview_source);
    }

    /// Makes monitor `index` show video content from `source`, padding the
    /// entries with disabled ones up to `index`; a blank preview source is
    /// dropped.
    pub fn set_video_monitor_source(
        &mut self,
        index: usize,
        source: String,
        preview_source: Option<String>,
    )
        requires
            index < usize::MAX,
        ensures
            final(self)@ == with_entry(
                old(self)@,
                index as int,
                MonitorView {
                    kind: WallpaperKind::Video,
                    source: source@,
                    preview_source: stored_preview(opt_view(preview_source)),
                },
            ),
    {
        self.set_monitor_source(index, WallpaperKind::Video, source, preview_source);
    }

    /// Disables monitor `index`, keeping its position: its entry becomes a
    /// disabled web view entry, and missing entries before it are padded.
    pub fn clear_monitor_source(&mut self, index: usize)
        requires
            index < usize::MAX,
        ensures
            final(self)@ == with_entry(
                old(self)@,
                index as int,
                disabled_entry(),
            ),
    {
        self.ensure_monitor_entry(index);
        let ghost before = self@;
        assert(self.monitors@.len() == before.len());
        assert(index < before.len());
        self.monitors.set(index, MonitorConfig::disabled());
        proof {
            assert(self@ =~= before.update(index as int, disabled_entry()));
        }
    }
}


/// The content that the entries `config` give monitor `i`.
pub open spec fn content_at(config: Seq<MonitorView>, i: int) -> Option<ContentView> {
    if 0 <= i < config.len() {
        entry_content(config[i])
    } else {
        None
    }
}

/// The preview source that the entries `config` give monitor `i`.
pub open spec fn preview_at(config: Seq<MonitorView>, i: int) -> Option<Seq<char>> {
    if 0 <= i < config.len() {
        entry_preview(config[i])
    } else {
        None
    }
}

/// The entries after monitor `index` is given the entry `entry`, the way
/// every setter of [`Config`] changes them.
pub open spec fn with_entry(config: Seq<MonitorView>, index: int, entry: MonitorView) -> Seq<
    MonitorView,
> {
    padded_to(config, index).update(index, entry)
}

/// Reading back what was written: after monitor `index` is given a source
/// and a preview source, its content is the trimmed source (none when that
/// is blank) with the kind that was written, and its preview source is the
/// trimmed preview source (none when there is none or it is blank).
pub proof fn law_read_after_write(
    config: Seq<MonitorView>,
    index: int,
    kind: WallpaperKind,
    source: Seq<char>,
    preview: Option<Seq<char>>,
)
    requires
        0 <= index,
    ensures
        ({
            let after = with_entry(
                config,
                index,
                MonitorView { kind, source, preview_source: stored_preview(preview) },
            );
            &&& content_at(after, index) == (if trim(source).len() == 0 {
                None
            } else {
                Some(ContentView { kind, source: trim(source) })
            })
            &&& preview_at(after, index) == match preview {
                Some(p) => if trim(p).len() == 0 {
                    None
                } else {
                    Some(trim(p))
                },
                None => None,
            }
        }),
{
}

/// Clearing a monitor leaves it without content and without a preview
/// source.
pub proof fn law_cleared_monitor_is_disabled(config: Seq<MonitorView>, index: int)
    requires
        0 <= index,
    ensures
        content_at(with_entry(config, index, disabled_entry()), index) is None,
        preview_at(with_entry(config, index, disabled_entry()), index) is None,
{
}

/// Writing one monitor's entry changes no other monitor: every other
/// monitor keeps its content and its preview source, the monitors that the
/// padding adds included.
pub proof fn law_write_keeps_other_monitors(
    config: Seq<MonitorView>,
    index: int,
    entry: MonitorView,
    other: int,
)
    requires
        0 <= index,
        other != index,
    ensures
        content_at(with_entry(config, index, entry), other) == content_at(config, other),
        preview_at(with_entry(config, index, entry), other) == preview_at(config, other),
{
    let after = with_entry(config, index, entry);
    if 0 <= other < after.len() && other >= config.len() {
        assert(after[other] == disabled_entry());
        assert(trim(Seq::<char>::empty()) =~= Seq::<char>::empty());
    }
}

/// Writing one monitor's entry keeps every entry and its position: the
/// entries grow to cover the written monitor and no further.
pub proof fn law_write_keeps_positions(config: Seq<MonitorView>, index: int, entry: MonitorView)
    requires
        0 <= index,
    ensures
        with_entry(config, index, entry).len() == if index < config.len() {
            config.len() as int
        } else {
            index + 1
        },
        forall|j: int|
            0 <= j < config.len() && j != index ==> #[trigger] with_entry(config, index, entry)[j]
                == config[j],
{
}


/// Writing the same entry twice is writing it once; in particular, clearing
/// a monitor that was just cleared changes nothing.
pub proof fn law_write_is_idempotent(config: Seq<MonitorView>, index: int, entry: MonitorView)
    requires
        0 <= index,
    ensures
        with_entry(with_entry(config, index, entry), index, entry) == with_entry(config, index, entry),
{
    let once = with_entry(config, index, entry);
    assert(padded_to(once, index) == once);
    assert(once.update(index, entry) =~= once);
}

} // verus!
