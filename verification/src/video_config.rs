//! The video-only configuration: one video URL per monitor, bound by monitor
//! index. An empty or whitespace-only URL disables its monitor.
use vstd::prelude::*;

use crate::text::{is_white_space, law_trim_cuts_only_surrounding_whitespace, trim, trim_str};

verus! {

/// One monitor's entry: the video URL it shows.
#[derive(Debug, Default)]
pub struct MonitorConfig {
    video_url: String,
}

impl View for MonitorConfig {
    type V = Seq<char>;

    closed spec fn view(&self) -> Seq<char> {
        self.video_url@
    }
}

impl MonitorConfig {
    /// An entry with the given video URL.
    pub fn new(video_url: String) -> (res: Self)
        ensures
            res@ == video_url@,
    {
        MonitorConfig { video_url }
    }

    /// The entry's video URL, as stored.
    pub fn video_url(&self) -> (res: &str)
        ensures
            res@ == self@,
    {
        self.video_url.as_str()
    }
}

/// The video configuration: the video URL of each monitor, by index.
#[derive(Debug, Default)]
pub struct Config {
    monitors: Vec<MonitorConfig>,
}

impl View for Config {
    type V = Seq<Seq<char>>;

    closed spec fn view(&self) -> Seq<Seq<char>> {
        self.monitors@.map_values(|m: MonitorConfig| m@)
    }
}

/// The video URL that monitor `index` of `urls` shows: its trimmed URL, when
/// there is an entry for it and that URL is not blank.
pub open spec fn url_for(urls: Seq<Seq<char>>, index: int) -> Option<Seq<char>> {
    if 0 <= index < urls.len() && trim(urls[index]).len() > 0 {
        Some(trim(urls[index]))
    } else {
        None
    }
}

impl Config {
    /// A configuration with the given entries.
    pub fn from_monitors(monitors: Vec<MonitorConfig>) -> (res: Self)
        ensures
            res@ == monitors@.map_values(|m: MonitorConfig| m@),
    {
        Config { monitors }
    }

    /// The entries, by monitor index.
    pub fn monitors(&self) -> (res: &[MonitorConfig])
        ensures
            res@.map_values(|m: MonitorConfig| m@) == self@,
    {
        self.monitors.as_slice()
    }

    /// The trimmed video URL of monitor `index`; none when there is no entry
    /// for it or its URL is blank.
    pub fn video_url_for_monitor(&self, index: usize) -> (res: Option<&str>)
        ensures
            match res {
                Some(u) => url_for(self@, index as int) == Some(u@),
                None => url_for(self@, index as int) is None,
            },
    {
        if index >= self.monitors.len() {
            return None;
        }
        let url = trim_str(self.monitors[index].video_url.as_str());
        if url.is_empty() {
            None
        } else {
            Some(url)
        }
    }
}


/// A monitor's video URL is its stored URL without surrounding whitespace:
/// it is a piece of the stored URL, everything around that piece is
/// whitespace, and the URL itself neither starts nor ends with whitespace.
/// A monitor has a URL exactly when its entry exists and is not all
/// whitespace.
pub proof fn law_video_url_is_the_stored_url_without_surrounding_whitespace(
    urls: Seq<Seq<char>>,
    index: int,
)
    ensures
        url_for(urls, index) is Some <==> (0 <= index < urls.len() && exists|k: int|
            0 <= k < urls[index].len() && !is_white_space(#[trigger] urls[index][k])),
        url_for(urls, index) matches Some(u) ==> {
            &&& u.len() > 0
            &&& !is_white_space(u[0])
            &&& !is_white_space(u.last())
            &&& exists|a: int|
                #![trigger urls[index].subrange(a, a + u.len())]
                0 <= a && a + u.len() <= urls[index].len() && urls[index].subrange(a, a + u.len())
                    == u && (forall|k: int| 0 <= k < a ==> is_white_space(#[trigger] urls[index][k]))
                    && (forall|k: int|
                    a + u.len() <= k < urls[index].len() ==> is_white_space(#[trigger] urls[index][k]))
        },
{
    if 0 <= index < urls.len() {
        let s = urls[index];
        let a = law_trim_cuts_only_surrounding_whitespace(s);
        let t = trim(s);
        if t.len() > 0 {
            assert(s[a] == t[0]);
            assert(s.subrange(a, a + t.len()) == t);
        } else {
            assert forall|k: int| 0 <= k < s.len() implies is_white_space(#[trigger] s[k]) by {
                if k >= a {
                    assert(a + t.len() <= k);
                }
            }
        }
    }
}

} // verus!
