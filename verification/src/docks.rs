//! The docks: one per monitor that shows a wallpaper, each hosting one
//! content process. This module keeps what the wallpaper manager decides
//! with: which content each dock shows, which content window it hosts,
//! whether it is occluded, the rectangle used for occlusion checks, and
//! which commands follow from a change.
use vstd::prelude::*;

use crate::config::{content_view, Config, ContentView, WallpaperContentSpec};
use crate::content::ContentCommand;
use crate::occlusion::{DockRegion, Rect};

verus! {

/// The most docks there can be; a monitor index must be below it.
pub const MAX_DOCKS: usize = 16;

/// The state of one dock.
#[derive(Debug)]
pub struct Dock {
    content: Option<WallpaperContentSpec>,
    content_hwnd: Option<isize>,
    occluded: bool,
}

/// The value of a [`Dock`].
pub struct DockView {
    /// The content that its process shows, once one was started.
    pub content: Option<ContentView>,
    /// The window of its content process, while it has one.
    pub content_hwnd: Option<isize>,
    /// Whether the dock is occluded.
    pub occluded: bool,
}

impl View for Dock {
    type V = DockView;

    closed spec fn view(&self) -> DockView {
        DockView {
            content: content_view(self.content),
            content_hwnd: self.content_hwnd,
            occluded: self.occluded,
        }
    }
}

/// What to do about a dock's content process.
#[derive(Debug, Clone, Copy, PartialEq, Eq, Structural)]
pub enum ContentPlan {
    /// Keep the running process, whose window is given.
    Reuse(isize),
    /// Start a new process for the content.
    Start,
}

/// The command that a change of occlusion to `occluded` sends: `Pause` when
/// the dock becomes occluded, `Resume` when it stops being occluded.
pub open spec fn occlusion_command(occluded: bool) -> ContentCommand {
    if occluded {
        ContentCommand::Pause
    } else {
        ContentCommand::Resume
    }
}

/// The dock after its occlusion is set to `occluded`, and the command that
/// its content process is sent: none when nothing changes or there is no
/// process.
pub open spec fn set_occluded_spec(d: DockView, occluded: bool) -> (DockView, Option<ContentCommand>) {
    if d.occluded == occluded {
        (d, None)
    } else {
        (
            DockView { occluded, ..d },
            if d.content_hwnd is Some {
                Some(occlusion_command(occluded))
            } else {
                None
            },
        )
    }
}

impl Dock {
    /// A dock without content, not occluded.
    pub fn new() -> (res: Self)
        ensures
            res@ == (DockView { content: None, content_hwnd: None, occluded: false }),
    {
        Dock { content: None, content_hwnd: None, occluded: false }
    }

    /// The window of the dock's content process.
    pub fn content_hwnd(&self) -> (res: Option<isize>)
        ensures
            res == self@.content_hwnd,
    {
        self.content_hwnd
    }

    /// Whether the dock is occluded.
    pub fn is_occluded(&self) -> (res: bool)
        ensures
            res == self@.occluded,
    {
        self.occluded
    }

    /// What to do about the content process for `content`: keep it when the
    /// dock already shows the same content with a process that is still
    /// running, otherwise start a new one.
    pub fn plan_content(&self, content: &WallpaperContentSpec, process_running: bool) -> (res: ContentPlan)
        ensures
            res == (if self@.content == Some(content@) && self@.content_hwnd is Some && process_running {
                ContentPlan::Reuse(self@.content_hwnd->0)
            } else {
                ContentPlan::Start
            }),
    {
        let same = match &self.content {
            Some(c) => c.kind == content.kind && crate::text::text_equals(
                crate::text::chars_of(c.source.as_str()).as_slice(),
                content.source.as_str(),
            ),
            None => false,
        };
        match self.content_hwnd {
            Some(h) => if same && process_running {
                ContentPlan::Reuse(h)
            } else {
                ContentPlan::Start
            },
            None => ContentPlan::Start,
        }
    }

    /// Records the process that now shows `content` in window `hwnd`, and
    /// returns the command that it is sent first: `Pause` when the dock is
    /// occluded.
    pub fn content_started(&mut self, content: WallpaperContentSpec, hwnd: isize) -> (res: Option<ContentCommand>)
        ensures
            final(self)@ == (DockView {
                content: Some(content@),
                content_hwnd: Some(hwnd),
                occluded: old(self)@.occluded,
            }),
            res == (if old(self)@.occluded {
                Some(ContentCommand::Pause)
            } else {
                None
            }),
    {
        self.content = Some(content);
        self.content_hwnd = Some(hwnd);
        if self.occluded {
            Some(ContentCommand::Pause)
        } else {
            None
        }
    }

    /// Forgets the dock's content process (it was stopped or could not be
    /// started again).
    pub fn content_stopped(&mut self)
        ensures
            final(self)@ == (DockView { content_hwnd: None, ..old(self)@ }),
    {
        self.content_hwnd = None;
    }

    /// Sets whether the dock is occluded, and returns the command for its
    /// content process, as [`set_occluded_spec`] states.
    pub fn set_occluded(&mut self, occluded: bool) -> (res: Option<ContentCommand>)
        ensures
            (final(self)@, res) == set_occluded_spec(old(self)@, occluded),
    {
        if self.occluded == occluded {
            return None;
        }
        self.occluded = occluded;
        match self.content_hwnd {
            Some(_) => if occluded {
                Some(ContentCommand::Pause)
            } else {
                Some(ContentCommand::Resume)
            },
            None => None,
        }
    }
}

/// Setting the same occlusion twice sends at most one command: the second
/// call changes nothing and sends nothing.
pub proof fn law_occlusion_commands_are_not_repeated(d: DockView, occluded: bool)
    ensures
        set_occluded_spec(set_occluded_spec(d, occluded).0, occluded) == (
            set_occluded_spec(d, occluded).0,
            None::<ContentCommand>,
        ),
{
}

/// A dock that is occluded and then uncovered again is back where it was,
/// and a dock with a content process was sent `Pause` and then `Resume`.
pub proof fn law_occlude_then_uncover(d: DockView)
    requires
        !d.occluded,
    ensures
        set_occluded_spec(set_occluded_spec(d, true).0, false).0 == d,
        d.content_hwnd is Some ==> set_occluded_spec(d, true).1 == Some(ContentCommand::Pause)
            && set_occluded_spec(set_occluded_spec(d, true).0, false).1 == Some(
            ContentCommand::Resume,
        ),
{
}

/// Why the dock list refused a request.
#[derive(Debug, Clone, Copy, PartialEq, Eq, Structural)]
pub enum DockListError {
    /// The monitor index is [`MAX_DOCKS`] or more.
    TooLargeIndex(usize),
}

/// The docks by monitor index, each with the rectangle used to check it for
/// occlusion.
#[derive(Debug)]
pub struct DockList {
    docks: Vec<Option<Dock>>,
    occlusion_rects: Vec<Option<Rect>>,
}

/// The value of a [`DockList`]: for each of the [`MAX_DOCKS`] indexes, the
/// dock there and its occlusion rectangle.
pub struct DockListView {
    pub docks: Seq<Option<DockView>>,
    pub occlusion_rects: Seq<Option<Rect>>,
}

/// The value of an optional dock.
pub open spec fn dock_opt_view(d: Option<Dock>) -> Option<DockView> {
    match d {
        Some(d) => Some(d@),
        None => None,
    }
}

impl View for DockList {
    type V = DockListView;

    closed spec fn view(&self) -> DockListView {
        DockListView {
            docks: self.docks@.map_values(|d: Option<Dock>| dock_opt_view(d)),
            occlusion_rects: self.occlusion_rects@,
        }
    }
}

/// The region of the dock at index `i`, when it has a content window and an
/// occlusion rectangle.
pub open spec fn region_at(v: DockListView, i: int) -> Option<DockRegion> {
    match (v.docks[i], v.occlusion_rects[i]) {
        (Some(d), Some(r)) => match d.content_hwnd {
            Some(h) => Some(DockRegion { hwnd: h, rect: r }),
            None => None,
        },
        _ => None,
    }
}

/// The regions of the docks at indexes below `n`, in index order.
pub open spec fn regions_below(v: DockListView, n: int) -> Seq<DockRegion>
    decreases n,
{
    if n <= 0 {
        Seq::empty()
    } else {
        match region_at(v, n - 1) {
            Some(r) => regions_below(v, n - 1).push(r),
            None => regions_below(v, n - 1),
        }
    }
}

/// `a` and `b` are both empty, or both docks with the same content and
/// content window.
pub open spec fn same_process(a: Option<DockView>, b: Option<DockView>) -> bool {
    match (a, b) {
        (Some(x), Some(y)) => x.content_hwnd == y.content_hwnd && x.content == y.content,
        (None, None) => true,
        _ => false,
    }
}

/// The first index below `n` whose dock hosts the window `hwnd`, or `n`.
pub open spec fn dock_index_of(v: DockListView, hwnd: isize, n: int) -> int
    decreases n,
{
    if n <= 0 {
        0
    } else if dock_index_of(v, hwnd, n - 1) < n - 1 {
        dock_index_of(v, hwnd, n - 1)
    } else if v.docks[n - 1] matches Some(d) && d.content_hwnd == Some(hwnd) {
        n - 1
    } else {
        n
    }
}

impl DockList {
    /// The list has exactly [`MAX_DOCKS`] slots.
    pub closed spec fn wf(&self) -> bool {
        self.docks@.len() == MAX_DOCKS && self.occlusion_rects@.len() == MAX_DOCKS
    }

    /// An empty list.
    pub fn new() -> (res: Self)
        ensures
            res.wf(),
            forall|i: int| 0 <= i < MAX_DOCKS ==> res@.docks[i] is None && res@.occlusion_rects[i] is None,
    {
        let mut docks: Vec<Option<Dock>> = Vec::new();
        let mut occlusion_rects: Vec<Option<Rect>> = Vec::new();
        let mut i: usize = 0;
        while i < MAX_DOCKS
            invariant
                i <= MAX_DOCKS,
                docks@.len() == i,
                occlusion_rects@.len() == i,
                forall|j: int| 0 <= j < i ==> docks@[j] is None && occlusion_rects@[j] is None,
            decreases MAX_DOCKS - i,
        {
            docks.push(None);
            occlusion_rects.push(None);
            i += 1;
        }
        DockList { docks, occlusion_rects }
    }

    /// Makes sure that there is a dock at `index` whose occlusion rectangle
    /// is `occlusion_rect`; returns whether a new dock was put there.
    pub fn get_or_create(&mut self, index: usize, occlusion_rect: Rect) -> (res: Result<bool, DockListError>)
        requires
            old(self).wf(),
        ensures
            final(self).wf(),
            index >= MAX_DOCKS ==> res == Err::<bool, DockListError>(DockListError::TooLargeIndex(index))
                && final(self)@ == old(self)@,
            index < MAX_DOCKS ==> res == Ok::<bool, DockListError>(old(self)@.docks[index as int] is None)
                && final(self)@.occlusion_rects == old(self)@.occlusion_rects.update(
                index as int,
                Some(occlusion_rect),
            ) && final(self)@.docks == old(self)@.docks.update(
                index as int,
                Some(
                    match old(self)@.docks[index as int] {
                        Some(d) => d,
                        None => DockView { content: None, content_hwnd: None, occluded: false },
                    },
                ),
            ),
    {
        if index >= MAX_DOCKS {
            return Err(DockListError::TooLargeIndex(index));
        }
        let ghost before = self@;
        self.occlusion_rects.set(index, Some(occlusion_rect));
        let created = self.docks[index].is_none();
        if created {
            self.docks.set(index, Some(Dock::new()));
        }
        proof {
            assert(self@.docks =~= before.docks.update(
                index as int,
                Some(
                    match before.docks[index as int] {
                        Some(d) => d,
                        None => DockView { content: None, content_hwnd: None, occluded: false },
                    },
                ),
            ));
        }
        Ok(created)
    }

    /// Brings the docks in line with the monitors: `has_content` says, by
    /// monitor index, whether the monitor shows content, and
    /// `occlusion_rects` gives each monitor's work area. A monitor with
    /// content keeps its dock (or gets a new one) with its work area as the
    /// occlusion rectangle; every other dock is removed. Returns, in order,
    /// the monitors whose docks are to show content; monitors from
    /// [`MAX_DOCKS`] on get none.
    pub fn refresh(&mut self, has_content: &[bool], occlusion_rects: &[Rect]) -> (res: Vec<usize>)
        requires
            old(self).wf(),
            has_content@.len() == occlusion_rects@.len(),
        ensures
            final(self).wf(),
            final(self)@ == refreshed_view(old(self)@, has_content@, occlusion_rects@),
            res@ == monitors_with_content(has_content@, has_content@.len() as int),
    {
        let n = has_content.len();
        self.remove_from(n);
        let ghost start = self@;
        let mut res: Vec<usize> = Vec::new();
        let mut i: usize = 0;
        while i < n
            invariant
                self.wf(),
                i <= n == has_content@.len() == occlusion_rects@.len(),
                forall|j: int| 0 <= j < MAX_DOCKS && j < n ==> start.docks[j] == old(self)@.docks[j],
                forall|j: int| n <= j < MAX_DOCKS ==> start.docks[j] is None && start.occlusion_rects[j] is None,
                forall|j: int|
                    0 <= j < MAX_DOCKS && j < i ==> self@.docks[j] == refreshed_view(
                        old(self)@,
                        has_content@,
                        occlusion_rects@,
                    ).docks[j] && self@.occlusion_rects[j] == refreshed_view(
                        old(self)@,
                        has_content@,
                        occlusion_rects@,
                    ).occlusion_rects[j],
                forall|j: int|
                    i <= j < MAX_DOCKS ==> self@.docks[j] == start.docks[j] && self@.occlusion_rects[j]
                        == start.occlusion_rects[j],
                res@ == monitors_with_content(has_content@, i as int),
            decreases n - i,
        {
            let ghost r = refreshed_view(old(self)@, has_content@, occlusion_rects@);
            let ghost before = self@;
            proof {
                if i < MAX_DOCKS {
                    assert(before.docks[i as int] == start.docks[i as int]);
                    assert(start.docks[i as int] == old(self)@.docks[i as int]);
                    assert(r.docks[i as int] == (if has_content@[i as int] {
                        Some(kept_or_new(old(self)@.docks[i as int]))
                    } else {
                        None
                    }));
                }
            }
            if has_content[i] {
                match self.get_or_create(i, occlusion_rects[i]) {
                    Ok(_) => {
                        res.push(i);
                    },
                    Err(_) => {},
                }
            } else {
                let _ = self.remove(i);
            }
            proof {
                if i < MAX_DOCKS {
                    assert(self@.docks[i as int] == r.docks[i as int]);
                    assert(self@.occlusion_rects[i as int] == r.occlusion_rects[i as int]);
                }
            }
            i += 1;
        }
        proof {
            let r = refreshed_view(old(self)@, has_content@, occlusion_rects@);
            assert forall|j: int| 0 <= j < MAX_DOCKS implies self@.docks[j] == r.docks[j]
                && self@.occlusion_rects[j] == r.occlusion_rects[j] by {
                if j >= n {
                    assert(start.docks[j] is None && start.occlusion_rects[j] is None);
                }
            }
            assert(self@.docks =~= r.docks);
            assert(self@.occlusion_rects =~= r.occlusion_rects);
        }
        res
    }

    /// The dock at `index`, if there is one.
    pub fn dock(&self, index: usize) -> (res: Option<&Dock>)
        requires
            self.wf(),
            index < MAX_DOCKS,
        ensures
            match res {
                Some(d) => self@.docks[index as int] == Some(d@),
                None => self@.docks[index as int] is None,
            },
    {
        match &self.docks[index] {
            Some(d) => Some(d),
            None => None,
        }
    }

    /// Sets whether the dock at `index` is occluded, as
    /// [`Dock::set_occluded`] does; nothing happens without a dock there.
    pub fn set_occluded_at(&mut self, index: usize, occluded: bool) -> (res: Option<ContentCommand>)
        requires
            old(self).wf(),
            index < MAX_DOCKS,
        ensures
            final(self).wf(),
            final(self)@.occlusion_rects == old(self)@.occlusion_rects,
            match old(self)@.docks[index as int] {
                Some(d) => final(self)@.docks == old(self)@.docks.update(
                    index as int,
                    Some(set_occluded_spec(d, occluded).0),
                ) && res == set_occluded_spec(d, occluded).1,
                None => final(self)@ == old(self)@ && res is None,
            },
    {
        let ghost before = self@;
        let slot = self.docks.remove(index);
        match slot {
            Some(mut d) => {
                let c = d.set_occluded(occluded);
                self.docks.insert(index, Some(d));
                proof {
                    assert(self@.docks =~= before.docks.update(
                        index as int,
                        Some(set_occluded_spec(before.docks[index as int]->0, occluded).0),
                    ));
                }
                c
            },
            None => {
                self.docks.insert(index, None);
                proof {
                    assert(self@.docks =~= before.docks);
                }
                None
            },
        }
    }

    /// Records, as [`Dock::content_started`] does, the process that the dock
    /// at `index` now hosts; nothing happens without a dock there.
    pub fn content_started_at(&mut self, index: usize, content: WallpaperContentSpec, hwnd: isize) -> (res: Option<
        ContentCommand,
    >)
        requires
            old(self).wf(),
            index < MAX_DOCKS,
        ensures
            final(self).wf(),
            final(self)@.occlusion_rects == old(self)@.occlusion_rects,
            match old(self)@.docks[index as int] {
                Some(d) => final(self)@.docks == old(self)@.docks.update(
                    index as int,
                    Some(DockView { content: Some(content@), content_hwnd: Some(hwnd), occluded: d.occluded }),
                ) && res == (if d.occluded {
                    Some(ContentCommand::Pause)
                } else {
                    None
                }),
                None => final(self)@ == old(self)@ && res is None,
            },
    {
        let ghost before = self@;
        let slot = self.docks.remove(index);
        match slot {
            Some(mut d) => {
                let c = d.content_started(content, hwnd);
                self.docks.insert(index, Some(d));
                proof {
                    assert(self@.docks =~= before.docks.update(
                        index as int,
                        Some(DockView { content: Some(content@), content_hwnd: Some(hwnd), occluded: before.docks[index as int]->0.occluded }),
                    ));
                }
                c
            },
            None => {
                self.docks.insert(index, None);
                proof {
                    assert(self@.docks =~= before.docks);
                }
                None
            },
        }
    }

    /// Removes the dock at `index`.
    pub fn remove(&mut self, index: usize) -> (res: Result<(), DockListError>)
        requires
            old(self).wf(),
        ensures
            final(self).wf(),
            index >= MAX_DOCKS ==> res == Err::<(), DockListError>(DockListError::TooLargeIndex(index))
                && final(self)@ == old(self)@,
            index < MAX_DOCKS ==> res is Ok && final(self)@.docks == old(self)@.docks.update(
                index as int,
                None,
            ) && final(self)@.occlusion_rects == old(self)@.occlusion_rects.update(index as int, None),
    {
        if index >= MAX_DOCKS {
            return Err(DockListError::TooLargeIndex(index));
        }
        let ghost before = self@;
        self.docks.set(index, None);
        self.occlusion_rects.set(index, None);
        proof {
            assert(self@.docks =~= before.docks.update(index as int, None));
        }
        Ok(())
    }

    /// Removes the docks at `start` and after.
    pub fn remove_from(&mut self, start: usize)
        requires
            old(self).wf(),
        ensures
            final(self).wf(),
            forall|i: int| 0 <= i < MAX_DOCKS && i < start ==> final(self)@.docks[i] == old(self)@.docks[i]
                && final(self)@.occlusion_rects[i] == old(self)@.occlusion_rects[i],
            forall|i: int| start <= i < MAX_DOCKS ==> final(self)@.docks[i] is None
                && final(self)@.occlusion_rects[i] is None,
    {
        let mut i = start;
        while i < MAX_DOCKS
            invariant
                self.wf(),
                start <= i,
                forall|j: int| 0 <= j < MAX_DOCKS && j < start ==> self@.docks[j] == old(self)@.docks[j]
                    && self@.occlusion_rects[j] == old(self)@.occlusion_rects[j],
                forall|j: int| start <= j < i && j < MAX_DOCKS ==> self@.docks[j] is None
                    && self@.occlusion_rects[j] is None,
                forall|j: int| i <= j < MAX_DOCKS ==> self@.docks[j] == old(self)@.docks[j]
                    && self@.occlusion_rects[j] == old(self)@.occlusion_rects[j],
            decreases MAX_DOCKS - i,
        {
            let ghost before = self@;
            self.docks.set(i, None);
            self.occlusion_rects.set(i, None);
            proof {
                assert(self@.docks =~= before.docks.update(i as int, None));
            }
            i += 1;
        }
    }

    /// Removes every dock.
    pub fn clear(&mut self)
        requires
            old(self).wf(),
        ensures
            final(self).wf(),
            forall|i: int| 0 <= i < MAX_DOCKS ==> final(self)@.docks[i] is None && final(self)@.occlusion_rects[i] is None,
    {
        self.remove_from(0);
    }

    /// The regions of the docks that have a content window and an occlusion
    /// rectangle, in index order.
    pub fn regions(&self) -> (res: Vec<DockRegion>)
        requires
            self.wf(),
        ensures
            res@ == regions_below(self@, MAX_DOCKS as int),
    {
        let mut res: Vec<DockRegion> = Vec::new();
        let mut i: usize = 0;
        while i < MAX_DOCKS
            invariant
                self.wf(),
                i <= MAX_DOCKS,
                res@ == regions_below(self@, i as int),
            decreases MAX_DOCKS - i,
        {
            let hwnd = match &self.docks[i] {
                Some(d) => d.content_hwnd,
                None => None,
            };
            match (hwnd, self.occlusion_rects[i]) {
                (Some(h), Some(r)) => {
                    res.push(DockRegion { hwnd: h, rect: r });
                },
                _ => {},
            }
            i += 1;
        }
        res
    }

    /// The index of the first dock that hosts the window `hwnd`, if any.
    pub fn find_by_content_hwnd(&self, hwnd: isize) -> (res: Option<usize>)
        requires
            self.wf(),
        ensures
            match res {
                Some(i) => i < MAX_DOCKS && dock_index_of(self@, hwnd, MAX_DOCKS as int) == i,
                None => dock_index_of(self@, hwnd, MAX_DOCKS as int) == MAX_DOCKS,
            },
    {
        let mut i: usize = 0;
        while i < MAX_DOCKS
            invariant
                self.wf(),
                i <= MAX_DOCKS,
                dock_index_of(self@, hwnd, i as int) == i,
            decreases MAX_DOCKS - i,
        {
            let hit = match &self.docks[i] {
                Some(d) => d.content_hwnd == Some(hwnd),
                None => false,
            };
            if hit {
                proof {
                    lemma_dock_index_of_stays(self@, hwnd, i as int + 1, MAX_DOCKS as int);
                }
                return Some(i);
            }
            i += 1;
        }
        None
    }

    /// Applies the occlusion results `occlusions` (content window, occluded)
    /// in order, each to the first dock that hosts the window, and returns
    /// the commands to send, with the index of the dock whose process gets
    /// each, as [`apply_occlusions_spec`] states.
    pub fn apply_occlusions(&mut self, occlusions: &[(isize, bool)]) -> (res: Vec<(usize, ContentCommand)>)
        requires
            old(self).wf(),
        ensures
            final(self).wf(),
            (final(self)@, res@) == apply_occlusions_spec(old(self)@, occlusions@),
    {
        let mut commands: Vec<(usize, ContentCommand)> = Vec::new();
        let mut k: usize = 0;
        while k < occlusions.len()
            invariant
                self.wf(),
                k <= occlusions@.len(),
                (self@, commands@) == apply_occlusions_spec(old(self)@, occlusions@.take(k as int)),
            decreases occlusions@.len() - k,
        {
            let (hwnd, occluded) = occlusions[k];
            let ghost before = self@;
            let ghost before_commands = commands@;
            proof {
                assert(occlusions@.take(k + 1).drop_last() =~= occlusions@.take(k as int));
                assert(occlusions@.take(k + 1).last() == (hwnd, occluded));
            }
            match self.find_by_content_hwnd(hwnd) {
                Some(i) => {
                    match self.set_occluded_at(i, occluded) {
                        Some(c) => {
                            commands.push((i, c));
                        },
                        None => {},
                    }
                    proof {
                        let d = before.docks[i as int]->0;
                        assert(before.docks[i as int] is Some) by {
                            lemma_dock_index_of_found(before, hwnd, MAX_DOCKS as int);
                        }
                        assert(self@.docks =~= before.docks.update(
                            i as int,
                            Some(set_occluded_spec(d, occluded).0),
                        ));
                    }
                },
                None => {},
            }
            k += 1;
        }
        assert(occlusions@.take(occlusions@.len() as int) =~= occlusions@);
        commands
    }
}

/// The dock list after one occlusion result: the first dock that hosts the
/// window gets the occlusion, and the command that follows, if any, goes to
/// it.
pub open spec fn apply_occlusion_step(v: DockListView, hwnd: isize, occluded: bool) -> (
    DockListView,
    Option<(usize, ContentCommand)>,
) {
    let i = dock_index_of(v, hwnd, MAX_DOCKS as int);
    if i < MAX_DOCKS {
        match v.docks[i] {
            Some(d) => {
                let (d2, c) = set_occluded_spec(d, occluded);
                (
                    DockListView { docks: v.docks.update(i, Some(d2)), ..v },
                    match c {
                        Some(c) => Some((i as usize, c)),
                        None => None,
                    },
                )
            },
            None => (v, None),
        }
    } else {
        (v, None)
    }
}

/// The dock list after the occlusion results `occ`, applied in order, and
/// the commands that follow, in order.
pub open spec fn apply_occlusions_spec(v: DockListView, occ: Seq<(isize, bool)>) -> (
    DockListView,
    Seq<(usize, ContentCommand)>,
)
    decreases occ.len(),
{
    if occ.len() == 0 {
        (v, Seq::empty())
    } else {
        let (v1, cs) = apply_occlusions_spec(v, occ.drop_last());
        let (v2, c) = apply_occlusion_step(v1, occ.last().0, occ.last().1);
        (
            v2,
            match c {
                Some(c) => cs.push(c),
                None => cs,
            },
        )
    }
}

/// Applying occlusion results changes only whether docks are occluded:
/// which docks there are, their content, their content windows and their
/// occlusion rectangles stay as they were.
pub proof fn law_occlusions_change_only_occlusion(v: DockListView, occ: Seq<(isize, bool)>)
    requires
        v.docks.len() == MAX_DOCKS,
    ensures
        apply_occlusions_spec(v, occ).0.docks.len() == MAX_DOCKS,
        apply_occlusions_spec(v, occ).0.occlusion_rects == v.occlusion_rects,
        forall|i: int|
            0 <= i < MAX_DOCKS ==> same_process(#[trigger] apply_occlusions_spec(v, occ).0.docks[i], v.docks[i]),
    decreases occ.len(),
{
    if occ.len() > 0 {
        law_occlusions_change_only_occlusion(v, occ.drop_last());
        let v1 = apply_occlusions_spec(v, occ.drop_last()).0;
        let (h, o) = occ.last();
        let i = dock_index_of(v1, h, MAX_DOCKS as int);
        let v2 = apply_occlusions_spec(v, occ).0;
        lemma_dock_index_of_found(v1, h, MAX_DOCKS as int);
        assert(v2 == apply_occlusion_step(v1, h, o).0);
        if i < MAX_DOCKS {
            let d = v1.docks[i]->0;
            assert(v2.docks == v1.docks.update(i, Some(set_occluded_spec(d, o).0)));
        } else {
            assert(v2 == v1);
        }
        assert forall|j: int| 0 <= j < MAX_DOCKS implies same_process(#[trigger] v2.docks[j], v.docks[j]) by {
            assert(same_process(v1.docks[j], v.docks[j]));
        }
    }
}

proof fn lemma_dock_index_of_found(v: DockListView, hwnd: isize, n: int)
    requires
        0 <= n,
    ensures
        0 <= dock_index_of(v, hwnd, n) <= n,
        dock_index_of(v, hwnd, n) < n ==> (v.docks[dock_index_of(v, hwnd, n)] matches Some(d)
            && d.content_hwnd == Some(hwnd)),
    decreases n,
{
    if n > 0 {
        lemma_dock_index_of_found(v, hwnd, n - 1);
    }
}

proof fn lemma_dock_index_of_stays(v: DockListView, hwnd: isize, m: int, n: int)
    requires
        1 <= m <= n,
        dock_index_of(v, hwnd, m) == m - 1,
    ensures
        dock_index_of(v, hwnd, n) == m - 1,
    decreases n - m,
{
    if m < n {
        lemma_dock_index_of_stays(v, hwnd, m, n - 1);
    }
}

/// The content that each of `monitor_count` monitors shows, by index: what
/// `config` gives it.
pub fn monitor_contents(config: &Config, monitor_count: usize) -> (res: Vec<Option<WallpaperContentSpec>>)
    ensures
        res@.len() == monitor_count,
        forall|i: int| 0 <= i < monitor_count ==> content_view(#[trigger] res@[i]) == crate::config::content_at(config@, i),
{
    let mut res: Vec<Option<WallpaperContentSpec>> = Vec::new();
    let mut i: usize = 0;
    while i < monitor_count
        invariant
            i <= monitor_count,
            res@.len() == i,
            forall|j: int| 0 <= j < i ==> content_view(#[trigger] res@[j]) == crate::config::content_at(config@, j),
        decreases monitor_count - i,
    {
        res.push(config.content_for_monitor(i));
        i += 1;
    }
    res
}

/// `s`, cut after `max_len` characters and ended with ` ...` when it is
/// longer.
pub open spec fn truncated(s: Seq<char>, max_len: nat) -> Seq<char> {
    if s.len() <= max_len {
        s
    } else {
        s.take(max_len as int) + " ..."@
    }
}

/// `s` for a log line: cut after `max_len` characters, with ` ...` to show
/// that it was cut.
pub fn truncate_with_ellipsis(s: &str, max_len: usize) -> (res: String)
    ensures
        res@ == truncated(s@, max_len as nat),
{
    let chars = crate::text::chars_of(s);
    if chars.len() <= max_len {
        s.to_owned()
    } else {
        let mut out = crate::text::string_from_range(chars.as_slice(), 0, max_len);
        proof {
            assert(chars@.subrange(0, max_len as int) =~= chars@.take(max_len as int));
        }
        out.append(" ...");
        out
    }
}


/// The dock that a monitor with content keeps, or the new one it gets.
pub open spec fn kept_or_new(d: Option<DockView>) -> DockView {
    match d {
        Some(d) => d,
        None => DockView { content: None, content_hwnd: None, occluded: false },
    }
}

/// The dock list after a refresh for monitors that show content as
/// `has_content` says, with the work areas `rects`.
pub open spec fn refreshed_view(v: DockListView, has_content: Seq<bool>, rects: Seq<Rect>) -> DockListView {
    DockListView {
        docks: Seq::new(
            MAX_DOCKS as nat,
            |i: int|
                if i < has_content.len() && has_content[i] {
                    Some(kept_or_new(v.docks[i]))
                } else {
                    None
                },
        ),
        occlusion_rects: Seq::new(
            MAX_DOCKS as nat,
            |i: int|
                if i < has_content.len() && has_content[i] {
                    Some(rects[i])
                } else {
                    None
                },
        ),
    }
}

/// The monitors below `n` (and below [`MAX_DOCKS`]) that show content, in
/// order.
pub open spec fn monitors_with_content(has_content: Seq<bool>, n: int) -> Seq<usize>
    decreases n,
{
    if n <= 0 {
        Seq::empty()
    } else if n - 1 < MAX_DOCKS && has_content[n - 1] {
        monitors_with_content(has_content, n - 1).push((n - 1) as usize)
    } else {
        monitors_with_content(has_content, n - 1)
    }
}

/// A refresh that finds the monitors as they were leaves every dock as it
/// is: no dock is replaced, so no content process is started again.
pub proof fn law_refresh_is_idempotent(v: DockListView, has_content: Seq<bool>, rects: Seq<Rect>)
    ensures
        refreshed_view(refreshed_view(v, has_content, rects), has_content, rects) == refreshed_view(
            v,
            has_content,
            rects,
        ),
{
    let once = refreshed_view(v, has_content, rects);
    let twice = refreshed_view(once, has_content, rects);
    assert(twice.docks =~= once.docks);
    assert(twice.occlusion_rects =~= once.occlusion_rects);
}

/// After a refresh, the monitors that show content are exactly those with
/// a dock, and a dock that was there stays the same dock.
pub proof fn law_refresh_keeps_docks_of_monitors_with_content(
    v: DockListView,
    has_content: Seq<bool>,
    rects: Seq<Rect>,
    i: int,
)
    requires
        0 <= i < MAX_DOCKS,
    ensures
        (refreshed_view(v, has_content, rects).docks[i] is Some) == (i < has_content.len()
            && has_content[i]),
        i < has_content.len() && has_content[i] && v.docks[i] is Some ==> refreshed_view(
            v,
            has_content,
            rects,
        ).docks[i] == v.docks[i],
{
}


/// A refresh gives each monitor with content the work area given for that
/// monitor as its occlusion rectangle, and leaves a monitor without content
/// without one; a dock is never checked against another monitor's area.
pub proof fn law_refresh_gives_each_monitor_its_own_work_area(
    v: DockListView,
    has_content: Seq<bool>,
    rects: Seq<Rect>,
    i: int,
)
    requires
        0 <= i < MAX_DOCKS,
        i < has_content.len(),
        has_content.len() == rects.len(),
    ensures
        has_content[i] ==> refreshed_view(v, has_content, rects).occlusion_rects[i] == Some(rects[i]),
        !has_content[i] ==> refreshed_view(v, has_content, rects).occlusion_rects[i] is None,
        forall|j: int|
            0 <= j < MAX_DOCKS && j < has_content.len() && has_content[j] && rects[j] != rects[i]
                ==> refreshed_view(v, has_content, rects).occlusion_rects[j] != Some(rects[i]),
{
}

} // verus!
