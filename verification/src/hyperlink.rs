//! The geometry of a hyperlink label: the height of its underlined font at
//! a monitor's DPI, and the bounds of the label, sized to its text and
//! placed by an anchor point.
use vstd::prelude::*;

use crate::occlusion::Rect;

verus! {

/// The font of a hyperlink label: a face name and a size in points.
#[derive(Debug, Clone)]
pub struct HyperLinkFont {
    name: String,
    point_size: i32,
}

impl HyperLinkFont {
    /// The font with face `name` at `point_size` points.
    pub fn new(name: String, point_size: i32) -> (res: Self)
        ensures
            res.name_view() == name@,
            res.point_size_view() == point_size,
    {
        HyperLinkFont { name, point_size }
    }

    /// The face name.
    pub closed spec fn name_view(&self) -> Seq<char> {
        self.name@
    }

    /// The size in points.
    pub closed spec fn point_size_view(&self) -> i32 {
        self.point_size
    }

    /// The face name.
    pub fn name(&self) -> (res: &str)
        ensures
            res@ == self.name_view(),
    {
        self.name.as_str()
    }

    /// The size in points.
    pub fn point_size(&self) -> (res: i32)
        ensures
            res == self.point_size_view(),
    {
        self.point_size
    }

    /// The logical font height for a window at `dpi` dots per inch, as
    /// [`font_height`] states it.
    pub fn height_for_dpi(&self, dpi: u32) -> (res: i32)
        requires
            font_height_fits(self.point_size_view(), dpi),
        ensures
            res == font_height(self.point_size_view(), dpi),
    {
        logical_font_height(self.point_size, dpi)
    }
}

/// The DPI that a window reports, with 0 (no answer) read as 96.
pub open spec fn effective_dpi(dpi: u32) -> int {
    if dpi == 0 {
        96
    } else {
        dpi as int
    }
}

/// The `i32` that a `u32` value converts to with `as`: values above
/// `i32::MAX` wrap around to negative ones.
pub open spec fn u32_as_i32(v: int) -> int {
    if v <= i32::MAX {
        v
    } else {
        v - 0x1_0000_0000
    }
}

/// At least 1 point.
pub open spec fn at_least_one(v: i32) -> int {
    if v < 1 {
        1
    } else {
        v as int
    }
}

/// Integer division that rounds toward zero, for a positive divisor.
pub open spec fn div_toward_zero(a: int, b: int) -> int {
    if a >= 0 {
        a / b
    } else {
        -((-a) / b)
    }
}

/// The product that the height is computed from: the point size (at least
/// 1) times the DPI.
pub open spec fn height_product(point_size: i32, dpi: u32) -> int {
    at_least_one(point_size) * u32_as_i32(effective_dpi(dpi))
}

/// The height product fits in an `i32`.
pub open spec fn font_height_fits(point_size: i32, dpi: u32) -> bool {
    i32::MIN <= height_product(point_size, dpi) <= i32::MAX
}

/// The logical height of a font of `point_size` points at `dpi` dots per
/// inch: minus the point size (at least 1) times the DPI over 72, a negative
/// height that asks for the character height rather than the cell height.
pub open spec fn font_height(point_size: i32, dpi: u32) -> int {
    -div_toward_zero(height_product(point_size, dpi), 72)
}

/// The logical height of a font of `point_size` points at `dpi` dots per inch.
pub fn logical_font_height(point_size: i32, dpi: u32) -> (res: i32)
    requires
        font_height_fits(point_size, dpi),
    ensures
        res == font_height(point_size, dpi),
{
    let d: u32 = if dpi == 0 {
        96
    } else {
        dpi
    };
    let di: i64 = if d <= 0x7fff_ffff {
        d as i64
    } else {
        d as i64 - 0x1_0000_0000
    };
    let p: i64 = if point_size < 1 {
        1
    } else {
        point_size as i64
    };
    assert(-0x8000_0000 <= di <= 0x7fff_ffff);
    assert(1 <= p <= 0x7fff_ffff);
    assert(-0x8000_0000 * 0x7fff_ffff <= p * di <= 0x7fff_ffff * 0x7fff_ffff) by (nonlinear_arith)
        requires
            -0x8000_0000 <= di <= 0x7fff_ffff,
            1 <= p <= 0x7fff_ffff,
    ;
    let prod: i64 = p * di;
    assert(prod == height_product(point_size, dpi));
    let q: i64 = if prod >= 0 {
        prod / 72
    } else {
        (-prod) / 72
    };
    if prod >= 0 {
        assert(0 <= q <= 0x7fff_ffff_i64 / 72);
        -(q as i32)
    } else {
        assert(0 <= q <= 0x8000_0000_i64 / 72);
        q as i32
    }
}

/// Where a label is placed horizontally: its left edge, its center or its
/// right edge at the given x.
#[derive(Debug, Clone, Copy, PartialEq, Eq, Structural)]
pub enum HorizontalAnchor {
    Left(i32),
    Center(i32),
    Right(i32),
}

/// Where a label is placed vertically: its top edge, its center or its
/// bottom edge at the given y.
#[derive(Debug, Clone, Copy, PartialEq, Eq, Structural)]
pub enum VerticalAnchor {
    Top(i32),
    Center(i32),
    Bottom(i32),
}

/// The point that a label is placed by.
#[derive(Debug, Clone, Copy, PartialEq, Eq, Structural)]
pub struct Anchor {
    pub horizontal: HorizontalAnchor,
    pub vertical: VerticalAnchor,
}

impl Anchor {
    /// The anchor made of `horizontal` and `vertical`.
    pub fn new(horizontal: HorizontalAnchor, vertical: VerticalAnchor) -> (res: Self)
        ensures
            res.horizontal == horizontal,
            res.vertical == vertical,
    {
        Anchor { horizontal, vertical }
    }
}

/// At least 1.
pub open spec fn at_least_1(v: int) -> int {
    if v < 1 {
        1
    } else {
        v
    }
}

/// The left edge of a label `width` wide placed by `h`.
pub open spec fn anchored_left(h: HorizontalAnchor, width: int) -> int {
    match h {
        HorizontalAnchor::Left(x) => x as int,
        HorizontalAnchor::Center(x) => x - width / 2,
        HorizontalAnchor::Right(x) => x - width,
    }
}

/// The top edge of a label `height` high placed by `v`.
pub open spec fn anchored_top(v: VerticalAnchor, height: int) -> int {
    match v {
        VerticalAnchor::Top(y) => y as int,
        VerticalAnchor::Center(y) => y - height / 2,
        VerticalAnchor::Bottom(y) => y - height,
    }
}

/// `v` fits in an `i32`.
pub open spec fn fits_i32(v: int) -> bool {
    i32::MIN <= v <= i32::MAX
}

/// The width of measured text bounds, at least 1.
pub open spec fn label_width(text: Rect) -> int {
    at_least_1(text.right - text.left)
}

/// The height of measured text bounds, at least 1.
pub open spec fn label_height(text: Rect) -> int {
    at_least_1(text.bottom - text.top)
}

/// Every coordinate of the label placed by `anchor` around text measured as
/// `text` fits in an `i32`.
pub open spec fn autosize_fits(text: Rect, anchor: Anchor) -> bool {
    &&& fits_i32(text.right - text.left)
    &&& fits_i32(text.bottom - text.top)
    &&& fits_i32(anchored_left(anchor.horizontal, label_width(text)))
    &&& fits_i32(anchored_left(anchor.horizontal, label_width(text)) + label_width(text))
    &&& fits_i32(anchored_top(anchor.vertical, label_height(text)))
    &&& fits_i32(anchored_top(anchor.vertical, label_height(text)) + label_height(text))
}

/// The bounds of a label whose text measures `text`: the text's size (at
/// least one pixel each way), placed so that the anchor's edge or center
/// lies at the anchor's coordinate.
pub fn autosize_bounds(text: Rect, anchor: Anchor) -> (res: Rect)
    requires
        autosize_fits(text, anchor),
    ensures
        res.left == anchored_left(anchor.horizontal, label_width(text)),
        res.top == anchored_top(anchor.vertical, label_height(text)),
        res.right - res.left == label_width(text),
        res.bottom - res.top == label_height(text),
{
    let w = text.right - text.left;
    let width: i32 = if w < 1 {
        1
    } else {
        w
    };
    let h = text.bottom - text.top;
    let height: i32 = if h < 1 {
        1
    } else {
        h
    };
    let left = match anchor.horizontal {
        HorizontalAnchor::Left(x) => x,
        HorizontalAnchor::Center(x) => x - width / 2,
        HorizontalAnchor::Right(x) => x - width,
    };
    let top = match anchor.vertical {
        VerticalAnchor::Top(y) => y,
        VerticalAnchor::Center(y) => y - height / 2,
        VerticalAnchor::Bottom(y) => y - height,
    };
    Rect { left, top, right: left + width, bottom: top + height }
}


/// What a hyperlink label does with a window message.
#[derive(Debug, Clone, Copy, PartialEq, Eq, Structural)]
pub enum HyperLinkAction {
    /// Draw the underlined text in the theme's link color.
    Paint,
    /// Leave the background alone (the message is answered with 1).
    SkipBackground,
    /// Redraw after a change of system settings.
    Redraw,
    /// Show the hand cursor (the message is answered with 1).
    SetHandCursor,
    /// Run the click handler.
    Click,
}

/// What a hyperlink label does with the message `msg`: paint, skip the
/// background, redraw on a settings change, show the hand cursor, or run
/// its click handler on a left button release. Other messages go to the
/// default handling.
pub fn hyperlink_action(msg: u32) -> (res: Option<HyperLinkAction>)
    ensures
        res == (if msg == 0x000f {
            Some(HyperLinkAction::Paint)
        } else if msg == 0x0014 {
            Some(HyperLinkAction::SkipBackground)
        } else if msg == 0x001a {
            Some(HyperLinkAction::Redraw)
        } else if msg == 0x0020 {
            Some(HyperLinkAction::SetHandCursor)
        } else if msg == 0x0202 {
            Some(HyperLinkAction::Click)
        } else {
            None
        }),
{
    if msg == 0x000f {
        Some(HyperLinkAction::Paint)
    } else if msg == 0x0014 {
        Some(HyperLinkAction::SkipBackground)
    } else if msg == 0x001a {
        Some(HyperLinkAction::Redraw)
    } else if msg == 0x0020 {
        Some(HyperLinkAction::SetHandCursor)
    } else if msg == 0x0202 {
        Some(HyperLinkAction::Click)
    } else {
        None
    }
}

} // verus!
