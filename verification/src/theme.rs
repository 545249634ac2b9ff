//! Following the system's light or dark theme: reading the theme and the
//! Windows build from the registry values, and the colors of each theme.
use vstd::prelude::*;

use crate::numbers::{all_digits, digits_value, is_digit};
use crate::wide_string::{lemma_units_before_nul, units_before_nul};

verus! {

/// The system's app theme.
#[derive(Debug, Clone, Copy, PartialEq, Eq, Structural)]
pub enum SystemTheme {
    Light,
    Dark,
}

/// The theme that the `AppsUseLightTheme` registry value selects: dark
/// exactly when the value was read and is 0.
pub fn theme_from_registry(read_ok: bool, apps_use_light_theme: u32) -> (res: SystemTheme)
    ensures
        res == (if read_ok && apps_use_light_theme == 0 {
            SystemTheme::Dark
        } else {
            SystemTheme::Light
        }),
{
    if read_ok && apps_use_light_theme == 0 {
        SystemTheme::Dark
    } else {
        SystemTheme::Light
    }
}

/// The window background color (`0x00bbggrr`) of a theme.
pub fn background_color(theme: SystemTheme) -> (res: u32)
    ensures
        res == (match theme {
            SystemTheme::Light => 0x00ff_ffffu32,
            SystemTheme::Dark => 0x0020_2020u32,
        }),
{
    match theme {
        SystemTheme::Light => 0x00ff_ffff,
        SystemTheme::Dark => 0x0020_2020,
    }
}

/// The hyperlink text color (`0x00bbggrr`) of a theme.
pub fn hyperlink_text_color(theme: SystemTheme) -> (res: u32)
    ensures
        res == (match theme {
            SystemTheme::Light => 0x00cc_6600u32,
            SystemTheme::Dark => 0x00ff_b56bu32,
        }),
{
    match theme {
        SystemTheme::Light => 0x00cc_6600,
        SystemTheme::Dark => 0x00ff_b56b,
    }
}

/// The value of the immersive dark mode window attribute for a theme.
pub fn dark_mode_attribute(theme: SystemTheme) -> (res: i32)
    ensures
        res == (match theme {
            SystemTheme::Light => 0i32,
            SystemTheme::Dark => 1i32,
        }),
{
    match theme {
        SystemTheme::Light => 0,
        SystemTheme::Dark => 1,
    }
}

/// The first Windows build that supports a dark window frame.
pub const DARK_FRAME_MIN_BUILD: u32 = 17763;

/// The characters that ASCII code units stand for; units outside ASCII
/// stand for a character that is no digit and no sign.
pub open spec fn ascii_char_of(u: u16) -> char {
    if u < 0x80 {
        (u as u32) as char
    } else {
        '\u{fffd}'
    }
}

/// The value that a build number string spells, as `str::parse::<u32>`
/// reads it: an optional `+`, then at least one digit, the value fitting in
/// a `u32`.
pub open spec fn build_number_of(units: Seq<u16>) -> Option<int> {
    let s = units_before_nul(units).map_values(|u: u16| ascii_char_of(u));
    let body = if s.len() > 0 && s[0] == '+' {
        s.skip(1)
    } else {
        s
    };
    if body.len() == 0 || !all_digits(body) || digits_value(body) > u32::MAX {
        None
    } else {
        Some(digits_value(body))
    }
}

/// Whether the build number in the registry string `units` is at least
/// `min_build`; false when it is no number.
pub fn is_build_or_later(units: &[u16], min_build: u32) -> (res: bool)
    ensures
        res == (build_number_of(units@) matches Some(b) && b >= min_build),
{
    let mut len: usize = 0;
    let ghost full = units@;
    while len < units.len() && units[len] != 0
        invariant
            len <= units@.len(),
            forall|i: int| 0 <= i < len ==> units@[i] != 0,
        decreases units@.len() - len,
    {
        len += 1;
    }
    proof {
        lemma_units_before_nul(units@, len as int);
    }
    let start: usize = if len > 0 && units[0] == 0x2b {
        1
    } else {
        0
    };
    let ghost s = units@.take(len as int).map_values(|u: u16| ascii_char_of(u));
    proof {
        if len > 0 {
            assert(s[0] == ascii_char_of(units@[0]));
            if units@[0] == 0x2b {
                assert(ascii_char_of(units@[0]) == '+') by {
                    assert((0x2bu16 as u32) as char == '+');
                }
            } else {
                lemma_ascii_char_of_is_plus(units@[0]);
            }
        }
    }
    let ghost body = if s.len() > 0 && s[0] == '+' {
        s.skip(1)
    } else {
        s
    };
    assert(body =~= s.skip(start as int));
    if start == len {
        return false;
    }
    let mut acc: u64 = 0;
    let mut i = start;
    while i < len
        invariant
            start <= i <= len <= units@.len(),
            s == units@.take(len as int).map_values(|u: u16| ascii_char_of(u)),
            body == s.skip(start as int),
            body == (if s.len() > 0 && s[0] == '+' {
                s.skip(1)
            } else {
                s
            }),
            units_before_nul(units@) == units@.take(len as int),
            all_digits(body.take(i - start)),
            acc == digits_value(body.take(i - start)),
            acc <= u32::MAX,
        decreases len - i,
    {
        let u = units[i];
        assert(body[i - start] == ascii_char_of(u));
        if !(0x30 <= u && u <= 0x39) {
            proof {
                lemma_ascii_digit(u);
                assert(!all_digits(body));
            }
            return false;
        }
        proof {
            lemma_ascii_digit(u);
            assert(body.take(i + 1 - start).drop_last() =~= body.take(i - start));
            assert(all_digits(body.take(i + 1 - start))) by {
                assert forall|j: int| 0 <= j < body.take(i + 1 - start).len() implies is_digit(
                    #[trigger] body.take(i + 1 - start)[j],
                ) by {
                    if j < i - start {
                        assert(body.take(i + 1 - start)[j] == body.take(i - start)[j]);
                    }
                }
            }
        }
        let next = acc * 10 + (u - 0x30) as u64;
        if next > 0xffff_ffff {
            proof {
                if all_digits(body) {
                    crate::numbers::lemma_digits_value_prefix(body, i + 1 - start);
                }
            }
            return false;
        }
        acc = next;
        i += 1;
    }
    assert(body.take(len - start) =~= body);
    acc >= min_build as u64
}

proof fn lemma_ascii_char_of_is_plus(u: u16)
    requires
        u != 0x2b,
    ensures
        ascii_char_of(u) != '+',
{
    if u < 0x80 {
        assert((u as u32) as char != '+') by {
            assert(((u as u32) as char) as u32 == u as u32);
        }
    }
}

proof fn lemma_ascii_digit(u: u16)
    ensures
        is_digit(ascii_char_of(u)) <==> 0x30 <= u <= 0x39,
        0x30 <= u <= 0x39 ==> crate::numbers::digit_value(ascii_char_of(u)) == u - 0x30,
{
    if u < 0x80 {
        assert(((u as u32) as char) as u32 == u as u32);
    }
}

/// What a tray icon event asks for.
#[derive(Debug, Clone, Copy, PartialEq, Eq, Structural)]
pub enum TrayAction {
    /// Restore and focus the main window.
    ShowMainWindow,
    /// Show the tray menu.
    ShowContextMenu,
}

/// The tray action for a tray callback whose low word (`lparam & 0xffff`)
/// is the mouse or keyboard message: a double click shows the main window;
/// a right button release or a context menu request shows the menu.
pub fn tray_action(lparam: isize) -> (res: Option<TrayAction>)
    ensures
        res == (if lparam & 0xffff == 0x0203 {
            Some(TrayAction::ShowMainWindow)
        } else if lparam & 0xffff == 0x0205 || lparam & 0xffff == 0x007b {
            Some(TrayAction::ShowContextMenu)
        } else {
            None
        }),
{
    let low = lparam & 0xffff;
    if low == 0x0203 {
        Some(TrayAction::ShowMainWindow)
    } else if low == 0x0205 || low == 0x007b {
        Some(TrayAction::ShowContextMenu)
    } else {
        None
    }
}

} // verus!
