//! Language, theme and window.

use vstd::prelude::*;

use crate::controllers::settings::Settings;
use crate::pieces::{has_prefix, starts_with};
use crate::text::{ascii_lowercase, chars_of, same_text, to_ascii_lower};

verus! {

/// A language tag or a locale names Polish.
pub open spec fn is_polish(tag: Seq<char>) -> bool {
    has_prefix(ascii_lowercase(tag), "pl"@)
}

fn names_polish(tag: &str) -> (r: bool)
    ensures
        r == is_polish(tag@),
{
    let chars: Vec<char> = chars_of(tag);
    let lower: Vec<char> = to_ascii_lower(&chars);
    let prefix: Vec<char> = chars_of("pl");
    starts_with(&lower, &prefix)
}

/// Whether the system is used in Polish. The first preferred language decides where the system names
/// one; else any of the locales of the environment does.
#[verifier::loop_isolation(false)]
pub fn system_prefers_polish(language: Option<&str>, locales: &Vec<String>) -> (r: bool)
    ensures
        r == (match language {
            Some(tag) => is_polish(tag@),
            None => exists|i: int| 0 <= i < locales@.len() && is_polish((#[trigger] locales@[i])@),
        }),
{
    match language {
        Some(tag) => names_polish(tag),
        None => {
            let mut i: usize = 0;
            while i < locales.len()
                invariant
                    i <= locales@.len(),
                    forall|j: int| 0 <= j < i ==> !is_polish((#[trigger] locales@[j])@),
                decreases locales@.len() - i,
            {
                if names_polish(locales[i].as_str()) {
                    assert(is_polish(locales@[i as int]@));
                    return true;
                }
                i += 1;
            }
            false
        },
    }
}

pub open spec fn locale_of(preference: Seq<char>, polish: bool) -> Seq<char> {
    if preference == "pl"@ {
        "pl"@
    } else if preference == "en"@ {
        "en"@
    } else if polish {
        "pl"@
    } else {
        "en"@
    }
}

/// The language that is shown; `polish` is whether the system is used in Polish.
pub fn effective_locale(preference: &str, polish: bool) -> (r: &'static str)
    ensures
        r@ == locale_of(preference@, polish),
{
    if same_text(preference, "pl") {
        "pl"
    } else if same_text(preference, "en") {
        "en"
    } else if polish {
        "pl"
    } else {
        "en"
    }
}

/// The translation that the language needs; English needs none.
pub fn translation(preference: &str, polish: bool) -> (r: &'static str)
    ensures
        r@ == if locale_of(preference@, polish) == "en"@ {
            ""@
        } else {
            "pl"@
        },
{
    proof {
        reveal_strlit("en");
        reveal_strlit("pl");
        assert("pl"@[0] != "en"@[0]);
    }
    let locale: &str = effective_locale(preference, polish);
    if same_text(locale, "en") {
        ""
    } else {
        "pl"
    }
}

/// The theme that is shown; `dark` is what the system says of the window, if it says anything.
pub fn effective_theme(preference: &str, dark: Option<bool>) -> (r: &'static str)
    ensures
        r@ == if preference@ == "dark"@ {
            "dark"@
        } else if preference@ == "light"@ {
            "light"@
        } else if dark == Some(true) {
            "dark"@
        } else {
            "light"@
        },
{
    if same_text(preference, "dark") {
        "dark"
    } else if same_text(preference, "light") {
        "light"
    } else if dark == Some(true) {
        "dark"
    } else {
        "light"
    }
}

/// A screen: where it begins and how large it is.
#[derive(Debug, Clone, Copy, PartialEq, Eq, Structural)]
pub struct Monitor {
    pub x: i32,
    pub y: i32,
    pub width: u32,
    pub height: u32,
}

/// The end of a stretch, as far as a coordinate can say it.
pub open spec fn end_of(start: i32, len: u32) -> int {
    let capped = if len > i32::MAX {
        i32::MAX as int
    } else {
        len as int
    };
    if start + capped > i32::MAX {
        i32::MAX as int
    } else {
        start + capped
    }
}

pub open spec fn smaller(a: int, b: int) -> int {
    if a < b {
        a
    } else {
        b
    }
}

pub open spec fn larger(a: int, b: int) -> int {
    if a < b {
        b
    } else {
        a
    }
}

/// Enough of the window lies on the screen to get hold of it.
pub open spec fn visible_on(monitor: Monitor, x: i32, y: i32, width: u32, height: u32) -> bool {
    &&& smaller(end_of(x, width), end_of(monitor.x, monitor.width)) - larger(
        x as int,
        monitor.x as int,
    ) >= 200
    &&& smaller(end_of(y, height), end_of(monitor.y, monitor.height)) - larger(
        y as int,
        monitor.y as int,
    ) >= 80
}

pub open spec fn visible_on_any(
    monitors: Seq<Monitor>,
    x: i32,
    y: i32,
    width: u32,
    height: u32,
) -> bool {
    exists|i: int|
        0 <= i < monitors.len() && visible_on(#[trigger] monitors[i], x, y, width, height)
}

fn stretch_end(start: i32, len: u32) -> (r: i64)
    ensures
        r == end_of(start, len),
{
    let capped: i64 = if len > 0x7fff_ffff {
        0x7fff_ffff
    } else {
        len as i64
    };
    let end: i64 = start as i64 + capped;
    if end > 0x7fff_ffff {
        0x7fff_ffff
    } else {
        end
    }
}

fn overlap(start: i32, len: u32, other_start: i32, other_len: u32) -> (r: i64)
    ensures
        r == smaller(end_of(start, len), end_of(other_start, other_len)) - larger(
            start as int,
            other_start as int,
        ),
{
    let a: i64 = stretch_end(start, len);
    let b: i64 = stretch_end(other_start, other_len);
    let end: i64 = if a < b {
        a
    } else {
        b
    };
    let begin: i64 = if start < other_start {
        other_start as i64
    } else {
        start as i64
    };
    end - begin
}

fn is_visible(monitors: &Vec<Monitor>, x: i32, y: i32, width: u32, height: u32) -> (r: bool)
    ensures
        r == visible_on_any(monitors@, x, y, width, height),
{
    let mut i: usize = 0;
    while i < monitors.len()
        invariant
            i <= monitors@.len(),
            forall|j: int|
                0 <= j < i ==> !visible_on(#[trigger] monitors@[j], x, y, width, height),
        decreases monitors@.len() - i,
    {
        let m: Monitor = monitors[i];
        if overlap(x, width, m.x, m.width) >= 200 && overlap(y, height, m.y, m.height) >= 80 {
            assert(visible_on(monitors@[i as int], x, y, width, height));
            return true;
        }
        i += 1;
    }
    false
}

/// Where the window goes when the program starts.
#[derive(Debug, Clone, Copy, PartialEq, Eq)]
pub struct Geometry {
    pub size: Option<(u32, u32)>,
    pub position: Option<(i32, i32)>,
}

/// The size that was saved, and the position too where a screen still shows the window there.
pub fn restore_window_geometry(settings: &Settings, monitors: &Vec<Monitor>) -> (r: Geometry)
    ensures
        r.size == if settings.restore_workspace {
            Some((settings.window_width_px, settings.window_height_px))
        } else {
            None
        },
        r.position == (match (settings.window_x_px, settings.window_y_px) {
            (Some(x), Some(y)) => if settings.restore_workspace && visible_on_any(
                monitors@,
                x,
                y,
                settings.window_width_px,
                settings.window_height_px,
            ) {
                Some((x, y))
            } else {
                None
            },
            _ => None,
        }),
{
    if !settings.restore_workspace {
        return Geometry { size: None, position: None };
    }
    let size: Option<(u32, u32)> = Some((settings.window_width_px, settings.window_height_px));
    match (settings.window_x_px, settings.window_y_px) {
        (Some(x), Some(y)) => {
            if is_visible(
                monitors,
                x,
                y,
                settings.window_width_px,
                settings.window_height_px,
            ) {
                Geometry { size, position: Some((x, y)) }
            } else {
                Geometry { size, position: None }
            }
        },
        _ => Geometry { size, position: None },
    }
}

/// A window is never put where no screen shows it.
pub proof fn restored_windows_are_visible(monitors: Seq<Monitor>, x: i32, y: i32, width: u32, height: u32)
    requires
        visible_on_any(monitors, x, y, width, height),
    ensures
        exists|i: int|
            0 <= i < monitors.len() && {
                let m = #[trigger] monitors[i];
                &&& x < end_of(m.x, m.width) && m.x < end_of(x, width)
                &&& y < end_of(m.y, m.height) && m.y < end_of(y, height)
            },
{
    let i = choose|i: int|
        0 <= i < monitors.len() && visible_on(#[trigger] monitors[i], x, y, width, height);
    let m = monitors[i];
    assert(visible_on(m, x, y, width, height));
}

} // verus!
