//! Rules of the Windows candidate window that do not touch GDI: where the
//! window goes relative to the caret, how wide its shadow is, which palette
//! it uses, the page footer and the text of the inline composition line.

use vstd::prelude::*;
use crate::text::{decimal, push_chars, push_char, string_of, usize_to_decimal};

verus! {

/// A rectangle in screen pixels.
#[derive(Clone, Copy, Debug, PartialEq, Eq, Structural)]
pub struct Rect {
    pub left: i32,
    pub top: i32,
    pub right: i32,
    pub bottom: i32,
}

/// Gap between the caret line and the window, in pixels.
pub const CARET_GAP: i32 = 2;

/// Shadow margin around the content, in logical pixels (scaled by DPI).
pub const SHADOW_MARGIN: i32 = 16;

pub open spec fn max_int(a: int, b: int) -> int {
    if a >= b {
        a
    } else {
        b
    }
}

pub open spec fn clamp_to(x: int, lo: int, hi: int) -> int {
    if x < lo {
        lo
    } else if x > hi {
        hi
    } else {
        x
    }
}

/// Top-left corner of the content: below the caret, else above it, else
/// pinned to the bottom of the work area; horizontally at the caret but kept
/// inside the work area.
pub open spec fn spec_place(anchor: Rect, work: Rect, width: int, height: int) -> (int, int) {
    let x = clamp_to(anchor.left as int, work.left as int, max_int(work.right - width, work.left as int));
    let below = anchor.bottom + CARET_GAP;
    let above = anchor.top - CARET_GAP - height;
    let y = if below + height <= work.bottom {
        below
    } else if above >= work.top {
        above
    } else {
        max_int(work.bottom - height, work.top as int)
    };
    (x, y)
}

/// Where the content of the window goes, given the caret rectangle, the work
/// area of the caret's monitor and the content size.
pub fn place(anchor: Rect, work: Rect, content: (i32, i32)) -> (position: (i32, i32))
    requires
        i32::MIN <= work.right - content.0 <= i32::MAX,
        anchor.bottom + CARET_GAP <= i32::MAX,
        i32::MIN <= anchor.bottom + CARET_GAP + content.1 <= i32::MAX,
        i32::MIN <= anchor.top - CARET_GAP,
        i32::MIN <= anchor.top - CARET_GAP - content.1 <= i32::MAX,
        anchor.bottom + CARET_GAP + content.1 > work.bottom && anchor.top - CARET_GAP
            - content.1 < work.top ==> i32::MIN <= work.bottom - content.1 <= i32::MAX,
    ensures
        (position.0 as int, position.1 as int) == spec_place(
            anchor,
            work,
            content.0 as int,
            content.1 as int,
        ),
{
    let right_limit = if work.right - content.0 > work.left {
        work.right - content.0
    } else {
        work.left
    };
    let x = if anchor.left < work.left {
        work.left
    } else if anchor.left > right_limit {
        right_limit
    } else {
        anchor.left
    };
    let below = anchor.bottom + CARET_GAP;
    let above = anchor.top - CARET_GAP - content.1;
    let y = if below + content.1 <= work.bottom {
        below
    } else if above >= work.top {
        above
    } else if work.bottom - content.1 > work.top {
        work.bottom - content.1
    } else {
        work.top
    };
    (x, y)
}

/// The shadow margin in pixels at `dpi` (96 is 100%), at least one pixel.
pub fn shadow_margin(dpi: u32) -> (margin: i32)
    requires
        SHADOW_MARGIN * dpi <= i32::MAX,
    ensures
        margin == max_int((SHADOW_MARGIN * dpi) / 96, 1),
{
    let scaled = (SHADOW_MARGIN * (dpi as i32)) / 96;
    if scaled > 1 {
        scaled
    } else {
        1
    }
}

/// Appearance setting of the window.
#[derive(Clone, Copy, Debug, PartialEq, Eq, Structural)]
pub enum ThemeMode {
    /// Follow the system's app theme.
    System,
    Light,
    Dark,
}

/// Whether the window is dark: fixed by the setting, or the system's choice.
pub fn resolve_dark(mode: ThemeMode, system_prefers_dark: bool) -> (dark: bool)
    ensures
        dark == (match mode {
            ThemeMode::Light => false,
            ThemeMode::Dark => true,
            ThemeMode::System => system_prefers_dark,
        }),
{
    match mode {
        ThemeMode::Light => false,
        ThemeMode::Dark => true,
        ThemeMode::System => system_prefers_dark,
    }
}

/// A GDI `COLORREF`: red in the low byte, then green, then blue.
pub open spec fn spec_rgb(r: u8, g: u8, b: u8) -> u32 {
    (r + g * 0x100 + b * 0x10000) as u32
}

pub fn rgb(r: u8, g: u8, b: u8) -> (color: u32)
    ensures
        color == spec_rgb(r, g, b),
{
    let color = (r as u32) | ((g as u32) << 8) | ((b as u32) << 16);
    assert(color == r + g * 0x100 + b * 0x10000) by (bit_vector)
        requires
            color == (r as u32) | ((g as u32) << 8) | ((b as u32) << 16),
    ;
    color
}

/// The colors of the window.
#[derive(Clone, Copy, Debug, PartialEq, Eq, Structural)]
pub struct Palette {
    pub text_color: u32,
    pub gloss_color: u32,
    pub pos_color: u32,
    pub fresh_color: u32,
    pub index_color: u32,
    pub cloud_color: u32,
    pub background: u32,
    pub highlight: u32,
}

impl Palette {
    /// Light palette (close to the macOS light semantic colors).
    pub open spec fn spec_light() -> Palette {
        Palette {
            text_color: spec_rgb(0x1d, 0x1d, 0x1f),
            gloss_color: spec_rgb(0x6b, 0x6b, 0x70),
            pos_color: spec_rgb(0xa0, 0xa0, 0xa6),
            fresh_color: spec_rgb(0xff, 0x95, 0x00),
            index_color: spec_rgb(0xa0, 0xa0, 0xa6),
            cloud_color: spec_rgb(0x30, 0xb0, 0xc7),
            background: spec_rgb(0xf8, 0xf8, 0xf8),
            highlight: spec_rgb(0xcf, 0xe4, 0xf9),
        }
    }

    /// Dark palette (close to the macOS dark semantic colors).
    pub open spec fn spec_dark() -> Palette {
        Palette {
            text_color: spec_rgb(0xf5, 0xf5, 0xf7),
            gloss_color: spec_rgb(0xae, 0xae, 0xb2),
            pos_color: spec_rgb(0x8e, 0x8e, 0x93),
            fresh_color: spec_rgb(0xff, 0x9f, 0x0a),
            index_color: spec_rgb(0x8e, 0x8e, 0x93),
            cloud_color: spec_rgb(0x40, 0xc8, 0xe0),
            background: spec_rgb(0x2a, 0x2a, 0x2c),
            highlight: spec_rgb(0x2f, 0x4d, 0x72),
        }
    }

    pub fn light() -> (palette: Palette)
        ensures
            palette == Palette::spec_light(),
    {
        Palette {
            text_color: rgb(0x1d, 0x1d, 0x1f),
            gloss_color: rgb(0x6b, 0x6b, 0x70),
            pos_color: rgb(0xa0, 0xa0, 0xa6),
            fresh_color: rgb(0xff, 0x95, 0x00),
            index_color: rgb(0xa0, 0xa0, 0xa6),
            cloud_color: rgb(0x30, 0xb0, 0xc7),
            background: rgb(0xf8, 0xf8, 0xf8),
            highlight: rgb(0xcf, 0xe4, 0xf9),
        }
    }

    pub fn dark() -> (palette: Palette)
        ensures
            palette == Palette::spec_dark(),
    {
        Palette {
            text_color: rgb(0xf5, 0xf5, 0xf7),
            gloss_color: rgb(0xae, 0xae, 0xb2),
            pos_color: rgb(0x8e, 0x8e, 0x93),
            fresh_color: rgb(0xff, 0x9f, 0x0a),
            index_color: rgb(0x8e, 0x8e, 0x93),
            cloud_color: rgb(0x40, 0xc8, 0xe0),
            background: rgb(0x2a, 0x2a, 0x2c),
            highlight: rgb(0x2f, 0x4d, 0x72),
        }
    }

    /// The palette of a dark or light window.
    pub fn for_dark(dark: bool) -> (palette: Palette)
        ensures
            palette == (if dark {
                Palette::spec_dark()
            } else {
                Palette::spec_light()
            }),
    {
        if dark {
            Palette::dark()
        } else {
            Palette::light()
        }
    }
}

/// `px` logical pixels at `dpi` (96 is 100%).
pub open spec fn scaled(px: int, dpi: int) -> int {
    (px * dpi) / 96
}

/// Spacing and font sizes of the window, in pixels at a given DPI.
#[derive(Clone, Copy, Debug, PartialEq, Eq, Structural)]
pub struct Metrics {
    /// Candidate text font height (negative: character height, GDI style).
    pub text_font_height: i32,
    /// Translation and part-of-speech font height.
    pub annotation_font_height: i32,
    /// Index number font height.
    pub index_font_height: i32,
    /// Inner padding of the window.
    pub padding: i32,
    /// Vertical padding inside a row.
    pub row_padding: i32,
    /// Gap between columns.
    pub column_gap: i32,
    /// Corner radius of the window.
    pub corner_radius: i32,
}

fn scale(px: i32, dpi: u32) -> (value: i32)
    requires
        0 <= px <= 16,
        16 * dpi <= i32::MAX,
    ensures
        value == scaled(px as int, dpi as int),
{
    assert(px * dpi <= 16 * dpi) by (nonlinear_arith)
        requires
            0 <= px <= 16,
    ;
    (px * (dpi as i32)) / 96
}

impl Metrics {
    /// The window's metrics at `dpi`: the macOS pixel sizes scaled by DPI.
    pub fn new(dpi: u32) -> (metrics: Metrics)
        requires
            16 * dpi <= i32::MAX,
        ensures
            metrics.text_font_height == -scaled(16, dpi as int),
            metrics.annotation_font_height == -scaled(12, dpi as int),
            metrics.index_font_height == -scaled(11, dpi as int),
            metrics.padding == scaled(8, dpi as int),
            metrics.row_padding == scaled(4, dpi as int),
            metrics.column_gap == scaled(8, dpi as int),
            metrics.corner_radius == scaled(8, dpi as int),
    {
        Metrics {
            text_font_height: -scale(16, dpi),
            annotation_font_height: -scale(12, dpi),
            index_font_height: -scale(11, dpi),
            padding: scale(8, dpi),
            row_padding: scale(4, dpi),
            column_gap: scale(8, dpi),
            corner_radius: scale(8, dpi),
        }
    }
}

/// `page / count` in the window's corner; only when there is more than one page.
pub fn page_footer(page: usize, page_count: usize) -> (footer: Option<String>)
    requires
        page < usize::MAX,
    ensures
        page_count <= 1 ==> footer is None,
        page_count > 1 ==> (footer matches Some(f) && f@ == decimal((page + 1) as nat) + seq![
            '/',
        ] + decimal(page_count as nat)),
{
    if page_count > 1 {
        let mut footer = string_of(&usize_to_decimal(page + 1));
        push_char(&mut footer, '/');
        push_chars(&mut footer, &usize_to_decimal(page_count));
        Some(footer)
    } else {
        None
    }
}

/// The window's position and size on screen.
#[derive(Clone, Copy, Debug, PartialEq, Eq, Structural)]
pub struct WindowFrame {
    pub x: i32,
    pub y: i32,
    pub width: i32,
    pub height: i32,
}

/// Where the window goes for `content` placed at the caret: the content as
/// `place` puts it, grown by the shadow `margin` on every side; `None`
/// (the window hides) when the content is empty.
pub fn window_frame(
    anchor: Rect,
    work: Rect,
    content: (i32, i32),
    margin: i32,
) -> (frame: Option<WindowFrame>)
    requires
        margin >= 0,
        content.0 > 0 && content.1 > 0 ==> {
            &&& i32::MIN <= work.right - content.0 <= i32::MAX
            &&& anchor.bottom + CARET_GAP <= i32::MAX
            &&& i32::MIN <= anchor.bottom + CARET_GAP + content.1 <= i32::MAX
            &&& i32::MIN <= anchor.top - CARET_GAP
            &&& i32::MIN <= anchor.top - CARET_GAP - content.1 <= i32::MAX
            &&& (anchor.bottom + CARET_GAP + content.1 > work.bottom && anchor.top - CARET_GAP
                - content.1 < work.top ==> i32::MIN <= work.bottom - content.1 <= i32::MAX)
            &&& i32::MIN <= spec_place(anchor, work, content.0 as int, content.1 as int).0 - margin
            &&& i32::MIN <= spec_place(anchor, work, content.0 as int, content.1 as int).1 - margin
            &&& content.0 + margin * 2 <= i32::MAX
            &&& content.1 + margin * 2 <= i32::MAX
        },
    ensures
        content.0 <= 0 || content.1 <= 0 ==> frame is None,
        content.0 > 0 && content.1 > 0 ==> frame == Some(
            WindowFrame {
                x: (spec_place(anchor, work, content.0 as int, content.1 as int).0 - margin) as i32,
                y: (spec_place(anchor, work, content.0 as int, content.1 as int).1 - margin) as i32,
                width: (content.0 + margin * 2) as i32,
                height: (content.1 + margin * 2) as i32,
            },
        ),
{
    if content.0 <= 0 || content.1 <= 0 {
        return None;
    }
    let (x, y) = place(anchor, work, content);
    Some(
        WindowFrame {
            x: x - margin,
            y: y - margin,
            width: content.0 + margin * 2,
            height: content.1 + margin * 2,
        },
    )
}

/// The DPI and shade a theme is rebuilt for, when either changed since the
/// last one: a window DPI of 0 (unknown) keeps the current DPI.
pub fn theme_refresh(
    window_dpi: u32,
    current_dpi: u32,
    dark: bool,
    current_dark: bool,
) -> (rebuild: Option<(u32, bool)>)
    ensures
        ({
            let dpi = if window_dpi == 0 {
                current_dpi
            } else {
                window_dpi
            };
            if dpi != current_dpi || dark != current_dark {
                rebuild == Some((dpi, dark))
            } else {
                rebuild is None
            }
        }),
{
    let dpi = if window_dpi == 0 {
        current_dpi
    } else {
        window_dpi
    };
    if dpi != current_dpi || dark != current_dark {
        Some((dpi, dark))
    } else {
        None
    }
}

/// The caret rectangle an application reported, unless it is empty in both
/// directions (some applications report all zeros when they cannot tell).
pub fn usable_caret(rect: Rect) -> (caret: Option<Rect>)
    ensures
        caret == (if rect.right <= rect.left && rect.bottom <= rect.top {
            None
        } else {
            Some(rect)
        }),
{
    if rect.right <= rect.left && rect.bottom <= rect.top {
        None
    } else {
        Some(rect)
    }
}

/// The fallback anchor when no caret is known: a zero-width rectangle about
/// one line high at the mouse pointer.
pub fn mouse_anchor(x: i32, y: i32) -> (anchor: Rect)
    requires
        y + 16 <= i32::MAX,
    ensures
        anchor == (Rect { left: x, top: y, right: x, bottom: (y + 16) as i32 }),
{
    Rect { left: x, top: y, right: x, bottom: y + 16 }
}

/// The coordinates [`window_frame`] computes fit in `i32` (checked before
/// calling it).
pub fn window_frame_fits(anchor: Rect, work: Rect, content: (i32, i32), margin: i32) -> (fits: bool)
    ensures
        fits == (margin >= 0 && (content.0 > 0 && content.1 > 0 ==> {
            &&& i32::MIN <= work.right - content.0 <= i32::MAX
            &&& anchor.bottom + CARET_GAP <= i32::MAX
            &&& i32::MIN <= anchor.bottom + CARET_GAP + content.1 <= i32::MAX
            &&& i32::MIN <= anchor.top - CARET_GAP
            &&& i32::MIN <= anchor.top - CARET_GAP - content.1 <= i32::MAX
            &&& (anchor.bottom + CARET_GAP + content.1 > work.bottom && anchor.top - CARET_GAP
                - content.1 < work.top ==> i32::MIN <= work.bottom - content.1 <= i32::MAX)
            &&& i32::MIN <= spec_place(anchor, work, content.0 as int, content.1 as int).0 - margin
            &&& i32::MIN <= spec_place(anchor, work, content.0 as int, content.1 as int).1 - margin
            &&& content.0 + margin * 2 <= i32::MAX
            &&& content.1 + margin * 2 <= i32::MAX
        })),
{
    if margin < 0 {
        return false;
    }
    if content.0 <= 0 || content.1 <= 0 {
        return true;
    }
    let min = i32::MIN as i64;
    let max = i32::MAX as i64;
    let gap = CARET_GAP as i64;
    let (cw, ch) = (content.0 as i64, content.1 as i64);
    let m = margin as i64;
    let right_limit = work.right as i64 - cw;
    if right_limit < min || right_limit > max {
        return false;
    }
    let below = anchor.bottom as i64 + gap;
    let above = anchor.top as i64 - gap - ch;
    if below > max || below + ch < min || below + ch > max || (anchor.top as i64) - gap < min
        || above < min || above > max {
        return false;
    }
    let pinned = work.bottom as i64 - ch;
    if below + ch > work.bottom as i64 && above < work.top as i64 && (pinned < min || pinned > max) {
        return false;
    }
    let limit = if right_limit > work.left as i64 {
        right_limit
    } else {
        work.left as i64
    };
    let x = if (anchor.left as i64) < (work.left as i64) {
        work.left as i64
    } else if anchor.left as i64 > limit {
        limit
    } else {
        anchor.left as i64
    };
    let y = if below + ch <= work.bottom as i64 {
        below
    } else if above >= work.top as i64 {
        above
    } else if pinned > work.top as i64 {
        pinned
    } else {
        work.top as i64
    };
    x - m >= min && y - m >= min && cw + m * 2 <= max && ch + m * 2 <= max
}

/// The content stays inside the work area: when it fits there and the caret
/// line is not outside the work area's height, the placed content lies
/// entirely within the work area.
pub proof fn lemma_place_inside_work_area(anchor: Rect, work: Rect, width: int, height: int)
    requires
        0 <= width <= work.right - work.left,
        0 <= height <= work.bottom - work.top,
        anchor.bottom + CARET_GAP >= work.top,
        anchor.top - CARET_GAP <= work.bottom,
    ensures
        work.left <= spec_place(anchor, work, width, height).0,
        spec_place(anchor, work, width, height).0 + width <= work.right,
        work.top <= spec_place(anchor, work, width, height).1,
        spec_place(anchor, work, width, height).1 + height <= work.bottom,
{
}

} // verus!
