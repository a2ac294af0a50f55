use qingjian_shell::window::{
    mouse_anchor, page_footer, place, resolve_dark, rgb, shadow_margin, theme_refresh,
    usable_caret, window_frame, window_frame_fits, Metrics, Palette, Rect, ThemeMode, WindowFrame,
};

const WORK: Rect = Rect {
    left: 0,
    top: 0,
    right: 1920,
    bottom: 1080,
};

fn caret(x: i32, y: i32) -> Rect {
    Rect {
        left: x,
        top: y,
        right: x + 2,
        bottom: y + 20,
    }
}

#[test]
fn the_window_goes_below_the_caret_when_it_fits() {
    assert_eq!(place(caret(100, 200), WORK, (300, 100)), (100, 222));
}

#[test]
fn the_window_goes_above_the_caret_near_the_bottom() {
    assert_eq!(place(caret(100, 1000), WORK, (300, 100)), (100, 898));
}

#[test]
fn the_window_is_pinned_when_it_fits_neither_way() {
    assert_eq!(place(caret(100, 50), WORK, (300, 1070)), (100, 10));
    assert_eq!(place(caret(100, 50), WORK, (300, 2000)), (100, 0));
}

#[test]
fn the_window_stays_inside_the_work_area_horizontally() {
    assert_eq!(place(caret(1800, 200), WORK, (300, 100)).0, 1620);
    assert_eq!(place(caret(-50, 200), WORK, (300, 100)).0, 0);
    // wider than the work area: the left edge wins
    assert_eq!(place(caret(500, 200), WORK, (3000, 100)).0, 0);
}

#[test]
fn shadow_margin_scales_with_dpi() {
    assert_eq!(shadow_margin(96), 16);
    assert_eq!(shadow_margin(144), 24);
    assert_eq!(shadow_margin(192), 32);
    assert_eq!(shadow_margin(1), 1);
    assert_eq!(shadow_margin(0), 1);
}

#[test]
fn dark_mode_follows_the_setting_or_the_system() {
    assert!(!resolve_dark(ThemeMode::Light, true));
    assert!(resolve_dark(ThemeMode::Dark, false));
    assert!(resolve_dark(ThemeMode::System, true));
    assert!(!resolve_dark(ThemeMode::System, false));
}

#[test]
fn colors_pack_red_in_the_low_byte() {
    assert_eq!(rgb(0x12, 0x34, 0x56), 0x0056_3412);
    assert_eq!(rgb(0xff, 0, 0), 0xff);
    assert_eq!(rgb(0, 0, 0xff), 0x00ff_0000);
    let light = Palette::light();
    assert_eq!(light.text_color, 0x001f_1d1d);
    assert_eq!(light.highlight, 0x00f9_e4cf);
    let dark = Palette::for_dark(true);
    assert_eq!(dark.background, 0x002c_2a2a);
    assert_eq!(Palette::for_dark(false), light);
}

#[test]
fn metrics_scale_with_dpi() {
    let m = Metrics::new(96);
    assert_eq!((m.padding, m.row_padding, m.column_gap, m.corner_radius), (8, 4, 8, 8));
    assert_eq!((m.text_font_height, m.annotation_font_height, m.index_font_height), (-16, -12, -11));
    let m = Metrics::new(144);
    assert_eq!((m.padding, m.row_padding), (12, 6));
    assert_eq!(m.index_font_height, -16);
}

#[test]
fn the_footer_shows_only_with_several_pages() {
    assert_eq!(page_footer(0, 1), None);
    assert_eq!(page_footer(0, 0), None);
    assert_eq!(page_footer(0, 2).as_deref(), Some("1/2"));
    assert_eq!(page_footer(11, 12).as_deref(), Some("12/12"));
}

#[test]
fn the_window_frame_adds_the_shadow_margin() {
    assert_eq!(
        window_frame(caret(100, 200), WORK, (300, 100), 16),
        Some(WindowFrame { x: 84, y: 206, width: 332, height: 132 })
    );
    assert_eq!(window_frame(caret(100, 200), WORK, (0, 100), 16), None);
    assert_eq!(window_frame(caret(100, 200), WORK, (300, -1), 16), None);
}

#[test]
fn the_theme_is_rebuilt_only_on_change() {
    assert_eq!(theme_refresh(96, 96, false, false), None);
    assert_eq!(theme_refresh(0, 96, false, false), None);
    assert_eq!(theme_refresh(144, 96, false, false), Some((144, false)));
    assert_eq!(theme_refresh(0, 96, true, false), Some((96, true)));
}

#[test]
fn empty_caret_rectangles_are_not_used() {
    assert_eq!(usable_caret(Rect { left: 0, top: 0, right: 0, bottom: 0 }), None);
    assert_eq!(usable_caret(caret(10, 20)), Some(caret(10, 20)));
    // zero width but a line high: still a caret
    let line = Rect { left: 5, top: 5, right: 5, bottom: 21 };
    assert_eq!(usable_caret(line), Some(line));
    assert_eq!(mouse_anchor(30, 40), Rect { left: 30, top: 40, right: 30, bottom: 56 });
}

#[test]
fn window_frames_are_checked_for_overflow() {
    assert!(window_frame_fits(caret(100, 200), WORK, (300, 100), 16));
    assert!(window_frame_fits(caret(100, 200), WORK, (0, 0), 16));
    assert!(!window_frame_fits(caret(100, 200), WORK, (300, 100), -1));
    let low = Rect { left: 100, top: i32::MAX - 30, right: 102, bottom: i32::MAX - 10 };
    assert!(!window_frame_fits(low, WORK, (300, 100), 16));
    assert!(!window_frame_fits(caret(100, 200), WORK, (i32::MAX - 8, 100), 16));
}
