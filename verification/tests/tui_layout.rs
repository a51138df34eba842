use astrcode::tui_layout::{composer_cursor, composer_width, panel_top, scrollback_start, term_color, Color, TermColor, footer_text, palette_placement, panel_rows, PalettePlacement, PanelRows, Rect};

#[test]
fn panel_rows_keep_footer_and_one_buffer_row() {
    assert_eq!(panel_rows(10), PanelRows { buffer: 1, composer: 8, footer: 1 });
    assert_eq!(panel_rows(2), PanelRows { buffer: 0, composer: 1, footer: 1 });
    assert_eq!(panel_rows(1), PanelRows { buffer: 0, composer: 0, footer: 1 });
    assert_eq!(panel_rows(0), PanelRows { buffer: 0, composer: 0, footer: 1 });
}

#[test]
fn footer_shows_placeholders_before_session_starts() {
    assert_eq!(
        footer_text("", "", None, false),
        "  model: pending · cwd pending · session none   Enter send · Shift+Enter newline · /help"
    );
}

#[test]
fn footer_shortens_path_and_session() {
    assert_eq!(
        footer_text("mini", "/home/user/projects/astrcode/src", Some("0123456789abc"), true),
        "  mini · /.../astrcode/src · session 01234567   Esc stop"
    );
}

#[test]
fn palette_centers_over_wide_area() {
    let area = Rect { x: 0, y: 0, width: 80, height: 10 };
    assert_eq!(
        palette_placement(area, 5, 7),
        Some(PalettePlacement {
            visible: 5,
            start: 0,
            selected: 4,
            popup: Rect { x: 12, y: 0, width: 56, height: 7 },
        })
    );
}

#[test]
fn palette_scrolls_to_keep_selection_visible() {
    let area = Rect { x: 0, y: 5, width: 30, height: 6 };
    assert_eq!(
        palette_placement(area, 10, 8),
        Some(PalettePlacement {
            visible: 3,
            start: 6,
            selected: 8,
            popup: Rect { x: 3, y: 5, width: 24, height: 5 },
        })
    );
}

#[test]
fn palette_in_a_single_row() {
    let area = Rect { x: 2, y: 1, width: 10, height: 1 };
    assert_eq!(
        palette_placement(area, 3, 0),
        Some(PalettePlacement {
            visible: 1,
            start: 0,
            selected: 0,
            popup: Rect { x: 2, y: 1, width: 10, height: 1 },
        })
    );
    assert_eq!(palette_placement(area, 0, 0), None);
}

#[test]
fn composer_width_keeps_one_column() {
    assert_eq!(composer_width(80), 76);
    assert_eq!(composer_width(5), 1);
    assert_eq!(composer_width(0), 1);
}

#[test]
fn scrollback_lines_sit_above_the_panel() {
    assert_eq!(panel_top(24), 20);
    assert_eq!(panel_top(3), 0);
    assert_eq!(scrollback_start(24, 5), 15);
    assert_eq!(scrollback_start(24, 30), 0);
}

#[test]
fn light_colors_become_dark_terminal_colors() {
    assert_eq!(term_color(Color::Gray), TermColor::Grey);
    assert_eq!(term_color(Color::DarkGray), TermColor::DarkGrey);
    assert_eq!(term_color(Color::LightRed), TermColor::DarkRed);
    assert_eq!(term_color(Color::LightCyan), TermColor::DarkCyan);
    assert_eq!(term_color(Color::White), TermColor::White);
    assert_eq!(term_color(Color::Rgb(1, 2, 3)), TermColor::Rgb { r: 1, g: 2, b: 3 });
    assert_eq!(term_color(Color::Indexed(42)), TermColor::AnsiValue(42));
}

#[test]
fn composer_cursor_stays_inside_the_composer() {
    let area = Rect { x: 0, y: 10, width: 20, height: 3 };
    assert_eq!(composer_cursor(area, 5, 1), (5, 11));
    assert_eq!(composer_cursor(area, 40, 7), (19, 12));
    assert_eq!(composer_cursor(Rect { x: 4, y: 2, width: 0, height: 0 }, 3, 3), (4, 2));
}
