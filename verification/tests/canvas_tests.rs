use metro_display::backend::Recorder;
use metro_display::canvas::{BufferId, Canvas};
use metro_display::color::Color;
use metro_display::config::{HardwareMapping, PanelConfig};
use metro_display::font::{Font, Glyph, Metrics};
use metro_display::panel::Panel;

fn small_config(rows: i32, chain_length: i32) -> PanelConfig {
    PanelConfig {
        hardware_mapping: HardwareMapping::AdafruitHat,
        rows,
        chain_length,
        pwm_bits: 3,
        pwm_lsb_nanoseconds: 300,
        gpio_slowdown: 2,
    }
}

fn canvas_of(rows: i32, chain_length: i32) -> Canvas {
    let mut panel = Panel::new(small_config(rows, chain_length), Recorder::new()).unwrap();
    panel.offscreen_canvas().unwrap()
}

fn rgb(red: u8, green: u8, blue: u8) -> Color {
    Color { red, green, blue }
}

fn black() -> Color {
    rgb(0, 0, 0)
}

fn blue() -> Color {
    rgb(0, 0, 255)
}

fn count_pixels(canvas: &Canvas, color: Color) -> usize {
    let mut count = 0;
    for y in 0..canvas.height() {
        for x in 0..canvas.width() {
            if canvas.pixel(x, y) == Some(color) {
                count += 1;
            }
        }
    }
    count
}

fn lit(canvas: &Canvas, color: Color) -> Vec<(i32, i32)> {
    let mut found = Vec::new();
    for y in 0..canvas.height() {
        for x in 0..canvas.width() {
            if canvas.pixel(x, y) == Some(color) {
                found.push((x, y));
            }
        }
    }
    found
}

fn test_font() -> Font {
    let text = "FONTBOUNDINGBOX 6 10 0 -2\n\
STARTCHAR E\nENCODING 69\nDWIDTH 6 0\nBBX 6 10 0 -2\nBITMAP\n\
00\nF8\n80\n80\nF0\n80\n80\nF8\n00\n00\nENDCHAR\n\
STARTCHAR S\nENCODING 83\nDWIDTH 6 0\nBBX 6 10 0 -2\nBITMAP\n\
00\n70\n88\n80\n70\n08\n88\n70\n00\n00\nENDCHAR\n\
STARTCHAR T\nENCODING 84\nDWIDTH 6 0\nBBX 6 10 0 -2\nBITMAP\n\
00\nF8\n20\n20\n20\n20\n20\n20\n00\n00\nENDCHAR\n\
STARTCHAR dot\nENCODING 46\nDWIDTH 2 0\nBBX 1 1 0 0\nBITMAP\n80\nENDCHAR\n";
    Font::parse(text.as_bytes()).unwrap()
}

fn letter_t() -> Vec<(i32, i32)> {
    let mut cells = vec![(0, 1), (1, 1), (2, 1), (3, 1), (4, 1)];
    for y in 2..8 {
        cells.push((2, y));
    }
    cells
}

fn shifted(cells: &[(i32, i32)], dx: i32, dy: i32) -> Vec<(i32, i32)> {
    let mut moved: Vec<(i32, i32)> = cells.iter().map(|c| (c.0 + dx, c.1 + dy)).collect();
    moved.sort_by_key(|c| (c.1, c.0));
    moved
}

#[test]
fn canvas_starts_black_with_black_background() {
    let canvas = canvas_of(8, 2);
    assert_eq!(canvas.width(), 16);
    assert_eq!(canvas.height(), 8);
    assert_eq!(canvas.background(), black());
    assert_eq!(canvas.id(), BufferId::A);
    assert_eq!(count_pixels(&canvas, black()), 128);
}

#[test]
fn canvas_clear_sets_every_pixel_to_background() {
    let mut canvas = canvas_of(8, 2);
    for y in 0..8 {
        for x in 0..16 {
            canvas.set_pixel(x, y, rgb((x * 16) as u8, (y * 32) as u8, 7));
        }
    }
    assert_eq!(count_pixels(&canvas, black()), 0);
    canvas.clear();
    assert_eq!(count_pixels(&canvas, black()), 128);
}

#[test]
fn canvas_clear_uses_configured_background() {
    let mut canvas = canvas_of(8, 2);
    canvas.set_pixel(3, 3, blue());
    canvas.set_background(rgb(10, 20, 30));
    assert_eq!(canvas.background(), rgb(10, 20, 30));
    assert_eq!(count_pixels(&canvas, black()), 127);
    assert_eq!(canvas.pixel(3, 3), Some(blue()));
    canvas.clear();
    assert_eq!(count_pixels(&canvas, rgb(10, 20, 30)), 128);
}

#[test]
fn canvas_set_pixel_then_read() {
    let mut canvas = canvas_of(8, 2);
    for (x, y) in [(0, 0), (15, 0), (0, 7), (15, 7), (5, 3)] {
        let color = rgb(x as u8 + 1, y as u8 + 1, 200);
        canvas.set_pixel(x, y, color);
        assert_eq!(canvas.pixel(x, y), Some(color));
    }
    assert_eq!(count_pixels(&canvas, black()), 123);
}

#[test]
fn canvas_set_pixel_overwrites() {
    let mut canvas = canvas_of(8, 2);
    canvas.set_pixel(4, 4, blue());
    canvas.set_pixel(4, 4, rgb(1, 2, 3));
    assert_eq!(canvas.pixel(4, 4), Some(rgb(1, 2, 3)));
    assert_eq!(lit(&canvas, rgb(1, 2, 3)), vec![(4, 4)]);
}

#[test]
fn canvas_set_pixel_out_of_bounds_changes_nothing() {
    let mut canvas = canvas_of(8, 2);
    for (x, y) in [
        (-1, 0),
        (0, -1),
        (16, 0),
        (0, 8),
        (16, 8),
        (-1, -1),
        (i32::MAX, 0),
        (0, i32::MAX),
        (i32::MIN, i32::MIN),
        (i32::MAX, i32::MAX),
        (15, 8),
        (16, 7),
    ] {
        canvas.set_pixel(x, y, blue());
    }
    assert_eq!(count_pixels(&canvas, black()), 128);
}

#[test]
fn canvas_pixel_outside_is_none() {
    let canvas = canvas_of(8, 2);
    assert_eq!(canvas.pixel(-1, 0), None);
    assert_eq!(canvas.pixel(0, -1), None);
    assert_eq!(canvas.pixel(16, 0), None);
    assert_eq!(canvas.pixel(0, 8), None);
    assert_eq!(canvas.pixel(i32::MIN, i32::MAX), None);
    assert_eq!(canvas.pixel(15, 7), Some(black()));
}

#[test]
fn canvas_rows_do_not_wrap() {
    let mut canvas = canvas_of(8, 2);
    canvas.set_pixel(15, 2, blue());
    assert_eq!(canvas.pixel(0, 3), Some(black()));
    assert_eq!(canvas.pixel(15, 2), Some(blue()));
    assert_eq!(lit(&canvas, blue()), vec![(15, 2)]);
}

#[test]
fn draw_glyph_covers_exactly_its_pixels() {
    let mut canvas = canvas_of(16, 1);
    let font = test_font();
    canvas.draw_glyph(font.glyph_for('T').unwrap(), 3, 10, blue());
    assert_eq!(lit(&canvas, blue()), shifted(&letter_t(), 3, 2));
}

#[test]
fn draw_glyph_with_offsets() {
    let mut canvas = canvas_of(8, 1);
    let glyph = Glyph::new(
        Metrics { code: 65, advance: 3, left: 1, top: -2, width: 2, height: 2 },
        vec![true, false, false, true],
    )
    .unwrap();
    canvas.draw_glyph(&glyph, 4, 4, blue());
    assert_eq!(lit(&canvas, blue()), vec![(5, 2), (6, 3)]);
}

#[test]
fn draw_glyph_clips_at_every_edge() {
    let font = test_font();
    let glyph = font.glyph_for('T').unwrap();
    let mut canvas = canvas_of(8, 1);
    canvas.draw_glyph(glyph, -2, 8, blue());
    assert_eq!(
        lit(&canvas, blue()),
        vec![(0, 1), (1, 1), (2, 1), (0, 2), (0, 3), (0, 4), (0, 5), (0, 6), (0, 7)]
    );
    let mut canvas = canvas_of(8, 1);
    canvas.draw_glyph(glyph, 6, 12, blue());
    assert_eq!(lit(&canvas, blue()), vec![(6, 5), (7, 5)]);
    let mut canvas = canvas_of(8, 1);
    canvas.draw_glyph(glyph, i32::MAX, i32::MAX, blue());
    canvas.draw_glyph(glyph, i32::MIN, i32::MIN, blue());
    canvas.draw_glyph(glyph, 8, 8, blue());
    canvas.draw_glyph(glyph, 0, 18, blue());
    assert_eq!(count_pixels(&canvas, black()), 64);
}

#[test]
fn draw_text_empty_is_noop() {
    let mut canvas = canvas_of(16, 2);
    canvas.set_pixel(1, 1, rgb(9, 9, 9));
    let font = test_font();
    assert_eq!(canvas.draw_text(&font, "", 5, 7, blue(), 0, false), 5);
    assert_eq!(canvas.draw_text(&font, "", -40, 7, blue(), 3, true), -40);
    assert_eq!(count_pixels(&canvas, black()), 16 * 32 - 1);
    assert_eq!(canvas.pixel(1, 1), Some(rgb(9, 9, 9)));
}

#[test]
fn draw_text_single_letter() {
    let mut canvas = canvas_of(16, 2);
    let font = test_font();
    assert_eq!(canvas.draw_text(&font, "T", 0, 8, blue(), 0, false), 6);
    assert_eq!(lit(&canvas, blue()), shifted(&letter_t(), 0, 0));
}

#[test]
fn draw_text_advances_by_width_and_spacing() {
    let mut canvas = canvas_of(16, 4);
    let font = test_font();
    assert_eq!(canvas.draw_text(&font, "TT", 1, 8, blue(), 2, false), 17);
    let mut expected = shifted(&letter_t(), 1, 0);
    expected.extend(shifted(&letter_t(), 9, 0));
    expected.sort_by_key(|c| (c.1, c.0));
    assert_eq!(lit(&canvas, blue()), expected);
}

#[test]
fn draw_text_returns_final_pen_position() {
    let mut canvas = canvas_of(16, 4);
    let font = test_font();
    assert_eq!(canvas.draw_text(&font, "TEST", 0, 8, blue(), 0, false), 24);
    assert_eq!(canvas.draw_text(&font, "TEST", 0, 8, blue(), 2, false), 32);
    assert_eq!(canvas.draw_text(&font, "TEST", 10, 8, blue(), -1, false), 30);
    assert_eq!(canvas.draw_text(&font, "T.T", 0, 8, blue(), 0, false), 14);
}

#[test]
fn draw_text_unmapped_character_is_skipped_with_fallback_advance() {
    let mut canvas = canvas_of(16, 4);
    let font = test_font();
    assert_eq!(canvas.draw_text(&font, "?", 0, 8, blue(), 0, false), 6);
    assert_eq!(count_pixels(&canvas, blue()), 0);
    assert_eq!(canvas.draw_text(&font, "T?T", 0, 8, blue(), 1, false), 21);
    let mut expected = shifted(&letter_t(), 0, 0);
    expected.extend(shifted(&letter_t(), 14, 0));
    expected.sort_by_key(|c| (c.1, c.0));
    assert_eq!(lit(&canvas, blue()), expected);
}

#[test]
fn draw_text_non_ascii_characters_count_once() {
    let mut canvas = canvas_of(16, 4);
    let font = test_font();
    assert_eq!(canvas.draw_text(&font, "\u{e9}\u{20ac}T", 0, 8, blue(), 0, false), 18);
    assert_eq!(lit(&canvas, blue()), shifted(&letter_t(), 12, 0));
}

#[test]
fn draw_text_kerning_flag_changes_nothing() {
    let font = test_font();
    let mut plain = canvas_of(16, 4);
    let mut kerned = canvas_of(16, 4);
    let a = plain.draw_text(&font, "TEST", 3, 9, blue(), 1, false);
    let b = kerned.draw_text(&font, "TEST", 3, 9, blue(), 1, true);
    assert_eq!(a, b);
    assert_eq!(lit(&plain, blue()), lit(&kerned, blue()));
    assert!(count_pixels(&plain, blue()) > 0);
}

#[test]
fn draw_text_beyond_right_edge_draws_nothing() {
    let mut canvas = canvas_of(16, 2);
    let font = test_font();
    assert_eq!(canvas.draw_text(&font, "TEST", 32, 8, blue(), 0, false), 56);
    assert_eq!(canvas.draw_text(&font, "TEST", 1000, 8, blue(), 2, false), 1032);
    assert_eq!(count_pixels(&canvas, black()), 16 * 32);
}

#[test]
fn draw_text_clips_at_right_edge() {
    let mut canvas = canvas_of(16, 1);
    let font = test_font();
    assert_eq!(canvas.draw_text(&font, "TT", 8, 8, blue(), 0, false), 20);
    let mut expected = shifted(&letter_t(), 8, 0);
    expected.extend([(14, 1), (15, 1)]);
    expected.sort_by_key(|c| (c.1, c.0));
    assert_eq!(lit(&canvas, blue()), expected);
}

#[test]
fn draw_text_clips_at_left_edge() {
    let mut canvas = canvas_of(16, 1);
    let font = test_font();
    assert_eq!(canvas.draw_text(&font, "TT", -6, 8, blue(), 0, false), 6);
    assert_eq!(lit(&canvas, blue()), shifted(&letter_t(), 0, 0));
}

#[test]
fn draw_text_above_and_below_draws_nothing() {
    let mut canvas = canvas_of(16, 1);
    let font = test_font();
    assert_eq!(canvas.draw_text(&font, "TEST", 0, -1, blue(), 0, false), 24);
    assert_eq!(canvas.draw_text(&font, "TEST", 0, 25, blue(), 0, false), 24);
    assert_eq!(count_pixels(&canvas, black()), 256);
}

#[test]
fn draw_text_pen_stops_at_the_ends_of_the_range() {
    let mut canvas = canvas_of(16, 1);
    let font = test_font();
    assert_eq!(canvas.draw_text(&font, "TT", i32::MAX - 3, 8, blue(), 0, false), i32::MAX);
    assert_eq!(canvas.draw_text(&font, "T", i32::MAX, 8, blue(), i32::MAX, false), i32::MAX);
    assert_eq!(canvas.draw_text(&font, "TT", i32::MIN + 5, 8, blue(), -100, false), i32::MIN);
    assert_eq!(count_pixels(&canvas, black()), 256);
    assert_eq!(canvas.draw_text(&font, "T", 0, 8, blue(), i32::MIN, false), i32::MIN + 6);
    assert_eq!(lit(&canvas, blue()), shifted(&letter_t(), 0, 0));
}

#[test]
fn draw_text_overwrites_earlier_colour() {
    let mut canvas = canvas_of(16, 1);
    let font = test_font();
    canvas.draw_text(&font, "T", 0, 8, rgb(255, 0, 0), 0, false);
    canvas.draw_text(&font, "T", 0, 8, blue(), 0, false);
    assert_eq!(count_pixels(&canvas, rgb(255, 0, 0)), 0);
    assert_eq!(lit(&canvas, blue()), shifted(&letter_t(), 0, 0));
}
