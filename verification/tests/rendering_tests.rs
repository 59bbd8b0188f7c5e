use hexswap::render::BLUE;
use hexswap::render::FONT_ADVANCE;
use hexswap::render::Framebuffer;
use hexswap::render::GREEN;
use hexswap::render::PURPLE;
use hexswap::render::RED;
use hexswap::render::Rect;
use hexswap::render::WHITE;
use hexswap::render::YELLOW;
use hexswap::render::center_line_in_rect;
use hexswap::render::center_rect_in_rect;
use hexswap::render::get_char_xy;
use hexswap::render::get_sprite_xy;
use hexswap::render::get_text_dimensions;
use hexswap::render::palette;

fn rect_case_list() -> Vec<Rect> {
    let mut rects = Vec::new();
    for &(x, y, w, h) in [
        (0u8, 0u8, 10u8, 10u8),
        (5, 9, 40, 16),
        (100, 50, 60, 20),
        (0, 0, 0, 0),
        (17, 3, 254 - 17, 8),
        (2, 200, 36, 54),
    ]
    .iter()
    {
        rects.push(Rect { x, y, w, h });
    }
    rects
}

#[test]
fn test_get_text_dimensions_then_center_rect_in_rect_matches_center_line_in_rect_for_a_single_line()
{
    for rect in rect_case_list() {
        for char_count in [0u8, 1, 2, 7, 25, 63] {
            if char_count as usize * FONT_ADVANCE as usize > 255 {
                continue;
            }

            let line_point = center_line_in_rect(char_count, rect);

            let text = vec![b'A'; char_count as usize];

            let text_point = center_rect_in_rect(get_text_dimensions(&text), rect);
            assert_eq!(text_point, line_point);
        }
    }
}

#[test]
fn test_center_rect_in_rect_actually_centers_when_possible() {
    for rect in rect_case_list() {
        if rect.w & 1 == 1 {
            continue;
        }
        for &(w, h) in [(0u8, 0u8), (2, 2), (8, 30), (16, 4)].iter() {
            if w & 1 == 1 {
                continue;
            }
            let (x, _y) = center_rect_in_rect((w, h), rect);
            let left_side = x.saturating_sub(rect.x);
            let right_side = (rect.x as usize + rect.w as usize)
                .saturating_sub(x as usize + w as usize) as u8;

            assert_eq!(left_side, right_side);
        }
    }
}

#[test]
fn test_center_line_in_rect_actually_centers_when_possible() {
    assert!(FONT_ADVANCE & 1 == 0);
    for rect in rect_case_list() {
        if rect.w & 1 == 1 || rect.w < FONT_ADVANCE {
            continue;
        }
        for length in [0u8, 1, 2, 5, 25, 63] {
            if length >= (256 / FONT_ADVANCE as usize) as u8 {
                continue;
            }
            let w = length * FONT_ADVANCE;

            let (x, _y) = center_line_in_rect(length, rect);
            let left_side = (x as usize).saturating_sub(rect.x as usize);
            let right_side =
                (rect.x as usize + rect.w as usize).saturating_sub(x as usize + w as usize);

            assert_eq!(left_side, right_side);
        }
    }
}

#[test]
fn sprite_and_char_positions_follow_the_sheet_layout() {
    assert_eq!(get_sprite_xy(0), (0, 0));
    assert_eq!(get_sprite_xy(1), (8, 0));
    assert_eq!(get_sprite_xy(16), (0, 8));
    assert_eq!(get_sprite_xy(35), (24, 16));
    assert_eq!(get_char_xy(65), (8, 32));
}

#[test]
fn clear_to_fills_every_pixel() {
    let mut fb = Framebuffer::new();
    fb.clear_to(RED);
    assert!(fb.buffer.iter().all(|&p| p == RED));
    fb.clear();
    assert!(fb.buffer.iter().all(|&p| p == 0));
}

#[test]
fn draw_filled_rect_paints_exactly_the_rectangle() {
    let mut fb = Framebuffer::new();
    fb.clear_to(WHITE);
    fb.draw_filled_rect(10, 20, 3, 2, GREEN);
    for py in 0..256usize {
        for px in 0..256usize {
            let want = if (10..13).contains(&px) && (20..22).contains(&py) {
                GREEN
            } else {
                WHITE
            };
            assert_eq!(fb.buffer[py * 256 + px], want);
        }
    }
}

#[test]
fn draw_rect_paints_exactly_the_outline() {
    let mut fb = Framebuffer::new();
    fb.clear_to(WHITE);
    fb.draw_rect(5, 6, 4, 3, BLUE);
    for py in 0..256usize {
        for px in 0..256usize {
            let inside = (5..9).contains(&px) && (6..9).contains(&py);
            let border = inside && (px == 5 || px == 8 || py == 6 || py == 8);
            let want = if border { BLUE } else { WHITE };
            assert_eq!(fb.buffer[py * 256 + px], want);
        }
    }
}

#[test]
fn marching_rect_changes_pixels_only_to_the_two_stripe_colours() {
    let mut fb = Framebuffer::new();
    fb.clear_to(WHITE);
    fb.draw_marching_rect(30, 40, 6, 10, 0);
    let mut changed = 0;
    for (k, &p) in fb.buffer.iter().enumerate() {
        if p != WHITE {
            assert!(p == YELLOW || p == PURPLE, "pixel {} has colour {:#x}", k, p);
            changed += 1;
        }
    }
    assert!(changed > 0);
}

#[test]
fn hexagon_left_stamps_outline_and_interior() {
    let mut fb = Framebuffer::new();
    fb.clear_to(WHITE);
    fb.hexagon_left(10, 10, RED, BLUE);
    // stencil row 1 has its outline at column 3 and nothing at column 0
    assert_eq!(fb.buffer[(10 + 1) * 256 + (10 + 3)], BLUE);
    assert_eq!(fb.buffer[(10 + 0) * 256 + (10 + 0)], WHITE);
    // stencil row 4 starts with outline then interior
    assert_eq!(fb.buffer[(10 + 4) * 256 + (10 + 0)], BLUE);
    assert_eq!(fb.buffer[(10 + 4) * 256 + (10 + 1)], RED);
    // the right half of the stencil is untouched by hexagon_left
    assert_eq!(fb.buffer[(10 + 1) * 256 + (10 + 4)], WHITE);
}

#[test]
fn sspr_blits_with_palette_lookup_and_transparency() {
    let mut fb = Framebuffer::new();
    fb.clear_to(WHITE);
    let mut sheet = vec![0u8; 16384];
    sheet[0] = 1; // palette green
    sheet[1] = 4; // the transparent key
    sheet[128] = 2; // palette red, second sheet row
    fb.set_gfx(sheet);
    fb.sspr(0, 0, 2, 2, 50, 60);
    assert_eq!(fb.buffer[60 * 256 + 50], palette(1));
    assert_eq!(fb.buffer[60 * 256 + 51], WHITE); // transparent
    assert_eq!(fb.buffer[61 * 256 + 50], palette(2));
    assert_eq!(fb.buffer[61 * 256 + 51], palette(0));
}

#[test]
fn sspr_flip_both_mirrors_the_block() {
    let mut fb = Framebuffer::new();
    fb.clear_to(WHITE);
    let mut sheet = vec![0u8; 16384];
    sheet[0] = 1; // ends up at the bottom-right of the blit
    sheet[1] = 3;
    fb.set_gfx(sheet);
    fb.sspr_flip_both(0, 0, 2, 2, 50, 60);
    assert_eq!(fb.buffer[61 * 256 + 51], palette(1));
    assert_eq!(fb.buffer[61 * 256 + 50], palette(3));
    assert_eq!(fb.buffer[60 * 256 + 50], palette(0));
}

#[test]
fn print_char_draws_with_the_masked_palette_colour() {
    let mut fb = Framebuffer::new();
    fb.clear_to(WHITE);
    let mut font = vec![0u8; 16384];
    // glyph for byte 0 sits at sheet (0, 0); give it one inked pixel
    font[2 + 128] = 1;
    fb.set_font(font);
    fb.print_char(0, 100, 100, 2);
    assert_eq!(fb.buffer[101 * 256 + 102], palette(2));
    assert_eq!(fb.buffer[100 * 256 + 100], WHITE);
}

#[test]
fn blend_mixes_by_alpha_and_writes_one_pixel() {
    let mut fb = Framebuffer::new();
    fb.clear_to(BLUE);
    // fully opaque red over blue leaves pure red
    fb.blend(7, 0xFF_00_00_FF);
    assert_eq!(fb.buffer[7], 0xFF_00_00_FF);
    assert_eq!(fb.buffer[8], BLUE);
    // fully transparent colour keeps the background channels
    fb.blend_xy(3, 0, 0x00_12_34_56);
    let kept = fb.buffer[3];
    assert_eq!(kept & 0x00_FF_FF_FF, BLUE & 0x00_FF_FF_FF);
}

#[test]
fn draw_crisp_circle_paints_the_cardinal_points() {
    let mut fb = Framebuffer::new();
    fb.clear_to(WHITE);
    fb.draw_crisp_circle(100, 100, 10, RED);
    assert_eq!(fb.buffer[100 * 256 + 110], RED);
    assert_eq!(fb.buffer[100 * 256 + 90], RED);
    assert_eq!(fb.buffer[110 * 256 + 100], RED);
    assert_eq!(fb.buffer[90 * 256 + 100], RED);
    assert_eq!(fb.buffer[100 * 256 + 100], WHITE);
    // a midpoint closer to the edge than the radius is rejected
    let before = fb.buffer.clone();
    fb.draw_crisp_circle(5, 100, 10, RED);
    assert_eq!(fb.buffer, before);
}

#[test]
fn get_text_dimensions_counts_lines_and_the_widest_line() {
    assert_eq!(get_text_dimensions(b"ab\ncdef"), (16, 16));
    assert_eq!(get_text_dimensions(b""), (0, 8));
    assert_eq!(get_text_dimensions(b"xyz"), (12, 8));
}

#[test]
fn nine_slice_and_rows_preserve_the_sheets() {
    let mut fb = Framebuffer::new();
    let gfx_before = fb.gfx.clone();
    fb.window(10, 10, 64, 48);
    fb.button(10, 70, 40, 24);
    fb.button_hot(10, 100, 40, 24);
    fb.button_pressed(10, 130, 40, 24);
    fb.row(10, 160, 80);
    fb.row_hot(10, 170, 80);
    fb.row_pressed(10, 180, 80);
    fb.row_marker(10, 190, 80);
    fb.checkbox(10, 200, true);
    fb.checkbox_hot(20, 200, false);
    fb.checkbox_pressed(30, 200, true);
    fb.full_window();
    fb.center_half_window();
    fb.bottom_six_slice(0, 10, 210, 32, 32);
    fb.print(b"two\nlines", 0, 0, 6);
    fb.print_single_line_number(1234, 0, 40, 6);
    assert_eq!(fb.gfx, gfx_before);
    assert_eq!(fb.buffer.len(), 65536);
}

#[test]
fn rect_accessors_return_the_fields() {
    let r = Rect { x: 1, y: 2, w: 3, h: 4 };
    assert_eq!(r.point(), (1, 2));
    assert_eq!(r.dimensions(), (3, 4));
}

#[test]
fn draw_circle_blends_a_rim_and_leaves_the_center() {
    let mut fb = Framebuffer::new();
    fb.clear_to(WHITE);
    // a midpoint closer to the edge than the radius is rejected
    fb.draw_circle(5, 100, 10, RED);
    assert!(fb.buffer.iter().all(|&p| p == WHITE));
    fb.draw_circle(100, 100, 10, RED);
    assert_eq!(fb.buffer[100 * 256 + 100], WHITE);
    assert_ne!(fb.buffer[100 * 256 + 110], WHITE);
    // nothing far outside the radius changes
    assert_eq!(fb.buffer[100 * 256 + 130], WHITE);
    assert_eq!(fb.buffer[130 * 256 + 100], WHITE);
}

#[test]
fn draw_filled_circle_paints_the_interior() {
    let mut fb = Framebuffer::new();
    fb.clear_to(WHITE);
    fb.draw_filled_circle(100, 5, 10, RED); // rejected: too close to the edge
    assert!(fb.buffer.iter().all(|&p| p == WHITE));
    fb.draw_filled_circle(100, 100, 10, RED);
    assert_eq!(fb.buffer[100 * 256 + 100], RED);
    let changed = fb.buffer.iter().filter(|&&p| p != WHITE).count();
    assert!(changed > 100, "only {} pixels changed", changed);
    assert_eq!(fb.buffer[100 * 256 + 130], WHITE);
}

#[test]
fn framebuffers_compare_by_their_pixels() {
    let a = Framebuffer::default();
    let mut b = Framebuffer::new();
    assert!(a == b);
    b.clear_to(RED);
    assert!(a != b);
}
