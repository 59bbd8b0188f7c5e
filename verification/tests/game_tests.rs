use hexswap::animation::Animation;
use hexswap::cell::GridCell;
use hexswap::cell::get_colours;
use hexswap::cursor::Cursor;
use hexswap::game::EntireState;
use hexswap::game::GameState;
use hexswap::game::State;
use hexswap::game::settle_and_match;
use hexswap::game::update_and_render;
use hexswap::gravity::apply_gravity_once;
use hexswap::gravity::gravity_for_cell;
use hexswap::grid::new_grid;
use hexswap::layout::Dir;
use hexswap::layout::GRID_LENGTH;
use hexswap::layout::get_hex_index;
use hexswap::layout::get_movement_offset;
use hexswap::layout::i_to_xy;
use hexswap::layout::is_index_next_to;
use hexswap::layout::opposite;
use hexswap::layout::p_xy;
use hexswap::layout::xy_to_i;
use hexswap::platform::Buttons;
use hexswap::platform::Input;
use hexswap::platform::SFX;
use hexswap::platform::Speaker;
use hexswap::render::BLUE;
use hexswap::render::Framebuffer;
use hexswap::render::GREEN;
use hexswap::render::RED;

const DIRS: [Dir; 4] = [Dir::Up, Dir::Down, Dir::Left, Dir::Right];

fn empty_grid() -> Vec<GridCell<u8>> {
    vec![GridCell::Absent; GRID_LENGTH]
}

/// Pieces at these cells can never move: each one's priority routes are all
/// blocked by the next one, and the last sits in the exempt center band.
const BLOCKER_CHAIN: [usize; 28] = [
    42, 82, 124, 164, 204, 246, 286, 326, 368, 408, 448, 490, 530, 570, 612, 652, 692, 734, 774,
    814, 856, 896, 936, 978, 1018, 1058, 1100, 1178,
];

#[test]
fn adjacency_is_symmetric_for_every_cell_and_direction() {
    for i in 0..GRID_LENGTH {
        for d in DIRS {
            if let Some(j) = get_hex_index(i, d) {
                assert!(j < GRID_LENGTH);
                assert_eq!(get_hex_index(j, opposite(d)), Some(i), "i={} d={:?}", i, d);
            }
        }
    }
}

#[test]
fn moves_never_wrap_around_a_row_boundary() {
    for row in 0..60usize {
        let left_edge = row * 40;
        if let Some(j) = get_hex_index(left_edge, Dir::Left) {
            assert_ne!(j % 40, 39);
        }
        let right_edge = row * 40 + 39;
        if let Some(j) = get_hex_index(right_edge, Dir::Right) {
            assert_ne!(j % 40, 0);
        }
    }
}

#[test]
fn movement_offsets_follow_the_table() {
    // row type 0, even column
    assert_eq!(get_movement_offset(0, 0, Dir::Up), -41);
    assert_eq!(get_movement_offset(0, 0, Dir::Down), 79);
    assert_eq!(get_movement_offset(0, 0, Dir::Left), 39);
    assert_eq!(get_movement_offset(0, 0, Dir::Right), 1);
    // row type 2, odd column
    assert_eq!(get_movement_offset(1, 2, Dir::Up), -79);
    assert_eq!(get_movement_offset(1, 2, Dir::Down), 41);
    assert_eq!(get_movement_offset(1, 2, Dir::Left), -1);
    assert_eq!(get_movement_offset(1, 2, Dir::Right), -39);
}

#[test]
fn index_coordinate_round_trip() {
    for i in 0..GRID_LENGTH {
        let (x, y) = i_to_xy(i);
        assert_eq!(xy_to_i(x, y), i);
        assert!(x < 40 && y < 60);
    }
    assert!(is_index_next_to(5, 0, 6));
    assert!(!is_index_next_to(0, 0, 39)); // a wrap from column 0 to the far edge
    assert!(!is_index_next_to(5, 0, GRID_LENGTH)); // off the board
}

#[test]
fn animation_distance_shrinks_every_step_and_finishes_within_the_bound() {
    // corner to corner: x spans 39 at rate 2, y spans 59 at rate 3
    let mut a = Animation::new(0, GRID_LENGTH - 1, Some(7));
    assert_eq!((a.x, a.y), (0, 0));
    assert_eq!((a.target_x, a.target_y), (39, 59));
    assert_eq!((a.x_rate, a.y_rate), (2, 3));

    let mut steps = 0;
    let mut dx = 39i32;
    let mut dy = 59i32;
    while !a.is_complete() {
        a.approach_target();
        let ndx = (a.target_x as i32 - a.x as i32).abs();
        let ndy = (a.target_y as i32 - a.y as i32).abs();
        assert!(ndx <= dx && ndy <= dy, "distance grew");
        assert!(ndx < dx || ndy < dy || (dx == 0 && dy == 0));
        dx = ndx;
        dy = ndy;
        steps += 1;
        assert!(steps <= 20, "exceeded ceil(59 / 3) steps");
    }
    assert_eq!(steps, 20);
    assert_eq!(a.payload, Some(7));
}

#[test]
fn animation_carrying_nothing_still_travels() {
    let mut a = Animation::new(2, 0, None);
    assert_eq!(a.payload, None);
    a.approach_target();
    a.approach_target();
    assert!(a.is_complete());
}

#[test]
fn settlement_clears_both_halves_on_a_colour_match() {
    // cells 0 and 1 are the two halves of one hexagon; 5 and 0x05 have the
    // same masked colour pair
    let mut grid = empty_grid();
    grid[1] = GridCell::Present(0x05);
    settle_and_match(&mut grid, 0, Some(5));
    assert_eq!(grid[0], GridCell::Absent);
    assert_eq!(grid[1], GridCell::Absent);
}

#[test]
fn settlement_keeps_both_halves_on_differing_colours() {
    let mut grid = empty_grid();
    grid[1] = GridCell::Present(2);
    settle_and_match(&mut grid, 0, Some(5));
    assert_eq!(grid[0], GridCell::Present(5));
    assert_eq!(grid[1], GridCell::Present(2));
}

#[test]
fn settlement_of_nothing_writes_an_empty_cell() {
    let mut grid = empty_grid();
    grid[2] = GridCell::Present(9);
    settle_and_match(&mut grid, 3, None);
    assert_eq!(grid[3], GridCell::Absent);
    assert_eq!(grid[2], GridCell::Present(9));
}

#[test]
fn gravity_moves_a_free_piece_exactly_once_per_pass() {
    let mut grid = empty_grid();
    grid[82] = GridCell::Present(7);
    let mut speaker = Speaker::new();
    // (2, 2) falls right and down; its diagonal target is cell 124
    let moved = gravity_for_cell(&mut grid, 82, &mut speaker);
    assert!(moved);
    assert_eq!(grid[82], GridCell::Absent);
    assert_eq!(grid[124], GridCell::Present(7));
    assert_eq!(speaker.requests, vec![SFX::Wud]);
}

#[test]
fn gravity_never_moves_a_piece_with_no_free_route() {
    let mut grid = empty_grid();
    for b in BLOCKER_CHAIN {
        grid[b] = GridCell::Present(2);
    }
    let before = grid.clone();
    let mut speaker = Speaker::new();
    apply_gravity_once(&mut grid, &mut speaker);
    assert_eq!(grid, before);
    assert!(speaker.drain().is_empty());
}

#[test]
fn gravity_skips_the_exempt_center_band() {
    let mut grid = empty_grid();
    let center = xy_to_i(19, 29);
    grid[center] = GridCell::Present(3);
    let mut speaker = Speaker::new();
    let moved = gravity_for_cell(&mut grid, center, &mut speaker);
    assert!(!moved);
    assert_eq!(grid[center], GridCell::Present(3));
}

#[test]
fn cursor_moves_stay_in_bounds_after_any_sequence() {
    let mut cursor = Cursor::Unselected(41);
    let pattern = [
        Dir::Up, Dir::Up, Dir::Left, Dir::Down, Dir::Right, Dir::Right, Dir::Down, Dir::Down,
        Dir::Left, Dir::Up, Dir::Right, Dir::Down,
    ];
    for round in 0..400 {
        let d = pattern[round % pattern.len()];
        let before = cursor.num();
        cursor = cursor.move_active(d);
        let now = cursor.num();
        assert!(now < GRID_LENGTH);
        // every committed move is a validated adjacency step
        if now != before {
            assert_eq!(get_hex_index(before, d), Some(now));
        }
    }
}

#[test]
fn cursor_iter_and_wrapping_add_work_per_variant() {
    let u = Cursor::Unselected(7);
    assert_eq!(u.iter(), vec![7]);
    assert_eq!(u.num(), 7);
    let s = Cursor::Selected(3, 9);
    assert_eq!(s.iter(), vec![3, 9]);
    assert_eq!(s.num(), 9);
    assert_eq!(u.wrapping_add(5), Cursor::Unselected(12));
    assert_eq!(s.wrapping_add(usize::MAX), Cursor::Selected(3, 8));
}

#[test]
fn grid_cell_queries_and_combinators() {
    let p: GridCell<u8> = GridCell::Present(3);
    let a: GridCell<u8> = GridCell::Absent;
    let m: GridCell<u8> = GridCell::Animating;
    assert!(p.is_present() && !p.is_absent() && !p.is_animating());
    assert!(a.is_absent() && m.is_animating());
    assert_eq!(p.map(|v| v + 1), GridCell::Present(4));
    assert_eq!(a.map(|v: u8| v + 1), GridCell::Absent);
    assert_eq!(m.map(|v: u8| v + 1), GridCell::Animating);
    assert_eq!(p.and_then(|_| GridCell::<u8>::Absent), GridCell::Absent);
    assert_eq!(m.and_then(|v| GridCell::Present(v)), GridCell::Animating);
}

#[test]
fn colours_mask_out_the_black_sentinel() {
    assert_eq!(get_colours(5), (GREEN, BLUE));
    assert_eq!(get_colours(0x51), (GREEN, GREEN));
    assert_eq!(get_colours(2), (RED, BLUE));
    // 0xFF would be the "black" sentinel pattern in both nibbles; the mask
    // keeps the lookup inside the first four palette entries
    let (inner, outline) = get_colours(0xFF);
    assert_eq!((inner, outline), (hexswap::render::YELLOW, hexswap::render::YELLOW));
}

#[test]
fn seeded_grid_fills_the_band_with_increasing_codes() {
    let grid = new_grid();
    assert_eq!(grid.len(), GRID_LENGTH);
    assert_eq!(grid[0], GridCell::Absent);
    assert_eq!(grid[961], GridCell::Absent);
    assert_eq!(grid[962], GridCell::Present(0));
    assert_eq!(grid[1000], GridCell::Present(38));
    assert_eq!(grid[1440], GridCell::Present(222));
    assert_eq!(grid[1441], GridCell::Absent);
    let placed = grid
        .iter()
        .filter(|c| matches!(c, GridCell::Present(_)))
        .count();
    assert_eq!(placed, 479);
}

#[test]
fn input_press_edges_trigger_exactly_once() {
    let mut input = Input::new();
    input.gamepad.insert(Buttons::a());
    assert!(input.pressed_this_frame(Buttons::a()));
    assert!(!input.released_this_frame(Buttons::a()));
    input.previous_gamepad = input.gamepad;
    assert!(!input.pressed_this_frame(Buttons::a()));
    input.gamepad.remove(Buttons::a());
    assert!(input.released_this_frame(Buttons::a()));
}

#[test]
fn speaker_queues_and_drains_in_order() {
    let mut speaker = Speaker::new();
    speaker.request_sfx(SFX::MovePiece);
    speaker.request_sfx(SFX::Wud);
    assert_eq!(speaker.drain(), vec![SFX::MovePiece, SFX::Wud]);
    assert!(speaker.drain().is_empty());
    assert_eq!(SFX::MovePiece.to_sound_key(), "move");
    assert_eq!(SFX::Wud.to_sound_key(), "thud");
}

#[test]
fn confirm_selects_then_swaps_and_drops_the_anchor() {
    let mut state = GameState::new([0; 16]);
    state.grid = empty_grid();
    state.grid[0] = GridCell::Present(5);
    state.cursor = Cursor::Unselected(0);
    let mut speaker = Speaker::new();
    let mut fb = Framebuffer::new();

    let pressed_a = Input {
        gamepad: Buttons::a(),
        previous_gamepad: Buttons::empty(),
    };
    update_and_render(&mut fb, &mut state, pressed_a, &mut speaker);
    assert_eq!(state.cursor, Cursor::Selected(0, 0));

    // a second confirm swaps the anchored cell with itself
    update_and_render(&mut fb, &mut state, pressed_a, &mut speaker);
    assert_eq!(state.cursor, Cursor::Unselected(0));
    assert_eq!(state.grid[0], GridCell::Animating);
    assert_eq!(state.animations.len(), 2);
}

#[test]
fn confirm_on_an_animating_cell_is_ignored() {
    let mut state = GameState::new([0; 16]);
    state.grid = empty_grid();
    state.grid[0] = GridCell::Animating;
    state.cursor = Cursor::Unselected(0);
    let mut speaker = Speaker::new();
    let mut fb = Framebuffer::new();
    let pressed_a = Input {
        gamepad: Buttons::a(),
        previous_gamepad: Buttons::empty(),
    };
    update_and_render(&mut fb, &mut state, pressed_a, &mut speaker);
    assert_eq!(state.cursor, Cursor::Unselected(0));
    assert!(state.animations.is_empty());
}

#[test]
fn end_to_end_swap_settles_clears_nothing_and_respects_gravity() {
    // board: cell 0 holds 5, its pairing half 1 holds 0x51 (same masked
    // colours), cell 2 is empty; a chain of stuck blockers pins the swap's
    // landing spot
    let mut state = GameState::new([0; 16]);
    state.grid = empty_grid();
    state.grid[0] = GridCell::Present(5);
    state.grid[1] = GridCell::Present(0x51);
    for b in BLOCKER_CHAIN {
        state.grid[b] = GridCell::Present(2);
    }
    state.cursor = Cursor::Unselected(0);
    let mut speaker = Speaker::new();
    let mut fb = Framebuffer::new();

    let press = |b: Buttons| Input {
        gamepad: b,
        previous_gamepad: Buttons::empty(),
    };

    // select cell 0
    update_and_render(&mut fb, &mut state, press(Buttons::a()), &mut speaker);
    assert_eq!(state.cursor, Cursor::Selected(0, 0));

    // walk the second pick to cell 2: right, down, right, right
    for b in [Buttons::right(), Buttons::down(), Buttons::right(), Buttons::right()] {
        update_and_render(&mut fb, &mut state, press(b), &mut speaker);
    }
    assert_eq!(state.cursor, Cursor::Selected(0, 2));

    // confirm the swap with the empty cell 2
    speaker.drain();
    update_and_render(&mut fb, &mut state, press(Buttons::a()), &mut speaker);
    assert_eq!(state.cursor, Cursor::Unselected(2));
    assert_eq!(state.grid[0], GridCell::Animating);
    assert_eq!(state.grid[2], GridCell::Animating);
    assert_eq!(state.animations.len(), 2);
    assert!(speaker.drain().contains(&SFX::MovePiece));

    // run frames until both animations land
    let mut frames = 0;
    while !state.animations.is_empty() {
        update_and_render(&mut fb, &mut state, Input::new(), &mut speaker);
        frames += 1;
        assert!(frames <= 10, "animations never settled");
    }

    // the piece settled at cell 2, cell 0 was vacated, and cell 2's new
    // pairing neighbor (cell 3, empty) does not match, so nothing clears
    assert_eq!(state.grid[2], GridCell::Present(5));
    assert_eq!(state.grid[0], GridCell::Absent);
    assert_eq!(state.grid[1], GridCell::Present(0x51));
    for b in BLOCKER_CHAIN {
        assert_eq!(state.grid[b], GridCell::Present(2));
    }
}

#[test]
fn arriving_piece_clears_a_matching_pair_immediately() {
    // swap a piece next to a matching half and watch both halves clear
    let mut state = GameState::new([0; 16]);
    state.grid = empty_grid();
    state.grid[0] = GridCell::Present(5);
    // cell 3 pairs with cell 2 and matches code 5's colours
    state.grid[3] = GridCell::Present(0x05);
    for b in BLOCKER_CHAIN {
        state.grid[b] = GridCell::Present(2);
    }
    state.cursor = Cursor::Selected(0, 2);
    let mut speaker = Speaker::new();
    let mut fb = Framebuffer::new();
    let pressed_a = Input {
        gamepad: Buttons::a(),
        previous_gamepad: Buttons::empty(),
    };
    update_and_render(&mut fb, &mut state, pressed_a, &mut speaker);
    let mut frames = 0;
    while !state.animations.is_empty() {
        update_and_render(&mut fb, &mut state, Input::new(), &mut speaker);
        frames += 1;
        assert!(frames <= 10);
    }
    assert_eq!(state.grid[2], GridCell::Absent);
    assert_eq!(state.grid[3], GridCell::Absent);
    assert_eq!(state.grid[0], GridCell::Absent);
}

#[test]
fn frame_counter_advances_and_host_state_runs() {
    let mut s = EntireState::new([1; 16]);
    s.press(Buttons::right());
    let sounds = s.frame();
    assert!(sounds.is_empty());
    assert_eq!(s.game_state.frame_counter, 1);
    // the press is consumed as an edge: a second frame with the button still
    // held must not move again
    let active_after_one = s.game_state.cursor.num();
    let _ = s.frame();
    assert_eq!(s.game_state.cursor.num(), active_after_one);
    s.release(Buttons::right());
    assert_eq!(s.get_frame_buffer().len(), 65536);
}

#[test]
fn pixel_positions_follow_the_brick_layout() {
    assert_eq!(p_xy(0, 0), (6, 6));
    assert_eq!(p_xy(1, 0), (10, 6));
    assert_eq!(p_xy(0, 1), (10, 10));
    assert_eq!(p_xy(2, 2), (26, 14));
}
