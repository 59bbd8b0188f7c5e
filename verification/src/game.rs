//! The frame controller: the per-frame order is advance animations, resolve
//! gravity, apply input (confirm first, then the four movement directions),
//! then draw the board, the cursor highlight and the in-flight pieces.

use vstd::prelude::*;
use crate::animation::Animation;
use crate::animation::spec_new_animation;
use crate::animation::step_animation;
use crate::cell::GridCell;
use crate::cell::HalfHexSpec;
use crate::cell::colours_of;
use crate::cell::get_colours;
use crate::cursor::Cursor;
use crate::cursor::moved_cursor;
use crate::gravity::apply_gravity_once;
use crate::gravity::gravity_pass_spec;
use crate::grid::Grid;
use crate::grid::grid_wf;
use crate::grid::new_grid;
use crate::layout::Dir;
use crate::layout::GRID_HEIGHT;
use crate::layout::GRID_LENGTH;
use crate::layout::GRID_WIDTH;
use crate::layout::i_to_xy;
use crate::layout::p_xy;
use crate::layout::xy_to_i;
use crate::platform::Buttons;
use crate::platform::Input;
use crate::platform::SFX;
use crate::platform::Speaker;
use crate::render::BLUE;
use crate::render::Framebuffer;
use crate::render::GREY;
use crate::render::RED;
use crate::render::WHITE;
use vstd::arithmetic::div_mod::lemma_fundamental_div_mod;
use vstd::arithmetic::div_mod::lemma_fundamental_div_mod_converse;

verus! {

/// The whole simulation state one frame controller owns.
pub struct GameState {
    pub grid: Grid,
    pub cursor: Cursor,
    pub frame_counter: usize,
    pub animations: Vec<Animation>,
}

impl GameState {
    /// The frame invariant: the board has its fixed size, the cursor is in
    /// bounds, and every in-flight animation stays on the board.
    pub open spec fn wf(self) -> bool {
        &&& grid_wf(self.grid@)
        &&& self.cursor.wf()
        &&& forall|k: int|
            0 <= k < self.animations@.len() ==> (#[trigger] self.animations@[k]).wf()
    }

    /// A fresh session: the seeded board, the cursor one row and one column
    /// in, and nothing in flight.
    pub fn new(_seed: [u8; 16]) -> (r: GameState)
        ensures
            r.wf(),
            forall|i: int| 0 <= i < GRID_LENGTH ==> r.grid@[i] == crate::grid::seeded_cell(i),
            r.cursor == Cursor::Unselected(41usize),
            r.frame_counter == 0,
            r.animations@.len() == 0,
    {
        GameState {
            grid: new_grid(),
            cursor: Cursor::Unselected(GRID_WIDTH as usize + 1),
            frame_counter: 0,
            animations: Vec::new(),
        }
    }
}

/// The colour pair a cell resolves to, with empty and vacated cells kept
/// apart from every colour pair.
pub open spec fn cell_colours(c: GridCell<HalfHexSpec>) -> GridCell<(u32, u32)> {
    match c {
        GridCell::Present(h) => GridCell::Present(colours_of(h)),
        GridCell::Absent => GridCell::Absent,
        GridCell::Animating => GridCell::Animating,
    }
}

/// The other half of the full hexagon that cell `i` belongs to: a left
/// half's partner is the cell to its right, a right half's the cell to its
/// left.
pub open spec fn partner_of(i: int) -> int {
    if i % 2 == 0 {
        i + 1
    } else {
        i - 1
    }
}

/// The cell content an arriving animation writes.
pub open spec fn carried_content(payload: Option<HalfHexSpec>) -> GridCell<HalfHexSpec> {
    match payload {
        Some(h) => GridCell::Present(h),
        None => GridCell::Absent,
    }
}

/// The board after an arrived animation writes its content into cell
/// `index`: if the cell's pairing neighbor then resolves to the same colour
/// pair as the written content, both halves clear to `Absent`; otherwise the
/// board is the single-cell update.
pub open spec fn settle_spec(
    g: Seq<GridCell<HalfHexSpec>>,
    index: int,
    payload: Option<HalfHexSpec>,
) -> Seq<GridCell<HalfHexSpec>> {
    let content = carried_content(payload);
    let other = partner_of(index);
    if cell_colours(g[other]) == cell_colours(content) {
        g.update(other, GridCell::Absent).update(index, GridCell::Absent)
    } else {
        g.update(index, content)
    }
}

/// Write an arrived animation's content into its destination cell, then
/// check the destination against its pairing neighbor: if the two halves now
/// resolve to the same colour pair, clear both to `Absent`; otherwise both
/// keep their content unchanged.
pub fn settle_and_match(grid: &mut Grid, index: usize, payload: Option<HalfHexSpec>)
    requires
        grid_wf(old(grid)@),
        index < GRID_LENGTH,
    ensures
        grid_wf(final(grid)@),
        final(grid)@ == settle_spec(old(grid)@, index as int, payload),
{
    let (x, _y) = i_to_xy(index);
    proof {
        lemma_fundamental_div_mod(index as int, 40);
        let q = index as int / 40;
        let r = index as int % 40;
        // index and its column have the same parity, because a row is 40 cells
        lemma_fundamental_div_mod(r, 2);
        lemma_fundamental_div_mod_converse(index as int, 2, 20 * q + r / 2, r % 2);
    }
    let content = match payload {
        Some(h) => GridCell::Present(h),
        None => GridCell::Absent,
    };
    grid.set(index, content);

    let other_index = if x % 2 == 0 {
        index + 1
    } else {
        index - 1
    };
    let a = grid[other_index].map(get_colours);
    let b = grid[index].map(get_colours);
    proof {
        assert(forall|h: HalfHexSpec, v: (u32, u32)|
            call_ensures(get_colours, (h,), v) ==> v == colours_of(h));
        assert(a == cell_colours(grid@[other_index as int]));
        assert(b == cell_colours(grid@[index as int]));
    }
    let same = match (a, b) {
        (GridCell::Absent, GridCell::Absent) => true,
        (GridCell::Animating, GridCell::Animating) => true,
        (GridCell::Present(p), GridCell::Present(q)) => p.0 == q.0 && p.1 == q.1,
        _ => false,
    };
    if same {
        grid.set(other_index, GridCell::Absent);
        grid.set(index, GridCell::Absent);
        assert(grid@ =~= settle_spec(old(grid)@, index as int, payload));
    } else {
        assert(grid@ =~= settle_spec(old(grid)@, index as int, payload));
    }
}

/// One animation handled: the record at `i` steps once; if it arrived and
/// its destination holds no settled piece, the carried content settles
/// (clearing a matched pair), the record leaves the set by swap-removal, one
/// full gravity pass runs, and a "move" sound is requested.  An arrival onto
/// an occupied destination is left in the set, to be retried next frame.
pub open spec fn advance_one(
    g: Seq<GridCell<HalfHexSpec>>,
    anims: Seq<Animation>,
    sounds: Seq<SFX>,
    i: int,
) -> (Seq<GridCell<HalfHexSpec>>, Seq<Animation>, Seq<SFX>) {
    let a = step_animation(anims[i]);
    let anims1 = anims.update(i, a);
    if a.x == a.target_x && a.y == a.target_y {
        let k = a.y as int * 40 + a.x as int;
        if g[k] is Present {
            (g, anims1, sounds)
        } else {
            let after = gravity_pass_spec(
                settle_spec(g, k, a.payload),
                sounds,
                GRID_LENGTH as nat,
            );
            (after.0, anims1.update(i, anims1.last()).drop_last(), after.1.push(SFX::MovePiece))
        }
    } else {
        (g, anims1, sounds)
    }
}

/// The board, animation set and sound queue after the advancement loop has
/// handled the records at indices `[0, n)`, highest index first.
pub open spec fn advance_steps(
    g: Seq<GridCell<HalfHexSpec>>,
    anims: Seq<Animation>,
    sounds: Seq<SFX>,
    n: nat,
) -> (Seq<GridCell<HalfHexSpec>>, Seq<Animation>, Seq<SFX>)
    decreases n,
{
    if n == 0 {
        (g, anims, sounds)
    } else {
        let one = advance_one(g, anims, sounds, n - 1);
        advance_steps(one.0, one.1, one.2, (n - 1) as nat)
    }
}

/// Advance every in-flight animation one step; an animation that reached its
/// target settles (unless its destination is occupied by a settled piece, in
/// which case it is retried next frame), may clear a matched pair, is
/// removed, and triggers one extra gravity pass and a "move" sound.
pub fn advance_animations(state: &mut GameState, speaker: &mut Speaker)
    requires
        old(state).wf(),
    ensures
        final(state).wf(),
        final(state).cursor == old(state).cursor,
        final(state).frame_counter == old(state).frame_counter,
        final(state).animations@.len() <= old(state).animations@.len(),
        ({
            let r = advance_steps(
                old(state).grid@,
                old(state).animations@,
                old(speaker).requests@,
                old(state).animations@.len(),
            );
            &&& final(state).grid@ == r.0
            &&& final(state).animations@ == r.1
            &&& final(speaker).requests@ == r.2
        }),
{
    let ghost target = advance_steps(
        old(state).grid@,
        old(state).animations@,
        old(speaker).requests@,
        old(state).animations@.len(),
    );
    let mut animation_index = state.animations.len();
    while animation_index > 0
        invariant
            state.wf(),
            animation_index <= state.animations@.len(),
            state.animations@.len() <= old(state).animations@.len(),
            state.cursor == old(state).cursor,
            state.frame_counter == old(state).frame_counter,
            target == advance_steps(
                old(state).grid@,
                old(state).animations@,
                old(speaker).requests@,
                old(state).animations@.len(),
            ),
            advance_steps(
                state.grid@,
                state.animations@,
                speaker.requests@,
                animation_index as nat,
            ) == target,
        decreases animation_index,
    {
        animation_index = animation_index - 1;
        let ghost g_pre = state.grid@;
        let ghost a_pre = state.animations@;
        let ghost s_pre = speaker.requests@;

        let mut animation = state.animations[animation_index];
        animation.approach_target();
        state.animations.set(animation_index, animation);
        proof {
            assert(animation == step_animation(a_pre[animation_index as int]));
        }

        if animation.is_complete() {
            let index = xy_to_i(animation.x, animation.y);
            assert(index < GRID_LENGTH);

            if !state.grid[index].is_present() {
                settle_and_match(&mut state.grid, index, animation.payload);

                let _ = state.animations.swap_remove(animation_index);
                apply_gravity_once(&mut state.grid, speaker);
                speaker.request_sfx(SFX::MovePiece);
            }
        }
        proof {
            assert((state.grid@, state.animations@, speaker.requests@) == advance_one(
                g_pre,
                a_pre,
                s_pre,
                animation_index as int,
            ));
        }
    }
    proof {
        assert(state.grid@ == target.0 && state.animations@ == target.1 && speaker.requests@
            == target.2);
    }
}

/// The payload a swap takes out of a cell: its appearance code, or nothing
/// from an empty cell.
pub open spec fn payload_of(c: GridCell<HalfHexSpec>) -> Option<HalfHexSpec> {
    match c {
        GridCell::Present(h) => Some(h),
        GridCell::Absent => None,
        GridCell::Animating => None,
    }
}

/// Begin a swap of cells `c1` and `c2`: both are marked `Animating`, two
/// symmetric animations carry their former contents across, one "move"
/// sound is requested, and the cursor drops back to the second pick.
fn start_swap(state: &mut GameState, speaker: &mut Speaker, c1: usize, c2: usize, h1: Option<
    HalfHexSpec,
>, h2: Option<HalfHexSpec>)
    requires
        old(state).wf(),
        c1 < GRID_LENGTH,
        c2 < GRID_LENGTH,
    ensures
        final(state).wf(),
        final(state).frame_counter == old(state).frame_counter,
        final(state).cursor == Cursor::Unselected(c2),
        final(state).grid@ == old(state).grid@.update(c1 as int, GridCell::Animating).update(
            c2 as int,
            GridCell::Animating,
        ),
        final(state).animations@ == old(state).animations@.push(
            spec_new_animation(c1 as int, c2 as int, h1),
        ).push(spec_new_animation(c2 as int, c1 as int, h2)),
        final(speaker).requests@ == old(speaker).requests@.push(SFX::MovePiece),
{
    speaker.request_sfx(SFX::MovePiece);
    state.grid.set(c1, GridCell::Animating);
    state.grid.set(c2, GridCell::Animating);
    state.animations.push(Animation::new(c1, c2, h1));
    state.animations.push(Animation::new(c2, c1, h2));
    state.cursor = Cursor::Unselected(c2);
}

/// The simulation state after one Confirm press.  An unselected cursor
/// picks its cell as the anchor unless that cell is mid-animation; a
/// selected cursor swaps its two picks, whatever their contents, unless
/// either is mid-animation: both cells become `Animating`, two symmetric
/// animations carry the old contents across, one "move" sound is requested,
/// and the cursor drops back to the second pick.
pub open spec fn confirm_spec(
    g: Seq<GridCell<HalfHexSpec>>,
    cur: Cursor,
    anims: Seq<Animation>,
    sounds: Seq<SFX>,
) -> (Seq<GridCell<HalfHexSpec>>, Cursor, Seq<Animation>, Seq<SFX>) {
    match cur {
        Cursor::Unselected(c) => {
            if g[c as int] is Animating {
                (g, cur, anims, sounds)
            } else {
                (g, Cursor::Selected(c, c), anims, sounds)
            }
        },
        Cursor::Selected(c1, c2) => {
            if g[c1 as int] is Animating || g[c2 as int] is Animating {
                (g, cur, anims, sounds)
            } else {
                (
                    g.update(c1 as int, GridCell::Animating).update(c2 as int, GridCell::Animating),
                    Cursor::Unselected(c2),
                    anims.push(spec_new_animation(c1 as int, c2 as int, payload_of(g[c1 as int])))
                        .push(spec_new_animation(c2 as int, c1 as int, payload_of(g[c2 as int]))),
                    sounds.push(SFX::MovePiece),
                )
            }
        },
    }
}

/// Apply one Confirm press, exactly as `confirm_spec` describes.
pub fn handle_confirm(state: &mut GameState, speaker: &mut Speaker)
    requires
        old(state).wf(),
    ensures
        final(state).wf(),
        final(state).frame_counter == old(state).frame_counter,
        ({
            let r = confirm_spec(
                old(state).grid@,
                old(state).cursor,
                old(state).animations@,
                old(speaker).requests@,
            );
            &&& final(state).grid@ == r.0
            &&& final(state).cursor == r.1
            &&& final(state).animations@ == r.2
            &&& final(speaker).requests@ == r.3
        }),
{
    match state.cursor {
        Cursor::Unselected(c) => {
            if !state.grid[c].is_animating() {
                state.cursor = Cursor::Selected(c, c);
            }
        },
        Cursor::Selected(c1, c2) => {
            match (state.grid[c1], state.grid[c2]) {
                (GridCell::Present(h1), GridCell::Present(h2)) => {
                    start_swap(state, speaker, c1, c2, Some(h1), Some(h2));
                },
                (GridCell::Present(h1), GridCell::Absent) => {
                    start_swap(state, speaker, c1, c2, Some(h1), None);
                },
                (GridCell::Absent, GridCell::Present(h2)) => {
                    start_swap(state, speaker, c1, c2, None, Some(h2));
                },
                (GridCell::Absent, GridCell::Absent) => {
                    start_swap(state, speaker, c1, c2, None, None);
                },
                _ => {},
            }
        },
    }
}

/// Draw the half-hexagon with appearance `code` at grid cell `(x, y)`.
pub fn draw_hexagon(framebuffer: &mut Framebuffer, x: u8, y: u8, code: HalfHexSpec)
    requires
        old(framebuffer).wf(),
        x < 40,
        y < 60,
    ensures
        final(framebuffer).wf(),
{
    let (inside, outline) = get_colours(code);
    let (p_x, p_y) = p_xy(x, y);
    if x % 2 == 0 {
        framebuffer.hexagon_left(p_x, p_y, inside, outline);
    } else {
        framebuffer.hexagon_right(p_x, p_y, inside, outline);
    }
}

/// The simulation state after one game frame: every animation advances (an
/// arrival settles, may clear a matched pair, and cascades one gravity
/// pass), one global gravity pass runs, then the edge-triggered input
/// applies -- Confirm first, then Up, Down, Left and Right in that order.
#[verifier::opaque]
pub open spec fn frame_spec(
    g0: Seq<GridCell<HalfHexSpec>>,
    cur0: Cursor,
    anims0: Seq<Animation>,
    sounds0: Seq<SFX>,
    input: Input,
) -> (Seq<GridCell<HalfHexSpec>>, Cursor, Seq<Animation>, Seq<SFX>) {
    let adv = advance_steps(g0, anims0, sounds0, anims0.len());
    let grav = gravity_pass_spec(adv.0, adv.2, GRID_LENGTH as nat);
    let conf = if input.spec_pressed_this_frame(Buttons { bits: 0x01 }) {
        confirm_spec(grav.0, cur0, adv.1, grav.1)
    } else {
        (grav.0, cur0, adv.1, grav.1)
    };
    let c_up = if input.spec_pressed_this_frame(Buttons { bits: 0x10 }) {
        moved_cursor(conf.1, Dir::Up)
    } else {
        conf.1
    };
    let c_down = if input.spec_pressed_this_frame(Buttons { bits: 0x20 }) {
        moved_cursor(c_up, Dir::Down)
    } else {
        c_up
    };
    let c_left = if input.spec_pressed_this_frame(Buttons { bits: 0x40 }) {
        moved_cursor(c_down, Dir::Left)
    } else {
        c_down
    };
    let c_right = if input.spec_pressed_this_frame(Buttons { bits: 0x80 }) {
        moved_cursor(c_left, Dir::Right)
    } else {
        c_left
    };
    (conf.0, c_right, conf.2, conf.3)
}

/// The update phase of one frame, exactly as `frame_spec` describes:
/// advance animations, run the global gravity pass, then apply the
/// edge-triggered input.
fn simulate_frame(state: &mut GameState, input: Input, speaker: &mut Speaker)
    requires
        old(state).wf(),
    ensures
        final(state).wf(),
        final(state).frame_counter == old(state).frame_counter,
        ({
            let r = frame_spec(
                old(state).grid@,
                old(state).cursor,
                old(state).animations@,
                old(speaker).requests@,
                input,
            );
            &&& final(state).grid@ == r.0
            &&& final(state).cursor == r.1
            &&& final(state).animations@ == r.2
            &&& final(speaker).requests@ == r.3
        }),
{
    let ghost adv = advance_steps(
        old(state).grid@,
        old(state).animations@,
        old(speaker).requests@,
        old(state).animations@.len(),
    );
    advance_animations(state, speaker);
    proof {
        assert(state.grid@ == adv.0 && state.animations@ == adv.1 && speaker.requests@ == adv.2);
    }
    let ghost grav = gravity_pass_spec(adv.0, adv.2, GRID_LENGTH as nat);
    apply_gravity_once(&mut state.grid, speaker);
    proof {
        assert(state.grid@ == grav.0 && speaker.requests@ == grav.1);
    }

    let ghost conf = if input.spec_pressed_this_frame(Buttons { bits: 0x01 }) {
        confirm_spec(grav.0, old(state).cursor, adv.1, grav.1)
    } else {
        (grav.0, old(state).cursor, adv.1, grav.1)
    };
    if input.pressed_this_frame(Buttons::a()) {
        handle_confirm(state, speaker);
    }
    proof {
        assert(state.grid@ == conf.0 && state.cursor == conf.1 && state.animations@ == conf.2
            && speaker.requests@ == conf.3);
    }

    if input.pressed_this_frame(Buttons::up()) {
        state.cursor = state.cursor.move_active(Dir::Up);
    }
    if input.pressed_this_frame(Buttons::down()) {
        state.cursor = state.cursor.move_active(Dir::Down);
    }
    if input.pressed_this_frame(Buttons::left()) {
        state.cursor = state.cursor.move_active(Dir::Left);
    }
    if input.pressed_this_frame(Buttons::right()) {
        state.cursor = state.cursor.move_active(Dir::Right);
    }
    proof {
        reveal(frame_spec);
        let r = frame_spec(
            old(state).grid@,
            old(state).cursor,
            old(state).animations@,
            old(speaker).requests@,
            input,
        );
        assert(state.grid@ == r.0 && state.cursor == r.1 && state.animations@ == r.2
            && speaker.requests@ == r.3);
    }
}

/// One game frame, exactly as `frame_spec` describes, followed by the
/// render pass: the board, the cursor highlight and the in-flight pieces
/// are drawn, and the frame counter advances.
pub fn update_and_render(
    framebuffer: &mut Framebuffer,
    state: &mut GameState,
    input: Input,
    speaker: &mut Speaker,
)
    requires
        old(framebuffer).wf(),
        old(state).wf(),
    ensures
        final(framebuffer).wf(),
        final(state).wf(),
        final(state).frame_counter == old(state).frame_counter.wrapping_add(1),
        ({
            let r = frame_spec(
                old(state).grid@,
                old(state).cursor,
                old(state).animations@,
                old(speaker).requests@,
                input,
            );
            &&& final(state).grid@ == r.0
            &&& final(state).cursor == r.1
            &&& final(state).animations@ == r.2
            &&& final(speaker).requests@ == r.3
        }),
{
    simulate_frame(state, input, speaker);

    // diagnostic full-screen clears; the render pass repaints over them
    if input.gamepad == Buttons::b() {
        framebuffer.clear_to(BLUE);
    } else if input.gamepad == Buttons::select() {
        framebuffer.clear_to(WHITE);
    } else if input.gamepad == Buttons::start() {
        framebuffer.clear_to(RED);
    }

    framebuffer.clear_to(GREY);

    let ghost snap = *state;
    let mut y: u8 = 0;
    while y < GRID_HEIGHT
        invariant
            *state == snap,
            state.wf(),
            framebuffer.wf(),
            y <= 60,
        decreases 60 - y,
    {
        let mut x: u8 = 0;
        while x < GRID_WIDTH
            invariant
                *state == snap,
                state.wf(),
                framebuffer.wf(),
                x <= 40,
                y < 60,
            decreases 40 - x,
        {
            let i = xy_to_i(x, y);
            assert(i < GRID_LENGTH);
            if let GridCell::Present(code) = state.grid[i] {
                draw_hexagon(framebuffer, x, y, code);
            }
            x = x + 1;
        }
        y = y + 1;
    }

    let highlighted = state.cursor.iter();
    let mut k: usize = 0;
    while k < highlighted.len()
        invariant
            *state == snap,
            state.wf(),
            framebuffer.wf(),
            forall|j: int| 0 <= j < highlighted@.len() ==> (#[trigger] highlighted@[j])
                < GRID_LENGTH,
        decreases highlighted@.len() - k,
    {
        let index = highlighted[k];
        let (x, y) = i_to_xy(index);
        let (p_x, p_y) = p_xy(x, y);
        framebuffer.draw_marching_rect(
            p_x as usize - 1,
            p_y as usize - 1,
            6,
            10,
            state.frame_counter,
        );
        k = k + 1;
    }

    let mut k2: usize = 0;
    while k2 < state.animations.len()
        invariant
            *state == snap,
            state.wf(),
            framebuffer.wf(),
        decreases state.animations@.len() - k2,
    {
        let anim = state.animations[k2];
        if let Some(code) = anim.payload {
            draw_hexagon(framebuffer, anim.x, anim.y, code);
        }
        k2 = k2 + 1;
    }

    state.frame_counter = state.frame_counter.wrapping_add(1);
}

/// Everything a host needs to run the game: the simulation state plus the
/// render target, the current input snapshot, and the sound queue.
pub struct EntireState {
    pub game_state: GameState,
    pub framebuffer: Framebuffer,
    pub input: Input,
    pub speaker: Speaker,
}

impl EntireState {
    pub fn new(seed: [u8; 16]) -> (r: EntireState)
        ensures
            r.inv(),
            r.game_state.frame_counter == 0,
            r.game_state.animations@.len() == 0,
            r.input.gamepad.bits == 0,
            r.input.previous_gamepad.bits == 0,
            r.speaker.requests@.len() == 0,
    {
        EntireState {
            game_state: GameState::new(seed),
            framebuffer: Framebuffer::new(),
            input: Input::new(),
            speaker: Speaker::new(),
        }
    }
}

/// What a host drives once per rendered frame.  Each implementation states
/// its own effect relations, which the methods are proven to satisfy.
pub trait State: Sized {
    spec fn inv(&self) -> bool;

    /// What one frame does to the state and which sounds it hands out.
    spec fn frame_rel(pre: Self, post: Self, sounds: Seq<SFX>) -> bool;

    /// What recording a button press does to the state.
    spec fn press_rel(pre: Self, post: Self, button: Buttons) -> bool;

    /// What recording a button release does to the state.
    spec fn release_rel(pre: Self, post: Self, button: Buttons) -> bool;

    /// Run one frame and hand back the sound effects it requested.
    fn frame(&mut self) -> (sounds: Vec<SFX>)
        requires
            old(self).inv(),
        ensures
            final(self).inv(),
            Self::frame_rel(*old(self), *final(self), sounds@),
    ;

    /// Record that `button` went down.
    fn press(&mut self, button: Buttons)
        requires
            old(self).inv(),
        ensures
            final(self).inv(),
            Self::press_rel(*old(self), *final(self), button),
    ;

    /// Record that `button` went up.
    fn release(&mut self, button: Buttons)
        requires
            old(self).inv(),
        ensures
            final(self).inv(),
            Self::release_rel(*old(self), *final(self), button),
    ;

    /// The pixels to show, row-major.
    fn get_frame_buffer(&self) -> &[u32];
}

impl State for EntireState {
    open spec fn inv(&self) -> bool {
        self.game_state.wf() && self.framebuffer.wf()
    }

    /// One frame simulates `frame_spec` on the held input snapshot, hands
    /// out exactly the sound queue it built (leaving the queue empty),
    /// advances the frame counter, and remembers the gamepad for the next
    /// frame's edge detection.
    open spec fn frame_rel(pre: EntireState, post: EntireState, sounds: Seq<SFX>) -> bool {
        let r = frame_spec(
            pre.game_state.grid@,
            pre.game_state.cursor,
            pre.game_state.animations@,
            pre.speaker.requests@,
            pre.input,
        );
        &&& post.game_state.grid@ == r.0
        &&& post.game_state.cursor == r.1
        &&& post.game_state.animations@ == r.2
        &&& sounds == r.3
        &&& post.speaker.requests@.len() == 0
        &&& post.game_state.frame_counter == pre.game_state.frame_counter.wrapping_add(1)
        &&& post.input.gamepad == pre.input.gamepad
        &&& post.input.previous_gamepad == pre.input.gamepad
    }

    /// A press sets the button's bits; a repeat of a still-held button also
    /// clears it from the previous snapshot so the edge fires again.
    open spec fn press_rel(pre: EntireState, post: EntireState, button: Buttons) -> bool {
        &&& post.input.gamepad.bits == (pre.input.gamepad.bits | button.bits)
        &&& post.input.previous_gamepad.bits == (if pre.input.previous_gamepad.has(button) {
            pre.input.previous_gamepad.bits & !button.bits
        } else {
            pre.input.previous_gamepad.bits
        })
        &&& post.game_state == pre.game_state
        &&& post.framebuffer == pre.framebuffer
        &&& post.speaker == pre.speaker
    }

    /// A release clears the button's bits from the held snapshot.
    open spec fn release_rel(pre: EntireState, post: EntireState, button: Buttons) -> bool {
        &&& post.input.gamepad.bits == (pre.input.gamepad.bits & !button.bits)
        &&& post.input.previous_gamepad == pre.input.previous_gamepad
        &&& post.game_state == pre.game_state
        &&& post.framebuffer == pre.framebuffer
        &&& post.speaker == pre.speaker
    }

    fn frame(&mut self) -> (sounds: Vec<SFX>) {
        update_and_render(&mut self.framebuffer, &mut self.game_state, self.input, &mut self.speaker);
        self.input.previous_gamepad = self.input.gamepad;
        self.speaker.drain()
    }

    fn press(&mut self, button: Buttons) {
        if self.input.previous_gamepad.contains(button) {
            // pass a key repeat along by forgetting the previous hold
            self.input.previous_gamepad.remove(button);
        }
        self.input.gamepad.insert(button);
    }

    fn release(&mut self, button: Buttons) {
        self.input.gamepad.remove(button);
    }

    fn get_frame_buffer(&self) -> &[u32] {
        self.framebuffer.buffer.as_slice()
    }
}

} // verus!
