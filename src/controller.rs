use vstd::prelude::*;

use crate::bind_group_buffer::{
    BindGroupBufferType,
    BufferDescriptor,
    SSBO,
    STAGE_COMPUTE,
    STAGE_FRAGMENT,
};
use crate::camera::{grid_coord, inverse, scrolled, Camera, ONE};
use crate::cell::CellState;
use crate::clock::{elapsed_micros, now};
use crate::grid::{cell_bytes, index_of, lemma_run_one_more, run_model, Grid};
use crate::push_constants::{Bool, FragmentConstants, Point, Size};
use crate::simulation_runner::{
    carried_over,
    pacing_total,
    whole_steps,
    SimulationRunner,
    SPEED_SCALE,
    STEP_DISTANCE,
};
use web_time::Instant;

verus! {

/// The grid's width in cells.
pub const GRID_WIDTH: u32 = 192;

/// The grid's height in cells.
pub const GRID_HEIGHT: u32 = 192;

/// Start-up options.
pub struct Options {
    pub debug: bool,
}

/// A pointer button.
#[derive(Clone, Copy, Debug, PartialEq, Eq, Structural)]
pub enum MouseButton {
    Left,
    Middle,
    Right,
    Back,
    Forward,
    Other(u16),
}

/// Whether a button or key went down or up.
#[derive(Clone, Copy, Debug, PartialEq, Eq, Structural)]
pub enum ElementState {
    Pressed,
    Released,
}

/// The key a keyboard event names.
#[derive(Clone, Copy, Debug, PartialEq, Eq, Structural)]
pub enum Key {
    /// A key that types a character; the first character it types.
    Character(char),
    Space,
    Other,
}

#[derive(Clone, Copy, Debug, PartialEq, Eq, Structural)]
pub struct KeyEvent {
    pub logical_key: Key,
    pub state: ElementState,
}

/// The bit of the pressed-buttons mask that stands for `b`.
pub open spec fn button_bit(b: MouseButton) -> int {
    match b {
        MouseButton::Left => 0,
        MouseButton::Middle => 1,
        MouseButton::Right => 2,
        MouseButton::Back => 3,
        MouseButton::Forward => 4,
        MouseButton::Other(i) => 5 + i,
    }
}

/// The seed pattern: row `i`, column `j` of a three by three mask.
pub open spec fn seed_mask(i: int, j: int) -> bool {
    (i == 0 && j == 1) || (i == 1 && j == 0) || (i == 1 && j == 1) || (i == 2 && j == 1) || (i == 2
        && j == 2)
}

/// The grid at start-up: all `Off` but the seed pattern, whose row `i`,
/// column `j` stands at `(w/2 + i, h/2 + j)`.
pub open spec fn seeded_cells() -> Seq<CellState> {
    Seq::new(
        (GRID_WIDTH * GRID_HEIGHT) as nat,
        |k: int|
            if seed_mask(k % GRID_WIDTH as int - GRID_WIDTH / 2, k / GRID_WIDTH as int - GRID_HEIGHT / 2) {
                CellState::On
            } else {
                CellState::Off
            },
    )
}

/// The cell under the cursor, if the cursor is on the viewport and over the grid.
pub open spec fn cell_under(cam: Camera, cursor: Point, size: Size) -> Option<(int, int)> {
    if size.width == 0 || size.height == 0 {
        None
    } else {
        let x = grid_coord(cam.translate_x as int, cursor.x as int, size.width as int, cam.zoom as int)
            * GRID_WIDTH / ONE as int;
        let y = grid_coord(cam.translate_y as int, cursor.y as int, size.height as int, cam.zoom as int)
            * GRID_HEIGHT / ONE as int;
        if x < GRID_WIDTH && y < GRID_HEIGHT {
            Some((x, y))
        } else {
            None
        }
    }
}

/// The grid after a frame's painting: with the left button down, the cell
/// under the cursor is forced `On`.
pub open spec fn painted(cells: Seq<CellState>, pressed: u32, cam: Camera, cursor: Point, size: Size) -> Seq<
    CellState,
> {
    match cell_under(cam, cursor, size) {
        Some(c) => if pressed & 1u32 == 1u32 {
            cells.update(index_of(GRID_WIDTH as int, c.0, c.1), CellState::On)
        } else {
            cells
        },
        None => cells,
    }
}

/// `r` half-steps ran out of `due`: never more, at least one when any is due,
/// and all of them when the time budget is unlimited.
pub open spec fn steps_run_as_due(r: int, due: int, allowed: u128) -> bool {
    &&& r <= due
    &&& due >= 1 ==> r >= 1
    &&& allowed == u128::MAX ==> r == due
}

/// Owns the grid and everything a frame needs: viewport, cursor, buttons,
/// camera and pacing.
pub struct Controller {
    pub size: Size,
    pub start: Instant,
    pub cursor: Point,
    pub prev_cursor: Point,
    pub mouse_button_pressed: u32,
    pub camera: Camera,
    pub debug: bool,
    pub cell_grid: Grid,
    pub transition: bool,
    pub simulation_runner: SimulationRunner,
}

impl Controller {
    /// The grid has its fixed size and the camera its bounds.
    pub open spec fn wf(&self) -> bool {
        &&& self.cell_grid.wf()
        &&& self.cell_grid.size == (Size { width: GRID_WIDTH, height: GRID_HEIGHT })
        &&& self.camera.wf()
    }

    /// The grid after `k` more half-steps.
    pub open spec fn grid_after(&self, k: nat) -> Seq<CellState> {
        run_model(self.cell_grid@, GRID_WIDTH as int, GRID_HEIGHT as int, self.transition, k)
    }

    /// A controller with the seed pattern stamped at the grid's centre, the
    /// simulation paused in debug mode.
    pub fn new(options: &Options) -> (r: Controller)
        ensures
            r.wf(),
            r.cell_grid@ == seeded_cells(),
            r.size == (Size { width: 0, height: 0 }),
            r.cursor == (Point { x: 0, y: 0 }),
            r.prev_cursor == (Point { x: 0, y: 0 }),
            r.mouse_button_pressed == 0,
            r.camera == Camera::new_spec(),
            r.debug == options.debug,
            !r.transition,
            r.simulation_runner.paused == options.debug,
            r.simulation_runner.speed == SPEED_SCALE,
            r.simulation_runner.carried() == 0,
    {
        let start = now();
        let mut cell_grid = Grid::new(Size { width: GRID_WIDTH, height: GRID_HEIGHT });
        let p: u32 = GRID_WIDTH / 2;
        let q: u32 = GRID_HEIGHT / 2;
        cell_grid.set(p, q + 1, CellState::On);
        cell_grid.set(p + 1, q, CellState::On);
        cell_grid.set(p + 1, q + 1, CellState::On);
        cell_grid.set(p + 2, q + 1, CellState::On);
        cell_grid.set(p + 2, q + 2, CellState::On);
        proof {
            assert forall|k: int| 0 <= k < (GRID_WIDTH * GRID_HEIGHT) as int implies cell_grid@[k]
                == seeded_cells()[k] by {
                let x = k % 192;
                let y = k / 192;
                assert(k == y * 192 + x);
            }
            assert(cell_grid@ =~= seeded_cells());
        }
        Controller {
            size: Size { width: 0, height: 0 },
            start,
            cursor: Point { x: 0, y: 0 },
            prev_cursor: Point { x: 0, y: 0 },
            mouse_button_pressed: 0,
            camera: Camera::new(),
            debug: options.debug,
            cell_grid,
            transition: false,
            simulation_runner: SimulationRunner::new(start, options.debug),
        }
    }
    pub fn resize(&mut self, size: Size)
        ensures
            *final(self) == (Controller { size, ..*old(self) }),
    {
        self.size = size;
    }

    pub fn mouse_move(&mut self, position: Point)
        ensures
            *final(self) == (Controller { cursor: position, ..*old(self) }),
    {
        self.cursor = position;
    }

    /// Zooms by `1 + delta` (in millionths) towards the cursor.
    pub fn mouse_scroll(&mut self, delta: i64)
        requires
            old(self).wf(),
        ensures
            final(self).wf(),
            *final(self) == (Controller {
                camera: scrolled(
                    old(self).camera,
                    delta as int,
                    old(self).cursor.x as int,
                    old(self).cursor.y as int,
                    old(self).size,
                ),
                ..*old(self)
            }),
    {
        self.camera.scroll(delta, self.cursor.x, self.cursor.y, self.size);
    }

    /// Sets or clears the button's bit in the pressed-buttons mask.
    pub fn mouse_input(&mut self, state: ElementState, button: MouseButton)
        requires
            button_bit(button) < 32,
        ensures
            *final(self) == (Controller {
                mouse_button_pressed: match state {
                    ElementState::Pressed => old(self).mouse_button_pressed | (1u32 << (button_bit(
                        button,
                    ) as u32)),
                    ElementState::Released => old(self).mouse_button_pressed & !(1u32 << (
                    button_bit(button) as u32)),
                },
                ..*old(self)
            }),
    {
        let bit: u32 = match button {
            MouseButton::Left => 0,
            MouseButton::Middle => 1,
            MouseButton::Right => 2,
            MouseButton::Back => 3,
            MouseButton::Forward => 4,
            MouseButton::Other(i) => 5 + i as u32,
        };
        let mask: u32 = 1u32 << bit;
        match state {
            ElementState::Pressed => self.mouse_button_pressed = self.mouse_button_pressed | mask,
            ElementState::Released => self.mouse_button_pressed = self.mouse_button_pressed & !mask,
        }
    }

    /// Space toggles the pause; `x` queues one step, run whatever the speed.
    /// Releases and other keys change nothing.
    pub fn keyboard_input(&mut self, key: KeyEvent)
        ensures
            final(self).simulation_runner.paused == if key.state == ElementState::Pressed
                && key.logical_key == Key::Space {
                !old(self).simulation_runner.paused
            } else {
                old(self).simulation_runner.paused
            },
            final(self).simulation_runner.carried() == if key.state == ElementState::Pressed
                && key.logical_key == Key::Character('x')
                && old(self).simulation_runner.carried() + STEP_DISTANCE <= u128::MAX {
                old(self).simulation_runner.carried() + STEP_DISTANCE
            } else if key.state == ElementState::Pressed && key.logical_key == Key::Character('x') {
                u128::MAX as int
            } else {
                old(self).simulation_runner.carried()
            },
            final(self).simulation_runner.speed == old(self).simulation_runner.speed,
            final(self).simulation_runner.last_frame == old(self).simulation_runner.last_frame,
            *final(self) == (Controller { simulation_runner: final(self).simulation_runner, ..*old(self) }),
    {
        if key.state == ElementState::Released {
            return;
        }
        match key.logical_key {
            Key::Character(c) => {
                if c == 'x' {
                    self.simulation_runner.add_iteration();
                }
            },
            Key::Space => {
                self.simulation_runner.paused = !self.simulation_runner.paused;
            },
            Key::Other => {},
        }
    }

    /// The cell under the cursor, if any; see `cell_under`.
    fn cursor_cell(&self) -> (r: Option<(u32, u32)>)
        requires
            self.wf(),
        ensures
            match r {
                Some(c) => cell_under(self.camera, self.cursor, self.size) == Some((c.0 as int, c.1 as int)),
                None => cell_under(self.camera, self.cursor, self.size).is_none(),
            },
    {
        if self.size.width == 0 || self.size.height == 0 {
            return None;
        }
        let inv = inverse(self.camera.zoom);
        proof {
            let i = inv as int;
            assert(self.cursor.x * i <= u32::MAX * ONE) by (nonlinear_arith)
                requires
                    0 <= i <= ONE,
                    self.cursor.x <= u32::MAX,
            ;
            assert(self.cursor.y * i <= u32::MAX * ONE) by (nonlinear_arith)
                requires
                    0 <= i <= ONE,
                    self.cursor.y <= u32::MAX,
            ;
            let (cx, cy) = (self.cursor.x as int, self.cursor.y as int);
            let (sx, sy) = (self.size.width as int, self.size.height as int);
            assert(cx * i / sx <= cx * i) by (nonlinear_arith)
                requires
                    sx >= 1,
                    cx * i >= 0,
            ;
            assert(cy * i / sy <= cy * i) by (nonlinear_arith)
                requires
                    sy >= 1,
                    cy * i >= 0,
            ;
        }
        let gx = self.camera.translate_x as u128 + self.cursor.x as u128 * inv as u128
            / self.size.width as u128;
        let gy = self.camera.translate_y as u128 + self.cursor.y as u128 * inv as u128
            / self.size.height as u128;
        let x = gx * GRID_WIDTH as u128 / ONE as u128;
        let y = gy * GRID_HEIGHT as u128 / ONE as u128;
        if x < GRID_WIDTH as u128 && y < GRID_HEIGHT as u128 {
            Some((x as u32, y as u32))
        } else {
            None
        }
    }
    /// Forces the cell under the cursor `On` while the left button is down,
    /// then returns the frame's snapshot; the cursor is remembered as the
    /// previous one for the next frame.
    pub fn prepare_render(&mut self, offset: Point) -> (r: FragmentConstants)
        requires
            old(self).wf(),
        ensures
            final(self).wf(),
            final(self).cell_grid@ == painted(
                old(self).cell_grid@,
                old(self).mouse_button_pressed,
                old(self).camera,
                old(self).cursor,
                old(self).size,
            ),
            *final(self) == (Controller {
                prev_cursor: old(self).cursor,
                cell_grid: final(self).cell_grid,
                ..*old(self)
            }),
            r == (FragmentConstants {
                size: old(self).size,
                cursor: old(self).cursor,
                prev_cursor: old(self).prev_cursor,
                time: r.time,
                mouse_button_pressed: old(self).mouse_button_pressed,
                camera_zoom: old(self).camera.zoom,
                camera_translate_x: old(self).camera.translate_x,
                camera_translate_y: old(self).camera.translate_y,
                debug: Bool { value: if old(self).debug { 1u32 } else { 0u32 } },
                translate: offset,
            }),
    {
        if self.mouse_button_pressed & 1 == 1 {
            match self.cursor_cell() {
                Some(c) => self.cell_grid.set(c.0, c.1, CellState::On),
                None => {},
            }
        }
        let fragment_constants = FragmentConstants {
            size: self.size,
            cursor: self.cursor,
            prev_cursor: self.prev_cursor,
            time: elapsed_micros(&self.start),
            mouse_button_pressed: self.mouse_button_pressed,
            camera_zoom: self.camera.zoom,
            camera_translate_x: self.camera.translate_x,
            camera_translate_y: self.camera.translate_y,
            debug: Bool::from(self.debug),
            translate: offset,
        };
        self.prev_cursor = self.cursor;
        fragment_constants
    }

    /// Runs exactly `n` half-steps of the automaton.
    pub fn run_half_steps(&mut self, n: u32)
        requires
            old(self).wf(),
        ensures
            final(self).wf(),
            final(self).cell_grid@ == old(self).grid_after(n as nat),
            final(self).transition == (old(self).transition != (n % 2 == 1)),
            *final(self) == (Controller {
                cell_grid: final(self).cell_grid,
                transition: final(self).transition,
                ..*old(self)
            }),
    {
        let mut i: u32 = 0;
        while i < n
            invariant
                i <= n,
                self.wf(),
                self.cell_grid@ == old(self).grid_after(i as nat),
                self.transition == (old(self).transition != (i % 2 == 1)),
                *self == (Controller {
                    cell_grid: self.cell_grid,
                    transition: self.transition,
                    ..*old(self)
                }),
            decreases n - i,
        {
            self.cell_grid.half_step(self.transition);
            self.transition = !self.transition;
            proof {
                lemma_run_one_more(
                    old(self).cell_grid@,
                    GRID_WIDTH as int,
                    GRID_HEIGHT as int,
                    old(self).transition,
                    i as nat,
                );
            }
            i = i + 1;
        }
    }

    /// Runs the half-steps that pacing says are due, stopping early once
    /// `allowed` microseconds have passed in this call; returns how many ran.
    /// At least one runs whenever one is due, since the budget is checked
    /// after each; steps cut by the budget are not carried to later frames.
    pub fn update(&mut self, allowed: u128) -> (r: u32)
        requires
            old(self).wf(),
        ensures
            final(self).wf(),
            exists|elapsed: u128|
                #![trigger pacing_total(
                    old(self).simulation_runner.carried(),
                    old(self).simulation_runner.paused,
                    old(self).simulation_runner.speed as int,
                    elapsed as int,
                )]
                steps_run_as_due(
                    r as int,
                    whole_steps(
                        pacing_total(
                            old(self).simulation_runner.carried(),
                            old(self).simulation_runner.paused,
                            old(self).simulation_runner.speed as int,
                            elapsed as int,
                        ),
                    ),
                    allowed,
                ) && final(self).simulation_runner.carried() == carried_over(
                    pacing_total(
                        old(self).simulation_runner.carried(),
                        old(self).simulation_runner.paused,
                        old(self).simulation_runner.speed as int,
                        elapsed as int,
                    ),
                ),
            final(self).simulation_runner.paused == old(self).simulation_runner.paused,
            final(self).simulation_runner.speed == old(self).simulation_runner.speed,
            final(self).cell_grid@ == old(self).grid_after(r as nat),
            final(self).transition == (old(self).transition != (r % 2 == 1)),
            *final(self) == (Controller {
                cell_grid: final(self).cell_grid,
                transition: final(self).transition,
                simulation_runner: final(self).simulation_runner,
                ..*old(self)
            }),
    {
        let frame_start = now();
        let steps = self.simulation_runner.iterations();
        let ghost elapsed = choose|elapsed: u128|
            steps == whole_steps(
                pacing_total(
                    old(self).simulation_runner.carried(),
                    old(self).simulation_runner.paused,
                    old(self).simulation_runner.speed as int,
                    elapsed as int,
                ),
            ) && self.simulation_runner.carried() == carried_over(
                pacing_total(
                    old(self).simulation_runner.carried(),
                    old(self).simulation_runner.paused,
                    old(self).simulation_runner.speed as int,
                    elapsed as int,
                ),
            );
        let ghost runner = self.simulation_runner;
        let mut done: u32 = 0;
        while done < steps
            invariant
                done <= steps,
                self.wf(),
                self.simulation_runner == runner,
                self.cell_grid@ == old(self).grid_after(done as nat),
                self.transition == (old(self).transition != (done % 2 == 1)),
                *self == (Controller {
                    cell_grid: self.cell_grid,
                    transition: self.transition,
                    simulation_runner: runner,
                    ..*old(self)
                }),
            ensures
                done <= steps,
                steps >= 1 ==> done >= 1,
                allowed == u128::MAX ==> done == steps,
                self.wf(),
                self.simulation_runner == runner,
                self.cell_grid@ == old(self).grid_after(done as nat),
                self.transition == (old(self).transition != (done % 2 == 1)),
                *self == (Controller {
                    cell_grid: self.cell_grid,
                    transition: self.transition,
                    simulation_runner: runner,
                    ..*old(self)
                }),
            decreases steps - done,
        {
            self.cell_grid.half_step(self.transition);
            self.transition = !self.transition;
            proof {
                lemma_run_one_more(
                    old(self).cell_grid@,
                    GRID_WIDTH as int,
                    GRID_HEIGHT as int,
                    old(self).transition,
                    done as nat,
                );
            }
            done = done + 1;
            if elapsed_micros(&frame_start) > allowed {
                break;
            }
        }
        proof {
            // The clock reading chosen above is the witness of the `exists`.
            assert(steps_run_as_due(done as int, steps as int, allowed));
        }
        done
    }

    /// The grid's contents as a storage buffer's bytes.
    pub fn cell_bytes(&self) -> (r: Vec<u8>)
        requires
            self.wf(),
        ensures
            r@ == cell_bytes(self.cell_grid@),
    {
        self.cell_grid.to_bytes()
    }

    /// The buffers the shaders bind: the grid, read and written by the
    /// fragment and compute stages.
    pub fn buffers<'a>(&self, cell_bytes: &'a [u8]) -> (r: Vec<BufferDescriptor<'a>>)
        ensures
            r@.len() == 1,
            r@[0].buffer_type == BindGroupBufferType::SSBO(SSBO { data: cell_bytes, read_only: false }),
            r@[0].shader_stages == STAGE_FRAGMENT | STAGE_COMPUTE,
    {
        let mut r: Vec<BufferDescriptor<'a>> = Vec::new();
        r.push(
            BufferDescriptor {
                buffer_type: BindGroupBufferType::SSBO(SSBO { data: cell_bytes, read_only: false }),
                shader_stages: STAGE_FRAGMENT | STAGE_COMPUTE,
            },
        );
        r
    }
}

} // verus!
