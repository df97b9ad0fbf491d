use life_runner::{
    BindGroupBufferType, CellState, Controller, ElementState, Key, KeyEvent, MouseButton, Options,
    Point, Size, GRID_HEIGHT, GRID_WIDTH, STAGE_COMPUTE, STAGE_FRAGMENT, STEP_DISTANCE,
};

fn cells(c: &Controller) -> Vec<(u32, u32, CellState)> {
    let mut out = Vec::new();
    for y in 0..GRID_HEIGHT {
        for x in 0..GRID_WIDTH {
            let s = c.cell_grid.get(x, y);
            if s != CellState::Off {
                out.push((x, y, s));
            }
        }
    }
    out
}

fn key(k: Key, state: ElementState) -> KeyEvent {
    KeyEvent { logical_key: k, state }
}

use CellState::{Dying, On, Spawning};

#[test]
fn new_controller_holds_the_seed() {
    let c = Controller::new(&Options { debug: false });
    assert_eq!(c.cell_grid.size, Size { width: 192, height: 192 });
    assert_eq!(
        cells(&c),
        vec![(97, 96, On), (96, 97, On), (97, 97, On), (98, 97, On), (98, 98, On)]
    );
    assert!(!c.transition);
    assert!(!c.simulation_runner.paused);
    let d = Controller::new(&Options { debug: true });
    assert!(d.simulation_runner.paused);
    assert!(d.debug);
}

#[test]
fn golden_states_after_one_two_and_ten_half_steps() {
    let mut c = Controller::new(&Options { debug: false });
    c.run_half_steps(1);
    assert_eq!(
        cells(&c),
        vec![
            (96, 96, Spawning),
            (97, 96, On),
            (98, 96, Spawning),
            (96, 97, On),
            (97, 97, Dying),
            (98, 97, On),
            (98, 98, On)
        ]
    );
    assert!(c.transition);
    c.run_half_steps(1);
    assert_eq!(
        cells(&c),
        vec![(96, 96, On), (97, 96, On), (98, 96, On), (96, 97, On), (98, 97, On), (98, 98, On)]
    );
    c.run_half_steps(8);
    let ten = cells(&c);
    assert_eq!(
        ten,
        vec![
            (97, 95, On),
            (98, 95, On),
            (96, 96, On),
            (98, 96, On),
            (96, 97, On),
            (99, 97, On),
            (97, 98, On),
            (98, 98, On),
            (98, 99, On)
        ]
    );
    let mut again = Controller::new(&Options { debug: false });
    again.run_half_steps(10);
    assert_eq!(cells(&again), ten);
    assert_eq!(again.transition, c.transition);
}

#[test]
fn buttons_set_and_clear_their_bits() {
    let mut c = Controller::new(&Options { debug: false });
    c.mouse_input(ElementState::Pressed, MouseButton::Left);
    assert_eq!(c.mouse_button_pressed, 1);
    c.mouse_input(ElementState::Pressed, MouseButton::Right);
    assert_eq!(c.mouse_button_pressed, 0b101);
    c.mouse_input(ElementState::Pressed, MouseButton::Other(3));
    assert_eq!(c.mouse_button_pressed, 0b1_0000_0101);
    c.mouse_input(ElementState::Released, MouseButton::Left);
    assert_eq!(c.mouse_button_pressed, 0b1_0000_0100);
    c.mouse_input(ElementState::Released, MouseButton::Middle);
    assert_eq!(c.mouse_button_pressed, 0b1_0000_0100);
    c.mouse_input(ElementState::Pressed, MouseButton::Forward);
    c.mouse_input(ElementState::Pressed, MouseButton::Back);
    assert_eq!(c.mouse_button_pressed, 0b1_0001_1100);
}

#[test]
fn space_toggles_pause_on_press_only() {
    let mut c = Controller::new(&Options { debug: false });
    c.keyboard_input(key(Key::Space, ElementState::Pressed));
    assert!(c.simulation_runner.paused);
    c.keyboard_input(key(Key::Space, ElementState::Released));
    assert!(c.simulation_runner.paused);
    c.keyboard_input(key(Key::Space, ElementState::Pressed));
    assert!(!c.simulation_runner.paused);
    c.keyboard_input(key(Key::Character('z'), ElementState::Pressed));
    c.keyboard_input(key(Key::Other, ElementState::Pressed));
    assert!(!c.simulation_runner.paused);
    assert_eq!(c.simulation_runner.distance(), 0);
}

#[test]
fn single_step_key_runs_one_step_while_paused() {
    let mut c = Controller::new(&Options { debug: true });
    assert_eq!(c.update(u128::MAX), 0);
    c.keyboard_input(key(Key::Character('x'), ElementState::Released));
    assert_eq!(c.simulation_runner.distance(), 0);
    c.keyboard_input(key(Key::Character('x'), ElementState::Pressed));
    assert_eq!(c.simulation_runner.distance(), STEP_DISTANCE);
    assert_eq!(c.update(u128::MAX), 1);
    assert!(c.transition);
    assert_eq!(cells(&c).len(), 7);
    assert_eq!(c.update(u128::MAX), 0);
}

#[test]
fn update_stops_after_the_time_budget() {
    let mut c = Controller::new(&Options { debug: true });
    for _ in 0..5 {
        c.keyboard_input(key(Key::Character('x'), ElementState::Pressed));
    }
    assert_eq!(c.update(0), 1);
}

#[test]
fn left_button_paints_the_cell_under_the_cursor() {
    let mut c = Controller::new(&Options { debug: true });
    c.resize(Size { width: 384, height: 384 });
    c.mouse_move(Point { x: 21, y: 41 });
    let frame = c.prepare_render(Point { x: 0, y: 0 });
    assert_eq!(c.cell_grid.get(10, 20), CellState::Off);
    assert_eq!(frame.cursor, Point { x: 21, y: 41 });
    assert_eq!(frame.prev_cursor, Point { x: 0, y: 0 });
    assert_eq!(frame.debug.value, 1);
    c.mouse_input(ElementState::Pressed, MouseButton::Left);
    let frame = c.prepare_render(Point { x: 3, y: 4 });
    assert_eq!(c.cell_grid.get(10, 20), CellState::On);
    assert_eq!(frame.prev_cursor, Point { x: 21, y: 41 });
    assert_eq!(frame.mouse_button_pressed, 1);
    assert_eq!(frame.translate, Point { x: 3, y: 4 });
    assert_eq!(frame.size, Size { width: 384, height: 384 });
    assert_eq!(frame.camera_zoom, 1_000_000);
    assert_eq!(c.prev_cursor, Point { x: 21, y: 41 });
}

#[test]
fn painting_follows_the_camera() {
    let mut c = Controller::new(&Options { debug: true });
    c.resize(Size { width: 384, height: 384 });
    c.mouse_move(Point { x: 384, y: 384 });
    c.mouse_scroll(1_000_000);
    assert_eq!(c.camera.zoom, 2_000_000);
    assert_eq!(c.camera.translate_x, 500_000);
    c.mouse_move(Point { x: 1, y: 1 });
    c.mouse_input(ElementState::Pressed, MouseButton::Left);
    c.prepare_render(Point { x: 0, y: 0 });
    assert_eq!(c.cell_grid.get(96, 96), CellState::On);
}

#[test]
fn cursor_off_the_viewport_paints_nothing() {
    let mut c = Controller::new(&Options { debug: true });
    c.mouse_input(ElementState::Pressed, MouseButton::Left);
    c.prepare_render(Point { x: 0, y: 0 });
    assert_eq!(cells(&c).len(), 5);
    c.resize(Size { width: 100, height: 100 });
    c.mouse_move(Point { x: 100, y: 5 });
    c.prepare_render(Point { x: 0, y: 0 });
    assert_eq!(cells(&c).len(), 5);
}

#[test]
fn buffers_hand_out_the_grid_bytes() {
    let c = Controller::new(&Options { debug: false });
    let bytes = c.cell_bytes();
    assert_eq!(bytes.len(), 192 * 192 * 4);
    assert_eq!(bytes[(96 * 192 + 97) * 4], 1);
    assert_eq!(bytes[(96 * 192 + 96) * 4], 0);
    let buffers = c.buffers(&bytes);
    assert_eq!(buffers.len(), 1);
    assert_eq!(buffers[0].shader_stages, STAGE_FRAGMENT | STAGE_COMPUTE);
    match &buffers[0].buffer_type {
        BindGroupBufferType::SSBO(s) => {
            assert!(!s.read_only);
            assert_eq!(s.data.len(), bytes.len());
        }
        BindGroupBufferType::Uniform(_) => panic!("expected a storage buffer"),
    }
}

#[test]
fn unlimited_budget_runs_every_due_step() {
    let mut c = Controller::new(&Options { debug: true });
    for _ in 0..5 {
        c.keyboard_input(key(Key::Character('x'), ElementState::Pressed));
    }
    assert_eq!(c.update(u128::MAX), 5);
    assert!(c.transition);
    let mut d = Controller::new(&Options { debug: true });
    d.run_half_steps(5);
    assert_eq!(cells(&c), cells(&d));
    assert_eq!(c.update(u128::MAX), 0);
}
