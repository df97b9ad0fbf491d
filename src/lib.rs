//! A toroidal four-state Game-of-Life grid driven by a frame controller
//! that paces simulation steps against elapsed time and keeps a zoomable,
//! pannable view of the grid.

mod bind_group_buffer;
mod camera;
mod cell;
mod clock;
mod controller;
mod fps_counter;
mod grid;
mod push_constants;
mod simulation_runner;
mod ui;
mod user_event;

pub use bind_group_buffer::{
    BindGroupBufferType,
    BufferDescriptor,
    SSBO,
    STAGE_COMPUTE,
    STAGE_FRAGMENT,
    STAGE_VERTEX,
    Uniform,
};
pub use camera::{Camera, MAX_ZOOM, ONE};
pub use cell::CellState;
pub use controller::{
    Controller,
    ElementState,
    GRID_HEIGHT,
    GRID_WIDTH,
    Key,
    KeyEvent,
    MouseButton,
    Options,
};
pub use fps_counter::FpsCounter;
pub use grid::Grid;
pub use push_constants::{Bool, FragmentConstants, Point, Size};
pub use simulation_runner::{SimulationRunner, SPEED_SCALE, STEP_DISTANCE, STEPS_PER_SECOND};
pub use ui::UiState;
pub use user_event::UserEvent;
