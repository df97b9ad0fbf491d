use vstd::prelude::*;

verus! {

/// What the interface shows and sets: the frame rate, vsync and fullscreen.
pub struct UiState {
    pub fps: u32,
    pub vsync: bool,
    pub fullscreen: bool,
    pub fullscreen_set: bool,
}

impl UiState {
    /// No frames counted yet, vsync on, windowed.
    pub fn new() -> (r: UiState)
        ensures
            r.fps == 0,
            r.vsync,
            !r.fullscreen,
            !r.fullscreen_set,
    {
        UiState { fps: 0, vsync: true, fullscreen: false, fullscreen_set: false }
    }

    /// The frames counted over the last second.
    pub fn fps(&self) -> (r: &u32)
        ensures
            *r == self.fps,
    {
        &self.fps
    }

    /// Whether fullscreen has been set on the window.
    pub fn is_fullscreen(&self) -> (r: bool)
        ensures
            r == self.fullscreen_set,
    {
        self.fullscreen_set
    }
}

impl Default for UiState {
    fn default() -> (r: UiState)
        ensures
            r.fps == 0,
            r.vsync,
            !r.fullscreen,
            !r.fullscreen_set,
    {
        UiState::new()
    }
}

} // verus!
