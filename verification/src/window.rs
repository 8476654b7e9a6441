//! What a window is asked to be when it is created, and what it is once it
//! is open.

use vstd::prelude::*;

verus! {

/// The title and the size, in pixels, that a new window is to have.
pub struct WindowProperties {
    pub title: String,
    pub width: u32,
    pub height: u32,
}

/// What an open window is: its title, its size in pixels, and whether it
/// waits for the display before it shows a frame.
pub struct WindowData {
    pub title: String,
    pub width: u32,
    pub height: u32,
    pub vsync: bool,
}

impl WindowProperties {
    pub fn new(title: &str, width: u32, height: u32) -> (window: WindowProperties)
        ensures
            window.title@ == title@,
            window.width == width,
            window.height == height,
    {
        WindowProperties { title: title.to_owned(), width, height }
    }
}

} // verus!
