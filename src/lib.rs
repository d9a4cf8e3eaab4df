use vstd::prelude::*;

pub mod roads;
pub mod vehicle;
pub mod vehicles_management;

verus! {

/// Width of the playfield, in pixels.
pub const WINDOW_WIDTH: i32 = 1024;

/// Height of the playfield, in pixels.
pub const WINDOW_HEIGHT: i32 = 768;

} // verus!
