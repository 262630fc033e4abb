//! The window of the map that is drawn around the player.

use vstd::prelude::*;
use crate::geometry::Point;

verus! {

/// Width of the drawn window, in cells.
pub const DISPLAY_WIDTH: i32 = 40;

/// Height of the drawn window, in cells.
pub const DISPLAY_HEIGHT: i32 = 25;

/// The rectangle of map cells shown on screen, centred on the player.
#[derive(Clone, Copy, Debug, PartialEq, Eq, Structural)]
pub struct Camera {
    pub left_x: i32,
    pub right_x: i32,
    pub top_y: i32,
    pub bottom_y: i32,
}

impl Camera {
    /// True when a window centred on `center` has all four edges inside `i32`.
    pub open spec fn fits(center: Point) -> bool {
        &&& i32::MIN + DISPLAY_WIDTH / 2 <= center.x <= i32::MAX - DISPLAY_WIDTH / 2
        &&& i32::MIN + DISPLAY_HEIGHT / 2 <= center.y <= i32::MAX - DISPLAY_HEIGHT / 2
    }

    /// Centres the window on the player: half the display width to either
    /// side, half the display height above and below (halves round down).
    pub fn new(player_position: Point) -> (camera: Camera)
        requires
            Camera::fits(player_position),
        ensures
            camera.left_x == player_position.x - DISPLAY_WIDTH / 2,
            camera.right_x == player_position.x + DISPLAY_WIDTH / 2,
            camera.top_y == player_position.y - DISPLAY_HEIGHT / 2,
            camera.bottom_y == player_position.y + DISPLAY_HEIGHT / 2,
    {
        Camera {
            left_x: player_position.x - DISPLAY_WIDTH / 2,
            right_x: player_position.x + DISPLAY_WIDTH / 2,
            top_y: player_position.y - DISPLAY_HEIGHT / 2,
            bottom_y: player_position.y + DISPLAY_HEIGHT / 2,
        }
    }
}

} // verus!
