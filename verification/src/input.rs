//! Decoding of one key press into the action it asks for.

use vstd::prelude::*;
use crate::geometry::Point;

verus! {

/// The key that was pressed during a tick, already decoded from the
/// keyboard. At most one key is seen per tick.
#[derive(Clone, Copy, Debug, PartialEq, Eq, Structural)]
pub enum Key {
    Left,
    Right,
    Up,
    Down,
    /// The pick-up key.
    G,
    Key1,
    Key2,
    Key3,
    Key4,
    Key5,
    Key6,
    Key7,
    Key8,
    Key9,
    Escape,
    /// Any key that has no meaning in the dungeon, by its scan code.
    Other(u32),
}

/// What a key press asks the player's character to do.
#[derive(Clone, Copy, Debug, PartialEq, Eq, Structural)]
pub enum Action {
    /// Step by a unit displacement, or attack what stands there.
    Step(Point),
    /// Pick up everything that lies on the player's cell.
    PickUp,
    /// Use the carried item in the given slot, counted from zero.
    UseItem(usize),
    /// The key means nothing: the turn passes and nothing happens.
    Nothing,
}

impl Action {
    /// The displacement that the action asks for: a unit step for
    /// `Step`, zero otherwise.
    pub open spec fn delta_spec(self) -> Point {
        match self {
            Action::Step(d) => d,
            _ => Point { x: 0, y: 0 },
        }
    }

    /// True for the actions that leave the player standing and let it rest:
    /// picking up and using an item. A key without meaning does not count.
    pub open spec fn rests_spec(self) -> bool {
        self is PickUp || self is UseItem
    }

    #[verifier::when_used_as_spec(delta_spec)]
    pub fn delta(self) -> (d: Point)
        ensures
            d == self.delta_spec(),
    {
        match self {
            Action::Step(d) => d,
            _ => Point { x: 0, y: 0 },
        }
    }

    #[verifier::when_used_as_spec(rests_spec)]
    pub fn rests(self) -> (r: bool)
        ensures
            r == self.rests_spec(),
    {
        match self {
            Action::PickUp => true,
            Action::UseItem(_) => true,
            _ => false,
        }
    }
}

impl Key {
    /// The meaning of each key: the four arrows step one cell (up is
    /// towards smaller `y`), `G` picks up, `Key1` to `Key9` use the slots 0
    /// to 8, every other key means nothing.
    pub open spec fn decode_spec(self) -> Action {
        match self {
            Key::Left => Action::Step(Point { x: -1i32, y: 0 }),
            Key::Right => Action::Step(Point { x: 1, y: 0 }),
            Key::Up => Action::Step(Point { x: 0, y: -1i32 }),
            Key::Down => Action::Step(Point { x: 0, y: 1 }),
            Key::G => Action::PickUp,
            Key::Key1 => Action::UseItem(0),
            Key::Key2 => Action::UseItem(1),
            Key::Key3 => Action::UseItem(2),
            Key::Key4 => Action::UseItem(3),
            Key::Key5 => Action::UseItem(4),
            Key::Key6 => Action::UseItem(5),
            Key::Key7 => Action::UseItem(6),
            Key::Key8 => Action::UseItem(7),
            Key::Key9 => Action::UseItem(8),
            Key::Escape => Action::Nothing,
            Key::Other(_) => Action::Nothing,
        }
    }

    #[verifier::when_used_as_spec(decode_spec)]
    pub fn decode(self) -> (action: Action)
        ensures
            action == self.decode_spec(),
            action is Step ==> !action.delta_spec().is_zero_spec()
                && -1 <= action.delta_spec().x <= 1
                && -1 <= action.delta_spec().y <= 1,
    {
        match self {
            Key::Left => Action::Step(Point { x: -1, y: 0 }),
            Key::Right => Action::Step(Point { x: 1, y: 0 }),
            Key::Up => Action::Step(Point { x: 0, y: -1 }),
            Key::Down => Action::Step(Point { x: 0, y: 1 }),
            Key::G => Action::PickUp,
            Key::Key1 => Action::UseItem(0),
            Key::Key2 => Action::UseItem(1),
            Key::Key3 => Action::UseItem(2),
            Key::Key4 => Action::UseItem(3),
            Key::Key5 => Action::UseItem(4),
            Key::Key6 => Action::UseItem(5),
            Key::Key7 => Action::UseItem(6),
            Key::Key8 => Action::UseItem(7),
            Key::Key9 => Action::UseItem(8),
            Key::Escape => Action::Nothing,
            Key::Other(_) => Action::Nothing,
        }
    }
}

} // verus!
