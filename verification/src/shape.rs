//! Where a box is, how big it is and how it moves.

use crate::geometry::{direction_vector, scale, spec_direction_vector, Direction, Vector, P};
use vstd::prelude::*;

verus! {

/// Speed, in units per second, of a shape that was set moving in a
/// direction.
pub const MOVEMENT_SPEED: i32 = 1000;

/// Shape (a square of side `size`) spatial state: where it is, where it
/// was before it was last moved, and its velocity. Shapes here do not turn.
pub struct Shape {
    pub center: P,
    pub center_prev: P,
    pub size: u32,
    /// Velocity, in units per second.
    pub vel: Vector,
}

impl Shape {
    /// A shape has a side longer than nothing.
    pub open spec fn wf(&self) -> bool {
        self.size > 0
    }

    pub fn new(center: (i32, i32), size: u32, vel: (i32, i32)) -> (shape: Self)
        requires
            size > 0,
        ensures
            shape.wf(),
            shape.center == center,
            shape.center_prev == center,
            shape.size == size,
            shape.vel == vel,
    {
        Shape { center, center_prev: center, size, vel }
    }

    pub fn get_size(&self) -> (size: &u32)
        ensures
            *size == self.size,
    {
        &self.size
    }

    pub fn get_center(&self) -> (center: &P)
        ensures
            *center == self.center,
    {
        &self.center
    }

    /// Moves the shape, and remembers where it was.
    pub fn set_center(&mut self, new_center: P)
        ensures
            final(self).center == new_center,
            final(self).center_prev == old(self).center,
            final(self).size == old(self).size,
            final(self).vel == old(self).vel,
    {
        self.center_prev = self.center;
        self.center = new_center;
    }

    pub fn get_vel(&self) -> (vel: &Vector)
        ensures
            *vel == self.vel,
    {
        &self.vel
    }

    /// Sets the velocity vector according to the given direction.
    pub fn set_movement(&mut self, direction: Direction)
        ensures
            final(self).vel.0 == MOVEMENT_SPEED * spec_direction_vector(direction).0,
            final(self).vel.1 == MOVEMENT_SPEED * spec_direction_vector(direction).1,
            final(self).center == old(self).center,
            final(self).center_prev == old(self).center_prev,
            final(self).size == old(self).size,
    {
        self.vel = scale(direction_vector(direction), MOVEMENT_SPEED);
    }

    /// Reverses the velocity vector.
    pub fn reverse(&mut self)
        requires
            old(self).vel.0 > i32::MIN,
            old(self).vel.1 > i32::MIN,
        ensures
            final(self).vel.0 == -old(self).vel.0,
            final(self).vel.1 == -old(self).vel.1,
            final(self).center == old(self).center,
            final(self).center_prev == old(self).center_prev,
            final(self).size == old(self).size,
    {
        let (vx, vy) = self.vel;
        self.vel = (-vx, -vy);
    }

    /// Moves the shape back to its previous position.
    pub fn move_back(&mut self)
        ensures
            final(self).center == old(self).center_prev,
            final(self).center_prev == old(self).center_prev,
            final(self).size == old(self).size,
            final(self).vel == old(self).vel,
    {
        self.center = self.center_prev;
    }
}

} // verus!
