//! The closed set of enemy kinds and their fixed profiles.
use vstd::prelude::*;

verus! {

/// The kind of an enemy; fixed for the enemy's whole life.
#[derive(Clone, Copy, Debug, PartialEq, Eq, Hash, Structural)]
pub enum Enemy {
    Standard,
    Bullet,
    Cannon,
    Rocket,
    RocketShip,
}

/// A colour as red, green and blue intensities in tenths (values above ten
/// glow).
#[derive(Clone, Copy, Debug, PartialEq, Eq, Structural)]
pub struct Color {
    pub r: u8,
    pub g: u8,
    pub b: u8,
}

impl Enemy {
    /// Side length of the square body, in world units.
    pub open spec fn size_spec(self) -> int {
        match self {
            Enemy::Bullet | Enemy::Rocket => 10,
            Enemy::Cannon | Enemy::RocketShip => 40,
            Enemy::Standard => 20,
        }
    }

    /// Base speed, in world units per second.
    pub open spec fn speed_spec(self) -> int {
        match self {
            Enemy::Bullet | Enemy::Rocket => 450,
            Enemy::Cannon | Enemy::RocketShip => 200,
            Enemy::Standard => 300,
        }
    }

    pub open spec fn color_spec(self) -> Color {
        match self {
            Enemy::Bullet => Color { r: 50, g: 25, b: 0 },
            Enemy::Cannon => Color { r: 25, g: 0, b: 50 },
            Enemy::Rocket => Color { r: 0, g: 50, b: 0 },
            Enemy::RocketShip => Color { r: 0, g: 25, b: 50 },
            Enemy::Standard => Color { r: 50, g: 0, b: 0 },
        }
    }

    pub fn size(&self) -> (r: u32)
        ensures
            r == self.size_spec(),
    {
        match self {
            Enemy::Bullet | Enemy::Rocket => 10,
            Enemy::Cannon | Enemy::RocketShip => 40,
            Enemy::Standard => 20,
        }
    }

    pub fn color(&self) -> (r: Color)
        ensures
            r == self.color_spec(),
    {
        match self {
            Enemy::Bullet => Color { r: 50, g: 25, b: 0 },
            Enemy::Cannon => Color { r: 25, g: 0, b: 50 },
            Enemy::Rocket => Color { r: 0, g: 50, b: 0 },
            Enemy::RocketShip => Color { r: 0, g: 25, b: 50 },
            Enemy::Standard => Color { r: 50, g: 0, b: 0 },
        }
    }

    pub fn speed(&self) -> (r: u32)
        ensures
            r == self.speed_spec(),
    {
        match self {
            Enemy::Bullet | Enemy::Rocket => 450,
            Enemy::Cannon | Enemy::RocketShip => 200,
            Enemy::Standard => 300,
        }
    }
}

} // verus!
