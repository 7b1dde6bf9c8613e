//! What a bullet does to the ship it meets, and which side of a collision is
//! the ship picking something up.

use vstd::prelude::*;

verus! {

/// The state of a ship, as far as bullets care.
#[derive(Clone, Copy, Debug, PartialEq, Eq, Structural)]
pub enum ShipStateKind {
    Regular,
    Dash,
    Dead,
}

/// What happens when a bullet's path crosses a ship.
#[derive(Clone, Copy, Debug, PartialEq, Eq, Structural)]
pub enum BulletOnShip {
    /// The bullet flies on, as if the ship were not there.
    PassThrough,
    /// The bullet is used up and the ship takes no damage.
    Absorb,
    /// The bullet is used up and the ship takes damage.
    Damage,
}

/// The bullet rule: a dashing ship swallows bullets, a freshly spawned ship
/// is immune, a dead ship is not there, and a ship is not hit by its own
/// bullet in the first moments of its flight.
pub fn bullet_on_ship(state: ShipStateKind, spawn_immune: bool, own_fresh_bullet: bool) -> (r: BulletOnShip)
    ensures
        r == match state {
            ShipStateKind::Dash => BulletOnShip::Absorb,
            ShipStateKind::Dead => BulletOnShip::PassThrough,
            ShipStateKind::Regular => if spawn_immune {
                BulletOnShip::Absorb
            } else if own_fresh_bullet {
                BulletOnShip::PassThrough
            } else {
                BulletOnShip::Damage
            },
        },
{
    match state {
        ShipStateKind::Dash => {
            return BulletOnShip::Absorb;
        },
        ShipStateKind::Regular => {
            if spawn_immune {
                return BulletOnShip::Absorb;
            }
        },
        ShipStateKind::Dead => {
            return BulletOnShip::PassThrough;
        },
    }
    if !own_fresh_bullet {
        BulletOnShip::Damage
    } else {
        BulletOnShip::PassThrough
    }
}

/// Which entity of a collision is the ship that picks up the other:
/// `Some(true)` the first, `Some(false)` the second, `None` when the pair is
/// not a ship and a pick-up. The first pairing is tried first.
pub fn pickup_pair(first_is_ship: bool, first_is_pickup: bool, second_is_ship: bool, second_is_pickup: bool) -> (r: Option<bool>)
    ensures
        r == if first_is_ship && second_is_pickup {
            Some(true)
        } else if first_is_pickup && second_is_ship {
            Some(false)
        } else {
            None::<bool>
        },
{
    if first_is_ship && second_is_pickup {
        Some(true)
    } else if first_is_pickup && second_is_ship {
        Some(false)
    } else {
        None
    }
}

} // verus!
