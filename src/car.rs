//! A vehicle: a moving rectangle with a speed regime and a one-time turn.
use vstd::prelude::*;
use crate::route::{
    Point, Direction, Route, CAR_LENGTH, CAR_HEIGHT, CAR_SPEED_NORMAL, CAR_SPEED_SLOW,
    CAR_SPEED_FAST, FIELD_SIZE, entry_direction, exit_direction, is_turning, velocity,
    cruise_velocity, spawn_point, turn_point,
};

verus! {

/// A vehicle heading right or down is before the crossing while its
/// coordinate is below this value.
pub const APPROACH_LOW: i32 = 2000;

/// A vehicle heading left or up is before the crossing while its coordinate
/// is above this value.
pub const APPROACH_HIGH: i32 = 5800;

/// Low edge of the shared crossing zone, on both axes.
pub const CROSSING_LOW: i32 = 3000;

/// High edge of the shared crossing zone, on both axes.
pub const CROSSING_HIGH: i32 = 4800;

/// Largest coordinate or speed component for which a move cannot overflow.
pub const COORD_LIMIT: i32 = 1000000;

/// A vehicle: its id, display colour, position, velocity, footprint,
/// direction of travel, route, and whether it has made its turn.
#[derive(Clone, Copy, Debug)]
pub struct Car {
    pub id: u32,
    /// Index into the display palette; no effect on behaviour.
    pub color: usize,
    /// Top-left corner.
    pub position: Point,
    pub speed: (i32, i32),
    /// Width and height of the footprint.
    pub rectangle: (i32, i32),
    pub direction: Direction,
    pub route: Route,
    pub turned: bool,
}

/// The speed is one of the three regimes, pointing along `d`.
pub open spec fn speed_aligned(d: Direction, s: (i32, i32)) -> bool {
    s == velocity(d, CAR_SPEED_SLOW) || s == velocity(d, CAR_SPEED_NORMAL) || s == velocity(
        d,
        CAR_SPEED_FAST,
    )
}

/// The footprint of a vehicle travelling in direction `d`.
pub open spec fn footprint(d: Direction) -> (i32, i32) {
    if d.is_vertical() {
        (CAR_HEIGHT, CAR_LENGTH)
    } else {
        (CAR_LENGTH, CAR_HEIGHT)
    }
}

/// `p` lies on the lane through `lane` that runs in direction `d`.
pub open spec fn on_lane(d: Direction, p: Point, lane: Point) -> bool {
    if d.is_vertical() {
        p.x == lane.x
    } else {
        p.y == lane.y
    }
}

/// `p` is at or past `origin` when travelling in direction `d`.
pub open spec fn progressed(d: Direction, p: Point, origin: Point) -> bool {
    match d {
        Direction::Down => p.y >= origin.y,
        Direction::Up => p.y <= origin.y,
        Direction::Right => p.x >= origin.x,
        Direction::Left => p.x <= origin.x,
    }
}

impl Car {
    /// Both coordinates and both speed components are small enough to move
    /// without overflow.
    pub open spec fn fits(self) -> bool {
        &&& -COORD_LIMIT <= self.position.x <= COORD_LIMIT
        &&& -COORD_LIMIT <= self.position.y <= COORD_LIMIT
        &&& -COORD_LIMIT <= self.speed.0 <= COORD_LIMIT
        &&& -COORD_LIMIT <= self.speed.1 <= COORD_LIMIT
    }

    /// Both coordinates lie between the spawn offset and the far edge.
    pub open spec fn in_field(self) -> bool {
        &&& -CAR_LENGTH <= self.position.x <= FIELD_SIZE
        &&& -CAR_LENGTH <= self.position.y <= FIELD_SIZE
    }

    /// Both coordinates lie within one move of the field.
    pub open spec fn near_field(self) -> bool {
        &&& -400 <= self.position.x <= 8100
        &&& -400 <= self.position.y <= 8100
    }

    /// The vehicle's state is one its route can produce: a speed regime along
    /// its direction, the footprint of that direction, and a position on the
    /// entry lane past the spawn point (before the turn) or on the exit lane
    /// past the turn point (after it). Only turning routes turn.
    pub open spec fn valid(self) -> bool {
        &&& speed_aligned(self.direction, self.speed)
        &&& self.rectangle == footprint(self.direction)
        &&& if !self.turned {
            &&& self.direction == entry_direction(self.route)
            &&& on_lane(self.direction, self.position, spawn_point(self.route))
            &&& progressed(self.direction, self.position, spawn_point(self.route))
        } else {
            &&& is_turning(self.route)
            &&& self.direction == exit_direction(self.route)
            &&& on_lane(self.direction, self.position, turn_point(self.route))
            &&& progressed(self.direction, self.position, turn_point(self.route))
        }
    }

    pub open spec fn spec_before_cross_road(self) -> bool {
        match self.direction {
            Direction::Right => self.position.x < APPROACH_LOW,
            Direction::Left => self.position.x > APPROACH_HIGH,
            Direction::Down => self.position.y < APPROACH_LOW,
            Direction::Up => self.position.y > APPROACH_HIGH,
        }
    }

    /// Within one vehicle length of the crossing, or past it.
    pub open spec fn spec_in_stop_zone(self) -> bool {
        match self.direction {
            Direction::Right => self.position.x > CROSSING_LOW - CAR_LENGTH,
            Direction::Left => self.position.x < CROSSING_HIGH,
            Direction::Down => self.position.y > CROSSING_LOW - CAR_LENGTH,
            Direction::Up => self.position.y < CROSSING_HIGH,
        }
    }

    pub open spec fn spec_after_cross_road(self) -> bool {
        match self.direction {
            Direction::Right => self.position.x > CROSSING_HIGH,
            Direction::Left => self.position.x < CROSSING_LOW,
            Direction::Down => self.position.y > CROSSING_HIGH,
            Direction::Up => self.position.y < CROSSING_LOW,
        }
    }

    pub open spec fn spec_on_cross_road(self) -> bool {
        !self.spec_before_cross_road() && !self.spec_after_cross_road()
    }

    pub open spec fn spec_is_speed_up(self) -> bool {
        self.speed.0 == CAR_SPEED_FAST || self.speed.0 == -CAR_SPEED_FAST || self.speed.1
            == CAR_SPEED_FAST || self.speed.1 == -CAR_SPEED_FAST
    }

    pub open spec fn spec_is_slow_down(self) -> bool {
        self.speed.0 == CAR_SPEED_SLOW || self.speed.0 == -CAR_SPEED_SLOW || self.speed.1
            == CAR_SPEED_SLOW || self.speed.1 == -CAR_SPEED_SLOW
    }

    /// Inside the route's turn window.
    pub open spec fn spec_on_turn_point(self) -> bool {
        let p = self.position;
        match self.route {
            Route::N_W => 3000 < p.y < 3500,
            Route::S_E => 4100 < p.y < 4600,
            Route::W_S => 3000 < p.x < 3500,
            Route::E_N => 3500 < p.x < 4600,
            Route::N_E => 3900 < p.y < 4400,
            Route::S_W => 3200 < p.y < 3700,
            Route::W_N => 3900 < p.x < 4400,
            Route::E_S => 3200 < p.x < 3700,
            _ => false,
        }
    }

    /// Past the far edge of the field in the direction of travel.
    pub open spec fn spec_drive_away(self) -> bool {
        match self.direction {
            Direction::Right => self.position.x > FIELD_SIZE,
            Direction::Left => self.position.x < 0,
            Direction::Down => self.position.y > FIELD_SIZE,
            Direction::Up => self.position.y < 0,
        }
    }

    /// The vehicle after its turn: footprint swapped, velocity rotated onto
    /// the exit direction, and the coordinate across the exit lane set to
    /// the lane's centre.
    pub open spec fn spec_turn(self) -> Car {
        let s = self.speed;
        let p = self.position;
        let c = Car { rectangle: (self.rectangle.1, self.rectangle.0), turned: true, ..self };
        let same = (s.1, s.0);
        let neg = ((-s.1) as i32, (-s.0) as i32);
        match self.route {
            Route::N_E => Car {
                speed: same,
                direction: Direction::Right,
                position: Point { x: p.x, y: 4000 },
                ..c
            },
            Route::S_W => Car {
                speed: same,
                direction: Direction::Left,
                position: Point { x: p.x, y: 3700 },
                ..c
            },
            Route::W_N => Car {
                speed: neg,
                direction: Direction::Up,
                position: Point { x: 4000, y: p.y },
                ..c
            },
            Route::E_S => Car {
                speed: neg,
                direction: Direction::Down,
                position: Point { x: 3700, y: p.y },
                ..c
            },
            Route::N_W => Car {
                speed: neg,
                direction: Direction::Left,
                position: Point { x: p.x, y: 3100 },
                ..c
            },
            Route::S_E => Car {
                speed: neg,
                direction: Direction::Right,
                position: Point { x: p.x, y: 4600 },
                ..c
            },
            Route::W_S => Car {
                speed: same,
                direction: Direction::Down,
                position: Point { x: 3100, y: p.y },
                ..c
            },
            Route::E_N => Car {
                speed: same,
                direction: Direction::Up,
                position: Point { x: 4600, y: p.y },
                ..c
            },
            _ => c,
        }
    }

    /// One tick of motion: the turn when it is due, then one step of the
    /// velocity.
    pub open spec fn driven(self) -> Car {
        let c = if self.spec_on_turn_point() && !self.turned {
            self.spec_turn()
        } else {
            self
        };
        Car {
            position: Point {
                x: (c.position.x + c.speed.0) as i32,
                y: (c.position.y + c.speed.1) as i32,
            },
            ..c
        }
    }

    pub fn new(
        position: Point,
        rectangle: (i32, i32),
        color: usize,
        speed: (i32, i32),
        id: u32,
        direction: Direction,
        route: Route,
        turned: bool,
    ) -> (r: Car)
        ensures
            r == (Car { id, color, position, speed, rectangle, direction, route, turned }),
    {
        Car { color, rectangle, position, speed, id, direction, route, turned }
    }

    /// Advances the vehicle by one tick, turning first when it is inside its
    /// turn window and has not turned yet.
    pub fn drive(&mut self)
        requires
            old(self).fits(),
        ensures
            *final(self) == old(self).driven(),
            old(self).turned ==> final(self).turned,
            old(self).turned ==> final(self).direction == old(self).direction
                && final(self).rectangle == old(self).rectangle,
    {
        if self.on_turn_point() && !self.turned {
            self.turn();
        }
        self.position = Point { x: self.position.x + self.speed.0, y: self.position.y + self.speed.1 };
    }

    pub fn before_cross_road(&self) -> (r: bool)
        ensures
            r == self.spec_before_cross_road(),
    {
        match self.direction {
            Direction::Right => self.position.x < APPROACH_LOW,
            Direction::Left => self.position.x > APPROACH_HIGH,
            Direction::Down => self.position.y < APPROACH_LOW,
            Direction::Up => self.position.y > APPROACH_HIGH,
        }
    }

    pub fn in_stop_zone(&self) -> (r: bool)
        ensures
            r == self.spec_in_stop_zone(),
    {
        match self.direction {
            Direction::Right => self.position.x > CROSSING_LOW - CAR_LENGTH,
            Direction::Left => self.position.x < CROSSING_HIGH,
            Direction::Down => self.position.y > CROSSING_LOW - CAR_LENGTH,
            Direction::Up => self.position.y < CROSSING_HIGH,
        }
    }

    pub fn after_cross_road(&self) -> (r: bool)
        ensures
            r == self.spec_after_cross_road(),
    {
        match self.direction {
            Direction::Right => self.position.x > CROSSING_HIGH,
            Direction::Left => self.position.x < CROSSING_LOW,
            Direction::Down => self.position.y > CROSSING_HIGH,
            Direction::Up => self.position.y < CROSSING_LOW,
        }
    }

    pub fn on_cross_road(&self) -> (r: bool)
        ensures
            r == self.spec_on_cross_road(),
    {
        !self.before_cross_road() && !self.after_cross_road()
    }

    /// Commands the fast regime along the current direction.
    pub fn speed_up(&mut self)
        ensures
            *final(self) == (Car { speed: velocity(old(self).direction, CAR_SPEED_FAST), ..*old(self) }),
    {
        self.speed = match self.direction {
            Direction::Down => (0, CAR_SPEED_FAST),
            Direction::Up => (0, -CAR_SPEED_FAST),
            Direction::Right => (CAR_SPEED_FAST, 0),
            Direction::Left => (-CAR_SPEED_FAST, 0),
        };
    }

    pub fn is_speed_up(&self) -> (r: bool)
        ensures
            r == self.spec_is_speed_up(),
    {
        self.speed.0 == CAR_SPEED_FAST || self.speed.0 == -CAR_SPEED_FAST || self.speed.1
            == CAR_SPEED_FAST || self.speed.1 == -CAR_SPEED_FAST
    }

    pub fn is_slow_down(&self) -> (r: bool)
        ensures
            r == self.spec_is_slow_down(),
    {
        self.speed.0 == CAR_SPEED_SLOW || self.speed.0 == -CAR_SPEED_SLOW || self.speed.1
            == CAR_SPEED_SLOW || self.speed.1 == -CAR_SPEED_SLOW
    }

    /// Commands the slow regime along the current direction.
    pub fn slow_down(&mut self)
        ensures
            *final(self) == (Car { speed: velocity(old(self).direction, CAR_SPEED_SLOW), ..*old(self) }),
    {
        self.speed = match self.direction {
            Direction::Down => (0, CAR_SPEED_SLOW),
            Direction::Up => (0, -CAR_SPEED_SLOW),
            Direction::Right => (CAR_SPEED_SLOW, 0),
            Direction::Left => (-CAR_SPEED_SLOW, 0),
        };
    }

    pub fn on_turn_point(&self) -> (r: bool)
        ensures
            r == self.spec_on_turn_point(),
    {
        let p = self.position;
        match self.route {
            Route::N_W => p.y > 3000 && p.y < 3500,
            Route::S_E => p.y < 4600 && p.y > 4100,
            Route::W_S => p.x > 3000 && p.x < 3500,
            Route::E_N => p.x < 4600 && p.x > 3500,
            Route::N_E => p.y > 3900 && p.y < 4400,
            Route::S_W => p.y > 3200 && p.y < 3700,
            Route::W_N => p.x > 3900 && p.x < 4400,
            Route::E_S => p.x > 3200 && p.x < 3700,
            _ => false,
        }
    }

    /// Executes the turn of the vehicle's route.
    pub fn turn(&mut self)
        requires
            old(self).fits(),
        ensures
            *final(self) == old(self).spec_turn(),
    {
        let speed = self.speed;
        let r = self.rectangle;
        self.rectangle = (r.1, r.0);
        self.turned = true;
        match self.route {
            Route::N_E => {
                self.speed = (speed.1, speed.0);
                self.direction = Direction::Right;
                self.position.y = 4000;
            },
            Route::S_W => {
                self.speed = (speed.1, speed.0);
                self.direction = Direction::Left;
                self.position.y = 3700;
            },
            Route::W_N => {
                self.speed = (-speed.1, -speed.0);
                self.direction = Direction::Up;
                self.position.x = 4000;
            },
            Route::E_S => {
                self.speed = (-speed.1, -speed.0);
                self.direction = Direction::Down;
                self.position.x = 3700;
            },
            Route::N_W => {
                self.speed = (-speed.1, -speed.0);
                self.direction = Direction::Left;
                self.position.y = 3100;
            },
            Route::S_E => {
                self.speed = (-speed.1, -speed.0);
                self.direction = Direction::Right;
                self.position.y = 4600;
            },
            Route::W_S => {
                self.speed = (speed.1, speed.0);
                self.direction = Direction::Down;
                self.position.x = 3100;
            },
            Route::E_N => {
                self.speed = (speed.1, speed.0);
                self.direction = Direction::Up;
                self.position.x = 4600;
            },
            _ => {},
        }
    }

    /// The vehicle has left the field.
    pub fn drive_away(&self) -> (r: bool)
        ensures
            r == self.spec_drive_away(),
    {
        match self.direction {
            Direction::Right => self.position.x > FIELD_SIZE,
            Direction::Left => self.position.x < 0,
            Direction::Down => self.position.y > FIELD_SIZE,
            Direction::Up => self.position.y < 0,
        }
    }
}

/// A valid vehicle that has not left the field stays inside the field's
/// bounds, and so can move without overflow.
pub proof fn lemma_valid_in_field(c: Car)
    requires
        c.valid(),
        !c.spec_drive_away(),
    ensures
        c.in_field(),
        c.near_field(),
        c.fits(),
{
}

/// One tick of motion keeps a valid vehicle valid.
pub proof fn lemma_driven_valid(c: Car)
    requires
        c.valid(),
        c.in_field(),
    ensures
        c.driven().valid(),
        c.driven().near_field(),
        c.turned ==> c.driven().turned,
        c.driven().id == c.id,
        c.driven().route == c.route,
        c.driven().spec_is_speed_up() == c.spec_is_speed_up(),
        c.driven().spec_is_slow_down() == c.spec_is_slow_down(),
{
}

/// The turn flag never reverts, and a vehicle turns at most once: after its
/// turn, moving keeps its direction and footprint; before it, a move turns
/// the vehicle exactly when it is inside its route's turn window.
pub proof fn lemma_turn_at_most_once(c: Car)
    ensures
        c.turned ==> c.driven().turned && c.driven().direction == c.direction
            && c.driven().rectangle == c.rectangle,
        !c.turned ==> (c.driven().turned == c.spec_on_turn_point()),
{
}

/// A vehicle that has turned is never before the crossing again.
pub proof fn lemma_turned_not_before(c: Car)
    requires
        c.valid(),
        c.turned,
    ensures
        !c.spec_before_cross_road(),
{
}

/// Commanding a regime, or the route's cruise velocity before the turn,
/// keeps a vehicle valid.
pub proof fn lemma_speed_commands_valid(c: Car)
    requires
        c.valid(),
    ensures
        (Car { speed: velocity(c.direction, CAR_SPEED_FAST), ..c }).valid(),
        (Car { speed: velocity(c.direction, CAR_SPEED_SLOW), ..c }).valid(),
        !c.turned ==> (Car { speed: cruise_velocity(c.route), ..c }).valid(),
{
}

} // verus!
