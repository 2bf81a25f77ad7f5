//! The route table: the twelve movements through the crossing, their spawn
//! points, nominal velocities, travel directions and conflict sets.
//!
//! All lengths are fixed-point, in tenths of a pixel: the field is 8000 units
//! wide and high, and a vehicle moves by its velocity once per tick.
use vstd::prelude::*;

verus! {

/// Width of a vehicle across its lane.
pub const CAR_HEIGHT: i32 = 100;

/// Length of a vehicle along its lane.
pub const CAR_LENGTH: i32 = 300;

/// Cruise speed, per tick.
pub const CAR_SPEED_NORMAL: i32 = 15;

/// Slow speed, per tick.
pub const CAR_SPEED_SLOW: i32 = 3;

/// Fast speed, per tick, used to cross the shared zone.
pub const CAR_SPEED_FAST: i32 = 35;

/// Side length of the square field.
pub const FIELD_SIZE: i32 = 8000;

/// A point (or a vector) of the field.
#[derive(Clone, Copy, Debug, PartialEq, Eq, Structural)]
pub struct Point {
    pub x: i32,
    pub y: i32,
}

impl Point {
    pub fn new(x: i32, y: i32) -> (r: Point)
        ensures
            r.x == x,
            r.y == y,
    {
        Point { x, y }
    }
}

/// A cardinal direction of travel, in screen coordinates (`Down` is +y).
#[derive(Clone, Copy, Debug, PartialEq, Eq, Structural)]
pub enum Direction {
    Left,
    Right,
    Down,
    Up,
}

impl Direction {
    pub open spec fn is_vertical(self) -> bool {
        self == Direction::Up || self == Direction::Down
    }
}

/// The kind of movement a route makes at the crossing.
#[derive(Clone, Copy, Debug, PartialEq, Eq, Structural)]
pub enum Turning {
    Left,
    Right,
    Straight,
}

/// One of the twelve directed movements: origin edge and destination edge
/// (`N_S` enters from the north edge and leaves by the south edge).
#[allow(non_camel_case_types)]
#[derive(Clone, Copy, Debug, PartialEq, Eq, Hash, Structural)]
pub enum Route {
    N_S,
    S_N,
    W_E,
    E_W,
    N_W,
    S_E,
    W_S,
    E_N,
    N_E,
    S_W,
    W_N,
    E_S,
}

/// Number of routes.
pub const ROUTE_COUNT: usize = 12;

/// Position of a route in the table, in declaration order.
pub open spec fn route_index(r: Route) -> int {
    match r {
        Route::N_S => 0,
        Route::S_N => 1,
        Route::W_E => 2,
        Route::E_W => 3,
        Route::N_W => 4,
        Route::S_E => 5,
        Route::W_S => 6,
        Route::E_N => 7,
        Route::N_E => 8,
        Route::S_W => 9,
        Route::W_N => 10,
        Route::E_S => 11,
    }
}

/// The route at position `i` of the table.
pub open spec fn route_at(i: int) -> Route {
    if i == 0 {
        Route::N_S
    } else if i == 1 {
        Route::S_N
    } else if i == 2 {
        Route::W_E
    } else if i == 3 {
        Route::E_W
    } else if i == 4 {
        Route::N_W
    } else if i == 5 {
        Route::S_E
    } else if i == 6 {
        Route::W_S
    } else if i == 7 {
        Route::E_N
    } else if i == 8 {
        Route::N_E
    } else if i == 9 {
        Route::S_W
    } else if i == 10 {
        Route::W_N
    } else {
        Route::E_S
    }
}

/// The spawn point: just outside the field, so that the whole vehicle is
/// still hidden.
pub open spec fn spawn_point(r: Route) -> Point {
    match r {
        Route::N_S => Point { x: 3400, y: (-300) as i32 },
        Route::S_N => Point { x: 4300, y: 8000 },
        Route::W_E => Point { x: (-300) as i32, y: 4300 },
        Route::E_W => Point { x: 8000, y: 3400 },
        Route::N_W => Point { x: 3100, y: (-300) as i32 },
        Route::S_E => Point { x: 4600, y: 8000 },
        Route::W_S => Point { x: (-300) as i32, y: 4600 },
        Route::E_N => Point { x: 8000, y: 3100 },
        Route::N_E => Point { x: 3700, y: (-300) as i32 },
        Route::S_W => Point { x: 4000, y: 8000 },
        Route::W_N => Point { x: (-300) as i32, y: 4000 },
        Route::E_S => Point { x: 8000, y: 3700 },
    }
}

/// The direction in which a vehicle of the route enters the field.
pub open spec fn entry_direction(r: Route) -> Direction {
    match r {
        Route::N_S | Route::N_W | Route::N_E => Direction::Down,
        Route::S_N | Route::S_E | Route::S_W => Direction::Up,
        Route::W_E | Route::W_S | Route::W_N => Direction::Right,
        Route::E_W | Route::E_N | Route::E_S => Direction::Left,
    }
}

/// The direction in which a vehicle of the route leaves the field.
pub open spec fn exit_direction(r: Route) -> Direction {
    match r {
        Route::N_S | Route::E_S | Route::W_S => Direction::Down,
        Route::S_N | Route::E_N | Route::W_N => Direction::Up,
        Route::W_E | Route::N_E | Route::S_E => Direction::Right,
        Route::E_W | Route::N_W | Route::S_W => Direction::Left,
    }
}

pub open spec fn is_turning(r: Route) -> bool {
    entry_direction(r) != exit_direction(r)
}

/// The velocity of a vehicle moving at `speed` in direction `d`.
pub open spec fn velocity(d: Direction, speed: i32) -> (i32, i32) {
    match d {
        Direction::Down => (0, speed),
        Direction::Up => (0, (-speed) as i32),
        Direction::Right => (speed, 0),
        Direction::Left => ((-speed) as i32, 0),
    }
}

/// The nominal (cruise) velocity of a route.
pub open spec fn cruise_velocity(r: Route) -> (i32, i32) {
    velocity(entry_direction(r), CAR_SPEED_NORMAL)
}

/// Where the lanes of a turning route meet: the point a vehicle is moved to
/// when it turns.
pub open spec fn turn_point(r: Route) -> Point {
    match r {
        Route::N_W => Point { x: 3100, y: 3100 },
        Route::S_E => Point { x: 4600, y: 4600 },
        Route::W_S => Point { x: 3100, y: 4600 },
        Route::E_N => Point { x: 4600, y: 3100 },
        Route::N_E => Point { x: 3700, y: 4000 },
        Route::S_W => Point { x: 4000, y: 3700 },
        Route::W_N => Point { x: 4000, y: 4000 },
        Route::E_S => Point { x: 3700, y: 3700 },
        _ => spawn_point(r),
    }
}

/// The routes whose vehicles must not cross the shared zone fast while a
/// vehicle of `r` does. Right turns conflict with nothing.
pub open spec fn conflicts(r: Route) -> Seq<Route> {
    match r {
        Route::N_S => seq![Route::E_W, Route::W_E, Route::W_N, Route::S_W],
        Route::S_N => seq![Route::N_E, Route::W_E, Route::E_S, Route::E_W],
        Route::W_E => seq![Route::N_S, Route::S_W, Route::S_N, Route::E_S],
        Route::E_W => seq![Route::N_S, Route::N_E, Route::S_N, Route::W_N],
        Route::N_W | Route::S_E | Route::W_S | Route::E_N => seq![],
        Route::N_E => seq![Route::E_W, Route::S_N, Route::S_W, Route::W_N, Route::E_S],
        Route::S_W => seq![Route::N_S, Route::N_E, Route::W_E, Route::W_N, Route::E_S],
        Route::W_N => seq![Route::N_S, Route::N_E, Route::S_W, Route::E_W, Route::E_S],
        Route::E_S => seq![Route::N_E, Route::S_N, Route::S_W, Route::W_E, Route::W_N],
    }
}

impl Route {
    /// Position of the route in the table.
    pub fn index(&self) -> (r: usize)
        ensures
            r as int == route_index(*self),
            r < ROUTE_COUNT,
    {
        match *self {
            Route::N_S => 0,
            Route::S_N => 1,
            Route::W_E => 2,
            Route::E_W => 3,
            Route::N_W => 4,
            Route::S_E => 5,
            Route::W_S => 6,
            Route::E_N => 7,
            Route::N_E => 8,
            Route::S_W => 9,
            Route::W_N => 10,
            Route::E_S => 11,
        }
    }

    /// The route at position `i` of the table.
    pub fn from_index(i: usize) -> (r: Route)
        requires
            i < ROUTE_COUNT,
        ensures
            r == route_at(i as int),
            route_index(r) == i,
    {
        if i == 0 {
            Route::N_S
        } else if i == 1 {
            Route::S_N
        } else if i == 2 {
            Route::W_E
        } else if i == 3 {
            Route::E_W
        } else if i == 4 {
            Route::N_W
        } else if i == 5 {
            Route::S_E
        } else if i == 6 {
            Route::W_S
        } else if i == 7 {
            Route::E_N
        } else if i == 8 {
            Route::N_E
        } else if i == 9 {
            Route::S_W
        } else if i == 10 {
            Route::W_N
        } else {
            Route::E_S
        }
    }

    pub fn get_coordinates(&self) -> (r: Point)
        ensures
            r == spawn_point(*self),
    {
        match *self {
            Route::N_S => Point { x: 3400, y: -CAR_LENGTH },
            Route::S_N => Point { x: 4300, y: FIELD_SIZE },
            Route::W_E => Point { x: -CAR_LENGTH, y: 4300 },
            Route::E_W => Point { x: FIELD_SIZE, y: 3400 },
            Route::N_W => Point { x: 3100, y: -CAR_LENGTH },
            Route::S_E => Point { x: 4600, y: FIELD_SIZE },
            Route::W_S => Point { x: -CAR_LENGTH, y: 4600 },
            Route::E_N => Point { x: FIELD_SIZE, y: 3100 },
            Route::N_E => Point { x: 3700, y: -CAR_LENGTH },
            Route::S_W => Point { x: 4000, y: FIELD_SIZE },
            Route::W_N => Point { x: -CAR_LENGTH, y: 4000 },
            Route::E_S => Point { x: FIELD_SIZE, y: 3700 },
        }
    }

    pub fn get_speed(&self) -> (r: (i32, i32))
        ensures
            r == cruise_velocity(*self),
    {
        match *self {
            Route::N_S | Route::N_W | Route::N_E => (0, CAR_SPEED_NORMAL),
            Route::S_N | Route::S_E | Route::S_W => (0, -CAR_SPEED_NORMAL),
            Route::W_E | Route::W_S | Route::W_N => (CAR_SPEED_NORMAL, 0),
            Route::E_W | Route::E_N | Route::E_S => (-CAR_SPEED_NORMAL, 0),
        }
    }

    pub fn get_direction(&self) -> (r: Direction)
        ensures
            r == entry_direction(*self),
    {
        match *self {
            Route::N_S | Route::N_W | Route::N_E => Direction::Down,
            Route::S_N | Route::S_E | Route::S_W => Direction::Up,
            Route::W_E | Route::W_S | Route::W_N => Direction::Right,
            Route::E_W | Route::E_N | Route::E_S => Direction::Left,
        }
    }

    /// The conflict set of the route.
    pub fn not_allowed_to_go(&self) -> (r: Vec<Route>)
        ensures
            r@ == conflicts(*self),
    {
        let r = match *self {
            Route::N_S => vec![Route::E_W, Route::W_E, Route::W_N, Route::S_W],
            Route::S_N => vec![Route::N_E, Route::W_E, Route::E_S, Route::E_W],
            Route::W_E => vec![Route::N_S, Route::S_W, Route::S_N, Route::E_S],
            Route::E_W => vec![Route::N_S, Route::N_E, Route::S_N, Route::W_N],
            Route::N_W | Route::S_E | Route::W_S | Route::E_N => vec![],
            Route::N_E => vec![Route::E_W, Route::S_N, Route::S_W, Route::W_N, Route::E_S],
            Route::S_W => vec![Route::N_S, Route::N_E, Route::W_E, Route::W_N, Route::E_S],
            Route::W_N => vec![Route::N_S, Route::N_E, Route::S_W, Route::E_W, Route::E_S],
            Route::E_S => vec![Route::N_E, Route::S_N, Route::S_W, Route::W_E, Route::W_N],
        };
        proof {
            assert(r@ =~= conflicts(*self));
        }
        r
    }
}

/// Routes index the table one to one.
pub proof fn lemma_route_index(r: Route)
    ensures
        0 <= route_index(r) < ROUTE_COUNT,
        route_at(route_index(r)) == r,
{
}

/// A route never conflicts with itself, and right turns conflict with nothing.
pub proof fn lemma_conflicts_shape(r: Route)
    ensures
        !conflicts(r).contains(r),
        !is_turning(r) ==> conflicts(r).len() > 0,
        (conflicts(r).len() == 0) == (r == Route::N_W || r == Route::S_E || r == Route::W_S
            || r == Route::E_N),
{
    assert(!conflicts(r).contains(r)) by {
        if conflicts(r).contains(r) {
            let i = choose|i: int| 0 <= i < conflicts(r).len() && conflicts(r)[i] == r;
            assert(conflicts(r)[i] == r);
        }
    }
}

} // verus!
