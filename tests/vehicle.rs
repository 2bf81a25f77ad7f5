use smart_road::{intersect, Car, Direction, Point, Route, CAR_HEIGHT, CAR_LENGTH, CAR_SPEED_FAST, CAR_SPEED_SLOW};

fn car_at(route: Route, x: i32, y: i32) -> Car {
    let d = route.get_direction();
    let rect = if d == Direction::Up || d == Direction::Down {
        (CAR_HEIGHT, CAR_LENGTH)
    } else {
        (CAR_LENGTH, CAR_HEIGHT)
    };
    Car::new(Point::new(x, y), rect, 0, route.get_speed(), 1, d, route, false)
}

#[test]
fn drive_moves_by_velocity() {
    let mut c = car_at(Route::N_S, 3400, 100);
    c.drive();
    assert_eq!(c.position, Point::new(3400, 115));
    assert!(!c.turned);
}

#[test]
fn crossing_predicates() {
    let c = car_at(Route::W_E, 1990, 4300);
    assert!(c.before_cross_road());
    assert!(!c.in_stop_zone());
    let c = car_at(Route::W_E, 2800, 4300);
    assert!(!c.before_cross_road());
    assert!(c.in_stop_zone());
    assert!(c.on_cross_road());
    let c = car_at(Route::W_E, 4900, 4300);
    assert!(c.after_cross_road());
    assert!(!c.on_cross_road());
    let c = car_at(Route::E_W, -1, 3400);
    assert!(c.drive_away());
    let c = car_at(Route::E_W, 0, 3400);
    assert!(!c.drive_away());
}

#[test]
fn speed_regimes() {
    let mut c = car_at(Route::S_N, 4300, 6000);
    c.speed_up();
    assert_eq!(c.speed, (0, -CAR_SPEED_FAST));
    assert!(c.is_speed_up());
    c.slow_down();
    assert_eq!(c.speed, (0, -CAR_SPEED_SLOW));
    assert!(c.is_slow_down());
    assert!(!c.is_speed_up());
}

#[test]
fn turn_happens_once_inside_the_window() {
    let mut c = car_at(Route::N_E, 3700, 3950);
    assert!(c.on_turn_point());
    c.drive();
    assert!(c.turned);
    assert_eq!(c.direction, Direction::Right);
    assert_eq!(c.rectangle, (CAR_LENGTH, CAR_HEIGHT));
    assert_eq!(c.speed, (15, 0));
    assert_eq!(c.position, Point::new(3715, 4000));
    c.drive();
    assert!(c.turned);
    assert_eq!(c.direction, Direction::Right);
    assert_eq!(c.rectangle, (CAR_LENGTH, CAR_HEIGHT));
    assert_eq!(c.position, Point::new(3730, 4000));
}

#[test]
fn left_turn_rotates_velocity_with_sign() {
    let mut c = car_at(Route::W_N, 4000, 4000);
    c.turn();
    assert_eq!(c.direction, Direction::Up);
    assert_eq!(c.speed, (0, -15));
    assert_eq!(c.position, Point::new(4000, 4000));
    let mut c = car_at(Route::N_W, 3100, 3200);
    c.turn();
    assert_eq!(c.direction, Direction::Left);
    assert_eq!(c.speed, (-15, 0));
    assert_eq!(c.position, Point::new(3100, 3100));
}

#[test]
fn straight_route_never_turns() {
    let mut c = car_at(Route::E_W, 8000, 3400);
    for _ in 0..600 {
        assert!(!c.on_turn_point());
        c.drive();
    }
    assert!(!c.turned);
    assert_eq!(c.direction, Direction::Left);
}

#[test]
fn rectangles_overlap_test() {
    let a = Point::new(0, 0);
    let c = Point::new(10, 10);
    assert!(intersect(a, Point::new(5, 5), c, Point::new(20, 20)));
    assert!(!intersect(a, Point::new(11, 0), c, Point::new(20, 10)));
    assert!(intersect(a, Point::new(10, 10), c, Point::new(20, 20)));
    // one rectangle inside the other
    assert!(intersect(a, Point::new(2, 2), c, Point::new(3, 3)));
    assert!(intersect(Point::new(2, 2), a, Point::new(3, 3), c));
    // overlap on one axis only
    assert!(!intersect(a, Point::new(5, 30), c, Point::new(8, 40)));
}
