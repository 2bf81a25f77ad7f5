use smart_road::{Car, Intersection, Route, CAR_LENGTH, CAR_SPEED_FAST, CAR_SPEED_NORMAL, CAR_SPEED_SLOW};

fn find(inter: &Intersection, id: u32) -> Option<Car> {
    inter.snapshot().into_iter().find(|c| c.id == id)
}

fn is_fast(c: &Car) -> bool {
    c.speed.0.abs() == CAR_SPEED_FAST || c.speed.1.abs() == CAR_SPEED_FAST
}

fn is_slow(c: &Car) -> bool {
    c.speed.0.abs() == CAR_SPEED_SLOW || c.speed.1.abs() == CAR_SPEED_SLOW
}

#[test]
fn new_intersection_is_empty() {
    let inter = Intersection::new();
    assert!(inter.snapshot().is_empty());
    assert_eq!(inter.count_completed(), 0);
}

#[test]
fn spawn_places_a_cruising_vehicle() {
    let mut inter = Intersection::new();
    assert!(inter.spawn(Route::S_N, 3));
    let snap = inter.snapshot();
    assert_eq!(snap.len(), 1);
    let c = snap[0];
    assert_eq!(c.id, 1);
    assert_eq!(c.color, 3);
    assert_eq!(c.position, Route::S_N.get_coordinates());
    assert_eq!(c.speed, (0, -CAR_SPEED_NORMAL));
    assert_eq!(c.rectangle, (100, 300));
    assert!(!c.turned);
}

#[test]
fn admission_keeps_two_lengths_of_gap() {
    let mut inter = Intersection::new();
    assert!(inter.spawn(Route::W_E, 0));
    // the first vehicle is still at the spawn point
    assert!(!inter.spawn(Route::W_E, 0));
    assert!(!inter.can_add(Route::W_E));
    // another lane is free
    assert!(inter.can_add(Route::E_W));
    // x must reach -300 + 600 = 300: 39 ticks bring it to 285, 40 to 300
    for _ in 0..39 {
        inter.drive_cars();
    }
    assert_eq!(find(&inter, 1).unwrap().position.x, 285);
    assert!(!inter.can_add(Route::W_E));
    inter.drive_cars();
    assert_eq!(find(&inter, 1).unwrap().position.x, 300);
    // exactly two vehicle lengths is enough
    assert!(inter.can_add(Route::W_E));
    assert!(inter.spawn(Route::W_E, 1));
    let tail = find(&inter, 1).unwrap();
    let new = find(&inter, 2).unwrap();
    assert_eq!(tail.position.x - new.position.x, 2 * CAR_LENGTH);
}

#[test]
fn add_car_with_one_candidate_uses_it() {
    let mut inter = Intersection::new();
    inter.add_car(vec![Route::E_S]);
    let snap = inter.snapshot();
    assert_eq!(snap.len(), 1);
    assert_eq!(snap[0].route, Route::E_S);
    assert!(snap[0].color < smart_road::PALETTE_SIZE);
    // a second request on the same lane is dropped silently
    inter.add_car(vec![Route::E_S]);
    assert_eq!(inter.snapshot().len(), 1);
}

#[test]
fn add_car_picks_among_candidates() {
    let mut inter = Intersection::new();
    let routes = vec![Route::N_S, Route::N_W, Route::N_E];
    inter.add_car(routes.clone());
    let snap = inter.snapshot();
    assert_eq!(snap.len(), 1);
    assert!(routes.contains(&snap[0].route));
}

#[test]
fn lone_straight_vehicle_completes() {
    let mut inter = Intersection::new();
    assert!(inter.spawn(Route::N_S, 0));
    for _ in 0..100 {
        inter.drive_cars();
    }
    assert_eq!(inter.count_completed(), 0);
    assert_eq!(inter.snapshot().len(), 1);
    for _ in 0..1000 {
        inter.drive_cars();
    }
    assert_eq!(inter.count_completed(), 1);
    assert!(inter.snapshot().is_empty());
    for _ in 0..10 {
        inter.drive_cars();
    }
    assert_eq!(inter.count_completed(), 1);
}

#[test]
fn lone_vehicle_goes_fast_on_the_crossing() {
    let mut inter = Intersection::new();
    assert!(inter.spawn(Route::N_S, 0));
    // y = -300 + 15 * 154 = 2010: past the approach threshold
    for _ in 0..154 {
        inter.drive_cars();
    }
    let c = find(&inter, 1).unwrap();
    assert_eq!(c.position.y, 2010);
    assert_eq!(c.speed, (0, CAR_SPEED_NORMAL));
    inter.drive_cars();
    let c = find(&inter, 1).unwrap();
    assert_eq!(c.speed, (0, CAR_SPEED_FAST));
    assert_eq!(c.position.y, 2045);
}

#[test]
fn turning_vehicle_turns_once_and_completes() {
    let mut inter = Intersection::new();
    assert!(inter.spawn(Route::N_E, 0));
    let mut turned_seen = false;
    for _ in 0..1000 {
        inter.drive_cars();
        if let Some(c) = find(&inter, 1) {
            if turned_seen {
                assert!(c.turned);
                assert_eq!(c.direction, smart_road::Direction::Right);
                assert_eq!(c.position.y, 4000);
            }
            turned_seen = c.turned;
        }
    }
    assert!(turned_seen || inter.count_completed() == 1);
    assert_eq!(inter.count_completed(), 1);
}

#[test]
fn free_right_turn_completes() {
    let mut inter = Intersection::new();
    assert!(inter.spawn(Route::W_S, 0));
    for _ in 0..1000 {
        inter.drive_cars();
    }
    assert_eq!(inter.count_completed(), 1);
    assert!(inter.snapshot().is_empty());
}

#[test]
fn conflicting_arrivals_take_turns() {
    let mut inter = Intersection::new();
    assert!(inter.spawn(Route::N_S, 0));
    assert!(inter.spawn(Route::W_E, 0));
    for _ in 0..155 {
        inter.drive_cars();
        let a = find(&inter, 1).unwrap();
        let b = find(&inter, 2).unwrap();
        assert!(!(is_fast(&a) && is_fast(&b)));
    }
    // both reached the threshold in the same tick: one goes, one waits
    let a = find(&inter, 1).unwrap();
    let b = find(&inter, 2).unwrap();
    assert!(is_fast(&a));
    assert!(is_slow(&b));
    // the second is held slow until the first leaves the crossing
    let mut released = false;
    for _ in 0..300 {
        let before_a = find(&inter, 1);
        inter.drive_cars();
        let b = find(&inter, 2).unwrap();
        if let Some(a) = before_a {
            if a.position.y <= 4800 {
                assert!(is_slow(&b));
            }
        }
        if is_fast(&b) {
            released = true;
            break;
        }
    }
    assert!(released);
    for _ in 0..1000 {
        inter.drive_cars();
    }
    assert_eq!(inter.count_completed(), 2);
    assert!(inter.snapshot().is_empty());
}

#[test]
fn follower_behind_a_held_vehicle_slows() {
    let mut inter = Intersection::new();
    // a crossing vehicle that will hold the north lane
    assert!(inter.spawn(Route::W_E, 0));
    for _ in 0..30 {
        inter.drive_cars();
    }
    assert!(inter.spawn(Route::N_S, 0));
    for _ in 0..41 {
        inter.drive_cars();
    }
    assert!(inter.spawn(Route::N_S, 0));
    let mut checked = false;
    for _ in 0..400 {
        inter.drive_cars();
        let (Some(lead), Some(follower)) = (find(&inter, 2), find(&inter, 3)) else {
            break;
        };
        if is_slow(&lead) && follower.position.y + 15 < 2000 {
            // the follower was before the crossing when it was stepped
            assert!(is_slow(&follower));
            checked = true;
        }
    }
    assert!(checked);
}

#[test]
fn busy_intersection_keeps_vehicles_in_the_field() {
    let mut inter = Intersection::new();
    let all = [
        Route::N_S,
        Route::S_N,
        Route::W_E,
        Route::E_W,
        Route::N_W,
        Route::S_E,
        Route::W_S,
        Route::E_N,
        Route::N_E,
        Route::S_W,
        Route::W_N,
        Route::E_S,
    ];
    for t in 0..2000usize {
        if t % 7 == 0 {
            inter.spawn(all[(t / 7) % 12], 0);
        }
        inter.drive_cars();
        let snap = inter.snapshot();
        for c in &snap {
            assert!(c.position.x >= -300 && c.position.x <= 8000);
            assert!(c.position.y >= -300 && c.position.y <= 8000);
        }
    }
    assert!(inter.count_completed() > 0);
}

#[test]
fn right_of_way_follows_conflicts_and_queue() {
    let mut inter = Intersection::new();
    // an empty intersection lets anybody go
    assert!(inter.can_go(Route::N_S, 1));
    assert!(inter.spawn(Route::N_S, 0));
    assert!(inter.spawn(Route::W_E, 0));
    for _ in 0..155 {
        inter.drive_cars();
    }
    // vehicle 1 crosses fast from the north; vehicle 2 waits in the queue
    assert!(!inter.can_go(Route::W_E, 2));
    assert!(!inter.can_go(Route::S_W, 7));
    // a free right turn never conflicts
    assert!(inter.can_go(Route::N_W, 7));
    // a route that does not conflict with the north-south crossing, but
    // with a queue it does not head
    assert!(!inter.can_go(Route::S_N, 7));
}

fn footprints_overlap(a: &Car, b: &Car) -> bool {
    a.position.x <= b.position.x + b.rectangle.0
        && b.position.x <= a.position.x + a.rectangle.0
        && a.position.y <= b.position.y + b.rectangle.1
        && b.position.y <= a.position.y + a.rectangle.1
}

#[test]
fn queued_vehicles_do_not_overlap() {
    let mut inter = Intersection::new();
    assert!(inter.spawn(Route::W_E, 0));
    for t in 0..900 {
        if t >= 30 {
            // the north lane fills up behind a vehicle held at the crossing
            inter.spawn(Route::N_S, 1);
        }
        inter.drive_cars();
        let snap = inter.snapshot();
        for i in 0..snap.len() {
            for j in (i + 1)..snap.len() {
                assert!(!footprints_overlap(&snap[i], &snap[j]), "tick {}: {} and {}", t, snap[i].id, snap[j].id);
            }
        }
    }
    assert!(inter.count_completed() >= 2);
}
