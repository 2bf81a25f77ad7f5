use smart_road::{Direction, Point, Route, CAR_LENGTH, CAR_SPEED_NORMAL};

const ALL: [Route; 12] = [
    Route::N_S,
    Route::S_N,
    Route::W_E,
    Route::E_W,
    Route::N_W,
    Route::S_E,
    Route::W_S,
    Route::E_N,
    Route::N_E,
    Route::S_W,
    Route::W_N,
    Route::E_S,
];

#[test]
fn route_indices_round_trip() {
    for (i, r) in ALL.iter().enumerate() {
        assert_eq!(r.index(), i);
        assert_eq!(Route::from_index(i), *r);
    }
}

#[test]
fn spawn_points_are_outside_the_field() {
    assert_eq!(Route::N_S.get_coordinates(), Point::new(3400, -CAR_LENGTH));
    assert_eq!(Route::S_N.get_coordinates(), Point::new(4300, 8000));
    assert_eq!(Route::W_E.get_coordinates(), Point::new(-CAR_LENGTH, 4300));
    assert_eq!(Route::E_W.get_coordinates(), Point::new(8000, 3400));
    assert_eq!(Route::E_S.get_coordinates(), Point::new(8000, 3700));
}

#[test]
fn cruise_velocity_follows_entry_direction() {
    assert_eq!(Route::N_E.get_speed(), (0, CAR_SPEED_NORMAL));
    assert_eq!(Route::S_W.get_speed(), (0, -CAR_SPEED_NORMAL));
    assert_eq!(Route::W_N.get_speed(), (CAR_SPEED_NORMAL, 0));
    assert_eq!(Route::E_N.get_speed(), (-CAR_SPEED_NORMAL, 0));
    assert_eq!(Route::N_W.get_direction(), Direction::Down);
    assert_eq!(Route::S_E.get_direction(), Direction::Up);
    assert_eq!(Route::W_S.get_direction(), Direction::Right);
    assert_eq!(Route::E_W.get_direction(), Direction::Left);
}

#[test]
fn right_turns_conflict_with_nothing() {
    for r in [Route::N_W, Route::S_E, Route::W_S, Route::E_N] {
        assert!(r.not_allowed_to_go().is_empty());
    }
    for r in [Route::N_S, Route::S_N, Route::W_E, Route::E_W, Route::N_E, Route::S_W, Route::W_N, Route::E_S] {
        let c = r.not_allowed_to_go();
        assert!(!c.is_empty());
        assert!(!c.contains(&r));
    }
    assert_eq!(
        Route::N_S.not_allowed_to_go(),
        vec![Route::E_W, Route::W_E, Route::W_N, Route::S_W]
    );
    assert_eq!(
        Route::N_E.not_allowed_to_go(),
        vec![Route::E_W, Route::S_N, Route::S_W, Route::W_N, Route::E_S]
    );
}
