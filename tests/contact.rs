use platformer::contact::{
    friction_shell, route_collision, sensor_shape, update_contact_detectors, CollisionEvent, ContactDetection,
    ContactSensor, Cuboid, OverlapChange, SensorRole,
};

fn touched(role: SensorRole) -> ContactSensor {
    let mut s = ContactSensor::new(7, role);
    s.apply(OverlapChange { sensor: 11, other: 3, started: true });
    s
}

#[test]
fn stability_needs_both_sensors() {
    let mut c = ContactDetection::new();
    c.update(SensorRole::StableLeft, true);
    assert!(c.stable_left && !c.is_stable);
    c.update(SensorRole::StableRight, true);
    assert!(c.is_stable);
    c.update(SensorRole::StableRight, false);
    assert!(!c.is_stable);
    c.update(SensorRole::StableRight, true);
    assert!(c.is_stable);
    c.update(SensorRole::StableLeft, false);
    assert!(!c.is_stable);
}

#[test]
fn each_role_sets_its_own_flag() {
    let mut c = ContactDetection::new();
    c.update(SensorRole::Left, true);
    assert!(c.on_left && !c.on_right && !c.on_ground);
    c.update(SensorRole::Right, true);
    assert!(c.on_right);
    c.update(SensorRole::Ground, true);
    assert!(c.on_ground);
    c.update(SensorRole::Left, false);
    assert!(!c.on_left && c.on_right && c.on_ground && !c.is_stable);
}

#[test]
fn sensor_set_tracks_overlaps() {
    let mut s = ContactSensor::new(1, SensorRole::Ground);
    assert!(!s.is_touching());
    s.apply(OverlapChange { sensor: 2, other: 10, started: true });
    s.apply(OverlapChange { sensor: 2, other: 11, started: true });
    s.apply(OverlapChange { sensor: 2, other: 10, started: false });
    assert!(s.is_touching());
    s.apply(OverlapChange { sensor: 2, other: 11, started: false });
    assert!(!s.is_touching());
    assert_eq!(s.detecting_entity, 1);
}

#[test]
fn sensor_report_updates_detector() {
    let mut c = ContactDetection::new();
    update_contact_detectors(&mut c, &touched(SensorRole::Ground));
    assert!(c.on_ground);
    update_contact_detectors(&mut c, &touched(SensorRole::StableLeft));
    update_contact_detectors(&mut c, &touched(SensorRole::StableRight));
    assert!(c.is_stable);
    update_contact_detectors(&mut c, &ContactSensor::new(7, SensorRole::StableLeft));
    assert!(!c.stable_left && !c.is_stable);
}

#[test]
fn collisions_are_routed_to_the_sensor() {
    assert_eq!(
        route_collision(CollisionEvent::Started(5, 9), true, false),
        Some(OverlapChange { sensor: 9, other: 5, started: true })
    );
    assert_eq!(
        route_collision(CollisionEvent::Stopped(5, 9), false, true),
        Some(OverlapChange { sensor: 5, other: 9, started: false })
    );
    assert_eq!(
        route_collision(CollisionEvent::Started(5, 9), true, true),
        Some(OverlapChange { sensor: 9, other: 5, started: true })
    );
    assert_eq!(route_collision(CollisionEvent::Started(5, 9), false, false), None);
}

#[test]
fn sensor_shapes_follow_the_body() {
    // the player's body: half extents 7.9 by 8.0 world units
    let (hx, hy) = (7900, 8000);
    assert_eq!(sensor_shape(SensorRole::Left, hx, hy), Cuboid { half_x: 3950, half_y: 8000, offset_x: -8690, offset_y: 0 });
    assert_eq!(sensor_shape(SensorRole::Right, hx, hy), Cuboid { half_x: 3950, half_y: 8000, offset_x: 8690, offset_y: 0 });
    assert_eq!(sensor_shape(SensorRole::Ground, hx, hy), Cuboid { half_x: 7110, half_y: 4000, offset_x: 0, offset_y: -8000 });
    assert_eq!(
        sensor_shape(SensorRole::StableLeft, hx, hy),
        Cuboid { half_x: 987, half_y: 4000, offset_x: -6900, offset_y: -8000 }
    );
    assert_eq!(
        sensor_shape(SensorRole::StableRight, hx, hy),
        Cuboid { half_x: 987, half_y: 4000, offset_x: 6900, offset_y: -8000 }
    );
    assert_eq!(friction_shell(hx, hy), Cuboid { half_x: 8058, half_y: 7920, offset_x: 0, offset_y: 0 });
}
