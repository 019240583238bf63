//! Contact sensors around a character and the contact state they feed.

use std::collections::HashSet;
use vstd::prelude::*;

verus! {

broadcast use vstd::std_specs::hash::group_hash_axioms;

/// Where a sensor sits on its character, and so which contact flag it feeds.
#[derive(Clone, Copy, Debug, PartialEq, Eq, Structural)]
pub enum SensorRole {
    Left,
    Right,
    Ground,
    StableLeft,
    StableRight,
}

/// A sensor volume of a character: the entity it reports to and the solid
/// entities that overlap it now. Entities are named by their numeric ids.
pub struct ContactSensor {
    pub detecting_entity: u64,
    pub role: SensorRole,
    pub intersecting_entities: HashSet<u64>,
}

/// An overlap notification from the physics engine between two entities.
#[derive(Clone, Copy, Debug, PartialEq, Eq, Structural)]
pub enum CollisionEvent {
    Started(u64, u64),
    Stopped(u64, u64),
}

/// A change to one sensor's overlap set: `other` begins (`started`) or stops
/// overlapping the sensor entity `sensor`.
#[derive(Clone, Copy, Debug, PartialEq, Eq, Structural)]
pub struct OverlapChange {
    pub sensor: u64,
    pub other: u64,
    pub started: bool,
}

/// What a character touches, as its five sensors report it.
#[derive(Clone, Copy, Debug, PartialEq, Eq, Structural)]
pub struct ContactDetection {
    pub on_left: bool,
    pub on_right: bool,
    pub on_ground: bool,
    pub stable_left: bool,
    pub stable_right: bool,
    pub is_stable: bool,
}

/// An axis-aligned box collider attached to a character: its half extents
/// and its offset from the character's centre, in thousandths of a world
/// unit.
#[derive(Clone, Copy, Debug, PartialEq, Eq, Structural)]
pub struct Cuboid {
    pub half_x: i64,
    pub half_y: i64,
    pub offset_x: i64,
    pub offset_y: i64,
}

impl ContactSensor {
    /// A sensor of `role` for `detecting_entity`, touching nothing yet.
    pub fn new(detecting_entity: u64, role: SensorRole) -> (s: ContactSensor)
        ensures
            s.detecting_entity == detecting_entity,
            s.role == role,
            s.intersecting_entities@ == Set::<u64>::empty(),
    {
        ContactSensor { detecting_entity, role, intersecting_entities: HashSet::new() }
    }

    /// Records that `change.other` begins or stops overlapping this sensor.
    pub fn apply(&mut self, change: OverlapChange)
        ensures
            final(self).detecting_entity == old(self).detecting_entity,
            final(self).role == old(self).role,
            final(self).intersecting_entities@ == if change.started {
                old(self).intersecting_entities@.insert(change.other)
            } else {
                old(self).intersecting_entities@.remove(change.other)
            },
    {
        if change.started {
            self.intersecting_entities.insert(change.other);
        } else {
            self.intersecting_entities.remove(&change.other);
        }
    }

    /// Whether anything solid overlaps the sensor.
    pub fn is_touching(&self) -> (r: bool)
        ensures
            r == !self.intersecting_entities@.is_empty(),
    {
        !self.intersecting_entities.is_empty()
    }
}

/// Which sensor an overlap event concerns. When the first entity is a solid
/// collidable, the second is taken as the sensor; otherwise, when the second
/// is solid, the first is. An event between two entities neither of which
/// is solid changes nothing. Whether the chosen entity is a sensor at all is
/// for the caller to look up.
pub fn route_collision(event: CollisionEvent, first_is_solid: bool, second_is_solid: bool) -> (r: Option<OverlapChange>)
    ensures
        r == match event {
            CollisionEvent::Started(a, b) => route_spec(a, b, true, first_is_solid, second_is_solid),
            CollisionEvent::Stopped(a, b) => route_spec(a, b, false, first_is_solid, second_is_solid),
        },
{
    let (a, b, started) = match event {
        CollisionEvent::Started(a, b) => (a, b, true),
        CollisionEvent::Stopped(a, b) => (a, b, false),
    };
    if first_is_solid {
        Some(OverlapChange { sensor: b, other: a, started })
    } else if second_is_solid {
        Some(OverlapChange { sensor: a, other: b, started })
    } else {
        None
    }
}

/// The overlap change that an event between `a` and `b` makes.
pub open spec fn route_spec(a: u64, b: u64, started: bool, a_solid: bool, b_solid: bool) -> Option<OverlapChange> {
    if a_solid {
        Some(OverlapChange { sensor: b, other: a, started })
    } else if b_solid {
        Some(OverlapChange { sensor: a, other: b, started })
    } else {
        None
    }
}

impl ContactDetection {
    /// `is_stable` agrees with the two stability flags.
    pub open spec fn wf(&self) -> bool {
        self.is_stable == (self.stable_left && self.stable_right)
    }

    /// The state after the sensor of `role` reports `touching`: only that
    /// sensor's flag changes, and `is_stable` is recomputed when a stability
    /// sensor reports.
    pub open spec fn with_contact(self, role: SensorRole, touching: bool) -> ContactDetection {
        match role {
            SensorRole::Left => ContactDetection { on_left: touching, ..self },
            SensorRole::Right => ContactDetection { on_right: touching, ..self },
            SensorRole::Ground => ContactDetection { on_ground: touching, ..self },
            SensorRole::StableLeft => ContactDetection {
                stable_left: touching,
                is_stable: touching && self.stable_right,
                ..self
            },
            SensorRole::StableRight => ContactDetection {
                stable_right: touching,
                is_stable: self.stable_left && touching,
                ..self
            },
        }
    }

    /// No contact at all.
    pub open spec fn spec_untouched() -> ContactDetection {
        ContactDetection {
            on_left: false,
            on_right: false,
            on_ground: false,
            stable_left: false,
            stable_right: false,
            is_stable: false,
        }
    }

    /// A character touching nothing.
    pub fn new() -> (c: ContactDetection)
        ensures
            c == ContactDetection::spec_untouched(),
            c.wf(),
    {
        ContactDetection {
            on_left: false,
            on_right: false,
            on_ground: false,
            stable_left: false,
            stable_right: false,
            is_stable: false,
        }
    }

    /// Takes in the report of the sensor of `role`.
    pub fn update(&mut self, role: SensorRole, touching: bool)
        ensures
            *final(self) == old(self).with_contact(role, touching),
            old(self).wf() ==> final(self).wf(),
            role == SensorRole::StableLeft || role == SensorRole::StableRight ==> {
                &&& final(self).is_stable == (final(self).stable_left && final(self).stable_right)
                &&& !touching ==> !final(self).is_stable
            },
    {
        match role {
            SensorRole::Left => self.on_left = touching,
            SensorRole::Right => self.on_right = touching,
            SensorRole::Ground => self.on_ground = touching,
            SensorRole::StableLeft => {
                self.stable_left = touching;
                self.is_stable = self.stable_left && self.stable_right;
            },
            SensorRole::StableRight => {
                self.stable_right = touching;
                self.is_stable = self.stable_left && self.stable_right;
            },
        }
    }
}

impl Default for ContactDetection {
    /// A character touching nothing.
    fn default() -> (c: ContactDetection)
        ensures
            c == ContactDetection::spec_untouched(),
    {
        ContactDetection::new()
    }
}

/// Brings a character's contact state up to date with one of its sensors
/// whose overlap set changed: the flag of the sensor's role becomes whether
/// the set is non-empty.
pub fn update_contact_detectors(detection: &mut ContactDetection, sensor: &ContactSensor)
    ensures
        *final(detection) == old(detection).with_contact(sensor.role, !sensor.intersecting_entities@.is_empty()),
        old(detection).wf() ==> final(detection).wf(),
{
    let touching = sensor.is_touching();
    detection.update(sensor.role, touching);
}

/// The shell that wraps a character's body, of half extents `half_x` by
/// `half_y` (thousandths of a world unit), to carry zero friction: a little
/// wider and a little shorter than the body, so that the character slides
/// along walls instead of sticking to them.
pub fn friction_shell(half_x: u32, half_y: u32) -> (c: Cuboid)
    ensures
        c.half_x == half_x * 102 / 100,
        c.half_y == half_y * 99 / 100,
        c.offset_x == 0,
        c.offset_y == 0,
{
    Cuboid {
        half_x: half_x as i64 * 102 / 100,
        half_y: half_y as i64 * 99 / 100,
        offset_x: 0,
        offset_y: 0,
    }
}

/// The volume of the sensor of `role` on a body of half extents `half_x` by
/// `half_y` (thousandths of a world unit). The side sensors are half as wide
/// as the body and as tall, just outside its edges; the ground sensor spans
/// most of the body's width in a band under its centre line; the stability
/// sensors are narrow and sit under the bottom corners, one world unit in.
pub fn sensor_shape(role: SensorRole, half_x: u32, half_y: u32) -> (c: Cuboid)
    ensures
        match role {
            SensorRole::Left => c.half_x == half_x / 2 && c.half_y == half_y && c.offset_x == -(half_x * 11 / 10) && c.offset_y == 0,
            SensorRole::Right => c.half_x == half_x / 2 && c.half_y == half_y && c.offset_x == half_x * 11 / 10 && c.offset_y == 0,
            SensorRole::Ground => c.half_x == half_x * 9 / 10 && c.half_y == half_y / 2 && c.offset_x == 0 && c.offset_y == -half_y,
            SensorRole::StableLeft => c.half_x == half_x / 8 && c.half_y == half_y / 2 && c.offset_x == 1000 - half_x && c.offset_y == -half_y,
            SensorRole::StableRight => c.half_x == half_x / 8 && c.half_y == half_y / 2 && c.offset_x == half_x - 1000 && c.offset_y == -half_y,
        },
{
    let hx = half_x as i64;
    let hy = half_y as i64;
    match role {
        SensorRole::Left => Cuboid { half_x: hx / 2, half_y: hy, offset_x: -(hx * 11 / 10), offset_y: 0 },
        SensorRole::Right => Cuboid { half_x: hx / 2, half_y: hy, offset_x: hx * 11 / 10, offset_y: 0 },
        SensorRole::Ground => Cuboid { half_x: hx * 9 / 10, half_y: hy / 2, offset_x: 0, offset_y: -hy },
        SensorRole::StableLeft => Cuboid { half_x: hx / 8, half_y: hy / 2, offset_x: 1000 - hx, offset_y: -hy },
        SensorRole::StableRight => Cuboid { half_x: hx / 8, half_y: hy / 2, offset_x: hx - 1000, offset_y: -hy },
    }
}

} // verus!
