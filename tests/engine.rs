use dcs_stream::backoff::{due, Backoff};
use dcs_stream::equalish::{
    degrees_equalish, meters_equalish, orientation_equalish, position_equalish, speed_equalish,
    vector_equalish, velocity_equalish,
};
use dcs_stream::model::{
    Event, Group, GroupCategory, Initiator, Orientation, Position, Static, Transform, Unit,
    UnitTransform, Vector, Velocity, Weapon,
};
use dcs_stream::status::{outcome_for_code, outcome_from_status, Error, PollOutcome};
use dcs_stream::stream::{StreamUnitsRequest, StreamUnitsResponse, UnitStream, Update};
use dcs_stream::weapon::{self, StreamWeaponsRequest, WeaponStream};

fn pos(u: i64) -> Position {
    Position { lat: 41_000_000_000, lon: 43_000_000_000, alt: 100_000_000_000, u, v: 0 }
}

fn orientation() -> Orientation {
    Orientation {
        heading: 90_000_000_000,
        yaw: 90_000_000_000,
        pitch: 0,
        roll: 0,
        forward: Some(Vector { x: 0, y: 0, z: 1_000_000_000 }),
        right: Some(Vector { x: 1_000_000_000, y: 0, z: 0 }),
        up: Some(Vector { x: 0, y: 1_000_000_000, z: 0 }),
    }
}

fn velocity() -> Velocity {
    Velocity { heading: 0, speed: 0, velocity: Some(Vector { x: 0, y: 0, z: 0 }) }
}

fn unit(name: &str, category: GroupCategory, u: i64) -> Unit {
    Unit {
        id: 7,
        name: name.to_string(),
        group: Some(Group { name: "g".to_string(), category }),
        player_name: Some(String::new()),
        in_air: false,
        position: Some(pos(u)),
        orientation: Some(orientation()),
        velocity: Some(velocity()),
    }
}

fn unit_transform(time: i64, u: i64) -> UnitTransform {
    UnitTransform {
        time,
        position: Some(pos(u)),
        orientation: Some(orientation()),
        velocity: Some(velocity()),
        player_name: Some(String::new()),
        in_air: false,
    }
}

fn transform(time: i64, u: i64) -> Transform {
    Transform {
        time,
        position: Some(pos(u)),
        orientation: Some(orientation()),
        velocity: Some(velocity()),
    }
}

fn units_request(category: i32) -> StreamUnitsRequest {
    StreamUnitsRequest {
        poll_rate: None,
        max_backoff: None,
        category,
        include_static_objects: None,
    }
}

fn found(t: UnitTransform) -> Vec<Option<PollOutcome<UnitTransform>>> {
    vec![Some(PollOutcome::Found(t))]
}

fn unit_of(m: &StreamUnitsResponse) -> &Unit {
    match &m.update {
        Update::Unit(u) => u,
        other => panic!("expected a unit update, got {:?}", other),
    }
}

#[test]
fn meters_and_angles_tolerance() {
    assert!(meters_equalish(0, 999_999));
    assert!(!meters_equalish(0, 1_000_000));
    assert!(degrees_equalish(5, 10_000_004));
    assert!(!degrees_equalish(-5_000_000, 5_000_000));
    assert!(speed_equalish(1_000_000, 1_999_999));
    assert!(!speed_equalish(i64::MIN, i64::MAX));
}

#[test]
fn position_tolerance_on_every_field() {
    let p = pos(0);
    assert!(position_equalish(&p, &Position { lat: p.lat + 999, ..p }));
    assert!(!position_equalish(&p, &Position { lat: p.lat + 1_000, ..p }));
    assert!(!position_equalish(&p, &Position { alt: p.alt - 1_000_000, ..p }));
    assert!(!position_equalish(&p, &Position { v: 2_000_000, ..p }));
}

#[test]
fn weapon_position_ignores_geodetic_fields() {
    let p = pos(0);
    let q = Position { lat: p.lat + 1_000_000, lon: 0, alt: 0, ..p };
    assert!(weapon::position_equalish(&p, &q));
    assert!(!weapon::position_equalish(&p, &Position { u: 1_000_000, ..p }));
}

#[test]
fn orientation_absent_vectors_count_as_equal() {
    let a = orientation();
    let b = Orientation { forward: None, right: None, up: None, ..a };
    assert!(orientation_equalish(&a, &b));
    let c = Orientation { up: Some(Vector { x: 0, y: 999_000_000, z: 0 }), ..a };
    assert!(!orientation_equalish(&a, &c));
    assert!(!orientation_equalish(&a, &Orientation { roll: 10_000_000, ..a }));
    assert!(vector_equalish(&Vector { x: 1, y: 2, z: 3 }, &Vector { x: 1, y: 2, z: 1_002 }));
}

#[test]
fn velocity_tolerance() {
    let a = velocity();
    assert!(velocity_equalish(&a, &Velocity { velocity: None, ..a }));
    assert!(!velocity_equalish(&a, &Velocity { speed: 1_000_000, ..a }));
    assert!(!velocity_equalish(&a, &Velocity { heading: 20_000_000, ..a }));
}

#[test]
fn unit_defaults_and_raised_ceiling() {
    let b = Backoff::for_units(None, None);
    assert_eq!(b, Backoff { poll_rate: 5_000, max_backoff: 30_000 });
    let b = Backoff::for_units(Some(10), Some(3));
    assert_eq!(b, Backoff { poll_rate: 10_000, max_backoff: 10_000 });
    let b = Backoff::for_units(Some(2), Some(60));
    assert_eq!(b, Backoff { poll_rate: 2_000, max_backoff: 60_000 });
}

#[test]
fn weapon_default_poll_rate() {
    assert_eq!(Backoff::for_weapons(None).poll_rate, 1_000);
    assert_eq!(Backoff::for_weapons(Some(250)).poll_rate, 250);
    let s = WeaponStream::new(&StreamWeaponsRequest { poll_rate: None });
    assert_eq!(s.backoff.poll_rate, 1_000);
    assert!(s.weapons.is_empty());
}

#[test]
fn backoff_doubles_up_to_ceiling() {
    let b = Backoff::for_units(None, None);
    let mut x = 0;
    let mut seen = vec![];
    for _ in 0..5 {
        x = b.next(x, false);
        seen.push(x);
    }
    assert_eq!(seen, vec![5_000, 10_000, 20_000, 30_000, 30_000]);
    assert_eq!(b.next(30_000, true), 0);
}

#[test]
fn due_after_backoff_elapsed() {
    assert!(due(100, 100, 0));
    assert!(!due(104, 100, 5));
    assert!(due(105, 100, 5));
    assert!(!due(50, 100, 5));
}

#[test]
fn status_codes_classified() {
    let o: PollOutcome<Transform> = outcome_from_status(tonic::Status::not_found("gone"));
    assert!(matches!(o, PollOutcome::NotFound));
    let o: PollOutcome<Transform> = outcome_from_status(tonic::Status::internal("boom"));
    assert!(matches!(o, PollOutcome::Failed(s) if s.code() == tonic::Code::Internal));
    let o: PollOutcome<Transform> =
        outcome_for_code(tonic::Code::Unavailable, tonic::Status::unavailable("later"));
    assert!(matches!(o, PollOutcome::Failed(_)));
}

#[test]
fn stationary_unit() {
    let mut s = UnitStream::new(&units_request(0));
    let init = s.initial_sync(vec![unit("U", GroupCategory::Ground, 0)], vec![], 0);
    assert_eq!(init.len(), 1);
    assert_eq!(init[0].time, 0);
    assert_eq!(unit_of(&init[0]).name, "U");
    assert_eq!(s.units[0].backoff, 0);
    let m = s.update_units(found(unit_transform(1_000, 0)), 5_000).ok().unwrap();
    assert!(m.is_empty());
    assert_eq!(s.units[0].backoff, 5_000);
    let m = s.update_units(found(unit_transform(2_000, 0)), 10_000).ok().unwrap();
    assert!(m.is_empty());
    assert_eq!(s.units[0].backoff, 10_000);
    assert_eq!(s.units[0].update_time, 2_000);
}

#[test]
fn moving_unit() {
    let mut s = UnitStream::new(&units_request(0));
    s.initial_sync(vec![unit("U", GroupCategory::Ground, 0)], vec![], 0);
    let m = s.update_units(found(unit_transform(1_000, 5_000_000)), 5_000).ok().unwrap();
    assert_eq!(m.len(), 1);
    assert_eq!(m[0].time, 1_000);
    assert_eq!(unit_of(&m[0]).position.unwrap().u, 5_000_000);
    assert_eq!(s.units[0].backoff, 0);
    let m = s.update_units(found(unit_transform(2_000, 5_000_000)), 10_000).ok().unwrap();
    assert!(m.is_empty());
    assert_eq!(s.units[0].backoff, 5_000);
}

#[test]
fn identical_polls_emit_once() {
    let mut s = UnitStream::new(&units_request(0));
    s.initial_sync(vec![unit("U", GroupCategory::Ground, 0)], vec![], 0);
    let m = s.update_units(found(unit_transform(1_000, 9_000_000)), 1).ok().unwrap();
    assert_eq!(m.len(), 1);
    let m = s.update_units(found(unit_transform(2_000, 9_000_000)), 2).ok().unwrap();
    assert!(m.is_empty());
    let m = s.update_units(found(unit_transform(3_000, 9_000_000)), 3).ok().unwrap();
    assert!(m.is_empty());
    assert_eq!(s.units[0].backoff, 10_000);
}

#[test]
fn missed_death() {
    let mut s = UnitStream::new(&units_request(0));
    s.initial_sync(vec![unit("U", GroupCategory::Ground, 0)], vec![], 0);
    let m = s.update_units(vec![Some(PollOutcome::NotFound)], 5_000).ok().unwrap();
    assert_eq!(m.len(), 1);
    assert_eq!(m[0].time, 0);
    match &m[0].update {
        Update::Gone(g) => {
            assert_eq!(g.id, 7);
            assert_eq!(g.name, "U");
        },
        other => panic!("expected gone, got {:?}", other),
    }
    assert!(s.units.is_empty());
    let m = s.update_units(vec![], 10_000).ok().unwrap();
    assert!(m.is_empty());
}

#[test]
fn birth_then_dead_event() {
    let mut s = UnitStream::new(&units_request(0));
    s.initial_sync(vec![], vec![], 0);
    let v = unit("V", GroupCategory::Airplane, 0);
    let m = s.handle_event(10, Event::Birth(Initiator::Unit(v.clone())), 1).unwrap();
    assert_eq!(m.time, 10);
    assert_eq!(unit_of(&m).name, "V");
    assert_eq!(s.units.len(), 1);
    let m = s.handle_event(12, Event::Dead(Initiator::Unit(v.clone())), 2).unwrap();
    assert_eq!(m.time, 12);
    assert!(matches!(&m.update, Update::Gone(g) if g.name == "V" && g.id == 7));
    assert!(s.units.is_empty());
    assert!(s.handle_event(13, Event::Dead(Initiator::Unit(v)), 3).is_none());
    assert!(s.update_units(vec![], 4).ok().unwrap().is_empty());
}

#[test]
fn category_filter() {
    let mut s = UnitStream::new(&units_request(1));
    assert_eq!(s.category, GroupCategory::Airplane);
    let h = unit("H", GroupCategory::Helicopter, 0);
    assert!(s.handle_event(10, Event::Birth(Initiator::Unit(h)), 1).is_none());
    assert!(s.units.is_empty());
    let a = unit("A", GroupCategory::Airplane, 0);
    assert!(s.handle_event(11, Event::Birth(Initiator::Unit(a)), 1).is_some());
    assert_eq!(s.units.len(), 1);
}

#[test]
fn statics_only_when_requested() {
    let st = Static {
        id: 3,
        name: "S".to_string(),
        position: Some(pos(0)),
        orientation: Some(orientation()),
        velocity: Some(velocity()),
    };
    let mut s = UnitStream::new(&units_request(0));
    assert!(s.handle_event(1, Event::Birth(Initiator::Static(st.clone())), 0).is_none());
    let init = s.initial_sync(vec![], vec![st.clone()], 0);
    assert!(init.is_empty());

    let mut req = units_request(0);
    req.include_static_objects = Some(true);
    let mut s = UnitStream::new(&req);
    let init = s.initial_sync(vec![unit("U", GroupCategory::Ground, 0)], vec![st.clone()], 0);
    assert_eq!(init.len(), 2);
    assert!(matches!(&init[1].update, Update::Static(x) if x.name == "S"));
    let m = s
        .update_static_objects(vec![Some(PollOutcome::Found(transform(4, 3_000_000)))], 9)
        .ok()
        .unwrap();
    assert_eq!(m.len(), 1);
    assert_eq!(m[0].time, 4);
    let m = s.handle_event(5, Event::Dead(Initiator::Static(st)), 10).unwrap();
    assert!(matches!(&m.update, Update::Gone(g) if g.id == 3));
    assert!(s.statics.is_empty());
}

#[test]
fn initial_sync_keeps_one_tracker_per_name() {
    let mut s = UnitStream::new(&units_request(0));
    let init = s.initial_sync(
        vec![
            unit("A", GroupCategory::Ground, 0),
            unit("B", GroupCategory::Ground, 0),
            unit("A", GroupCategory::Ground, 4_000_000),
        ],
        vec![],
        0,
    );
    assert_eq!(init.len(), 2);
    assert_eq!(s.units.len(), 2);
    assert_eq!(unit_of(&init[0]).position.unwrap().u, 4_000_000);
}

#[test]
fn fatal_poll_failure_ends_and_keeps_state() {
    let mut s = UnitStream::new(&units_request(0));
    s.initial_sync(
        vec![unit("A", GroupCategory::Ground, 0), unit("B", GroupCategory::Ground, 0)],
        vec![],
        0,
    );
    let r = s.update_units(
        vec![
            Some(PollOutcome::NotFound),
            Some(PollOutcome::Failed(tonic::Status::internal("x"))),
        ],
        1,
    );
    assert!(matches!(r, Err(Error::Status(ref st)) if st.code() == tonic::Code::Internal));
    assert_eq!(s.units.len(), 2);
}

#[test]
fn gated_unit_is_left_alone() {
    let mut s = UnitStream::new(&units_request(0));
    s.initial_sync(vec![unit("U", GroupCategory::Ground, 0)], vec![], 0);
    s.update_units(found(unit_transform(1, 0)), 100).ok().unwrap();
    assert_eq!(s.due_units(101), vec![false]);
    assert_eq!(s.due_units(5_100), vec![true]);
    let m = s.update_units(vec![None], 101).ok().unwrap();
    assert!(m.is_empty());
    assert_eq!(s.units[0].last_checked, 100);
}

#[test]
fn weapon_shot() {
    let mut s = WeaponStream::new(&StreamWeaponsRequest { poll_rate: None });
    let w = Weapon {
        id: 42,
        position: Some(pos(0)),
        orientation: Some(orientation()),
        velocity: Some(velocity()),
    };
    let m = s.handle_event(5, Event::Shot(w)).unwrap();
    assert_eq!(m.time, 5);
    assert_eq!(m.update, weapon::Update::Weapon(w));
    let m = s.update_weapons(vec![PollOutcome::Found(transform(6, 0))]).ok().unwrap();
    assert!(m.is_empty());
    let m = s.update_weapons(vec![PollOutcome::Found(transform(7, 2_000_000))]).ok().unwrap();
    assert_eq!(m.len(), 1);
    assert_eq!(m[0].time, 7);
    assert!(matches!(m[0].update, weapon::Update::Weapon(x) if x.position.unwrap().u == 2_000_000));
    let m = s.update_weapons(vec![PollOutcome::NotFound]).ok().unwrap();
    assert_eq!(m[0], weapon::StreamWeaponsResponse { time: 7, update: weapon::Update::Gone(weapon::WeaponGone { id: 42 }) });
    assert!(s.weapons.is_empty());
}

#[test]
fn weapon_stream_ignores_other_events() {
    let mut s = WeaponStream::new(&StreamWeaponsRequest { poll_rate: Some(200) });
    assert!(s.update_weapons(vec![]).ok().unwrap().is_empty());
    let u = unit("U", GroupCategory::Ground, 0);
    assert!(s.handle_event(1, Event::Birth(Initiator::Unit(u))).is_none());
    assert!(s.weapons.is_empty());
}

#[test]
fn group_category_codes() {
    assert_eq!(GroupCategory::from_code(0), GroupCategory::Unspecified);
    assert_eq!(GroupCategory::from_code(2), GroupCategory::Helicopter);
    assert_eq!(GroupCategory::from_code(5), GroupCategory::Train);
    assert_eq!(GroupCategory::from_code(99), GroupCategory::Unspecified);
    assert_eq!(GroupCategory::from_code(-1), GroupCategory::Unspecified);
}

#[test]
fn unit_update_takes_player_name_and_in_air() {
    let mut s = UnitStream::new(&units_request(0));
    s.initial_sync(vec![unit("U", GroupCategory::Ground, 0)], vec![], 0);
    let mut t = unit_transform(3, 0);
    t.in_air = true;
    let m = s.update_units(found(t), 1).ok().unwrap();
    assert!(m.is_empty());
    assert!(s.units[0].unit.in_air);
    let mut t = unit_transform(4, 0);
    t.player_name = Some("pilot".to_string());
    let m = s.update_units(found(t), 2).ok().unwrap();
    assert_eq!(m.len(), 1);
    assert_eq!(unit_of(&m[0]).player_name.as_deref(), Some("pilot"));
    assert_eq!(s.units[0].last_changed, 2);
}
