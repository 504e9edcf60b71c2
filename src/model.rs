//! Entity records as fixed-point values.
use vstd::prelude::*;

verus! {

/// A 3-vector, each component in billionths.
#[derive(Clone, Copy, Debug, PartialEq, Eq, Structural)]
pub struct Vector {
    pub x: i64,
    pub y: i64,
    pub z: i64,
}

/// A geodetic position plus its local planar projection.
/// `lat`/`lon` in nano-degrees, `alt`, `u`, `v` in nanometres.
#[derive(Clone, Copy, Debug, PartialEq, Eq, Structural)]
pub struct Position {
    pub lat: i64,
    pub lon: i64,
    pub alt: i64,
    pub u: i64,
    pub v: i64,
}

/// Angles in nano-degrees, with optional basis vectors.
#[derive(Clone, Copy, Debug, PartialEq, Eq, Structural)]
pub struct Orientation {
    pub heading: i64,
    pub yaw: i64,
    pub pitch: i64,
    pub roll: i64,
    pub forward: Option<Vector>,
    pub right: Option<Vector>,
    pub up: Option<Vector>,
}

/// Heading in nano-degrees, speed in nanometres per second.
#[derive(Clone, Copy, Debug, PartialEq, Eq, Structural)]
pub struct Velocity {
    pub heading: i64,
    pub speed: i64,
    pub velocity: Option<Vector>,
}

/// Category of a group of units; `Unspecified` accepts every category
/// when used as a filter.
#[derive(Clone, Copy, Debug, PartialEq, Eq, Structural)]
pub enum GroupCategory {
    Unspecified,
    Airplane,
    Helicopter,
    Ground,
    Ship,
    Train,
}

impl GroupCategory {
    /// The category carried on the wire as `code`; unknown codes read as
    /// `Unspecified`.
    pub open spec fn spec_from_code(code: i32) -> GroupCategory {
        if code == 1 {
            GroupCategory::Airplane
        } else if code == 2 {
            GroupCategory::Helicopter
        } else if code == 3 {
            GroupCategory::Ground
        } else if code == 4 {
            GroupCategory::Ship
        } else if code == 5 {
            GroupCategory::Train
        } else {
            GroupCategory::Unspecified
        }
    }

    pub fn from_code(code: i32) -> (r: GroupCategory)
        ensures
            r == GroupCategory::spec_from_code(code),
    {
        match code {
            1 => GroupCategory::Airplane,
            2 => GroupCategory::Helicopter,
            3 => GroupCategory::Ground,
            4 => GroupCategory::Ship,
            5 => GroupCategory::Train,
            _ => GroupCategory::Unspecified,
        }
    }
}

/// The group a unit belongs to.
#[derive(Clone, Debug)]
pub struct Group {
    pub name: String,
    pub category: GroupCategory,
}

pub struct GroupView {
    pub name: Seq<char>,
    pub category: GroupCategory,
}

impl View for Group {
    type V = GroupView;

    open spec fn view(&self) -> GroupView {
        GroupView { name: self.name@, category: self.category }
    }
}

impl Group {
    pub fn copy(&self) -> (r: Group)
        ensures
            r@ == self@,
    {
        Group { name: self.name.clone(), category: self.category }
    }
}

pub open spec fn opt_string_view(s: Option<String>) -> Option<Seq<char>> {
    match s {
        Some(s) => Some(s@),
        None => None,
    }
}

pub fn copy_opt_string(s: &Option<String>) -> (r: Option<String>)
    ensures
        opt_string_view(r) == opt_string_view(*s),
{
    match s {
        Some(s) => Some(s.clone()),
        None => None,
    }
}

/// A tactical unit, keyed by its name.
#[derive(Clone, Debug)]
pub struct Unit {
    pub id: u32,
    pub name: String,
    pub group: Option<Group>,
    pub player_name: Option<String>,
    pub in_air: bool,
    pub position: Option<Position>,
    pub orientation: Option<Orientation>,
    pub velocity: Option<Velocity>,
}

pub struct UnitView {
    pub id: u32,
    pub name: Seq<char>,
    pub group: Option<GroupView>,
    pub player_name: Option<Seq<char>>,
    pub in_air: bool,
    pub position: Option<Position>,
    pub orientation: Option<Orientation>,
    pub velocity: Option<Velocity>,
}

impl View for Unit {
    type V = UnitView;

    open spec fn view(&self) -> UnitView {
        UnitView {
            id: self.id,
            name: self.name@,
            group: match self.group {
                Some(g) => Some(g@),
                None => None,
            },
            player_name: opt_string_view(self.player_name),
            in_air: self.in_air,
            position: self.position,
            orientation: self.orientation,
            velocity: self.velocity,
        }
    }
}

impl Unit {
    /// The category of the unit's group; a unit without a group is
    /// `Unspecified`.
    pub open spec fn spec_category(self) -> GroupCategory {
        match self.group {
            Some(g) => g.category,
            None => GroupCategory::Unspecified,
        }
    }

    pub fn category(&self) -> (r: GroupCategory)
        ensures
            r == self.spec_category(),
    {
        match &self.group {
            Some(g) => g.category,
            None => GroupCategory::Unspecified,
        }
    }

    pub fn copy(&self) -> (r: Unit)
        ensures
            r@ == self@,
    {
        let group = match &self.group {
            Some(g) => Some(g.copy()),
            None => None,
        };
        Unit {
            id: self.id,
            name: self.name.clone(),
            group,
            player_name: copy_opt_string(&self.player_name),
            in_air: self.in_air,
            position: self.position,
            orientation: self.orientation,
            velocity: self.velocity,
        }
    }
}

/// A static object, keyed by its name.
#[derive(Clone, Debug)]
pub struct Static {
    pub id: u32,
    pub name: String,
    pub position: Option<Position>,
    pub orientation: Option<Orientation>,
    pub velocity: Option<Velocity>,
}

pub struct StaticView {
    pub id: u32,
    pub name: Seq<char>,
    pub position: Option<Position>,
    pub orientation: Option<Orientation>,
    pub velocity: Option<Velocity>,
}

impl View for Static {
    type V = StaticView;

    open spec fn view(&self) -> StaticView {
        StaticView {
            id: self.id,
            name: self.name@,
            position: self.position,
            orientation: self.orientation,
            velocity: self.velocity,
        }
    }
}

impl Static {
    pub fn copy(&self) -> (r: Static)
        ensures
            r@ == self@,
    {
        Static {
            id: self.id,
            name: self.name.clone(),
            position: self.position,
            orientation: self.orientation,
            velocity: self.velocity,
        }
    }
}

/// An airborne weapon, keyed by its numeric id.
#[derive(Clone, Copy, Debug, PartialEq, Eq, Structural)]
pub struct Weapon {
    pub id: u32,
    pub position: Option<Position>,
    pub orientation: Option<Orientation>,
    pub velocity: Option<Velocity>,
}

/// A fresh transform of a unit as reported by the simulator.
#[derive(Clone, Debug)]
pub struct UnitTransform {
    /// Mission time of the report, in nanoseconds.
    pub time: i64,
    pub position: Option<Position>,
    pub orientation: Option<Orientation>,
    pub velocity: Option<Velocity>,
    pub player_name: Option<String>,
    pub in_air: bool,
}

/// A fresh transform of a static object or a weapon.
#[derive(Clone, Copy, Debug, PartialEq, Eq, Structural)]
pub struct Transform {
    /// Mission time of the report, in nanoseconds.
    pub time: i64,
    pub position: Option<Position>,
    pub orientation: Option<Orientation>,
    pub velocity: Option<Velocity>,
}

} // verus!

verus! {

/// The entity that caused a simulator event.
#[derive(Clone, Debug)]
pub enum Initiator {
    Unit(Unit),
    Static(Static),
    Weapon(Weapon),
    /// Any initiator this core does not track.
    Other,
}

/// A simulator event, as far as the stream engines read it.
#[derive(Clone, Debug)]
pub enum Event {
    Birth(Initiator),
    Dead(Initiator),
    /// A weapon was fired.
    Shot(Weapon),
    /// Any other event; ignored.
    Other,
}

} // verus!
