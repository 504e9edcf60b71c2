//! The weapons stream: trackers of airborne weapons, which enter only by
//! `Shot` events and are polled on every tick without back-off.
use vstd::prelude::*;
use crate::backoff::Backoff;
use crate::equalish::{meters_equalish, within, METERS_EPSILON};
use crate::model::{Event, Position, Transform, Weapon};
use crate::status::PollOutcome;
use crate::stream::{orientation_differs, velocity_differs};

pub use crate::equalish::{orientation_equalish, vector_equalish, velocity_equalish};
pub use crate::status::Error;

verus! {

/// Weapons are compared on their planar projection alone: latitude,
/// longitude and altitude are ignored.
pub open spec fn spec_position_equalish(l: Position, r: Position) -> bool {
    within(l.u, r.u, METERS_EPSILON) && within(l.v, r.v, METERS_EPSILON)
}

/// Check whether two weapon positions are equal within tolerance, on the
/// planar coordinates `u` and `v` only.
pub fn position_equalish(l: &Position, r: &Position) -> (res: bool)
    ensures
        res == spec_position_equalish(*l, *r),
{
    meters_equalish(l.u, r.u) && meters_equalish(l.v, r.v)
}

pub open spec fn position_differs(held: Option<Position>, fresh: Option<Position>) -> bool {
    match (held, fresh) {
        (Some(h), Some(f)) => !spec_position_equalish(h, f),
        _ => false,
    }
}

pub open spec fn weapon_changed(w: Weapon, t: Transform) -> bool {
    position_differs(w.position, t.position) || orientation_differs(w.orientation, t.orientation)
        || velocity_differs(w.velocity, t.velocity)
}

pub open spec fn applied_weapon(w: Weapon, t: Transform) -> Weapon {
    Weapon {
        position: if position_differs(w.position, t.position) {
            t.position
        } else {
            w.position
        },
        orientation: if orientation_differs(w.orientation, t.orientation) {
            t.orientation
        } else {
            w.orientation
        },
        velocity: if velocity_differs(w.velocity, t.velocity) {
            t.velocity
        } else {
            w.velocity
        },
        ..w
    }
}

/// The last known state of a weapon.
#[derive(Clone, Copy, Debug, PartialEq, Eq, Structural)]
pub struct WeaponState {
    pub weapon: Weapon,
    /// Mission time of the most recent report on the weapon, in ns.
    pub update_time: i64,
    pub is_gone: bool,
}

impl WeaponState {
    pub fn new(weapon: Weapon) -> (r: WeaponState)
        ensures
            r == (WeaponState { weapon, update_time: 0, is_gone: false }),
    {
        WeaponState { weapon, update_time: 0, is_gone: false }
    }

    /// Folds a fresh transform into the tracker and returns whether any
    /// diffed field changed.
    pub fn update(&mut self, t: &Transform) -> (changed: bool)
        ensures
            changed == weapon_changed(old(self).weapon, *t),
            *final(self) == (WeaponState {
                weapon: applied_weapon(old(self).weapon, *t),
                update_time: t.time,
                is_gone: old(self).is_gone,
            }),
    {
        self.update_time = t.time;
        let mut changed = false;
        match (&self.weapon.position, &t.position) {
            (Some(h), Some(f)) => {
                if !position_equalish(h, f) {
                    self.weapon.position = t.position;
                    changed = true;
                }
            },
            _ => {},
        }
        match (&self.weapon.orientation, &t.orientation) {
            (Some(h), Some(f)) => {
                if !orientation_equalish(h, f) {
                    self.weapon.orientation = t.orientation;
                    changed = true;
                }
            },
            _ => {},
        }
        match (&self.weapon.velocity, &t.velocity) {
            (Some(h), Some(f)) => {
                if !velocity_equalish(h, f) {
                    self.weapon.velocity = t.velocity;
                    changed = true;
                }
            },
            _ => {},
        }
        changed
    }
}

/// The terminal message of a weapon.
#[derive(Clone, Copy, Debug, PartialEq, Eq, Structural)]
pub struct WeaponGone {
    pub id: u32,
}

#[derive(Clone, Copy, Debug, PartialEq, Eq, Structural)]
pub enum Update {
    Weapon(Weapon),
    Gone(WeaponGone),
}

/// One outbound message of a weapons stream, stamped with a mission time
/// in nanoseconds.
#[derive(Clone, Copy, Debug, PartialEq, Eq, Structural)]
pub struct StreamWeaponsResponse {
    pub time: i64,
    pub update: Update,
}

/// Options of a weapons subscription.
#[derive(Clone, Copy, Debug)]
pub struct StreamWeaponsRequest {
    /// Poll rate in milliseconds.
    pub poll_rate: Option<u32>,
}

/// The tracker after one poll.
pub open spec fn weapon_after_poll(s: WeaponState, o: PollOutcome<Transform>) -> WeaponState {
    match o {
        PollOutcome::Found(t) => WeaponState {
            weapon: applied_weapon(s.weapon, t),
            update_time: t.time,
            is_gone: s.is_gone,
        },
        PollOutcome::NotFound => WeaponState { is_gone: true, ..s },
        PollOutcome::Failed(_) => s,
    }
}

/// The message one poll emits, if any.
pub open spec fn weapon_poll_message(s: WeaponState, o: PollOutcome<Transform>) -> Option<StreamWeaponsResponse> {
    match o {
        PollOutcome::Found(t) => if weapon_changed(s.weapon, t) {
            Some(
                StreamWeaponsResponse {
                    time: t.time,
                    update: Update::Weapon(applied_weapon(s.weapon, t)),
                },
            )
        } else {
            None
        },
        PollOutcome::NotFound => Some(
            StreamWeaponsResponse {
                time: s.update_time,
                update: Update::Gone(WeaponGone { id: s.weapon.id }),
            },
        ),
        PollOutcome::Failed(_) => None,
    }
}

/// Applies the result of polling one weapon: a change yields the updated
/// weapon, "not found" yields its terminal message and marks the tracker
/// gone, any other failure is returned as the subscription's error.
pub fn update_weapon(state: &mut WeaponState, outcome: PollOutcome<Transform>) -> (r: Result<Option<StreamWeaponsResponse>, Error>)
    ensures
        match outcome {
            PollOutcome::Failed(s) => r == Err::<Option<StreamWeaponsResponse>, Error>(Error::Status(s)),
            _ => r == Ok::<Option<StreamWeaponsResponse>, Error>(weapon_poll_message(*old(state), outcome)),
        },
        *final(state) == weapon_after_poll(*old(state), outcome),
{
    match outcome {
        PollOutcome::Found(t) => {
            if state.update(&t) {
                Ok(
                    Some(
                        StreamWeaponsResponse {
                            time: state.update_time,
                            update: Update::Weapon(state.weapon),
                        },
                    ),
                )
            } else {
                Ok(None)
            }
        },
        PollOutcome::NotFound => {
            let m = StreamWeaponsResponse {
                time: state.update_time,
                update: Update::Gone(WeaponGone { id: state.weapon.id }),
            };
            state.is_gone = true;
            Ok(Some(m))
        },
        PollOutcome::Failed(s) => Err(Error::Status(s)),
    }
}

pub open spec fn ids_unique(s: Seq<WeaponState>) -> bool {
    forall|i: int, j: int| 0 <= i < j < s.len() ==> #[trigger] s[i].weapon.id != #[trigger] s[j].weapon.id
}

pub open spec fn tracks_weapon(s: Seq<WeaponState>, id: u32) -> bool {
    exists|i: int| 0 <= i < s.len() && #[trigger] s[i].weapon.id == id
}

pub open spec fn weapon_index(s: Seq<WeaponState>, id: u32) -> int {
    choose|i: int| 0 <= i < s.len() && #[trigger] s[i].weapon.id == id
}

/// The table after tracking `t`: it replaces the tracker of the same id,
/// or joins the end of the table.
pub open spec fn with_weapon(s: Seq<WeaponState>, t: WeaponState) -> Seq<WeaponState> {
    if tracks_weapon(s, t.weapon.id) {
        s.update(weapon_index(s, t.weapon.id), t)
    } else {
        s.push(t)
    }
}

/// The weapon table after the first `n` trackers took their poll results;
/// a tracker found gone is dropped.
pub open spec fn tick_weapons(s: Seq<WeaponState>, o: Seq<PollOutcome<Transform>>, n: nat) -> Seq<WeaponState>
    decreases n,
{
    if n == 0 {
        seq![]
    } else {
        let prev = tick_weapons(s, o, (n - 1) as nat);
        let t = weapon_after_poll(s[n - 1], o[n - 1]);
        if t.is_gone {
            prev
        } else {
            prev.push(t)
        }
    }
}

pub open spec fn tick_weapon_messages(s: Seq<WeaponState>, o: Seq<PollOutcome<Transform>>, n: nat) -> Seq<StreamWeaponsResponse>
    decreases n,
{
    if n == 0 {
        seq![]
    } else {
        let prev = tick_weapon_messages(s, o, (n - 1) as nat);
        match weapon_poll_message(s[n - 1], o[n - 1]) {
            Some(m) => prev.push(m),
            None => prev,
        }
    }
}

/// Whether any of the first `n` poll results is a failure other than
/// "not found".
pub open spec fn any_failed(o: Seq<PollOutcome<Transform>>, n: int) -> bool {
    exists|i: int| 0 <= i < n && (#[trigger] o[i]) matches PollOutcome::Failed(_)
}

fn first_failed(o: &Vec<PollOutcome<Transform>>) -> (r: Option<usize>)
    ensures
        match r {
            Some(k) => k < o@.len() && (o@[k as int] matches PollOutcome::Failed(_))
                && !any_failed(o@, k as int),
            None => !any_failed(o@, o@.len() as int),
        },
{
    let mut i: usize = 0;
    while i < o.len()
        invariant
            i <= o@.len(),
            !any_failed(o@, i as int),
        decreases o@.len() - i,
    {
        if let PollOutcome::Failed(_) = &o[i] {
            return Some(i);
        }
        i = i + 1;
    }
    None
}

/// The engine of one weapons subscription.
pub struct WeaponStream {
    pub weapons: Vec<WeaponState>,
    pub backoff: Backoff,
}

impl WeaponStream {
    /// Ids are unique and no reaped tracker remains.
    pub open spec fn wf(&self) -> bool {
        &&& ids_unique(self.weapons@)
        &&& forall|i: int| 0 <= i < self.weapons@.len() ==> !(#[trigger] self.weapons@[i]).is_gone
    }

    /// A subscription with an empty table: weapons in flight at the start
    /// cannot be enumerated, so none is tracked until it is shot.
    pub fn new(opts: &StreamWeaponsRequest) -> (r: WeaponStream)
        ensures
            r.wf(),
            r.weapons@.len() == 0,
            r.backoff == Backoff::spec_for_weapons(opts.poll_rate),
    {
        WeaponStream { weapons: Vec::new(), backoff: Backoff::for_weapons(opts.poll_rate) }
    }

    fn insert(&mut self, t: WeaponState)
        requires
            old(self).wf(),
            !t.is_gone,
        ensures
            final(self).wf(),
            final(self).weapons@ == with_weapon(old(self).weapons@, t),
            final(self).backoff == old(self).backoff,
    {
        let mut i: usize = 0;
        while i < self.weapons.len()
            invariant
                *self == *old(self),
                old(self).wf(),
                !t.is_gone,
                i <= self.weapons@.len(),
                forall|j: int| 0 <= j < i ==> self.weapons@[j].weapon.id != t.weapon.id,
            decreases self.weapons@.len() - i,
        {
            if self.weapons[i].weapon.id == t.weapon.id {
                let ghost old_w = self.weapons@;
                proof {
                    assert(old_w[i as int].weapon.id == t.weapon.id);
                    assert(tracks_weapon(old_w, t.weapon.id));
                    let k = weapon_index(self.weapons@, t.weapon.id);
                    assert(k == i) by {
                        if k != i {
                            if k < i {
                                assert(self.weapons@[k].weapon.id != self.weapons@[i as int].weapon.id);
                            } else {
                                assert(self.weapons@[i as int].weapon.id != self.weapons@[k].weapon.id);
                            }
                        }
                    }
                }
                self.weapons.set(i, t);
                proof {
                    assert(self.weapons@ =~= old_w.update(i as int, t));
                }
                return;
            }
            i = i + 1;
        }
        self.weapons.push(t);
    }

    /// Folds one simulator event into the table: a shot emits the weapon at
    /// the event's time and starts tracking it; other events change nothing.
    pub fn handle_event(&mut self, time: i64, event: Event) -> (r: Option<StreamWeaponsResponse>)
        requires
            old(self).wf(),
        ensures
            final(self).wf(),
            final(self).backoff == old(self).backoff,
            match event {
                Event::Shot(w) => final(self).weapons@ == with_weapon(
                    old(self).weapons@,
                    WeaponState { weapon: w, update_time: 0, is_gone: false },
                ) && r == Some(StreamWeaponsResponse { time, update: Update::Weapon(w) }),
                _ => final(self).weapons@ == old(self).weapons@ && r is None,
            },
    {
        match event {
            Event::Shot(w) => {
                self.insert(WeaponState::new(w));
                Some(StreamWeaponsResponse { time, update: Update::Weapon(w) })
            },
            _ => None,
        }
    }

    /// Applies one tick's poll results: `outcomes[i]` belongs to the `i`-th
    /// tracker, and every weapon is polled on every tick. A failure other
    /// than "not found" ends the subscription: the first such status is
    /// returned and nothing changes. Otherwise every changed weapon is
    /// emitted at its reported time, and every weapon found gone emits its
    /// terminal message at its last update time and is dropped.
    pub fn update_weapons(&mut self, outcomes: Vec<PollOutcome<Transform>>) -> (r: Result<Vec<StreamWeaponsResponse>, Error>)
        requires
            old(self).wf(),
            outcomes@.len() == old(self).weapons@.len(),
        ensures
            final(self).wf(),
            final(self).backoff == old(self).backoff,
            r is Err <==> any_failed(outcomes@, outcomes@.len() as int),
            r is Err ==> *final(self) == *old(self) && exists|k: int|
                0 <= k < outcomes@.len() && !any_failed(outcomes@, k) && (outcomes@[k] matches PollOutcome::Failed(s)
                    && r == Err::<Vec<StreamWeaponsResponse>, Error>(Error::Status(s))),
            r is Ok ==> final(self).weapons@ == tick_weapons(old(self).weapons@, outcomes@, outcomes@.len())
                && r->Ok_0@ == tick_weapon_messages(old(self).weapons@, outcomes@, outcomes@.len()),
    {
        let mut outcomes = outcomes;
        if let Some(k) = first_failed(&outcomes) {
            let o = outcomes.remove(k);
            match o {
                PollOutcome::Failed(s) => {
                    return Err(Error::Status(s));
                },
                _ => {
                    proof {
                        assert(false);
                    }
                    return Err(Error::Send);
                },
            }
        }
        let ghost ov = outcomes@;
        let ghost old_w = self.weapons@;
        let mut kept: Vec<WeaponState> = Vec::new();
        let mut msgs: Vec<StreamWeaponsResponse> = Vec::new();
        let mut i: usize = 0;
        while i < self.weapons.len()
            invariant
                self.weapons@ == old_w,
                ids_unique(old_w),
                outcomes@.len() == ov.len(),
                forall|j: int| i <= j < ov.len() ==> outcomes@[j] == ov[j],
                ov.len() == old_w.len(),
                !any_failed(ov, ov.len() as int),
                i <= old_w.len(),
                kept@ == tick_weapons(old_w, ov, i as nat),
                msgs@ == tick_weapon_messages(old_w, ov, i as nat),
                forall|j: int| 0 <= j < kept@.len() ==> !(#[trigger] kept@[j]).is_gone,
                forall|j: int| 0 <= j < kept@.len() ==> exists|k: int| 0 <= k < i && (#[trigger] kept@[j]).weapon.id == old_w[k].weapon.id,
                ids_unique(kept@),
            decreases old_w.len() - i,
        {
            let mut slot: PollOutcome<Transform> = PollOutcome::NotFound;
            outcomes.set_and_swap(i, &mut slot);
            let mut st = self.weapons[i];
            let res = update_weapon(&mut st, slot);
            match res {
                Ok(Some(m)) => {
                    msgs.push(m);
                },
                _ => {},
            }
            if !st.is_gone {
                kept.push(st);
            }
            i = i + 1;
        }
        self.weapons = kept;
        Ok(msgs)
    }
}


/// A weapon subscription emits nothing before its first shot: a tick over
/// its empty table emits no message and keeps it empty.
pub proof fn lemma_empty_tick_is_silent(o: Seq<PollOutcome<Transform>>)
    ensures
        tick_weapons(seq![], o, 0) == Seq::<WeaponState>::empty(),
        tick_weapon_messages(seq![], o, 0) == Seq::<StreamWeaponsResponse>::empty(),
{
}

} // verus!
