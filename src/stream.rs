//! The units stream: trackers of units and static objects, and the engine
//! that turns simulator events and poll results into outbound messages.
use vstd::prelude::*;
use crate::backoff::{due, spec_due, Backoff};
use crate::equalish::{spec_orientation_equalish, spec_position_equalish, spec_velocity_equalish};
use crate::model::{
    Event, Initiator, copy_opt_string, opt_string_view, GroupCategory, Orientation, Position, Static, StaticView,
    Transform, Unit, UnitTransform, UnitView, Velocity,
};
use crate::status::PollOutcome;

pub use crate::equalish::{
    orientation_equalish, position_equalish, vector_equalish, velocity_equalish,
};
pub use crate::status::Error;


verus! {

/// A held position is replaced when the fresh one differs beyond tolerance.
pub open spec fn position_differs(held: Option<Position>, fresh: Option<Position>) -> bool {
    match (held, fresh) {
        (Some(h), Some(f)) => !spec_position_equalish(h, f),
        _ => false,
    }
}

pub open spec fn orientation_differs(held: Option<Orientation>, fresh: Option<Orientation>) -> bool {
    match (held, fresh) {
        (Some(h), Some(f)) => !spec_orientation_equalish(h, f),
        _ => false,
    }
}

pub open spec fn velocity_differs(held: Option<Velocity>, fresh: Option<Velocity>) -> bool {
    match (held, fresh) {
        (Some(h), Some(f)) => !spec_velocity_equalish(h, f),
        _ => false,
    }
}

pub open spec fn name_differs(held: Option<Seq<char>>, fresh: Option<Seq<char>>) -> bool {
    match (held, fresh) {
        (Some(h), Some(f)) => h != f,
        _ => false,
    }
}

/// Whether a fresh transform changes a unit in any diffed field.
pub open spec fn unit_changed(u: UnitView, t: UnitTransform) -> bool {
    position_differs(u.position, t.position) || orientation_differs(u.orientation, t.orientation)
        || velocity_differs(u.velocity, t.velocity) || name_differs(
        u.player_name,
        opt_string_view(t.player_name),
    )
}

/// The unit after a fresh transform: each diffed field that differs is
/// replaced, `in_air` is always taken over.
pub open spec fn applied_unit(u: UnitView, t: UnitTransform) -> UnitView {
    UnitView {
        position: if position_differs(u.position, t.position) {
            t.position
        } else {
            u.position
        },
        orientation: if orientation_differs(u.orientation, t.orientation) {
            t.orientation
        } else {
            u.orientation
        },
        velocity: if velocity_differs(u.velocity, t.velocity) {
            t.velocity
        } else {
            u.velocity
        },
        player_name: if name_differs(u.player_name, opt_string_view(t.player_name)) {
            opt_string_view(t.player_name)
        } else {
            u.player_name
        },
        in_air: t.in_air,
        ..u
    }
}

/// Whether a fresh transform changes a static object in any diffed field.
pub open spec fn static_changed(s: StaticView, t: Transform) -> bool {
    position_differs(s.position, t.position) || orientation_differs(s.orientation, t.orientation)
        || velocity_differs(s.velocity, t.velocity)
}

pub open spec fn applied_static(s: StaticView, t: Transform) -> StaticView {
    StaticView {
        position: if position_differs(s.position, t.position) {
            t.position
        } else {
            s.position
        },
        orientation: if orientation_differs(s.orientation, t.orientation) {
            t.orientation
        } else {
            s.orientation
        },
        velocity: if velocity_differs(s.velocity, t.velocity) {
            t.velocity
        } else {
            s.velocity
        },
        ..s
    }
}

fn merge_position(held: &mut Option<Position>, fresh: Option<Position>) -> (changed: bool)
    ensures
        changed == position_differs(*old(held), fresh),
        *final(held) == if changed { fresh } else { *old(held) },
{
    match (&*held, &fresh) {
        (Some(h), Some(f)) => {
            if !position_equalish(h, f) {
                *held = fresh;
                true
            } else {
                false
            }
        },
        _ => false,
    }
}

fn merge_orientation(held: &mut Option<Orientation>, fresh: Option<Orientation>) -> (changed: bool)
    ensures
        changed == orientation_differs(*old(held), fresh),
        *final(held) == if changed { fresh } else { *old(held) },
{
    match (&*held, &fresh) {
        (Some(h), Some(f)) => {
            if !orientation_equalish(h, f) {
                *held = fresh;
                true
            } else {
                false
            }
        },
        _ => false,
    }
}

fn merge_velocity(held: &mut Option<Velocity>, fresh: Option<Velocity>) -> (changed: bool)
    ensures
        changed == velocity_differs(*old(held), fresh),
        *final(held) == if changed { fresh } else { *old(held) },
{
    match (&*held, &fresh) {
        (Some(h), Some(f)) => {
            if !velocity_equalish(h, f) {
                *held = fresh;
                true
            } else {
                false
            }
        },
        _ => false,
    }
}

fn merge_name(held: &mut Option<String>, fresh: &Option<String>) -> (changed: bool)
    ensures
        changed == name_differs(opt_string_view(*old(held)), opt_string_view(*fresh)),
        opt_string_view(*final(held)) == if changed {
            opt_string_view(*fresh)
        } else {
            opt_string_view(*old(held))
        },
{
    let differs = match (&*held, fresh) {
        (Some(h), Some(f)) => !(*f == *h),
        _ => false,
    };
    if differs {
        *held = copy_opt_string(fresh);
    }
    differs
}

/// The last known state of a unit, and when to look at it again.
pub struct UnitState {
    pub unit: Unit,
    /// Time to wait after the last check before polling again, in ms.
    pub backoff: u64,
    /// Mission time of the most recent report on the unit, in ns.
    pub update_time: i64,
    /// Clock reading of the last check, in ms.
    pub last_checked: u64,
    /// Clock reading of the last observed change, in ms.
    pub last_changed: u64,
    /// Set when the unit vanished; the tracker is then dropped.
    pub is_gone: bool,
}

pub struct UnitStateView {
    pub unit: UnitView,
    pub backoff: u64,
    pub update_time: i64,
    pub last_checked: u64,
    pub last_changed: u64,
    pub is_gone: bool,
}

impl View for UnitState {
    type V = UnitStateView;

    open spec fn view(&self) -> UnitStateView {
        UnitStateView {
            unit: self.unit@,
            backoff: self.backoff,
            update_time: self.update_time,
            last_checked: self.last_checked,
            last_changed: self.last_changed,
            is_gone: self.is_gone,
        }
    }
}

/// A tracker fresh from a snapshot or a birth.
pub open spec fn fresh_unit_state(u: UnitView, now: u64) -> UnitStateView {
    UnitStateView {
        unit: u,
        backoff: 0,
        update_time: 0,
        last_checked: now,
        last_changed: now,
        is_gone: false,
    }
}

/// The tracker after a poll that found the unit.
pub open spec fn polled_unit_state(s: UnitStateView, t: UnitTransform, b: Backoff, now: u64) -> UnitStateView {
    let changed = unit_changed(s.unit, t);
    UnitStateView {
        unit: applied_unit(s.unit, t),
        backoff: b.spec_next(s.backoff, changed),
        update_time: t.time,
        last_checked: now,
        last_changed: if changed {
            now
        } else {
            s.last_changed
        },
        is_gone: s.is_gone,
    }
}

impl UnitState {
    pub fn new(unit: Unit, now: u64) -> (r: UnitState)
        ensures
            r@ == fresh_unit_state(unit@, now),
    {
        UnitState {
            unit,
            backoff: 0,
            update_time: 0,
            last_checked: now,
            last_changed: now,
            is_gone: false,
        }
    }

    pub open spec fn spec_should_update(&self, now: u64) -> bool {
        spec_due(now, self.last_checked, self.backoff)
    }

    /// Whether the unit is due for a poll at clock reading `now`; a
    /// tracker without back-off always is.
    pub fn should_update(&self, now: u64) -> (r: bool)
        ensures
            r == self.spec_should_update(now),
    {
        due(now, self.last_checked, self.backoff)
    }

    /// Folds a fresh transform into the tracker and returns whether any
    /// diffed field changed.
    pub fn update(&mut self, t: &UnitTransform, b: &Backoff, now: u64) -> (changed: bool)
        ensures
            changed == unit_changed(old(self)@.unit, *t),
            final(self)@ == polled_unit_state(old(self)@, *t, *b, now),
    {
        self.update_time = t.time;
        let c1 = merge_position(&mut self.unit.position, t.position);
        let c2 = merge_orientation(&mut self.unit.orientation, t.orientation);
        let c3 = merge_velocity(&mut self.unit.velocity, t.velocity);
        let c4 = merge_name(&mut self.unit.player_name, &t.player_name);
        self.unit.in_air = t.in_air;
        let changed = c1 || c2 || c3 || c4;
        self.last_checked = now;
        if changed {
            self.last_changed = now;
        }
        self.backoff = b.next(self.backoff, changed);
        changed
    }

    pub fn copy(&self) -> (r: UnitState)
        ensures
            r@ == self@,
    {
        UnitState {
            unit: self.unit.copy(),
            backoff: self.backoff,
            update_time: self.update_time,
            last_checked: self.last_checked,
            last_changed: self.last_changed,
            is_gone: self.is_gone,
        }
    }
}

/// The last known state of a static object, and when to look at it again.
pub struct StaticState {
    pub static_object: Static,
    pub backoff: u64,
    pub update_time: i64,
    pub last_checked: u64,
    pub last_changed: u64,
    pub is_gone: bool,
}

pub struct StaticStateView {
    pub static_object: StaticView,
    pub backoff: u64,
    pub update_time: i64,
    pub last_checked: u64,
    pub last_changed: u64,
    pub is_gone: bool,
}

impl View for StaticState {
    type V = StaticStateView;

    open spec fn view(&self) -> StaticStateView {
        StaticStateView {
            static_object: self.static_object@,
            backoff: self.backoff,
            update_time: self.update_time,
            last_checked: self.last_checked,
            last_changed: self.last_changed,
            is_gone: self.is_gone,
        }
    }
}

pub open spec fn fresh_static_state(s: StaticView, now: u64) -> StaticStateView {
    StaticStateView {
        static_object: s,
        backoff: 0,
        update_time: 0,
        last_checked: now,
        last_changed: now,
        is_gone: false,
    }
}

pub open spec fn polled_static_state(s: StaticStateView, t: Transform, b: Backoff, now: u64) -> StaticStateView {
    let changed = static_changed(s.static_object, t);
    StaticStateView {
        static_object: applied_static(s.static_object, t),
        backoff: b.spec_next(s.backoff, changed),
        update_time: t.time,
        last_checked: now,
        last_changed: if changed {
            now
        } else {
            s.last_changed
        },
        is_gone: s.is_gone,
    }
}

impl StaticState {
    pub fn new(static_object: Static, now: u64) -> (r: StaticState)
        ensures
            r@ == fresh_static_state(static_object@, now),
    {
        StaticState {
            static_object,
            backoff: 0,
            update_time: 0,
            last_checked: now,
            last_changed: now,
            is_gone: false,
        }
    }

    pub open spec fn spec_should_update(&self, now: u64) -> bool {
        spec_due(now, self.last_checked, self.backoff)
    }

    pub fn should_update(&self, now: u64) -> (r: bool)
        ensures
            r == self.spec_should_update(now),
    {
        due(now, self.last_checked, self.backoff)
    }

    /// Folds a fresh transform into the tracker and returns whether any
    /// diffed field changed.
    pub fn update(&mut self, t: &Transform, b: &Backoff, now: u64) -> (changed: bool)
        ensures
            changed == static_changed(old(self)@.static_object, *t),
            final(self)@ == polled_static_state(old(self)@, *t, *b, now),
    {
        self.update_time = t.time;
        let c1 = merge_position(&mut self.static_object.position, t.position);
        let c2 = merge_orientation(&mut self.static_object.orientation, t.orientation);
        let c3 = merge_velocity(&mut self.static_object.velocity, t.velocity);
        let changed = c1 || c2 || c3;
        self.last_checked = now;
        if changed {
            self.last_changed = now;
        }
        self.backoff = b.next(self.backoff, changed);
        changed
    }

    pub fn copy(&self) -> (r: StaticState)
        ensures
            r@ == self@,
    {
        StaticState {
            static_object: self.static_object.copy(),
            backoff: self.backoff,
            update_time: self.update_time,
            last_checked: self.last_checked,
            last_changed: self.last_changed,
            is_gone: self.is_gone,
        }
    }
}


/// The terminal message of a unit or static object.
#[derive(Clone, Debug)]
pub struct UnitGone {
    pub id: u32,
    pub name: String,
}

/// What one outbound message of a units stream carries.
#[derive(Clone, Debug)]
pub enum Update {
    Unit(Unit),
    Static(Static),
    Gone(UnitGone),
}

/// One outbound message, stamped with a mission time in nanoseconds.
#[derive(Clone, Debug)]
pub struct StreamUnitsResponse {
    pub time: i64,
    pub update: Update,
}

pub enum UpdateView {
    Unit(UnitView),
    Static(StaticView),
    Gone { id: u32, name: Seq<char> },
}

pub struct ResponseView {
    pub time: i64,
    pub update: UpdateView,
}

impl View for StreamUnitsResponse {
    type V = ResponseView;

    open spec fn view(&self) -> ResponseView {
        ResponseView {
            time: self.time,
            update: match self.update {
                Update::Unit(u) => UpdateView::Unit(u@),
                Update::Static(s) => UpdateView::Static(s@),
                Update::Gone(g) => UpdateView::Gone { id: g.id, name: g.name@ },
            },
        }
    }
}

pub open spec fn unit_message(time: i64, u: UnitView) -> ResponseView {
    ResponseView { time, update: UpdateView::Unit(u) }
}

pub open spec fn static_message(time: i64, s: StaticView) -> ResponseView {
    ResponseView { time, update: UpdateView::Static(s) }
}

pub open spec fn gone_message(time: i64, id: u32, name: Seq<char>) -> ResponseView {
    ResponseView { time, update: UpdateView::Gone { id, name } }
}

fn unit_response(time: i64, u: &Unit) -> (r: StreamUnitsResponse)
    ensures
        r@ == unit_message(time, u@),
{
    StreamUnitsResponse { time, update: Update::Unit(u.copy()) }
}

fn static_response(time: i64, s: &Static) -> (r: StreamUnitsResponse)
    ensures
        r@ == static_message(time, s@),
{
    StreamUnitsResponse { time, update: Update::Static(s.copy()) }
}

fn gone_response(time: i64, id: u32, name: &String) -> (r: StreamUnitsResponse)
    ensures
        r@ == gone_message(time, id, name@),
{
    StreamUnitsResponse { time, update: Update::Gone(UnitGone { id, name: name.clone() }) }
}

/// The tracker of a unit after one poll: `None` when the unit is gone.
pub open spec fn unit_after_poll(s: UnitStateView, o: PollOutcome<UnitTransform>, b: Backoff, now: u64) -> UnitStateView {
    match o {
        PollOutcome::Found(t) => polled_unit_state(s, t, b, now),
        PollOutcome::NotFound => UnitStateView { is_gone: true, ..s },
        PollOutcome::Failed(_) => s,
    }
}

/// The message that one poll of a unit emits, if any: the changed unit at
/// the reported time, or its terminal message at the last reported time.
pub open spec fn unit_poll_message(s: UnitStateView, o: PollOutcome<UnitTransform>, b: Backoff, now: u64) -> Option<ResponseView> {
    match o {
        PollOutcome::Found(t) => if unit_changed(s.unit, t) {
            Some(unit_message(t.time, applied_unit(s.unit, t)))
        } else {
            None
        },
        PollOutcome::NotFound => Some(gone_message(s.update_time, s.unit.id, s.unit.name)),
        PollOutcome::Failed(_) => None,
    }
}

pub open spec fn static_after_poll(s: StaticStateView, o: PollOutcome<Transform>, b: Backoff, now: u64) -> StaticStateView {
    match o {
        PollOutcome::Found(t) => polled_static_state(s, t, b, now),
        PollOutcome::NotFound => StaticStateView { is_gone: true, ..s },
        PollOutcome::Failed(_) => s,
    }
}

pub open spec fn static_poll_message(s: StaticStateView, o: PollOutcome<Transform>, b: Backoff, now: u64) -> Option<ResponseView> {
    match o {
        PollOutcome::Found(t) => if static_changed(s.static_object, t) {
            Some(static_message(t.time, applied_static(s.static_object, t)))
        } else {
            None
        },
        PollOutcome::NotFound => Some(
            gone_message(s.update_time, s.static_object.id, s.static_object.name),
        ),
        PollOutcome::Failed(_) => None,
    }
}

pub open spec fn opt_response_view(r: Option<StreamUnitsResponse>) -> Option<ResponseView> {
    match r {
        Some(m) => Some(m@),
        None => None,
    }
}

/// Applies the result of polling one unit: a change yields the updated
/// unit, "not found" yields its terminal message and marks the tracker
/// gone, any other failure is returned as the subscription's error.
pub fn update_unit(
    state: &mut UnitState,
    outcome: PollOutcome<UnitTransform>,
    b: &Backoff,
    now: u64,
) -> (r: Result<Option<StreamUnitsResponse>, Error>)
    ensures
        match outcome {
            PollOutcome::Failed(s) => r == Err::<Option<StreamUnitsResponse>, Error>(Error::Status(s)),
            _ => r is Ok && opt_response_view(r->Ok_0) == unit_poll_message(old(state)@, outcome, *b, now),
        },
        final(state)@ == unit_after_poll(old(state)@, outcome, *b, now),
{
    match outcome {
        PollOutcome::Found(t) => {
            if state.update(&t, b, now) {
                Ok(Some(unit_response(state.update_time, &state.unit)))
            } else {
                Ok(None)
            }
        },
        PollOutcome::NotFound => {
            let m = gone_response(state.update_time, state.unit.id, &state.unit.name);
            state.is_gone = true;
            Ok(Some(m))
        },
        PollOutcome::Failed(s) => Err(Error::Status(s)),
    }
}

/// Applies the result of polling one static object, as [`update_unit`]
/// does for units.
pub fn update_static_object(
    state: &mut StaticState,
    outcome: PollOutcome<Transform>,
    b: &Backoff,
    now: u64,
) -> (r: Result<Option<StreamUnitsResponse>, Error>)
    ensures
        match outcome {
            PollOutcome::Failed(s) => r == Err::<Option<StreamUnitsResponse>, Error>(Error::Status(s)),
            _ => r is Ok && opt_response_view(r->Ok_0) == static_poll_message(old(state)@, outcome, *b, now),
        },
        final(state)@ == static_after_poll(old(state)@, outcome, *b, now),
{
    match outcome {
        PollOutcome::Found(t) => {
            if state.update(&t, b, now) {
                Ok(Some(static_response(state.update_time, &state.static_object)))
            } else {
                Ok(None)
            }
        },
        PollOutcome::NotFound => {
            let m = gone_response(
                state.update_time,
                state.static_object.id,
                &state.static_object.name,
            );
            state.is_gone = true;
            Ok(Some(m))
        },
        PollOutcome::Failed(s) => Err(Error::Status(s)),
    }
}


/// Options of a units subscription.
#[derive(Clone, Copy, Debug)]
pub struct StreamUnitsRequest {
    /// Poll rate in seconds.
    pub poll_rate: Option<u32>,
    /// Ceiling of the back-off in seconds.
    pub max_backoff: Option<u32>,
    /// Group category filter, as its wire code.
    pub category: i32,
    pub include_static_objects: Option<bool>,
}

pub open spec fn unit_names_unique(s: Seq<UnitStateView>) -> bool {
    forall|i: int, j: int|
        0 <= i < j < s.len() ==> #[trigger] s[i].unit.name != #[trigger] s[j].unit.name
}

pub open spec fn static_names_unique(s: Seq<StaticStateView>) -> bool {
    forall|i: int, j: int|
        0 <= i < j < s.len() ==> #[trigger] s[i].static_object.name
            != #[trigger] s[j].static_object.name
}

pub open spec fn tracks_unit(s: Seq<UnitStateView>, name: Seq<char>) -> bool {
    exists|i: int| 0 <= i < s.len() && #[trigger] s[i].unit.name == name
}

pub open spec fn tracks_static(s: Seq<StaticStateView>, name: Seq<char>) -> bool {
    exists|i: int| 0 <= i < s.len() && #[trigger] s[i].static_object.name == name
}

pub open spec fn unit_index(s: Seq<UnitStateView>, name: Seq<char>) -> int {
    choose|i: int| 0 <= i < s.len() && #[trigger] s[i].unit.name == name
}

pub open spec fn static_index(s: Seq<StaticStateView>, name: Seq<char>) -> int {
    choose|i: int| 0 <= i < s.len() && #[trigger] s[i].static_object.name == name
}

/// The table after tracking `t`: it replaces the tracker of the same name,
/// or joins the end of the table.
pub open spec fn with_unit(s: Seq<UnitStateView>, t: UnitStateView) -> Seq<UnitStateView> {
    if tracks_unit(s, t.unit.name) {
        s.update(unit_index(s, t.unit.name), t)
    } else {
        s.push(t)
    }
}

pub open spec fn with_static(s: Seq<StaticStateView>, t: StaticStateView) -> Seq<StaticStateView> {
    if tracks_static(s, t.static_object.name) {
        s.update(static_index(s, t.static_object.name), t)
    } else {
        s.push(t)
    }
}

/// The engine of one units subscription.
pub struct UnitStream {
    pub units: Vec<UnitState>,
    pub statics: Vec<StaticState>,
    pub backoff: Backoff,
    pub category: GroupCategory,
    pub include_static_objects: bool,
}

impl UnitStream {
    pub open spec fn units_view(&self) -> Seq<UnitStateView> {
        self.units@.map_values(|s: UnitState| s@)
    }

    pub open spec fn statics_view(&self) -> Seq<StaticStateView> {
        self.statics@.map_values(|s: StaticState| s@)
    }

    /// Keys are unique per table, no reaped tracker remains, every
    /// back-off is off or between the poll rate and the ceiling, and
    /// statics are only tracked when asked for.
    pub open spec fn wf(&self) -> bool {
        &&& self.backoff.wf()
        &&& unit_names_unique(self.units_view())
        &&& static_names_unique(self.statics_view())
        &&& forall|i: int|
            0 <= i < self.units@.len() ==> !(#[trigger] self.units@[i]).is_gone
                && self.backoff.valid(self.units@[i].backoff)
        &&& forall|i: int|
            0 <= i < self.statics@.len() ==> !(#[trigger] self.statics@[i]).is_gone
                && self.backoff.valid(self.statics@[i].backoff)
        &&& !self.include_static_objects ==> self.statics@.len() == 0
    }

    /// A subscription with empty tables, configured from its request.
    pub fn new(opts: &StreamUnitsRequest) -> (r: UnitStream)
        ensures
            r.wf(),
            r.units@.len() == 0,
            r.statics@.len() == 0,
            r.backoff == Backoff::spec_for_units(opts.poll_rate, opts.max_backoff),
            r.category == GroupCategory::spec_from_code(opts.category),
            r.include_static_objects == (opts.include_static_objects == Some(true)),
    {
        let with_statics = match opts.include_static_objects {
            Some(b) => b,
            None => false,
        };
        UnitStream {
            units: Vec::new(),
            statics: Vec::new(),
            backoff: Backoff::for_units(opts.poll_rate, opts.max_backoff),
            category: GroupCategory::from_code(opts.category),
            include_static_objects: with_statics,
        }
    }

    fn find_unit(&self, name: &String) -> (r: Option<usize>)
        ensures
            match r {
                Some(i) => i < self.units@.len() && self.units@[i as int].unit.name@ == name@,
                None => !tracks_unit(self.units_view(), name@),
            },
    {
        let mut i: usize = 0;
        while i < self.units.len()
            invariant
                i <= self.units@.len(),
                forall|j: int| 0 <= j < i ==> self.units@[j].unit.name@ != name@,
            decreases self.units@.len() - i,
        {
            if self.units[i].unit.name == *name {
                return Some(i);
            }
            i = i + 1;
        }
        proof {
            assert forall|j: int| 0 <= j < self.units_view().len() implies #[trigger] self.units_view()[j].unit.name != name@ by {
                assert(self.units_view()[j] == self.units@[j]@);
            }
        }
        None
    }

    fn find_static(&self, name: &String) -> (r: Option<usize>)
        ensures
            match r {
                Some(i) => i < self.statics@.len() && self.statics@[i as int].static_object.name@ == name@,
                None => !tracks_static(self.statics_view(), name@),
            },
    {
        let mut i: usize = 0;
        while i < self.statics.len()
            invariant
                i <= self.statics@.len(),
                forall|j: int| 0 <= j < i ==> self.statics@[j].static_object.name@ != name@,
            decreases self.statics@.len() - i,
        {
            if self.statics[i].static_object.name == *name {
                return Some(i);
            }
            i = i + 1;
        }
        proof {
            assert forall|j: int| 0 <= j < self.statics_view().len() implies #[trigger] self.statics_view()[j].static_object.name != name@ by {
                assert(self.statics_view()[j] == self.statics@[j]@);
            }
        }
        None
    }
}


/// The category of a unit's group; a unit without group is `Unspecified`.
pub open spec fn view_category(u: UnitView) -> GroupCategory {
    match u.group {
        Some(g) => g.category,
        None => GroupCategory::Unspecified,
    }
}

/// A filter of `Unspecified` accepts every unit; any other accepts the
/// units of its category only.
pub open spec fn accepts(filter: GroupCategory, u: UnitView) -> bool {
    filter == GroupCategory::Unspecified || view_category(u) == filter
}

/// Tables and message after one simulator event.
pub open spec fn after_event(
    units: Seq<UnitStateView>,
    statics: Seq<StaticStateView>,
    filter: GroupCategory,
    with_statics: bool,
    time: i64,
    event: Event,
    now: u64,
) -> (Seq<UnitStateView>, Seq<StaticStateView>, Option<ResponseView>) {
    match event {
        Event::Birth(Initiator::Unit(u)) => if accepts(filter, u@) {
            (with_unit(units, fresh_unit_state(u@, now)), statics, Some(unit_message(time, u@)))
        } else {
            (units, statics, None)
        },
        Event::Birth(Initiator::Static(s)) => if with_statics {
            (
                units,
                with_static(statics, fresh_static_state(s@, now)),
                Some(static_message(time, s@)),
            )
        } else {
            (units, statics, None)
        },
        Event::Dead(Initiator::Unit(u)) => if tracks_unit(units, u.name@) {
            let i = unit_index(units, u.name@);
            (
                units.remove(i),
                statics,
                Some(gone_message(time, units[i].unit.id, units[i].unit.name)),
            )
        } else {
            (units, statics, None)
        },
        Event::Dead(Initiator::Static(s)) => if with_statics && tracks_static(statics, s.name@) {
            let i = static_index(statics, s.name@);
            (
                units,
                statics.remove(i),
                Some(gone_message(time, statics[i].static_object.id, statics[i].static_object.name)),
            )
        } else {
            (units, statics, None)
        },
        _ => (units, statics, None),
    }
}

impl UnitStream {
    /// Tracks a unit, replacing the tracker of the same name.
    fn insert_unit(&mut self, t: UnitState)
        requires
            old(self).wf(),
            !t.is_gone,
            old(self).backoff.valid(t.backoff),
        ensures
            final(self).wf(),
            final(self).units_view() == with_unit(old(self).units_view(), t@),
            final(self).statics == old(self).statics,
            final(self).backoff == old(self).backoff,
            final(self).category == old(self).category,
            final(self).include_static_objects == old(self).include_static_objects,
    {
        let ghost old_v = self.units_view();
        match self.find_unit(&t.unit.name) {
            Some(i) => {
                proof {
                    assert(old_v[i as int] == self.units@[i as int]@);
                    assert(old_v[i as int].unit.name == t@.unit.name);
                    assert(tracks_unit(old_v, t@.unit.name));
                    let k = unit_index(old_v, t@.unit.name);
                    assert(k == i) by {
                        if k != i {
                            if k < i {
                                assert(old_v[k].unit.name != old_v[i as int].unit.name);
                            } else {
                                assert(old_v[i as int].unit.name != old_v[k].unit.name);
                            }
                        }
                    }
                }
                self.units.set(i, t);
                proof {
                    assert(self.units_view() =~= old_v.update(i as int, t@));
                }
            },
            None => {
                self.units.push(t);
                proof {
                    assert(self.units_view() =~= old_v.push(t@));
                }
            },
        }
    }

    /// Tracks a static object, replacing the tracker of the same name.
    fn insert_static(&mut self, t: StaticState)
        requires
            old(self).wf(),
            old(self).include_static_objects,
            !t.is_gone,
            old(self).backoff.valid(t.backoff),
        ensures
            final(self).wf(),
            final(self).statics_view() == with_static(old(self).statics_view(), t@),
            final(self).units == old(self).units,
            final(self).backoff == old(self).backoff,
            final(self).category == old(self).category,
            final(self).include_static_objects == old(self).include_static_objects,
    {
        let ghost old_v = self.statics_view();
        match self.find_static(&t.static_object.name) {
            Some(i) => {
                proof {
                    assert(old_v[i as int] == self.statics@[i as int]@);
                    assert(old_v[i as int].static_object.name == t@.static_object.name);
                    assert(tracks_static(old_v, t@.static_object.name));
                    let k = static_index(old_v, t@.static_object.name);
                    assert(k == i) by {
                        if k != i {
                            if k < i {
                                assert(old_v[k].static_object.name != old_v[i as int].static_object.name);
                            } else {
                                assert(old_v[i as int].static_object.name != old_v[k].static_object.name);
                            }
                        }
                    }
                }
                self.statics.set(i, t);
                proof {
                    assert(self.statics_view() =~= old_v.update(i as int, t@));
                }
            },
            None => {
                self.statics.push(t);
                proof {
                    assert(self.statics_view() =~= old_v.push(t@));
                }
            },
        }
    }
}


impl UnitStream {
    fn remove_unit_at(&mut self, i: usize) -> (r: UnitState)
        requires
            old(self).wf(),
            i < old(self).units@.len(),
        ensures
            final(self).wf(),
            r@ == old(self).units_view()[i as int],
            final(self).units_view() == old(self).units_view().remove(i as int),
            final(self).statics == old(self).statics,
            final(self).backoff == old(self).backoff,
            final(self).category == old(self).category,
            final(self).include_static_objects == old(self).include_static_objects,
    {
        let ghost old_v = self.units_view();
        let r = self.units.remove(i);
        proof {
            assert(self.units_view() =~= old_v.remove(i as int));
        }
        r
    }

    fn remove_static_at(&mut self, i: usize) -> (r: StaticState)
        requires
            old(self).wf(),
            i < old(self).statics@.len(),
        ensures
            final(self).wf(),
            r@ == old(self).statics_view()[i as int],
            final(self).statics_view() == old(self).statics_view().remove(i as int),
            final(self).units == old(self).units,
            final(self).backoff == old(self).backoff,
            final(self).category == old(self).category,
            final(self).include_static_objects == old(self).include_static_objects,
    {
        let ghost old_v = self.statics_view();
        let r = self.statics.remove(i);
        proof {
            assert(self.statics_view() =~= old_v.remove(i as int));
        }
        r
    }

    /// Folds one simulator event, stamped with mission time `time`, into
    /// the tables at clock reading `now`, and returns the message it
    /// emits, if any: an accepted birth emits the entity and starts
    /// tracking it, a death of a tracked entity emits its terminal message
    /// and stops tracking it; other events change nothing.
    pub fn handle_event(&mut self, time: i64, event: Event, now: u64) -> (r: Option<StreamUnitsResponse>)
        requires
            old(self).wf(),
        ensures
            final(self).wf(),
            final(self).backoff == old(self).backoff,
            final(self).category == old(self).category,
            final(self).include_static_objects == old(self).include_static_objects,
            (final(self).units_view(), final(self).statics_view(), opt_response_view(r))
                == after_event(
                old(self).units_view(),
                old(self).statics_view(),
                old(self).category,
                old(self).include_static_objects,
                time,
                event,
                now,
            ),
    {
        let ghost old_u = self.units_view();
        let ghost old_s = self.statics_view();
        match event {
            Event::Birth(Initiator::Unit(u)) => {
                let c = u.category();
                let accepted = match self.category {
                    GroupCategory::Unspecified => true,
                    _ => c == self.category,
                };
                if accepted {
                    let m = unit_response(time, &u);
                    self.insert_unit(UnitState::new(u, now));
                    Some(m)
                } else {
                    None
                }
            },
            Event::Birth(Initiator::Static(st)) => {
                if self.include_static_objects {
                    let m = static_response(time, &st);
                    self.insert_static(StaticState::new(st, now));
                    Some(m)
                } else {
                    None
                }
            },
            Event::Dead(Initiator::Unit(u)) => {
                match self.find_unit(&u.name) {
                    Some(i) => {
                        proof {
                            let k = unit_index(old_u, u.name@);
                            assert(old_u[i as int] == self.units@[i as int]@);
                            assert(old_u[i as int].unit.name == u.name@);
                            assert(k == i) by {
                                if k != i {
                                    if k < i {
                                        assert(old_u[k].unit.name != old_u[i as int].unit.name);
                                    } else {
                                        assert(old_u[i as int].unit.name != old_u[k].unit.name);
                                    }
                                }
                            }
                        }
                        let gone = self.remove_unit_at(i);
                        Some(gone_response(time, gone.unit.id, &gone.unit.name))
                    },
                    None => None,
                }
            },
            Event::Dead(Initiator::Static(st)) => {
                if !self.include_static_objects {
                    return None;
                }
                match self.find_static(&st.name) {
                    Some(i) => {
                        proof {
                            let k = static_index(old_s, st.name@);
                            assert(old_s[i as int] == self.statics@[i as int]@);
                            assert(old_s[i as int].static_object.name == st.name@);
                            assert(k == i) by {
                                if k != i {
                                    if k < i {
                                        assert(old_s[k].static_object.name != old_s[i as int].static_object.name);
                                    } else {
                                        assert(old_s[i as int].static_object.name != old_s[k].static_object.name);
                                    }
                                }
                            }
                        }
                        let gone = self.remove_static_at(i);
                        Some(gone_response(time, gone.static_object.id, &gone.static_object.name))
                    },
                    None => None,
                }
            },
            _ => None,
        }
    }
}


/// Whether any of the first `n` poll results is a failure other than
/// "not found".
pub open spec fn has_failure<T>(o: Seq<Option<PollOutcome<T>>>, n: int) -> bool {
    exists|i: int| 0 <= i < n && (#[trigger] o[i]) matches Some(PollOutcome::Failed(_))
}

/// The unit table after the first `n` trackers took their poll results:
/// `None` leaves a tracker untouched (it was not due), a tracker found
/// gone is dropped.
pub open spec fn tick_units(
    s: Seq<UnitStateView>,
    o: Seq<Option<PollOutcome<UnitTransform>>>,
    b: Backoff,
    now: u64,
    n: nat,
) -> Seq<UnitStateView>
    decreases n,
{
    if n == 0 {
        seq![]
    } else {
        let prev = tick_units(s, o, b, now, (n - 1) as nat);
        let i = n - 1;
        match o[i] {
            None => prev.push(s[i]),
            Some(out) => {
                let t = unit_after_poll(s[i], out, b, now);
                if t.is_gone {
                    prev
                } else {
                    prev.push(t)
                }
            },
        }
    }
}

/// The messages of the first `n` trackers' poll results, in table order.
pub open spec fn tick_unit_messages(
    s: Seq<UnitStateView>,
    o: Seq<Option<PollOutcome<UnitTransform>>>,
    b: Backoff,
    now: u64,
    n: nat,
) -> Seq<ResponseView>
    decreases n,
{
    if n == 0 {
        seq![]
    } else {
        let prev = tick_unit_messages(s, o, b, now, (n - 1) as nat);
        let i = n - 1;
        match o[i] {
            None => prev,
            Some(out) => match unit_poll_message(s[i], out, b, now) {
                Some(m) => prev.push(m),
                None => prev,
            },
        }
    }
}

pub open spec fn tick_statics(
    s: Seq<StaticStateView>,
    o: Seq<Option<PollOutcome<Transform>>>,
    b: Backoff,
    now: u64,
    n: nat,
) -> Seq<StaticStateView>
    decreases n,
{
    if n == 0 {
        seq![]
    } else {
        let prev = tick_statics(s, o, b, now, (n - 1) as nat);
        let i = n - 1;
        match o[i] {
            None => prev.push(s[i]),
            Some(out) => {
                let t = static_after_poll(s[i], out, b, now);
                if t.is_gone {
                    prev
                } else {
                    prev.push(t)
                }
            },
        }
    }
}

pub open spec fn tick_static_messages(
    s: Seq<StaticStateView>,
    o: Seq<Option<PollOutcome<Transform>>>,
    b: Backoff,
    now: u64,
    n: nat,
) -> Seq<ResponseView>
    decreases n,
{
    if n == 0 {
        seq![]
    } else {
        let prev = tick_static_messages(s, o, b, now, (n - 1) as nat);
        let i = n - 1;
        match o[i] {
            None => prev,
            Some(out) => match static_poll_message(s[i], out, b, now) {
                Some(m) => prev.push(m),
                None => prev,
            },
        }
    }
}

fn first_failure<T>(o: &Vec<Option<PollOutcome<T>>>) -> (r: Option<usize>)
    ensures
        match r {
            Some(k) => k < o@.len() && (o@[k as int] matches Some(PollOutcome::Failed(_)))
                && !has_failure(o@, k as int),
            None => !has_failure(o@, o@.len() as int),
        },
{
    let mut i: usize = 0;
    while i < o.len()
        invariant
            i <= o@.len(),
            !has_failure(o@, i as int),
        decreases o@.len() - i,
    {
        if let Some(PollOutcome::Failed(_)) = &o[i] {
            return Some(i);
        }
        i = i + 1;
    }
    None
}

pub open spec fn messages_view(m: Seq<StreamUnitsResponse>) -> Seq<ResponseView> {
    m.map_values(|r: StreamUnitsResponse| r@)
}

impl UnitStream {
    /// For each unit tracker, in table order, whether it is due for a
    /// poll at clock reading `now`.
    pub fn due_units(&self, now: u64) -> (r: Vec<bool>)
        ensures
            r@.len() == self.units@.len(),
            forall|i: int| 0 <= i < r@.len() ==> r@[i] == self.units@[i].spec_should_update(now),
    {
        let mut r: Vec<bool> = Vec::new();
        let mut i: usize = 0;
        while i < self.units.len()
            invariant
                i <= self.units@.len(),
                r@.len() == i,
                forall|j: int| 0 <= j < i ==> r@[j] == self.units@[j].spec_should_update(now),
            decreases self.units@.len() - i,
        {
            r.push(self.units[i].should_update(now));
            i = i + 1;
        }
        r
    }

    /// For each static tracker, in table order, whether it is due for a
    /// poll at clock reading `now`.
    pub fn due_statics(&self, now: u64) -> (r: Vec<bool>)
        ensures
            r@.len() == self.statics@.len(),
            forall|i: int| 0 <= i < r@.len() ==> r@[i] == self.statics@[i].spec_should_update(now),
    {
        let mut r: Vec<bool> = Vec::new();
        let mut i: usize = 0;
        while i < self.statics.len()
            invariant
                i <= self.statics@.len(),
                r@.len() == i,
                forall|j: int| 0 <= j < i ==> r@[j] == self.statics@[j].spec_should_update(now),
            decreases self.statics@.len() - i,
        {
            r.push(self.statics[i].should_update(now));
            i = i + 1;
        }
        r
    }

    /// Applies one tick's poll results to the unit table: `outcomes[i]`
    /// belongs to the `i`-th tracker, `None` where it was not polled.
    /// A failure other than "not found" ends the subscription: the first
    /// such status is returned and nothing changes. Otherwise every changed
    /// unit is emitted at its reported time, every unit found gone emits
    /// its terminal message at its last update time and is dropped.
    pub fn update_units(&mut self, outcomes: Vec<Option<PollOutcome<UnitTransform>>>, now: u64) -> (r: Result<Vec<StreamUnitsResponse>, Error>)
        requires
            old(self).wf(),
            outcomes@.len() == old(self).units@.len(),
        ensures
            final(self).wf(),
            r is Err <==> has_failure(outcomes@, outcomes@.len() as int),
            r is Err ==> *final(self) == *old(self) && exists|k: int|
                0 <= k < outcomes@.len() && !has_failure(outcomes@, k) && (outcomes@[k] matches Some(PollOutcome::Failed(s))
                    && r == Err::<Vec<StreamUnitsResponse>, Error>(Error::Status(s))),
            r is Ok ==> {
                &&& final(self).units_view() == tick_units(
                    old(self).units_view(),
                    outcomes@,
                    old(self).backoff,
                    now,
                    outcomes@.len(),
                )
                &&& messages_view(r->Ok_0@) == tick_unit_messages(
                    old(self).units_view(),
                    outcomes@,
                    old(self).backoff,
                    now,
                    outcomes@.len(),
                )
                &&& final(self).statics == old(self).statics
                &&& final(self).backoff == old(self).backoff
                &&& final(self).category == old(self).category
                &&& final(self).include_static_objects == old(self).include_static_objects
            },
    {
        let mut outcomes = outcomes;
        if let Some(k) = first_failure(&outcomes) {
            let o = outcomes.remove(k);
            match o {
                Some(PollOutcome::Failed(s)) => {
                    return Err(Error::Status(s));
                },
                _ => {
                    proof {
                        assert(false);
                    }
                    return Err(Error::Send);
                },
            }
        }
        let ghost old_self = *self;
        let ghost old_v = self.units_view();
        let ghost ov = outcomes@;
        let b = self.backoff;
        let mut kept: Vec<UnitState> = Vec::new();
        let mut msgs: Vec<StreamUnitsResponse> = Vec::new();
        let mut i: usize = 0;
        while i < self.units.len()
            invariant
                *self == old_self,
                old_v == self.units_view(),
                old_self.wf(),
                b == old_self.backoff,
                outcomes@.len() == ov.len(),
                forall|j: int| i <= j < ov.len() ==> outcomes@[j] == ov[j],
                ov.len() == old_v.len(),
                !has_failure(ov, ov.len() as int),
                i <= old_v.len(),
                kept@.map_values(|s: UnitState| s@) == tick_units(old_v, ov, b, now, i as nat),
                messages_view(msgs@) == tick_unit_messages(old_v, ov, b, now, i as nat),
                forall|j: int| 0 <= j < kept@.len() ==> !(#[trigger] kept@[j]).is_gone && b.valid(kept@[j].backoff),
                forall|j: int| 0 <= j < kept@.len() ==> exists|k: int| 0 <= k < i && (#[trigger] kept@[j]).unit.name@ == old_v[k].unit.name,
                unit_names_unique(kept@.map_values(|s: UnitState| s@)),
            decreases old_v.len() - i,
        {
            let ghost kept_before = kept@.map_values(|s: UnitState| s@);
            let ghost msgs_before = messages_view(msgs@);
            assert(old_v[i as int] == self.units@[i as int]@);
            let mut slot: Option<PollOutcome<UnitTransform>> = None;
            outcomes.set_and_swap(i, &mut slot);
            match slot {
                None => {
                    kept.push(self.units[i].copy());
                },
                Some(out) => {
                    let mut st = self.units[i].copy();
                    let res = update_unit(&mut st, out, &b, now);
                    match res {
                        Ok(Some(m)) => {
                            msgs.push(m);
                        },
                        _ => {},
                    }
                    if !st.is_gone {
                        proof {
                            crate::backoff::lemma_next_stays_valid(b, old_v[i as int].backoff, true);
                            crate::backoff::lemma_next_stays_valid(b, old_v[i as int].backoff, false);
                        }
                        kept.push(st);
                    }
                },
            }
            proof {
                assert(messages_view(msgs@) =~= tick_unit_messages(old_v, ov, b, now, (i + 1) as nat));
                assert(kept@.map_values(|s: UnitState| s@) =~= tick_units(old_v, ov, b, now, (i + 1) as nat));
            }
            i = i + 1;
        }
        self.units = kept;
        Ok(msgs)
    }

    /// Applies one tick's poll results to the static table: `outcomes[i]`
    /// belongs to the `i`-th tracker, `None` where it was not polled.
    /// A failure other than "not found" ends the subscription: the first
    /// such status is returned and nothing changes. Otherwise every changed
    /// object is emitted at its reported time, every object found gone emits
    /// its terminal message at its last update time and is dropped.
    pub fn update_static_objects(&mut self, outcomes: Vec<Option<PollOutcome<Transform>>>, now: u64) -> (r: Result<Vec<StreamUnitsResponse>, Error>)
        requires
            old(self).wf(),
            outcomes@.len() == old(self).statics@.len(),
        ensures
            final(self).wf(),
            r is Err <==> has_failure(outcomes@, outcomes@.len() as int),
            r is Err ==> *final(self) == *old(self) && exists|k: int|
                0 <= k < outcomes@.len() && !has_failure(outcomes@, k) && (outcomes@[k] matches Some(PollOutcome::Failed(s))
                    && r == Err::<Vec<StreamUnitsResponse>, Error>(Error::Status(s))),
            r is Ok ==> {
                &&& final(self).statics_view() == tick_statics(
                    old(self).statics_view(),
                    outcomes@,
                    old(self).backoff,
                    now,
                    outcomes@.len(),
                )
                &&& messages_view(r->Ok_0@) == tick_static_messages(
                    old(self).statics_view(),
                    outcomes@,
                    old(self).backoff,
                    now,
                    outcomes@.len(),
                )
                &&& final(self).units == old(self).units
                &&& final(self).backoff == old(self).backoff
                &&& final(self).category == old(self).category
                &&& final(self).include_static_objects == old(self).include_static_objects
            },
    {
        let mut outcomes = outcomes;
        if let Some(k) = first_failure(&outcomes) {
            let o = outcomes.remove(k);
            match o {
                Some(PollOutcome::Failed(s)) => {
                    return Err(Error::Status(s));
                },
                _ => {
                    proof {
                        assert(false);
                    }
                    return Err(Error::Send);
                },
            }
        }
        let ghost old_self = *self;
        let ghost old_v = self.statics_view();
        let ghost ov = outcomes@;
        let b = self.backoff;
        let mut kept: Vec<StaticState> = Vec::new();
        let mut msgs: Vec<StreamUnitsResponse> = Vec::new();
        let mut i: usize = 0;
        while i < self.statics.len()
            invariant
                *self == old_self,
                old_v == self.statics_view(),
                old_self.wf(),
                b == old_self.backoff,
                outcomes@.len() == ov.len(),
                forall|j: int| i <= j < ov.len() ==> outcomes@[j] == ov[j],
                ov.len() == old_v.len(),
                !has_failure(ov, ov.len() as int),
                i <= old_v.len(),
                kept@.map_values(|s: StaticState| s@) == tick_statics(old_v, ov, b, now, i as nat),
                messages_view(msgs@) == tick_static_messages(old_v, ov, b, now, i as nat),
                forall|j: int| 0 <= j < kept@.len() ==> !(#[trigger] kept@[j]).is_gone && b.valid(kept@[j].backoff),
                forall|j: int| 0 <= j < kept@.len() ==> exists|k: int| 0 <= k < i && (#[trigger] kept@[j]).static_object.name@ == old_v[k].static_object.name,
                static_names_unique(kept@.map_values(|s: StaticState| s@)),
            decreases old_v.len() - i,
        {
            let ghost kept_before = kept@.map_values(|s: StaticState| s@);
            let ghost msgs_before = messages_view(msgs@);
            assert(old_v[i as int] == self.statics@[i as int]@);
            let mut slot: Option<PollOutcome<Transform>> = None;
            outcomes.set_and_swap(i, &mut slot);
            match slot {
                None => {
                    kept.push(self.statics[i].copy());
                },
                Some(out) => {
                    let mut st = self.statics[i].copy();
                    let res = update_static_object(&mut st, out, &b, now);
                    match res {
                        Ok(Some(m)) => {
                            msgs.push(m);
                        },
                        _ => {},
                    }
                    if !st.is_gone {
                        proof {
                            crate::backoff::lemma_next_stays_valid(b, old_v[i as int].backoff, true);
                            crate::backoff::lemma_next_stays_valid(b, old_v[i as int].backoff, false);
                        }
                        kept.push(st);
                    }
                },
            }
            proof {
                assert(messages_view(msgs@) =~= tick_static_messages(old_v, ov, b, now, (i + 1) as nat));
                assert(kept@.map_values(|s: StaticState| s@) =~= tick_statics(old_v, ov, b, now, (i + 1) as nat));
            }
            i = i + 1;
        }
        self.statics = kept;
        Ok(msgs)
    }
}


/// The unit table after tracking the first `n` discovered units in turn.
pub open spec fn synced_units(s: Seq<UnitStateView>, us: Seq<Unit>, now: u64, n: nat) -> Seq<UnitStateView>
    decreases n,
{
    if n == 0 {
        s
    } else {
        with_unit(synced_units(s, us, now, (n - 1) as nat), fresh_unit_state(us[n - 1]@, now))
    }
}

pub open spec fn synced_statics(s: Seq<StaticStateView>, ss: Seq<Static>, now: u64, n: nat) -> Seq<StaticStateView>
    decreases n,
{
    if n == 0 {
        s
    } else {
        with_static(
            synced_statics(s, ss, now, (n - 1) as nat),
            fresh_static_state(ss[n - 1]@, now),
        )
    }
}

/// One message per tracked entity, units first, each at its tracker's
/// update time.
pub open spec fn snapshot_messages(units: Seq<UnitStateView>, statics: Seq<StaticStateView>) -> Seq<ResponseView> {
    units.map_values(|u: UnitStateView| unit_message(u.update_time, u.unit)) + statics.map_values(
        |s: StaticStateView| static_message(s.update_time, s.static_object),
    )
}

impl UnitStream {
    /// Tracks every entity discovered at subscription start, a later one
    /// replacing an earlier one of the same name; static objects only when
    /// the subscription asks for them. Returns the initial snapshot: one
    /// message per tracked entity.
    pub fn initial_sync(&mut self, units: Vec<Unit>, statics: Vec<Static>, now: u64) -> (r: Vec<StreamUnitsResponse>)
        requires
            old(self).wf(),
        ensures
            final(self).wf(),
            final(self).backoff == old(self).backoff,
            final(self).category == old(self).category,
            final(self).include_static_objects == old(self).include_static_objects,
            final(self).units_view() == synced_units(old(self).units_view(), units@, now, units@.len()),
            final(self).statics_view() == if old(self).include_static_objects {
                synced_statics(old(self).statics_view(), statics@, now, statics@.len())
            } else {
                old(self).statics_view()
            },
            messages_view(r@) == snapshot_messages(final(self).units_view(), final(self).statics_view()),
    {
        let ghost u0 = self.units_view();
        let ghost s0 = self.statics_view();
        let mut units = units;
        let ghost uv = units@;
        let mut i: usize = 0;
        while i < units.len()
            invariant
                self.wf(),
                self.backoff == old(self).backoff,
                self.category == old(self).category,
                self.include_static_objects == old(self).include_static_objects,
                self.statics == old(self).statics,
                units@.len() == uv.len(),
                forall|j: int| i <= j < uv.len() ==> units@[j] == uv[j],
                i <= uv.len(),
                self.units_view() == synced_units(u0, uv, now, i as nat),
            decreases uv.len() - i,
        {
            let mut slot = Unit {
                id: 0,
                name: String::new(),
                group: None,
                player_name: None,
                in_air: false,
                position: None,
                orientation: None,
                velocity: None,
            };
            units.set_and_swap(i, &mut slot);
            self.insert_unit(UnitState::new(slot, now));
            i = i + 1;
        }
        if self.include_static_objects {
            let mut statics = statics;
            let ghost sv = statics@;
            let mut i: usize = 0;
            while i < statics.len()
                invariant
                    self.wf(),
                    self.include_static_objects,
                    self.backoff == old(self).backoff,
                    self.category == old(self).category,
                    self.units_view() == synced_units(u0, uv, now, uv.len()),
                    statics@.len() == sv.len(),
                    forall|j: int| i <= j < sv.len() ==> statics@[j] == sv[j],
                    i <= sv.len(),
                    self.statics_view() == synced_statics(s0, sv, now, i as nat),
                decreases sv.len() - i,
            {
                let mut slot = Static {
                    id: 0,
                    name: String::new(),
                    position: None,
                    orientation: None,
                    velocity: None,
                };
                statics.set_and_swap(i, &mut slot);
                self.insert_static(StaticState::new(slot, now));
                i = i + 1;
            }
        }
        self.snapshot()
    }

    /// One message per tracked entity, units first, each at its tracker's
    /// update time.
    pub fn snapshot(&self) -> (r: Vec<StreamUnitsResponse>)
        ensures
            messages_view(r@) == snapshot_messages(self.units_view(), self.statics_view()),
    {
        let mut r: Vec<StreamUnitsResponse> = Vec::new();
        let mut i: usize = 0;
        while i < self.units.len()
            invariant
                i <= self.units@.len(),
                messages_view(r@) == self.units_view().take(i as int).map_values(
                    |u: UnitStateView| unit_message(u.update_time, u.unit),
                ),
            decreases self.units@.len() - i,
        {
            let ghost before = r@;
            let m = unit_response(self.units[i].update_time, &self.units[i].unit);
            r.push(m);
            proof {
                assert(r@ == before.push(m));
                assert(messages_view(r@) =~= messages_view(before).push(m@));
                assert(self.units_view()[i as int] == self.units@[i as int]@);
                assert(self.units_view().take(i + 1) =~= self.units_view().take(i as int).push(
                    self.units_view()[i as int],
                ));
                assert(messages_view(r@) =~= self.units_view().take(i + 1).map_values(
                    |u: UnitStateView| unit_message(u.update_time, u.unit),
                ));
            }
            i = i + 1;
        }
        let mut j: usize = 0;
        while j < self.statics.len()
            invariant
                j <= self.statics@.len(),
                i == self.units@.len(),
                messages_view(r@) == self.units_view().map_values(
                    |u: UnitStateView| unit_message(u.update_time, u.unit),
                ) + self.statics_view().take(j as int).map_values(
                    |s: StaticStateView| static_message(s.update_time, s.static_object),
                ),
            decreases self.statics@.len() - j,
        {
            let ghost before = r@;
            let m = static_response(self.statics[j].update_time, &self.statics[j].static_object);
            r.push(m);
            proof {
                assert(r@ == before.push(m));
                assert(messages_view(r@) =~= messages_view(before).push(m@));
                assert(self.statics_view()[j as int] == self.statics@[j as int]@);
                assert(self.statics_view().take(j + 1) =~= self.statics_view().take(j as int).push(
                    self.statics_view()[j as int],
                ));
                assert(messages_view(r@) =~= self.units_view().map_values(
                    |u: UnitStateView| unit_message(u.update_time, u.unit),
                ) + self.statics_view().take(j + 1).map_values(
                    |s: StaticStateView| static_message(s.update_time, s.static_object),
                ));
            }
            j = j + 1;
        }
        proof {
            assert(self.units_view().take(self.units@.len() as int) =~= self.units_view());
            assert(self.statics_view().take(self.statics@.len() as int) =~= self.statics_view());
        }
        r
    }
}

} // verus!
