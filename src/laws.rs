//! Properties of the units engine that span several operations.
use vstd::prelude::*;
use crate::backoff::Backoff;
use crate::equalish::within;
use crate::model::{Event, GroupCategory, Initiator, Unit, UnitTransform, UnitView};
use crate::status::PollOutcome;
use crate::stream::{
    accepts, after_event, fresh_unit_state, gone_message, name_differs, orientation_differs,
    polled_unit_state, position_differs, snapshot_messages, synced_units, tick_unit_messages,
    tick_units, tracks_unit, unit_after_poll, unit_changed, unit_index, unit_message,
    unit_names_unique, unit_poll_message, velocity_differs, with_unit, ResponseView,
    StaticStateView, UnitStateView, UpdateView,
};

verus! {

/// The fields that the engine diffs agree exactly.
pub open spec fn same_diffed(a: UnitView, b: UnitView) -> bool {
    a.position == b.position && a.orientation == b.orientation && a.velocity == b.velocity
        && a.player_name == b.player_name
}

/// Some diffed field of `b` lies beyond tolerance of that of `a`.
pub open spec fn differs_beyond_tolerance(a: UnitView, b: UnitView) -> bool {
    position_differs(a.position, b.position) || orientation_differs(a.orientation, b.orientation)
        || velocity_differs(a.velocity, b.velocity) || name_differs(a.player_name, b.player_name)
}

proof fn lemma_within_refl(a: i64, eps: i64)
    requires
        eps > 0,
    ensures
        within(a, a, eps),
{
}

/// A poll either emits the unit it now holds, which differs beyond
/// tolerance from the one held before, or emits nothing and keeps the held
/// diffed fields. So the held diffed fields always equal the last emitted
/// ones, and two consecutive updates of a unit never agree within
/// tolerance.
pub proof fn lemma_poll_emits_only_real_changes(s: UnitStateView, t: UnitTransform, b: Backoff, now: u64)
    ensures
        ({
            let after = unit_after_poll(s, PollOutcome::Found(t), b, now);
            match unit_poll_message(s, PollOutcome::Found(t), b, now) {
                Some(m) => m == unit_message(t.time, after.unit) && differs_beyond_tolerance(
                    s.unit,
                    after.unit,
                ),
                None => same_diffed(s.unit, after.unit),
            }
        }),
{
}

/// Polling twice with an identical transform emits at most once: the
/// second poll finds nothing changed, and the back-off grows, bounded by
/// the ceiling.
pub proof fn lemma_identical_polls(s: UnitStateView, t: UnitTransform, b: Backoff, now1: u64, now2: u64)
    requires
        b.wf(),
        b.valid(s.backoff),
    ensures
        ({
            let s1 = polled_unit_state(s, t, b, now1);
            let s2 = polled_unit_state(s1, t, b, now2);
            &&& !unit_changed(s1.unit, t)
            &&& unit_poll_message(s1, PollOutcome::Found(t), b, now2) is None
            &&& s2.backoff == b.spec_next(s1.backoff, false)
            &&& s2.backoff >= s1.backoff
            &&& s2.backoff <= b.max_backoff
            &&& s1.backoff == 0 ==> s2.backoff == b.poll_rate
        }),
{
    let s1 = polled_unit_state(s, t, b, now1);
    crate::backoff::lemma_next_stays_valid(b, s.backoff, unit_changed(s.unit, t));
    crate::backoff::lemma_idle_growth(b, s1.backoff);
    assert forall|a: i64, eps: i64| eps > 0 implies within(a, a, eps) by {
        lemma_within_refl(a, eps);
    }
}


/// The entity key a message speaks of.
pub open spec fn key_of(m: ResponseView) -> Seq<char> {
    match m.update {
        UpdateView::Unit(u) => u.name,
        UpdateView::Static(s) => s.name,
        UpdateView::Gone { name, .. } => name,
    }
}

proof fn lemma_tick_keys(
    s: Seq<UnitStateView>,
    o: Seq<Option<PollOutcome<UnitTransform>>>,
    b: Backoff,
    now: u64,
    n: nat,
)
    requires
        n <= s.len(),
        n <= o.len(),
    ensures
        forall|j: int|
            0 <= j < tick_units(s, o, b, now, n).len() ==> exists|k: int|
                0 <= k < n && (#[trigger] tick_units(s, o, b, now, n)[j]).unit.name
                    == s[k].unit.name && o[k] != Some(PollOutcome::<UnitTransform>::NotFound),
        forall|j: int|
            0 <= j < tick_unit_messages(s, o, b, now, n).len() ==> exists|k: int|
                0 <= k < n && key_of(#[trigger] tick_unit_messages(s, o, b, now, n)[j])
                    == s[k].unit.name,
    decreases n,
{
    if n > 0 {
        lemma_tick_keys(s, o, b, now, (n - 1) as nat);
        let prev_u = tick_units(s, o, b, now, (n - 1) as nat);
        let prev_m = tick_unit_messages(s, o, b, now, (n - 1) as nat);
        let cur_u = tick_units(s, o, b, now, n);
        let cur_m = tick_unit_messages(s, o, b, now, n);
        let i = n - 1;
        assert forall|j: int| 0 <= j < cur_u.len() implies exists|k: int|
            0 <= k < n && (#[trigger] cur_u[j]).unit.name == s[k].unit.name && o[k] != Some(
                PollOutcome::<UnitTransform>::NotFound,
            ) by {
            if j < prev_u.len() {
                assert(cur_u[j] == prev_u[j]);
                let k = choose|k: int|
                    0 <= k < n - 1 && (#[trigger] prev_u[j]).unit.name == s[k].unit.name && o[k]
                        != Some(PollOutcome::<UnitTransform>::NotFound);
                assert(0 <= k < n && cur_u[j].unit.name == s[k].unit.name);
            } else {
                assert(cur_u[j].unit.name == s[i].unit.name);
            }
        }
        assert forall|j: int| 0 <= j < cur_m.len() implies exists|k: int|
            0 <= k < n && key_of(#[trigger] cur_m[j]) == s[k].unit.name by {
            if j < prev_m.len() {
                assert(cur_m[j] == prev_m[j]);
                let k = choose|k: int|
                    0 <= k < n - 1 && key_of(#[trigger] prev_m[j]) == s[k].unit.name;
                assert(0 <= k < n && key_of(cur_m[j]) == s[k].unit.name);
            } else {
                assert(key_of(cur_m[j]) == s[i].unit.name);
            }
        }
    }
}

/// A tick over a table that does not track a key emits nothing for that
/// key and leaves it untracked: after its terminal message, no further
/// message speaks of a key until it is born again.
pub proof fn lemma_untracked_key_is_silent(
    s: Seq<UnitStateView>,
    o: Seq<Option<PollOutcome<UnitTransform>>>,
    b: Backoff,
    now: u64,
    key: Seq<char>,
)
    requires
        !tracks_unit(s, key),
        o.len() == s.len(),
    ensures
        forall|j: int|
            0 <= j < tick_unit_messages(s, o, b, now, s.len()).len() ==> key_of(
                #[trigger] tick_unit_messages(s, o, b, now, s.len())[j],
            ) != key,
        !tracks_unit(tick_units(s, o, b, now, s.len()), key),
{
    lemma_tick_keys(s, o, b, now, s.len());
    let u = tick_units(s, o, b, now, s.len());
    let m = tick_unit_messages(s, o, b, now, s.len());
    assert forall|j: int| 0 <= j < m.len() implies key_of(#[trigger] m[j]) != key by {
        let k = choose|k: int| 0 <= k < s.len() && key_of(m[j]) == #[trigger] s[k].unit.name;
        assert(s[k].unit.name != key);
    }
    assert forall|j: int| 0 <= j < u.len() implies (#[trigger] u[j]).unit.name != key by {
        let k = choose|k: int|
            0 <= k < s.len() && u[j].unit.name == #[trigger] s[k].unit.name && o[k] != Some(
                PollOutcome::<UnitTransform>::NotFound,
            );
        assert(s[k].unit.name != key);
    }
}

proof fn lemma_one_gone_upto(
    s: Seq<UnitStateView>,
    o: Seq<Option<PollOutcome<UnitTransform>>>,
    b: Backoff,
    now: u64,
    i: int,
    n: nat,
)
    requires
        unit_names_unique(s),
        o.len() == s.len(),
        0 <= i < n <= s.len(),
        o[i] == Some(PollOutcome::<UnitTransform>::NotFound),
    ensures
        ({
            let m = tick_unit_messages(s, o, b, now, n);
            exists|idx: int|
                0 <= idx < m.len() && m[idx] == gone_message(
                    s[i].update_time,
                    s[i].unit.id,
                    s[i].unit.name,
                ) && forall|j: int| 0 <= j < m.len() && j != idx ==> key_of(#[trigger] m[j]) != s[i].unit.name
        }),
    decreases n,
{
    let m = tick_unit_messages(s, o, b, now, n);
    let k = s[i].unit.name;
    if n == i + 1 {
        let prev = tick_unit_messages(s, o, b, now, i as nat);
        lemma_tick_keys(s, o, b, now, i as nat);
        assert forall|j: int| 0 <= j < prev.len() implies key_of(#[trigger] prev[j]) != k by {
            let q = choose|q: int| 0 <= q < i && key_of(prev[j]) == #[trigger] s[q].unit.name;
            assert(s[q].unit.name != s[i].unit.name);
        }
        let idx = prev.len() as int;
        assert(m == prev.push(gone_message(s[i].update_time, s[i].unit.id, k)));
        assert forall|j: int| 0 <= j < m.len() && j != idx implies key_of(#[trigger] m[j]) != k by {
            assert(m[j] == prev[j]);
        }
        assert(0 <= idx < m.len() && m[idx] == gone_message(s[i].update_time, s[i].unit.id, k));
    } else {
        lemma_one_gone_upto(s, o, b, now, i, (n - 1) as nat);
        let prev = tick_unit_messages(s, o, b, now, (n - 1) as nat);
        let idx = choose|idx: int|
            0 <= idx < prev.len() && prev[idx] == gone_message(
                s[i].update_time,
                s[i].unit.id,
                s[i].unit.name,
            ) && forall|j: int| 0 <= j < prev.len() && j != idx ==> key_of(#[trigger] prev[j]) != s[i].unit.name;
        let q = n - 1;
        assert(s[q].unit.name != s[i].unit.name);
        assert(m.len() >= prev.len());
        assert(m[idx] == prev[idx]);
        assert forall|j: int| 0 <= j < m.len() && j != idx implies key_of(#[trigger] m[j]) != k by {
            if j < prev.len() {
                assert(m[j] == prev[j]);
            } else {
                assert(key_of(m[j]) == s[q].unit.name);
            }
        }
        assert(0 <= idx < m.len() && m[idx] == gone_message(s[i].update_time, s[i].unit.id, k));
    }
}

/// A unit found gone on a poll emits exactly one terminal message in that
/// tick, at its last update time, and leaves the table.
pub proof fn lemma_not_found_emits_one_gone(
    s: Seq<UnitStateView>,
    o: Seq<Option<PollOutcome<UnitTransform>>>,
    b: Backoff,
    now: u64,
    i: int,
)
    requires
        unit_names_unique(s),
        o.len() == s.len(),
        0 <= i < s.len(),
        o[i] == Some(PollOutcome::<UnitTransform>::NotFound),
    ensures
        !tracks_unit(tick_units(s, o, b, now, s.len()), s[i].unit.name),
        ({
            let m = tick_unit_messages(s, o, b, now, s.len());
            exists|idx: int|
                0 <= idx < m.len() && m[idx] == gone_message(
                    s[i].update_time,
                    s[i].unit.id,
                    s[i].unit.name,
                ) && forall|j: int| 0 <= j < m.len() && j != idx ==> key_of(#[trigger] m[j]) != s[i].unit.name
        }),
{
    lemma_one_gone_upto(s, o, b, now, i, s.len());
    lemma_tick_keys(s, o, b, now, s.len());
    let u = tick_units(s, o, b, now, s.len());
    assert forall|j: int| 0 <= j < u.len() implies (#[trigger] u[j]).unit.name != s[i].unit.name by {
        let k = choose|k: int|
            0 <= k < s.len() && u[j].unit.name == #[trigger] s[k].unit.name && o[k] != Some(
                PollOutcome::<UnitTransform>::NotFound,
            );
        if k != i {
            if k < i {
                assert(s[k].unit.name != s[i].unit.name);
            } else {
                assert(s[i].unit.name != s[k].unit.name);
            }
        }
    }
}

/// After a death event for a unit, the unit is no longer tracked: a
/// second death event emits nothing, and no later tick emits anything for
/// it.
pub proof fn lemma_dead_then_silent(
    units: Seq<UnitStateView>,
    statics: Seq<StaticStateView>,
    filter: GroupCategory,
    with_statics: bool,
    time: i64,
    later: i64,
    u: Unit,
    now: u64,
    o: Seq<Option<PollOutcome<UnitTransform>>>,
    b: Backoff,
)
    requires
        unit_names_unique(units),
    ensures
        ({
            let (u2, s2, _) = after_event(units, statics, filter, with_statics, time, Event::Dead(Initiator::Unit(u)), now);
            &&& !tracks_unit(u2, u.name@)
            &&& after_event(u2, s2, filter, with_statics, later, Event::Dead(Initiator::Unit(u)), now).2 is None
            &&& o.len() == u2.len() ==> forall|j: int|
                0 <= j < tick_unit_messages(u2, o, b, now, u2.len()).len() ==> key_of(
                    #[trigger] tick_unit_messages(u2, o, b, now, u2.len())[j],
                ) != u.name@
        }),
{
    let (u2, s2, _) = after_event(units, statics, filter, with_statics, time, Event::Dead(Initiator::Unit(u)), now);
    if tracks_unit(units, u.name@) {
        let i = unit_index(units, u.name@);
        assert(u2 == units.remove(i));
        assert forall|j: int| 0 <= j < u2.len() implies (#[trigger] u2[j]).unit.name != u.name@ by {
            if j < i {
                assert(u2[j] == units[j]);
                assert(units[j].unit.name != units[i].unit.name);
            } else {
                assert(u2[j] == units[j + 1]);
                assert(units[i].unit.name != units[j + 1].unit.name);
            }
        }
    }
    if o.len() == u2.len() {
        lemma_untracked_key_is_silent(u2, o, b, now, u.name@);
    }
}


proof fn lemma_synced(us: Seq<Unit>, now: u64, n: nat)
    requires
        n <= us.len(),
    ensures
        unit_names_unique(synced_units(seq![], us, now, n)),
        forall|j: int|
            0 <= j < synced_units(seq![], us, now, n).len() ==> exists|k: int|
                0 <= k < n && #[trigger] synced_units(seq![], us, now, n)[j] == fresh_unit_state(
                    us[k]@,
                    now,
                ),
        forall|k: int| 0 <= k < n ==> tracks_unit(synced_units(seq![], us, now, n), (#[trigger] us[k]).name@),
    decreases n,
{
    if n > 0 {
        lemma_synced(us, now, (n - 1) as nat);
        let prev = synced_units(seq![], us, now, (n - 1) as nat);
        let t = fresh_unit_state(us[n - 1]@, now);
        let cur = synced_units(seq![], us, now, n);
        assert(cur == with_unit(prev, t));
        if tracks_unit(prev, t.unit.name) {
            let i = unit_index(prev, t.unit.name);
            assert(cur == prev.update(i, t));
            assert forall|a: int, c: int| 0 <= a < c < cur.len() implies #[trigger] cur[a].unit.name != #[trigger] cur[c].unit.name by {
                assert(prev[a].unit.name != prev[c].unit.name);
            }
            assert forall|j: int| 0 <= j < cur.len() implies exists|k: int|
                0 <= k < n && #[trigger] cur[j] == fresh_unit_state(us[k]@, now) by {
                if j == i {
                    assert(cur[j] == fresh_unit_state(us[n - 1]@, now));
                } else {
                    assert(cur[j] == prev[j]);
                }
            }
            assert forall|k: int| 0 <= k < n implies tracks_unit(cur, (#[trigger] us[k]).name@) by {
                if k == n - 1 {
                    assert(cur[i].unit.name == us[k].name@);
                } else {
                    assert(tracks_unit(prev, us[k].name@));
                    let w = choose|w: int| 0 <= w < prev.len() && #[trigger] prev[w].unit.name == us[k].name@;
                    if w == i {
                        assert(cur[i].unit.name == us[k].name@);
                    } else {
                        assert(cur[w] == prev[w]);
                    }
                }
            }
        } else {
            assert(cur == prev.push(t));
            assert forall|a: int, c: int| 0 <= a < c < cur.len() implies #[trigger] cur[a].unit.name != #[trigger] cur[c].unit.name by {
                if c < prev.len() {
                    assert(prev[a].unit.name != prev[c].unit.name);
                } else {
                    assert(cur[a] == prev[a]);
                }
            }
            assert forall|j: int| 0 <= j < cur.len() implies exists|k: int|
                0 <= k < n && #[trigger] cur[j] == fresh_unit_state(us[k]@, now) by {
                if j == prev.len() {
                    assert(cur[j] == fresh_unit_state(us[n - 1]@, now));
                } else {
                    assert(cur[j] == prev[j]);
                }
            }
            assert forall|k: int| 0 <= k < n implies tracks_unit(cur, (#[trigger] us[k]).name@) by {
                if k == n - 1 {
                    assert(cur[prev.len() as int].unit.name == us[k].name@);
                } else {
                    assert(tracks_unit(prev, us[k].name@));
                    let w = choose|w: int| 0 <= w < prev.len() && #[trigger] prev[w].unit.name == us[k].name@;
                    assert(cur[w] == prev[w]);
                }
            }
        }
    }
}

/// The initial snapshot of a subscription that starts with empty tables
/// and no static objects holds one message per distinct unit name
/// discovered, each at mission time zero and carrying a discovered unit.
pub proof fn lemma_initial_snapshot(us: Seq<Unit>, now: u64)
    ensures
        ({
            let t = synced_units(seq![], us, now, us.len());
            let m = snapshot_messages(t, seq![]);
            &&& m.len() == us.map_values(|u: Unit| u.name@).to_set().len()
            &&& forall|j: int|
                0 <= j < m.len() ==> exists|k: int|
                    0 <= k < us.len() && #[trigger] m[j] == unit_message(0, us[k]@)
        }),
{
    let t = synced_units(seq![], us, now, us.len());
    let m = snapshot_messages(t, seq![]);
    lemma_synced(us, now, us.len());
    let names = t.map_values(|s: UnitStateView| s.unit.name);
    let all = us.map_values(|u: Unit| u.name@);
    assert(names.no_duplicates()) by {
        assert forall|a: int, c: int| 0 <= a < names.len() && 0 <= c < names.len() && a != c implies names[a] != names[c] by {
            if a < c {
                assert(t[a].unit.name != t[c].unit.name);
            } else {
                assert(t[c].unit.name != t[a].unit.name);
            }
        }
    }
    names.unique_seq_to_set();
    assert(names.to_set() =~= all.to_set()) by {
        assert forall|x: Seq<char>| names.to_set().contains(x) implies all.to_set().contains(x) by {
            let j = choose|j: int| 0 <= j < names.len() && names[j] == x;
            let k = choose|k: int| 0 <= k < us.len() && #[trigger] t[j] == fresh_unit_state(us[k]@, now);
            assert(all[k] == x);
        }
        assert forall|x: Seq<char>| all.to_set().contains(x) implies names.to_set().contains(x) by {
            let k = choose|k: int| 0 <= k < all.len() && all[k] == x;
            assert(tracks_unit(t, us[k].name@));
            let j = choose|j: int| 0 <= j < t.len() && #[trigger] t[j].unit.name == us[k].name@;
            assert(names[j] == x);
        }
    }
    assert forall|j: int| 0 <= j < m.len() implies exists|k: int|
        0 <= k < us.len() && #[trigger] m[j] == unit_message(0, us[k]@) by {
        let k = choose|k: int| 0 <= k < us.len() && #[trigger] t[j] == fresh_unit_state(us[k]@, now);
        assert(m[j] == unit_message(t[j].update_time, t[j].unit));
    }
}


/// A birth of a unit whose group category the filter rejects changes no
/// table and emits no message.
pub proof fn lemma_filtered_birth_ignored(
    units: Seq<UnitStateView>,
    statics: Seq<StaticStateView>,
    filter: GroupCategory,
    with_statics: bool,
    time: i64,
    u: Unit,
    now: u64,
)
    requires
        !accepts(filter, u@),
    ensures
        after_event(units, statics, filter, with_statics, time, Event::Birth(Initiator::Unit(u)), now)
            == (units, statics, None::<ResponseView>),
{
}

} // verus!
