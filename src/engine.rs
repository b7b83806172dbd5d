//! The timing-window engine: an arena of live targets that a host drives
//! with clock ticks and button presses.

use vstd::prelude::*;
use rand::Rng;
use crate::input::{ArcadeInput, ArcadeInputEvent, FeedbackType, InputReaction, Reactable};
use crate::path::{PathDriver, TimingButtonPath, moved};
use crate::timing::{
    TimingButton, TimingButtonMappings, TimingMapping, evaluate_grade, feedback_for, grade_at,
    spec_feedback_for,
};

verus! {

/// Speed of a spawned target, in world units per second.
pub const SPEED: u64 = 100;

/// Time a spawned target takes to reach its slot, in milliseconds.
pub const DELAY_TO_HIT: u64 = 2000;

/// Length of the travel leg of a spawned target: it crosses its slot and
/// goes as far again, in thousandths of a world unit.
pub const TRAVEL: u64 = 2 * SPEED * DELAY_TO_HIT;

/// Largest cutoff accepted in a base threshold table, in milliseconds.
pub const MAX_CUTOFF: u64 = 1_000_000_000;

/// The deadlines of a target, in milliseconds after it spawned.
#[derive(Clone, Copy, Debug, PartialEq, Eq, Structural)]
pub struct DelayTimings {
    pub delay_before_perfect: u64,
    pub delay_before_final_too_late: u64,
}

/// A repeating timer that paces the spawner.
#[derive(Clone, Copy, Debug, PartialEq, Eq, Structural)]
pub struct SpawnWaves {
    pub period: u64,
    pub elapsed: u64,
}

impl SpawnWaves {
    pub open spec fn wf(self) -> bool {
        self.period > 0 && self.elapsed < self.period
    }

    /// Advances the timer by `dt`; says whether it went off.
    pub fn tick(&mut self, dt: u64) -> (fired: bool)
        requires
            old(self).wf(),
        ensures
            final(self).wf(),
            final(self).period == old(self).period,
            final(self).elapsed == (old(self).elapsed + dt) % (old(self).period as int),
            fired == (old(self).elapsed + dt >= old(self).period),
    {
        let left = self.period - self.elapsed;
        if dt >= left {
            let e = (dt - left) % self.period;
            proof {
                let p = self.period as int;
                let s = self.elapsed + dt;
                assert(s == p + (dt - left));
                vstd::arithmetic::div_mod::lemma_mod_add_multiples_vanish((dt - left) as int, p);
            }
            self.elapsed = e;
            true
        } else {
            self.elapsed = self.elapsed + dt;
            proof {
                vstd::arithmetic::div_mod::lemma_small_mod(self.elapsed as nat, self.period as nat);
            }
            false
        }
    }
}

/// The base threshold table and the moment, within it, of the ideal press.
#[derive(Debug)]
pub struct MappingHelper {
    pub mapping_raw: TimingButtonMappings,
    pub ideal_perfect_time: u64,
}

/// The button that a target or a slot answers to.
#[derive(Clone, Copy, Debug, PartialEq, Eq, Structural)]
pub struct ArcadeKey {
    pub key: ArcadeInput,
}

/// A press handed to the engine for matching.
#[derive(Clone, Copy, Debug, PartialEq, Eq, Structural)]
pub struct ValidateButtonEvent(pub ArcadeInput);

/// A target that reached its final deadline unmatched.
#[derive(Clone, Copy, Debug, PartialEq, Eq, Structural)]
pub struct TimingButtonExpired {
    pub id: u64,
    pub key: ArcadeInput,
}

impl TimingButtonExpired {
    /// The miss feedback shown for an expired target.
    pub fn reaction(&self) -> (r: InputReaction)
        ensures
            r == (InputReaction { key: self.key, feedback: FeedbackType::Cheat }),
    {
        InputReaction { key: self.key, feedback: FeedbackType::Cheat }
    }
}

/// The time a target spawned, in milliseconds.
#[derive(Clone, Copy, Debug, PartialEq, Eq, Structural)]
pub struct TimingButtonStartTime {
    pub start_time: u64,
}

/// One live timing challenge.
#[derive(Debug)]
pub struct TimingTarget {
    pub id: u64,
    pub key: ArcadeKey,
    pub start: TimingButtonStartTime,
    pub mappings: TimingButtonMappings,
    pub grade: TimingButton,
    pub path: TimingButtonPath,
    pub driver: PathDriver,
}

/// The engine: live targets in spawn order, the clock, and the configuration.
/// The fields can be read freely; the methods require and keep `wf`.
#[derive(Debug)]
pub struct TimingEngine {
    pub targets: Vec<TimingTarget>,
    pub now: u64,
    pub next_id: u64,
    pub delays: DelayTimings,
    pub helper: MappingHelper,
    pub waves: SpawnWaves,
}

/// Whether a target is still before its final deadline at `now`.
pub open spec fn alive(t: TimingTarget, now: u64, deadline: u64) -> bool {
    now - t.start.start_time < deadline
}

/// `b` is `a` one tick later: same identity and table, grade re-evaluated at
/// `now`, moved on by `dt` along its path.
pub open spec fn stepped(a: TimingTarget, b: TimingTarget, now: u64, dt: u64) -> bool {
    &&& b.id == a.id
    &&& b.key == a.key
    &&& b.start == a.start
    &&& b.mappings.map@ == a.mappings.map@
    &&& b.path.legs@ == a.path.legs@
    &&& b.grade == grade_at(a.mappings.map@, a.grade, (now - a.start.start_time) as u64)
    &&& moved(a.path.legs@, a.driver, b.driver, dt)
}

/// `new` is `old` after a tick: the live targets, in order, each stepped.
pub open spec fn ticked(old: Seq<TimingTarget>, new: Seq<TimingTarget>, now: u64, dt: u64, deadline: u64) -> bool
    decreases old.len(),
{
    if old.len() == 0 {
        new.len() == 0
    } else if alive(old.last(), now, deadline) {
        &&& new.len() > 0
        &&& stepped(old.last(), new.last(), now, dt)
        &&& ticked(old.drop_last(), new.drop_last(), now, dt, deadline)
    } else {
        ticked(old.drop_last(), new, now, dt, deadline)
    }
}

/// The targets of `old` that a tick at `now` expires, in order.
pub open spec fn expired_of(old: Seq<TimingTarget>, now: u64, deadline: u64) -> Seq<TimingButtonExpired>
    decreases old.len(),
{
    if old.len() == 0 {
        Seq::empty()
    } else {
        let rest = expired_of(old.drop_last(), now, deadline);
        if alive(old.last(), now, deadline) {
            rest
        } else {
            rest.push(TimingButtonExpired { id: old.last().id, key: old.last().key.key })
        }
    }
}

/// The target that a press of `key` selects, as the scan finds it: the
/// earliest spawned, the first of equals; `-1` if none answers to `key`.
pub open spec fn earliest_index(ts: Seq<TimingTarget>, key: ArcadeInput) -> int
    decreases ts.len(),
{
    if ts.len() == 0 {
        -1
    } else {
        let b = earliest_index(ts.drop_last(), key);
        let t = ts.last();
        if t.key.key == key && (b < 0 || t.start.start_time < ts[b].start.start_time) {
            ts.len() - 1
        } else {
            b
        }
    }
}

/// The feedback of a press of `key` against `ts`.
pub open spec fn press_reaction(ts: Seq<TimingTarget>, key: ArcadeInput) -> InputReaction {
    let i = earliest_index(ts, key);
    if i < 0 {
        InputReaction { key, feedback: FeedbackType::Cheat }
    } else {
        InputReaction { key: ts[i].key.key, feedback: spec_feedback_for(ts[i].grade) }
    }
}

/// The live targets after a press of `key`.
pub open spec fn press_targets(ts: Seq<TimingTarget>, key: ArcadeInput) -> Seq<TimingTarget> {
    let i = earliest_index(ts, key);
    if i < 0 {
        ts
    } else {
        ts.remove(i)
    }
}

/// No two targets share an id.
pub open spec fn unique_ids(ts: Seq<TimingTarget>) -> bool {
    forall|i: int, j: int| 0 <= i < j < ts.len() ==> ts[i].id != ts[j].id
}

/// Menu and system buttons never receive targets.
pub open spec fn forbidden(k: ArcadeInput) -> bool {
    k == ArcadeInput::ButtonFront1 || k == ArcadeInput::ButtonFront2 || k == ArcadeInput::ButtonLeftSide
        || k == ArcadeInput::ButtonRightSide
}

/// The slots of `rs` that may receive a target, in order.
pub open spec fn eligible(rs: Seq<Reactable>) -> Seq<Reactable>
    decreases rs.len(),
{
    if rs.len() == 0 {
        Seq::empty()
    } else if forbidden(rs.last().key) {
        eligible(rs.drop_last())
    } else {
        eligible(rs.drop_last()).push(rs.last())
    }
}

/// A cutoff shifted so that the ideal moment falls `delay` after spawning;
/// a cutoff that would fall before spawning is never open, as is 0.
pub open spec fn shift_cutoff(e: u64, ideal: u64, delay: u64) -> u64 {
    if e + delay >= ideal {
        (e + delay - ideal) as u64
    } else {
        0
    }
}

/// The table `m` shifted by `shift_cutoff`, grades kept.
pub open spec fn shifted(m: Seq<TimingMapping>, ideal: u64, delay: u64) -> Seq<TimingMapping> {
    Seq::new(m.len(), |i: int| TimingMapping { expiry: shift_cutoff(m[i].expiry, ideal, delay), value: m[i].value })
}

/// Keeps the slots that may receive a target.
pub fn eligible_reactables(rs: &Vec<Reactable>) -> (r: Vec<Reactable>)
    ensures
        r@ == eligible(rs@),
{
    let mut out: Vec<Reactable> = Vec::new();
    let mut i: usize = 0;
    while i < rs.len()
        invariant
            i <= rs@.len(),
            out@ == eligible(rs@.take(i as int)),
        decreases rs@.len() - i,
    {
        proof {
            assert(rs@.take(i as int + 1).drop_last() =~= rs@.take(i as int));
        }
        let r = rs[i];
        let k = r.key;
        if !(k == ArcadeInput::ButtonFront1 || k == ArcadeInput::ButtonFront2 || k == ArcadeInput::ButtonLeftSide
            || k == ArcadeInput::ButtonRightSide) {
            out.push(r);
        }
        i = i + 1;
    }
    proof {
        assert(rs@.take(i as int) =~= rs@);
    }
    out
}

/// Shifts every cutoff of a base table by `delay - ideal`.
pub fn shift_mappings(m: &Vec<TimingMapping>, ideal: u64, delay: u64) -> (r: Vec<TimingMapping>)
    requires
        forall|i: int| 0 <= i < m@.len() ==> m@[i].expiry + delay <= u64::MAX,
    ensures
        r@ == shifted(m@, ideal, delay),
{
    let mut out: Vec<TimingMapping> = Vec::new();
    let mut i: usize = 0;
    while i < m.len()
        invariant
            i <= m@.len(),
            out@.len() == i,
            forall|i: int| 0 <= i < m@.len() ==> m@[i].expiry + delay <= u64::MAX,
            forall|j: int| 0 <= j < i ==> out@[j] == shifted(m@, ideal, delay)[j],
        decreases m@.len() - i,
    {
        let row = m[i];
        let sum = row.expiry + delay;
        let e = if sum >= ideal { sum - ideal } else { 0 };
        out.push(TimingMapping { expiry: e, value: row.value });
        i = i + 1;
    }
    proof {
        assert(out@ =~= shifted(m@, ideal, delay));
    }
    out
}

/// Relies on rand::Rng::gen_range on rand::thread_rng(): a uniform index in
/// `0..n`; it panics on an empty range, hence `n > 0`.
#[verifier::external_body]
fn random_index(n: usize) -> (r: usize)
    requires
        n > 0,
    ensures
        r < n,
{
    rand::thread_rng().gen_range(0..n)
}

impl TimingEngine {
    /// The engine's invariant.
    pub open spec fn wf(&self) -> bool {
        &&& self.waves.wf()
        &&& unique_ids(self.targets@)
        &&& forall|i: int| 0 <= i < self.targets@.len() ==> self.targets@[i].id < self.next_id
        &&& forall|i: int| 0 <= i < self.targets@.len() ==> self.targets@[i].start.start_time <= self.now
        &&& forall|i: int|
            0 <= i < self.helper.mapping_raw.map@.len() ==> self.helper.mapping_raw.map@[i].expiry <= MAX_CUTOFF
    }

    /// An engine with no target, the standard table and deadlines, and a
    /// spawn every second, started at `now`.
    pub fn new(now: u64) -> (r: Self)
        ensures
            r.wf(),
            r.targets@.len() == 0,
            r.now == now,
            r.next_id == 0,
            r.delays == (DelayTimings { delay_before_perfect: 2000, delay_before_final_too_late: 4000 }),
            r.waves == (SpawnWaves { period: 1000, elapsed: 0 }),
            r.helper.ideal_perfect_time == 650,
            r.helper.mapping_raw.map@ == seq![
                TimingMapping { expiry: 200, value: TimingButton::TooEarly },
                TimingMapping { expiry: 400, value: TimingButton::BadEarly },
                TimingMapping { expiry: 600, value: TimingButton::GoodEarly },
                TimingMapping { expiry: 700, value: TimingButton::Perfect },
                TimingMapping { expiry: 900, value: TimingButton::GoodLate },
                TimingMapping { expiry: 1100, value: TimingButton::BadLate },
                TimingMapping { expiry: 1300, value: TimingButton::TooLate },
            ],
    {
        let map = vec![
            TimingMapping::new(200, TimingButton::TooEarly),
            TimingMapping::new(400, TimingButton::BadEarly),
            TimingMapping::new(600, TimingButton::GoodEarly),
            TimingMapping::new(700, TimingButton::Perfect),
            TimingMapping::new(900, TimingButton::GoodLate),
            TimingMapping::new(1100, TimingButton::BadLate),
            TimingMapping::new(1300, TimingButton::TooLate),
        ];
        let r = TimingEngine {
            targets: Vec::new(),
            now,
            next_id: 0,
            delays: DelayTimings { delay_before_perfect: 2000, delay_before_final_too_late: 4000 },
            helper: MappingHelper { mapping_raw: TimingButtonMappings { map }, ideal_perfect_time: 650 },
            waves: SpawnWaves { period: 1000, elapsed: 0 },
        };
        proof {
            assert(r.helper.mapping_raw.map@ =~= seq![
                TimingMapping { expiry: 200, value: TimingButton::TooEarly },
                TimingMapping { expiry: 400, value: TimingButton::BadEarly },
                TimingMapping { expiry: 600, value: TimingButton::GoodEarly },
                TimingMapping { expiry: 700, value: TimingButton::Perfect },
                TimingMapping { expiry: 900, value: TimingButton::GoodLate },
                TimingMapping { expiry: 1100, value: TimingButton::BadLate },
                TimingMapping { expiry: 1300, value: TimingButton::TooLate },
            ]);
        }
        r
    }
}


/// `t` is a fresh target with id `id` for `key`, spawned at `now` with
/// threshold table `table`, at the start of its path.
pub open spec fn spawned_as(t: TimingTarget, id: u64, key: ArcadeInput, now: u64, table: Seq<TimingMapping>) -> bool {
    &&& t.id == id
    &&& t.key.key == key
    &&& t.start.start_time == now
    &&& t.mappings.map@ == table
    &&& t.grade == TimingButton::TooEarly
    &&& t.path.legs@ == seq![0u64, TRAVEL]
    &&& t.driver == (PathDriver { path_target_index: 0, speed: SPEED, to_target: 0 })
}

/// The deadlines and the base table are the same in `a` and `b`.
pub open spec fn same_setup(a: TimingEngine, b: TimingEngine) -> bool {
    &&& a.delays == b.delays
    &&& a.helper.mapping_raw.map@ == b.helper.mapping_raw.map@
    &&& a.helper.ideal_perfect_time == b.helper.ideal_perfect_time
}

/// The threshold table of a target that `e` spawns.
pub open spec fn spawn_table(e: TimingEngine) -> Seq<TimingMapping> {
    shifted(e.helper.mapping_raw.map@, e.helper.ideal_perfect_time, DELAY_TO_HIT)
}

/// What a press selects: a target answering to `key`, spawned no later than
/// any other such target, and strictly earlier than those before it; and
/// nothing only when no target answers to `key`.
pub proof fn lemma_press_picks_earliest(ts: Seq<TimingTarget>, key: ArcadeInput)
    ensures
        earliest_index(ts, key) < ts.len(),
        earliest_index(ts, key) < 0 <==> forall|j: int| 0 <= j < ts.len() ==> ts[j].key.key != key,
        earliest_index(ts, key) >= 0 ==> ({
            let i = earliest_index(ts, key);
            &&& ts[i].key.key == key
            &&& forall|j: int| 0 <= j < i && ts[j].key.key == key ==> ts[i].start.start_time < ts[j].start.start_time
            &&& forall|j: int|
                i < j < ts.len() && ts[j].key.key == key ==> ts[i].start.start_time <= ts[j].start.start_time
        }),
    decreases ts.len(),
{
    if ts.len() > 0 {
        let r = ts.drop_last();
        lemma_press_picks_earliest(r, key);
        assert forall|j: int| 0 <= j < r.len() implies r[j] == ts[j] by {}
        if earliest_index(ts, key) < 0 {
            assert forall|j: int| 0 <= j < ts.len() implies ts[j].key.key != key by {
                if j < r.len() {
                    assert(r[j] == ts[j]);
                }
            }
        }
    }
}

/// Every target that a tick expires is one of the targets before the tick.
pub proof fn lemma_expired_from(s: Seq<TimingTarget>, now: u64, deadline: u64)
    ensures
        forall|k: int| #![trigger expired_of(s, now, deadline)[k]]
            0 <= k < expired_of(s, now, deadline).len() ==> exists|j: int| #![trigger s[j]]
                0 <= j < s.len() && s[j].id == expired_of(s, now, deadline)[k].id,
    decreases s.len(),
{
    if s.len() > 0 {
        let r = s.drop_last();
        lemma_expired_from(r, now, deadline);
        let e = expired_of(s, now, deadline);
        assert forall|k: int| #![trigger e[k]] 0 <= k < e.len() implies exists|j: int| #![trigger s[j]]
            0 <= j < s.len() && s[j].id == e[k].id by {
            if k < expired_of(r, now, deadline).len() {
                let j = choose|j: int| #![trigger r[j]] 0 <= j < r.len() && r[j].id == expired_of(r, now, deadline)[k].id;
                assert(s[j] == r[j]);
            } else {
                assert(s[s.len() - 1].id == e[k].id);
            }
        }
    }
}

/// Every target after a tick carries the id of a target before it.
pub proof fn lemma_ticked_ids(old: Seq<TimingTarget>, new: Seq<TimingTarget>, now: u64, dt: u64, deadline: u64)
    requires
        ticked(old, new, now, dt, deadline),
    ensures
        forall|k: int| #![trigger new[k]]
            0 <= k < new.len() ==> exists|j: int| #![trigger old[j]] 0 <= j < old.len() && old[j].id == new[k].id,
    decreases old.len(),
{
    if old.len() > 0 {
        let r = old.drop_last();
        if alive(old.last(), now, deadline) {
            lemma_ticked_ids(r, new.drop_last(), now, dt, deadline);
            assert forall|k: int| #![trigger new[k]] 0 <= k < new.len() implies exists|j: int| #![trigger old[j]]
                0 <= j < old.len() && old[j].id == new[k].id by {
                if k < new.len() - 1 {
                    let j = choose|j: int| #![trigger r[j]] 0 <= j < r.len() && r[j].id == new.drop_last()[k].id;
                    assert(old[j] == r[j]);
                } else {
                    assert(old[old.len() - 1].id == new[k].id);
                }
            }
        } else {
            lemma_ticked_ids(r, new, now, dt, deadline);
            assert forall|k: int| #![trigger new[k]] 0 <= k < new.len() implies exists|j: int| #![trigger old[j]]
                0 <= j < old.len() && old[j].id == new[k].id by {
                let j = choose|j: int| #![trigger r[j]] 0 <= j < r.len() && r[j].id == new[k].id;
                assert(old[j] == r[j]);
            }
        }
    }
}

/// A matched target leaves once and is never a miss: when a press selects
/// the target with id `h` among targets with distinct ids, it is the only
/// target with that id, none is left with it after the press, and no later
/// tick, at any time and with any deadline, reports it as expired nor keeps
/// a target with that id.
pub proof fn lemma_matched_leaves_once(
    ts: Seq<TimingTarget>,
    key: ArcadeInput,
    later: Seq<TimingTarget>,
    now: u64,
    dt: u64,
    deadline: u64,
)
    requires
        unique_ids(ts),
        earliest_index(ts, key) >= 0,
        ticked(press_targets(ts, key), later, now, dt, deadline),
    ensures
        ({
            let h = ts[earliest_index(ts, key)].id;
            &&& forall|j: int| 0 <= j < ts.len() && ts[j].id == h ==> j == earliest_index(ts, key)
            &&& forall|j: int| 0 <= j < press_targets(ts, key).len() ==> press_targets(ts, key)[j].id != h
            &&& forall|k: int| 0 <= k < expired_of(press_targets(ts, key), now, deadline).len()
                ==> expired_of(press_targets(ts, key), now, deadline)[k].id != h
            &&& forall|k: int| 0 <= k < later.len() ==> later[k].id != h
        }),
{
    lemma_press_picks_earliest(ts, key);
    let i = earliest_index(ts, key);
    let h = ts[i].id;
    let after = press_targets(ts, key);
    assert(after == ts.remove(i));
    assert forall|j: int| 0 <= j < after.len() implies after[j].id != h by {
        if j < i {
            assert(after[j] == ts[j]);
        } else {
            assert(after[j] == ts[j + 1]);
        }
    }
    lemma_expired_from(after, now, deadline);
    lemma_ticked_ids(after, later, now, dt, deadline);
}

/// A press selects the target spawned first for its key: when the target
/// at `i` answers to `key`, every earlier target for `key` spawned strictly
/// later, and every later one no earlier, the press picks `i`.
pub proof fn lemma_earliest_selected(ts: Seq<TimingTarget>, key: ArcadeInput, i: int)
    requires
        0 <= i < ts.len(),
        ts[i].key.key == key,
        forall|j: int| 0 <= j < i && ts[j].key.key == key ==> ts[i].start.start_time < ts[j].start.start_time,
        forall|j: int| i < j < ts.len() && ts[j].key.key == key ==> ts[i].start.start_time <= ts[j].start.start_time,
    ensures
        earliest_index(ts, key) == i,
{
    lemma_press_picks_earliest(ts, key);
    let e = earliest_index(ts, key);
    assert(e >= 0);
    if e < i {
        assert(ts[i].start.start_time < ts[e].start.start_time);
    } else if e > i {
        assert(ts[e].start.start_time < ts[i].start.start_time);
    }
}

/// A target matched before its deadline leaves exactly once and is never a
/// miss: among targets with distinct ids, take the target `i` spawned first
/// for `key` (the first of those spawned at the same time).  A press of
/// `key` answers with its grade's feedback and removes it, it is the only
/// target with its id, none is left with that id, and no later tick, at any
/// time and with any deadline, reports it as expired or keeps it.
pub proof fn lemma_first_spawned_leaves_once(
    ts: Seq<TimingTarget>,
    key: ArcadeInput,
    i: int,
    later: Seq<TimingTarget>,
    now: u64,
    dt: u64,
    deadline: u64,
)
    requires
        unique_ids(ts),
        0 <= i < ts.len(),
        ts[i].key.key == key,
        forall|j: int| 0 <= j < i && ts[j].key.key == key ==> ts[i].start.start_time < ts[j].start.start_time,
        forall|j: int| i < j < ts.len() && ts[j].key.key == key ==> ts[i].start.start_time <= ts[j].start.start_time,
        ticked(press_targets(ts, key), later, now, dt, deadline),
    ensures
        press_reaction(ts, key) == (InputReaction { key, feedback: spec_feedback_for(ts[i].grade) }),
        press_targets(ts, key) == ts.remove(i),
        forall|j: int| 0 <= j < ts.len() && ts[j].id == ts[i].id ==> j == i,
        forall|j: int| 0 <= j < press_targets(ts, key).len() ==> press_targets(ts, key)[j].id != ts[i].id,
        forall|k: int| 0 <= k < expired_of(press_targets(ts, key), now, deadline).len()
            ==> expired_of(press_targets(ts, key), now, deadline)[k].id != ts[i].id,
        forall|k: int| 0 <= k < later.len() ==> later[k].id != ts[i].id,
{
    lemma_earliest_selected(ts, key, i);
    lemma_matched_leaves_once(ts, key, later, now, dt, deadline);
}

impl TimingEngine {
    /// Spawns a target for slot `slots[choice]` at the current time, with the
    /// base table shifted so that the ideal press falls when it reaches the slot.
    pub fn spawn_from(&mut self, slots: &Vec<Reactable>, choice: usize) -> (id: u64)
        requires
            old(self).wf(),
            choice < slots@.len(),
            old(self).next_id < u64::MAX,
        ensures
            final(self).wf(),
            same_setup(*old(self), *final(self)),
            id == old(self).next_id,
            final(self).next_id == old(self).next_id + 1,
            final(self).now == old(self).now,
            final(self).waves == old(self).waves,
            final(self).targets@.len() == old(self).targets@.len() + 1,
            final(self).targets@.drop_last() == old(self).targets@,
            spawned_as(final(self).targets@.last(), id, slots@[choice as int].key, old(self).now, spawn_table(*old(self))),
    {
        let key = slots[choice].key;
        let map = shift_mappings(&self.helper.mapping_raw.map, self.helper.ideal_perfect_time, DELAY_TO_HIT);
        let path = TimingButtonPath { legs: vec![0u64, TRAVEL] };
        let id = self.next_id;
        let t = TimingTarget {
            id,
            key: ArcadeKey { key },
            start: TimingButtonStartTime { start_time: self.now },
            mappings: TimingButtonMappings { map },
            grade: TimingButton::TooEarly,
            path,
            driver: PathDriver { path_target_index: 0, speed: SPEED, to_target: 0 },
        };
        let ghost before = self.targets@;
        self.targets.push(t);
        self.next_id = self.next_id + 1;
        proof {
            assert(self.targets@.drop_last() =~= before);
            assert(self.targets@[before.len() as int] == t);
            assert forall|i: int| 0 <= i < before.len() implies self.targets@[i] == before[i] by {}
        }
        id
    }

    /// Runs the spawner for a step of `dt` milliseconds: when the wave timer
    /// goes off and some slot may receive a target, spawns one at a slot
    /// drawn at random among them.
    pub fn spawn_tick(&mut self, slots: &Vec<Reactable>, dt: u64) -> (r: Option<u64>)
        requires
            old(self).wf(),
            old(self).next_id < u64::MAX,
        ensures
            final(self).wf(),
            same_setup(*old(self), *final(self)),
            final(self).now == old(self).now,
            final(self).waves.period == old(self).waves.period,
            final(self).waves.elapsed == (old(self).waves.elapsed + dt) % (old(self).waves.period as int),
            r.is_some() == (old(self).waves.elapsed + dt >= old(self).waves.period && eligible(slots@).len() > 0),
            r.is_none() ==> final(self).targets@ == old(self).targets@ && final(self).next_id == old(self).next_id,
            r.is_some() ==> ({
                &&& r == Some(old(self).next_id)
                &&& final(self).next_id == old(self).next_id + 1
                &&& final(self).targets@.len() == old(self).targets@.len() + 1
                &&& final(self).targets@.drop_last() == old(self).targets@
                &&& exists|c: int|
                    0 <= c < eligible(slots@).len() && spawned_as(
                        final(self).targets@.last(),
                        old(self).next_id,
                        #[trigger] eligible(slots@)[c].key,
                        old(self).now,
                        spawn_table(*old(self)),
                    )
            }),
    {
        let fired = self.waves.tick(dt);
        if !fired {
            return None;
        }
        let open = eligible_reactables(slots);
        if open.len() == 0 {
            return None;
        }
        let choice = random_index(open.len());
        let id = self.spawn_from(&open, choice);
        proof {
            assert(eligible(slots@)[choice as int] == open@[choice as int]);
        }
        Some(id)
    }

    /// Matches a press of `key` against the live targets: the earliest
    /// spawned target for `key` is graded and removed; with none, the press
    /// is reported as unexpected and nothing changes.
    pub fn validate_press(&mut self, ev: ValidateButtonEvent) -> (r: InputReaction)
        requires
            old(self).wf(),
        ensures
            final(self).wf(),
            same_setup(*old(self), *final(self)),
            final(self).now == old(self).now,
            final(self).next_id == old(self).next_id,
            final(self).waves == old(self).waves,
            r == press_reaction(old(self).targets@, ev.0),
            final(self).targets@ == press_targets(old(self).targets@, ev.0),
    {
        let key = ev.0;
        let ghost ts = self.targets@;
        let mut found = false;
        let mut best: usize = 0;
        let mut i: usize = 0;
        while i < self.targets.len()
            invariant
                ts == self.targets@,
                i <= ts.len(),
                found ==> best < i,
                (if found { best as int } else { -1 }) == earliest_index(ts.take(i as int), key),
            decreases ts.len() - i,
        {
            proof {
                let p = ts.take(i as int + 1);
                assert(p.drop_last() =~= ts.take(i as int));
                assert(p.last() == ts[i as int]);
                if found {
                    assert(ts.take(i as int)[best as int] == ts[best as int]);
                }
            }
            let t = &self.targets[i];
            if t.key.key == key {
                if !found || t.start.start_time < self.targets[best].start.start_time {
                    found = true;
                    best = i;
                }
            }
            i = i + 1;
        }
        proof {
            assert(ts.take(i as int) =~= ts);
        }
        if found {
            let t = self.targets.remove(best);
            proof {
                let after = self.targets@;
                assert forall|a: int, b: int| 0 <= a < b < after.len() implies after[a].id != after[b].id by {
                    let a0 = if a < best { a } else { a + 1 };
                    let b0 = if b < best { b } else { b + 1 };
                    assert(after[a] == ts[a0] && after[b] == ts[b0]);
                }
                assert forall|a: int| 0 <= a < after.len() implies after[a].id < self.next_id
                    && after[a].start.start_time <= self.now by {
                    let a0 = if a < best { a } else { a + 1 };
                    assert(after[a] == ts[a0]);
                }
            }
            InputReaction { key: t.key.key, feedback: feedback_for(t.grade) }
        } else {
            InputReaction { key, feedback: FeedbackType::Cheat }
        }
    }
}


impl TimingEngine {
    /// Advances every live target to `now`: moves it along its path,
    /// re-evaluates its grade, and removes those past their final deadline,
    /// which are returned in order as misses.
    pub fn advance_targets(&mut self, now: u64) -> (r: Vec<TimingButtonExpired>)
        requires
            old(self).wf(),
            old(self).now <= now,
        ensures
            final(self).wf(),
            same_setup(*old(self), *final(self)),
            final(self).now == now,
            final(self).next_id == old(self).next_id,
            final(self).waves == old(self).waves,
            ticked(
                old(self).targets@,
                final(self).targets@,
                now,
                (now - old(self).now) as u64,
                old(self).delays.delay_before_final_too_late,
            ),
            r@ == expired_of(old(self).targets@, now, old(self).delays.delay_before_final_too_late),
    {
        let ghost s = self.targets@;
        proof {
            assert(s.subrange(0, s.len() as int) =~= s);
        }
        let n = self.targets.len();
        let dt = now - self.now;
        let deadline = self.delays.delay_before_final_too_late;
        self.now = now;
        let mut misses: Vec<TimingButtonExpired> = Vec::new();
        let mut i: usize = 0;
        let mut c: usize = 0;
        while i < self.targets.len()
            invariant
                c <= s.len(),
                s.len() == n,
                i <= c,
                i <= self.targets@.len(),
                self.targets@.len() - i == s.len() - c,
                self.targets@.subrange(i as int, self.targets@.len() as int) == s.subrange(c as int, s.len() as int),
                ticked(s.take(c as int), self.targets@.take(i as int), now, dt, deadline),
                misses@ == expired_of(s.take(c as int), now, deadline),
                unique_ids(self.targets@),
                forall|k: int| 0 <= k < self.targets@.len() ==> self.targets@[k].id < self.next_id,
                forall|k: int| 0 <= k < self.targets@.len() ==> self.targets@[k].start.start_time <= now,
                self.now == now,
                deadline == self.delays.delay_before_final_too_late,
                self.waves.wf(),
                same_setup(*old(self), *self),
                self.next_id == old(self).next_id,
                self.waves == old(self).waves,
                dt == now - old(self).now,
                s == old(self).targets@,
            decreases self.targets@.len() - i,
        {
            let ghost v = self.targets@;
            proof {
                assert(v.subrange(i as int, v.len() as int)[0] == v[i as int]);
                assert(v[i as int] == s[c as int]);
                assert(s.take(c as int + 1).drop_last() =~= s.take(c as int));
                assert(s.take(c as int + 1).last() == s[c as int]);
            }
            let elapsed = now - self.targets[i].start.start_time;
            if elapsed >= deadline {
                let t = self.targets.remove(i);
                misses.push(TimingButtonExpired { id: t.id, key: t.key.key });
                proof {
                    let w = self.targets@;
                    assert(w.take(i as int) =~= v.take(i as int));
                    assert(w.subrange(i as int, w.len() as int) =~= v.subrange(i as int + 1, v.len() as int));
                    assert(s.subrange(c as int + 1, s.len() as int) =~= s.subrange(c as int, s.len() as int).drop_first());
                    assert(v.subrange(i as int + 1, v.len() as int) =~= v.subrange(i as int, v.len() as int).drop_first());
                    assert forall|a: int, b: int| 0 <= a < b < w.len() implies w[a].id != w[b].id by {
                        let a0 = if a < i { a } else { a + 1 };
                        let b0 = if b < i { b } else { b + 1 };
                        assert(w[a] == v[a0] && w[b] == v[b0]);
                    }
                    assert forall|a: int| 0 <= a < w.len() implies w[a].id < self.next_id
                        && w[a].start.start_time <= now by {
                        let a0 = if a < i { a } else { a + 1 };
                        assert(w[a] == v[a0]);
                    }
                }
            } else {
                let g = evaluate_grade(&self.targets[i].mappings.map, self.targets[i].grade, elapsed);
                let t = &mut self.targets[i];
                t.grade = g;
                t.driver.advance(&t.path, dt);
                proof {
                    let w = self.targets@;
                    assert(w.take(i as int + 1).drop_last() =~= v.take(i as int));
                    assert(w.take(i as int + 1).last() == w[i as int]);
                    assert(stepped(s[c as int], w[i as int], now, dt));
                    assert(w.subrange(i as int + 1, w.len() as int) =~= v.subrange(i as int + 1, v.len() as int));
                    assert(s.subrange(c as int + 1, s.len() as int) =~= s.subrange(c as int, s.len() as int).drop_first());
                    assert(v.subrange(i as int + 1, v.len() as int) =~= v.subrange(i as int, v.len() as int).drop_first());
                    assert forall|a: int, b: int| 0 <= a < b < w.len() implies w[a].id != w[b].id by {
                        assert(w[a].id == v[a].id && w[b].id == v[b].id);
                    }
                    assert forall|a: int| 0 <= a < w.len() implies w[a].id < self.next_id
                        && w[a].start.start_time <= now by {
                        assert(w[a].id == v[a].id && w[a].start == v[a].start);
                    }
                }
                i = i + 1;
            }
            c = c + 1;
        }
        proof {
            assert(s.take(c as int) =~= s);
            assert(self.targets@.take(i as int) =~= self.targets@);
        }
        misses
    }
}


/// What the host does after a cabinet event in the rhythm game.
#[derive(Debug)]
pub struct FishStep {
    pub reactions: Vec<InputReaction>,
    pub exit: bool,
}

/// Whether a button is a menu button of the rhythm game, which is answered
/// without touching any target.
pub open spec fn fish_menu_button(k: ArcadeInput) -> bool {
    k == ArcadeInput::ButtonFront1 || k == ArcadeInput::ButtonLeftSide || k == ArcadeInput::ButtonRightSide
}

impl TimingEngine {
    /// One frame at time `now`: live targets advance and expire, then the
    /// spawner runs for the time since the last frame; spawned targets start
    /// at `now`.  Returns the targets that expired.
    pub fn update(&mut self, now: u64, slots: &Vec<Reactable>) -> (r: Vec<TimingButtonExpired>)
        requires
            old(self).wf(),
            old(self).now <= now,
            old(self).next_id < u64::MAX,
        ensures
            final(self).wf(),
            same_setup(*old(self), *final(self)),
            final(self).now == now,
            final(self).waves.period == old(self).waves.period,
            final(self).waves.elapsed == (old(self).waves.elapsed + (now - old(self).now)) % (
            old(self).waves.period as int),
            r@ == expired_of(old(self).targets@, now, old(self).delays.delay_before_final_too_late),
            ({
                let spawned = old(self).waves.elapsed + (now - old(self).now) >= old(self).waves.period
                    && eligible(slots@).len() > 0;
                let live = if spawned {
                    final(self).targets@.drop_last()
                } else {
                    final(self).targets@
                };
                &&& ticked(
                    old(self).targets@,
                    live,
                    now,
                    (now - old(self).now) as u64,
                    old(self).delays.delay_before_final_too_late,
                )
                &&& final(self).next_id == if spawned {
                    old(self).next_id + 1
                } else {
                    old(self).next_id as int
                }
                &&& spawned ==> final(self).targets@.len() > 0 && exists|c: int|
                    0 <= c < eligible(slots@).len() && spawned_as(
                        final(self).targets@.last(),
                        old(self).next_id,
                        #[trigger] eligible(slots@)[c].key,
                        now,
                        spawn_table(*old(self)),
                    )
            }),
    {
        let dt = now - self.now;
        let expired = self.advance_targets(now);
        let _ = self.spawn_tick(slots, dt);
        expired
    }

    /// Handles one cabinet event of the rhythm game.  Releases do nothing;
    /// the menu buttons answer with a neutral feedback, the left side one
    /// also asks the host to quit; any other press is matched against the
    /// live targets.
    pub fn handle_input(&mut self, ev: ArcadeInputEvent) -> (r: FishStep)
        requires
            old(self).wf(),
        ensures
            final(self).wf(),
            same_setup(*old(self), *final(self)),
            final(self).now == old(self).now,
            final(self).next_id == old(self).next_id,
            final(self).waves == old(self).waves,
            r.exit == (ev.pressed && ev.arcade_input == ArcadeInput::ButtonLeftSide),
            !ev.pressed ==> r.reactions@ == Seq::<InputReaction>::empty() && final(self).targets@
                == old(self).targets@,
            ev.pressed && fish_menu_button(ev.arcade_input) ==> r.reactions@ == seq![
                InputReaction { key: ev.arcade_input, feedback: FeedbackType::Cheat },
            ] && final(self).targets@ == old(self).targets@,
            ev.pressed && !fish_menu_button(ev.arcade_input) ==> r.reactions@ == seq![
                press_reaction(old(self).targets@, ev.arcade_input),
            ] && final(self).targets@ == press_targets(old(self).targets@, ev.arcade_input),
    {
        let mut reactions: Vec<InputReaction> = Vec::new();
        if !ev.pressed {
            return FishStep { reactions, exit: false };
        }
        let k = ev.arcade_input;
        if k == ArcadeInput::ButtonFront1 || k == ArcadeInput::ButtonLeftSide || k == ArcadeInput::ButtonRightSide {
            reactions.push(InputReaction { key: k, feedback: FeedbackType::Cheat });
            proof {
                assert(reactions@ =~= seq![InputReaction { key: k, feedback: FeedbackType::Cheat }]);
            }
            return FishStep { reactions, exit: k == ArcadeInput::ButtonLeftSide };
        }
        let reaction = self.validate_press(ValidateButtonEvent(k));
        reactions.push(reaction);
        proof {
            assert(reactions@ =~= seq![reaction]);
        }
        FishStep { reactions, exit: false }
    }
}

} // verus!
