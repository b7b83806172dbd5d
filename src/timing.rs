//! Grades, threshold tables and the per-tick grade evaluator.

use vstd::prelude::*;
use crate::input::FeedbackType;

verus! {

/// The graded quality of a press, from too early to too late.
#[derive(Clone, Copy, Debug, PartialEq, Eq, Structural)]
pub enum TimingButton {
    TooEarly,
    BadEarly,
    GoodEarly,
    Perfect,
    GoodLate,
    BadLate,
    TooLate,
}

impl TimingButton {
    /// Position of the grade on the ordinal scale.
    pub open spec fn rank(self) -> int {
        match self {
            TimingButton::TooEarly => 0,
            TimingButton::BadEarly => 1,
            TimingButton::GoodEarly => 2,
            TimingButton::Perfect => 3,
            TimingButton::GoodLate => 4,
            TimingButton::BadLate => 5,
            TimingButton::TooLate => 6,
        }
    }
}

/// The feedback shown for a press graded `g`.
pub open spec fn spec_feedback_for(g: TimingButton) -> FeedbackType {
    match g {
        TimingButton::TooEarly => FeedbackType::Bad,
        TimingButton::BadEarly => FeedbackType::New,
        TimingButton::GoodEarly => FeedbackType::Good,
        TimingButton::Perfect => FeedbackType::Menu,
        TimingButton::GoodLate => FeedbackType::Good,
        TimingButton::BadLate => FeedbackType::New,
        TimingButton::TooLate => FeedbackType::Bad,
    }
}

pub fn feedback_for(g: TimingButton) -> (r: FeedbackType)
    ensures
        r == spec_feedback_for(g),
{
    match g {
        TimingButton::TooEarly => FeedbackType::Bad,
        TimingButton::BadEarly => FeedbackType::New,
        TimingButton::GoodEarly => FeedbackType::Good,
        TimingButton::Perfect => FeedbackType::Menu,
        TimingButton::GoodLate => FeedbackType::Good,
        TimingButton::BadLate => FeedbackType::New,
        TimingButton::TooLate => FeedbackType::Bad,
    }
}

/// One row of a threshold table: `value` applies while the elapsed time is
/// below `expiry` (milliseconds since the target spawned).
#[derive(Clone, Copy, Debug, PartialEq, Eq, Structural)]
pub struct TimingMapping {
    pub expiry: u64,
    pub value: TimingButton,
}

impl TimingMapping {
    pub fn new(expiry: u64, value: TimingButton) -> (r: Self)
        ensures
            r.expiry == expiry,
            r.value == value,
    {
        TimingMapping { expiry, value }
    }
}

/// A threshold table, meant to be sorted by ascending `expiry`.
#[derive(Debug)]
pub struct TimingButtonMappings {
    pub map: Vec<TimingMapping>,
}

/// Cutoffs ascend and grades never move down the scale (ties allowed).
pub open spec fn sorted_table(m: Seq<TimingMapping>) -> bool {
    forall|i: int, j: int|
        0 <= i < j < m.len() ==> m[i].expiry <= m[j].expiry && m[i].value.rank() <= m[j].value.rank()
}

/// Index of the first row whose cutoff exceeds `t`; the table's length if none.
pub open spec fn first_open(m: Seq<TimingMapping>, t: u64) -> int
    decreases m.len(),
{
    if m.len() == 0 {
        0
    } else if t < m[0].expiry {
        0
    } else {
        1 + first_open(m.drop_first(), t)
    }
}

/// The grade `elapsed` milliseconds after spawning: that of the first row
/// whose cutoff exceeds `elapsed`, or `current` when every cutoff has passed.
pub open spec fn grade_at(m: Seq<TimingMapping>, current: TimingButton, elapsed: u64) -> TimingButton
    decreases m.len(),
{
    if m.len() == 0 {
        current
    } else if elapsed < m[0].expiry {
        m[0].value
    } else {
        grade_at(m.drop_first(), current, elapsed)
    }
}

/// Evaluates the grade of a target `elapsed` milliseconds after it spawned:
/// the first open row wins; the grade is written only when it changes.
pub fn evaluate_grade(m: &Vec<TimingMapping>, current: TimingButton, elapsed: u64) -> (r: TimingButton)
    ensures
        r == grade_at(m@, current, elapsed),
{
    let mut i: usize = 0;
    proof {
        assert(m@.subrange(0, m@.len() as int) =~= m@);
    }
    while i < m.len()
        invariant
            i <= m@.len(),
            grade_at(m@, current, elapsed) == grade_at(m@.subrange(i as int, m@.len() as int), current, elapsed),
        decreases m@.len() - i,
    {
        let row = m[i];
        let ghost rest = m@.subrange(i as int, m@.len() as int);
        proof {
            assert(rest[0] == row);
            assert(rest.drop_first() =~= m@.subrange(i as int + 1, m@.len() as int));
        }
        if elapsed < row.expiry {
            if row.value != current {
                return row.value;
            }
            return current;
        }
        i = i + 1;
    }
    current
}

proof fn lemma_first_open(m: Seq<TimingMapping>, t: u64)
    requires
        sorted_table(m),
    ensures
        0 <= first_open(m, t) <= m.len(),
        forall|i: int| 0 <= i < first_open(m, t) ==> m[i].expiry <= t,
        forall|i: int| first_open(m, t) <= i < m.len() ==> t < m[i].expiry,
    decreases m.len(),
{
    if m.len() > 0 && t >= m[0].expiry {
        let r = m.drop_first();
        lemma_sorted_rest(m);
        lemma_first_open(r, t);
        assert forall|i: int| 0 <= i < first_open(m, t) implies m[i].expiry <= t by {
            if i > 0 {
                assert(m[i] == r[i - 1]);
            }
        }
        assert forall|i: int| first_open(m, t) <= i < m.len() implies t < m[i].expiry by {
            assert(m[i] == r[i - 1]);
        }
    }
}

proof fn lemma_sorted_rest(m: Seq<TimingMapping>)
    requires
        sorted_table(m),
        m.len() > 0,
    ensures
        sorted_table(m.drop_first()),
{
    let r = m.drop_first();
    assert forall|i: int, j: int| 0 <= i < j < r.len() implies r[i].expiry <= r[j].expiry
        && r[i].value.rank() <= r[j].value.rank() by {
        assert(r[i] == m[i + 1] && r[j] == m[j + 1]);
    }
}

/// The grade is that of the first open row, or the current one when none is
/// open.
proof fn lemma_grade_closed_form(m: Seq<TimingMapping>, current: TimingButton, t: u64)
    ensures
        first_open(m, t) < m.len() ==> grade_at(m, current, t) == m[first_open(m, t)].value,
        first_open(m, t) >= m.len() ==> grade_at(m, current, t) == current,
        0 <= first_open(m, t) <= m.len(),
    decreases m.len(),
{
    if m.len() > 0 && t >= m[0].expiry {
        let r = m.drop_first();
        lemma_grade_closed_form(r, current, t);
        if first_open(r, t) < r.len() {
            assert(r[first_open(r, t)] == m[first_open(m, t)]);
        }
    }
}

/// Grades never move backwards: on a table sorted by cutoff whose grades
/// follow the scale, two evaluations at times `t1 <= t2`, the second starting
/// from the grade that the first produced, yield non-decreasing ordinals.
pub proof fn lemma_grade_monotone(m: Seq<TimingMapping>, g0: TimingButton, t1: u64, t2: u64)
    requires
        sorted_table(m),
        t1 <= t2,
    ensures
        grade_at(m, g0, t1).rank() <= grade_at(m, grade_at(m, g0, t1), t2).rank(),
{
    let g1 = grade_at(m, g0, t1);
    lemma_grade_closed_form(m, g0, t1);
    lemma_grade_closed_form(m, g1, t2);
    lemma_first_open(m, t1);
    lemma_first_open(m, t2);
    let k1 = first_open(m, t1);
    let k2 = first_open(m, t2);
    if k2 < k1 {
        assert(m[k2].expiry <= t1);
    }
}

} // verus!
