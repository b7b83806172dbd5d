//! The sequence engine of the memory game: a growing sequence of buttons,
//! a replay cursor, a hint mode and a timed reset.

use vstd::prelude::*;
use crate::input::{ArcadeInput, ArcadeInputEvent, FeedbackType, InputReaction};

verus! {

/// The sequence recorded so far.
#[derive(Debug)]
pub struct UserSequence {
    pub sequence: Vec<ArcadeInput>,
}

/// How far the player has replayed the sequence.
#[derive(Clone, Copy, Debug, PartialEq, Eq, Structural)]
pub struct UserProgress {
    pub index: usize,
}

/// Hint mode: the next expected button is shown at `next_play`, then every
/// `delta_between_displays` milliseconds.
#[derive(Clone, Copy, Debug, PartialEq, Eq, Structural)]
pub struct ShowNextPlay {
    pub next_play: u64,
    pub delta_between_displays: u64,
}

#[derive(Clone, Copy, Debug, PartialEq, Eq, Structural)]
pub enum CheatState {
    Disabled,
    ShowNextPlay(ShowNextPlay),
}

/// Whether a reset is armed (its trigger is held).
#[derive(Clone, Copy, Debug, PartialEq, Eq, Structural)]
pub struct ResetState(pub bool);

/// A countdown that runs while `active`, from `start_time`, for `duration`
/// milliseconds.
#[derive(Clone, Copy, Debug, PartialEq, Eq, Structural)]
pub struct ProgressTime {
    pub start_time: u64,
    pub duration: u64,
    pub active: bool,
}

impl ProgressTime {
    /// The countdown has run its full duration at `now` (its ratio reached 1).
    pub open spec fn spec_complete(self, now: u64) -> bool {
        self.active && self.start_time <= now && now - self.start_time >= self.duration
    }

    pub fn is_complete(&self, now: u64) -> (r: bool)
        ensures
            r == self.spec_complete(now),
    {
        self.active && self.start_time <= now && now - self.start_time >= self.duration
    }
}

/// Delay before the first hint after an accepted press, in milliseconds.
pub const HINT_DELAY_AFTER_INPUT: u64 = 500;

/// Interval between two hints, in milliseconds.
pub const HINT_INTERVAL: u64 = 1000;

/// How long the reset trigger must be held, in milliseconds.
pub const RESET_DURATION: u64 = 3000;

/// `a + b`, capped at `u64::MAX`.
pub open spec fn capped_add(a: u64, b: u64) -> u64 {
    if a + b > u64::MAX {
        u64::MAX
    } else {
        (a + b) as u64
    }
}

fn add_capped(a: u64, b: u64) -> (r: u64)
    ensures
        r == capped_add(a, b),
{
    if a <= u64::MAX - b {
        a + b
    } else {
        u64::MAX
    }
}

/// The abstract state of the memory game.
pub struct SimonModel {
    pub sequence: Seq<ArcadeInput>,
    pub index: int,
    pub cheat: CheatState,
    pub armed: bool,
    pub reset_start: u64,
}

/// One press checked against the sequence: recorded when the sequence was
/// fully replayed, otherwise compared with the next expected button.
/// Returns the new sequence, the new cursor and the feedback.
pub open spec fn seq_step(s: Seq<ArcadeInput>, idx: int, key: ArcadeInput) -> (Seq<ArcadeInput>, int, Seq<InputReaction>) {
    if idx >= s.len() {
        (s.push(key), 0, seq![InputReaction { key, feedback: FeedbackType::New }])
    } else if key == s[idx] {
        (
            s,
            idx + 1,
            seq![
                InputReaction {
                    key,
                    feedback: if idx + 1 == s.len() {
                        FeedbackType::Last
                    } else {
                        FeedbackType::Good
                    },
                },
            ],
        )
    } else {
        (
            s,
            0,
            seq![
                InputReaction { key: s[idx], feedback: FeedbackType::Cheat },
                InputReaction { key, feedback: FeedbackType::Bad },
            ],
        )
    }
}

/// The presses of `keys`, one after the other, from sequence `s` and cursor
/// `idx`: the final sequence, the cursor after each press, and all feedback.
pub open spec fn seq_run(s: Seq<ArcadeInput>, idx: int, keys: Seq<ArcadeInput>) -> (Seq<ArcadeInput>, Seq<int>, Seq<InputReaction>)
    decreases keys.len(),
{
    if keys.len() == 0 {
        (s, Seq::empty(), Seq::empty())
    } else {
        let (s1, i1, f1) = seq_run(s, idx, keys.drop_last());
        let cur = if i1.len() == 0 {
            idx
        } else {
            i1.last()
        };
        let (s2, i2, f2) = seq_step(s1, cur, keys.last());
        (s2, i1.push(i2), f1 + f2)
    }
}

/// The feedback of a correct replay of `n` buttons ending with `s`'s last:
/// `Good` for each but the last of the sequence, which is `Last`.
pub open spec fn replay_feedback(s: Seq<ArcadeInput>, n: int) -> Seq<InputReaction>
    decreases n,
{
    if n <= 0 {
        Seq::empty()
    } else {
        replay_feedback(s, n - 1).push(
            InputReaction {
                key: s[n - 1],
                feedback: if n == s.len() {
                    FeedbackType::Last
                } else {
                    FeedbackType::Good
                },
            },
        )
    }
}

/// Replaying the whole sequence from the start moves the cursor through
/// `1, 2, ..., len` and answers `Good` to each press but the last, which is
/// answered `Last`; the sequence is left as it was.
pub proof fn lemma_full_replay(s: Seq<ArcadeInput>, n: int)
    requires
        0 <= n <= s.len(),
    ensures
        seq_run(s, 0, s.take(n)).0 == s,
        seq_run(s, 0, s.take(n)).1 == Seq::new(n as nat, |i: int| i + 1),
        seq_run(s, 0, s.take(n)).2 == replay_feedback(s, n),
    decreases n,
{
    if n > 0 {
        lemma_full_replay(s, n - 1);
        assert(s.take(n).drop_last() =~= s.take(n - 1));
        assert(s.take(n).last() == s[n - 1]);
        let r = seq_run(s, 0, s.take(n - 1));
        let cur = if r.1.len() == 0 { 0 } else { r.1.last() };
        assert(cur == n - 1);
        assert(seq_run(s, 0, s.take(n)).1 =~= Seq::new(n as nat, |i: int| i + 1));
    } else {
        assert(s.take(0) =~= Seq::<ArcadeInput>::empty());
        assert(Seq::new(0, |i: int| i + 1) =~= Seq::<int>::empty());
    }
}

/// What the host does after a press of the memory game.
#[derive(Debug)]
pub struct SimonStep {
    pub reactions: Vec<InputReaction>,
    pub save_and_exit: bool,
}

/// What the host does after a tick of the memory game.
#[derive(Debug)]
pub struct SimonTick {
    pub reactions: Vec<InputReaction>,
    pub wipe_saved: bool,
}

/// The memory game: the sequence, the replay cursor, the hint mode, and the
/// reset sub-flow.
#[derive(Debug)]
pub struct SimonGame {
    pub sequence: UserSequence,
    pub progress: UserProgress,
    pub cheat: CheatState,
    pub reset: ResetState,
    pub reset_timer: ProgressTime,
}

impl SimonGame {
    pub open spec fn wf(&self) -> bool {
        &&& self.progress.index <= self.sequence.sequence@.len()
        &&& self.reset_timer.active == self.reset.0
        &&& self.reset_timer.duration == RESET_DURATION
    }

    pub open spec fn view(&self) -> SimonModel {
        SimonModel {
            sequence: self.sequence.sequence@,
            index: self.progress.index as int,
            cheat: self.cheat,
            armed: self.reset.0,
            reset_start: self.reset_timer.start_time,
        }
    }

    /// An empty game: nothing recorded, hints off, reset disarmed.
    pub fn new() -> (r: Self)
        ensures
            r.wf(),
            r@.sequence == Seq::<ArcadeInput>::empty(),
            r@.index == 0,
            r@.cheat == CheatState::Disabled,
            !r@.armed,
    {
        SimonGame {
            sequence: UserSequence { sequence: Vec::new() },
            progress: UserProgress { index: 0 },
            cheat: CheatState::Disabled,
            reset: ResetState(false),
            reset_timer: ProgressTime { start_time: 0, duration: RESET_DURATION, active: false },
        }
    }

    /// A game resuming `sequence`, with the cursor at its start: the player
    /// replays it before adding to it.
    pub fn with_sequence(sequence: Vec<ArcadeInput>) -> (r: Self)
        ensures
            r.wf(),
            r@.sequence == sequence@,
            r@.index == 0,
            r@.cheat == CheatState::Disabled,
            !r@.armed,
    {
        SimonGame {
            sequence: UserSequence { sequence },
            progress: UserProgress { index: 0 },
            cheat: CheatState::Disabled,
            reset: ResetState(false),
            reset_timer: ProgressTime { start_time: 0, duration: RESET_DURATION, active: false },
        }
    }

    /// Checks one press against the sequence (see `seq_step`).
    pub fn validate_input(&mut self, key: ArcadeInput) -> (r: Vec<InputReaction>)
        requires
            old(self).wf(),
        ensures
            final(self).wf(),
            ({
                let (s, i, f) = seq_step(old(self)@.sequence, old(self)@.index, key);
                &&& final(self)@.sequence == s
                &&& final(self)@.index == i
                &&& r@ == f
            }),
            final(self).cheat == old(self).cheat,
            final(self).reset == old(self).reset,
            final(self).reset_timer == old(self).reset_timer,
    {
        let mut r: Vec<InputReaction> = Vec::new();
        let len = self.sequence.sequence.len();
        if len <= self.progress.index {
            self.sequence.sequence.push(key);
            self.progress.index = 0;
            r.push(InputReaction { key, feedback: FeedbackType::New });
            proof {
                assert(r@ =~= seq![InputReaction { key, feedback: FeedbackType::New }]);
            }
            return r;
        }
        let expected = self.sequence.sequence[self.progress.index];
        if key == expected {
            self.progress.index = self.progress.index + 1;
            let feedback = if self.progress.index == len {
                FeedbackType::Last
            } else {
                FeedbackType::Good
            };
            r.push(InputReaction { key, feedback });
            proof {
                assert(r@ =~= seq![InputReaction { key, feedback }]);
            }
        } else {
            r.push(InputReaction { key: expected, feedback: FeedbackType::Cheat });
            self.progress.index = 0;
            r.push(InputReaction { key, feedback: FeedbackType::Bad });
            proof {
                assert(r@ =~= seq![
                    InputReaction { key: expected, feedback: FeedbackType::Cheat },
                    InputReaction { key, feedback: FeedbackType::Bad },
                ]);
            }
        }
        r
    }
}


/// Hint mode switched by its toggle button at `now`.
pub open spec fn toggled(c: CheatState, now: u64) -> CheatState {
    match c {
        CheatState::Disabled => CheatState::ShowNextPlay(
            ShowNextPlay { next_play: now, delta_between_displays: HINT_INTERVAL },
        ),
        CheatState::ShowNextPlay(_) => CheatState::Disabled,
    }
}

/// Hint mode after an accepted press at `now`: the next hint waits again.
pub open spec fn rearmed(c: CheatState, now: u64) -> CheatState {
    match c {
        CheatState::Disabled => CheatState::Disabled,
        CheatState::ShowNextPlay(s) => CheatState::ShowNextPlay(
            ShowNextPlay { next_play: capped_add(now, HINT_DELAY_AFTER_INPUT), delta_between_displays: s.delta_between_displays },
        ),
    }
}

/// One cabinet event of the memory game at `now`: the new state, the
/// feedback, and whether the host must save the sequence and quit.
pub open spec fn input_model(m: SimonModel, ev: ArcadeInputEvent, now: u64) -> (SimonModel, Seq<InputReaction>, bool) {
    let k = ev.arcade_input;
    if !ev.pressed {
        if k == ArcadeInput::ButtonFront2 {
            (SimonModel { armed: false, ..m }, Seq::empty(), false)
        } else {
            (m, Seq::empty(), false)
        }
    } else if k == ArcadeInput::ButtonFront1 {
        (m, seq![InputReaction { key: k, feedback: FeedbackType::Fun }], false)
    } else if k == ArcadeInput::ButtonLeftSide {
        (m, seq![InputReaction { key: k, feedback: FeedbackType::Menu }], true)
    } else if k == ArcadeInput::ButtonFront2 {
        if m.armed {
            (m, seq![InputReaction { key: k, feedback: FeedbackType::Cheat }], false)
        } else {
            (
                SimonModel { armed: true, reset_start: now, ..m },
                seq![InputReaction { key: k, feedback: FeedbackType::Menu }],
                false,
            )
        }
    } else if k == ArcadeInput::ButtonRightSide {
        (
            SimonModel { cheat: toggled(m.cheat, now), ..m },
            seq![InputReaction { key: k, feedback: FeedbackType::Menu }],
            false,
        )
    } else {
        let (s, i, f) = seq_step(m.sequence, m.index, k);
        (SimonModel { sequence: s, index: i, cheat: rearmed(m.cheat, now), ..m }, f, false)
    }
}

/// Whether an armed reset has run its full duration at `now`.
pub open spec fn reset_due(m: SimonModel, now: u64) -> bool {
    m.armed && m.reset_start <= now && now - m.reset_start >= RESET_DURATION
}

/// One tick of the memory game at `now`: a due reset wipes the sequence,
/// then a due hint shows the next expected button.  Returns the new state,
/// the feedback, and whether the saved sequence must be deleted.
pub open spec fn tick_model(m: SimonModel, now: u64) -> (SimonModel, Seq<InputReaction>, bool) {
    let due = reset_due(m, now);
    let m1 = if due {
        SimonModel { sequence: Seq::empty(), index: 0, armed: false, ..m }
    } else {
        m
    };
    match m1.cheat {
        CheatState::ShowNextPlay(sh) => if m1.index < m1.sequence.len() && sh.next_play <= now {
            (
                SimonModel {
                    cheat: CheatState::ShowNextPlay(
                        ShowNextPlay {
                            next_play: capped_add(now, sh.delta_between_displays),
                            delta_between_displays: sh.delta_between_displays,
                        },
                    ),
                    ..m1
                },
                seq![InputReaction { key: m1.sequence[m1.index], feedback: FeedbackType::Cheat }],
                due,
            )
        } else {
            (m1, Seq::empty(), due)
        },
        CheatState::Disabled => (m1, Seq::empty(), due),
    }
}

/// A completed reset empties the game, and does so again when the reset is
/// armed and completed once more: after the first, the sequence is empty,
/// the cursor is 0, the reset is disarmed and the saved copy is to be
/// deleted; after re-arming at `t_arm` and completing at `now2`, the
/// sequence is again empty and the cursor 0.
pub proof fn lemma_reset_clears(m: SimonModel, now: u64, t_arm: u64, now2: u64)
    requires
        m.armed,
        m.reset_start <= now,
        now - m.reset_start >= RESET_DURATION,
        t_arm <= now2,
        now2 - t_arm >= RESET_DURATION,
    ensures
        ({
            let (m1, _f1, wipe1) = tick_model(m, now);
            let arm = ArcadeInputEvent { arcade_input: ArcadeInput::ButtonFront2, pressed: true };
            let (m2, _f2, _exit) = input_model(m1, arm, t_arm);
            let (m3, _f3, wipe3) = tick_model(m2, now2);
            &&& m1.sequence == Seq::<ArcadeInput>::empty()
            &&& m1.index == 0
            &&& !m1.armed
            &&& wipe1
            &&& m2.armed
            &&& m3.sequence == Seq::<ArcadeInput>::empty()
            &&& m3.index == 0
            &&& !m3.armed
            &&& wipe3
        }),
{
}

/// Pressing the hint toggle twice returns to silent mode.
pub proof fn lemma_toggle_twice(m: SimonModel, t1: u64, t2: u64)
    requires
        m.cheat == CheatState::Disabled,
    ensures
        ({
            let ev = ArcadeInputEvent { arcade_input: ArcadeInput::ButtonRightSide, pressed: true };
            let (m1, _f1, _e1) = input_model(m, ev, t1);
            let (m2, _f2, _e2) = input_model(m1, ev, t2);
            &&& m1.cheat != CheatState::Disabled
            &&& m2.cheat == CheatState::Disabled
            &&& m2.sequence == m.sequence
            &&& m2.index == m.index
        }),
{
}

impl SimonGame {
    /// Handles one cabinet event of the memory game at `now` (see
    /// `input_model`).
    pub fn handle_input(&mut self, ev: ArcadeInputEvent, now: u64) -> (r: SimonStep)
        requires
            old(self).wf(),
        ensures
            final(self).wf(),
            ({
                let (m, f, exit) = input_model(old(self)@, ev, now);
                &&& final(self)@ == m
                &&& r.reactions@ == f
                &&& r.save_and_exit == exit
            }),
    {
        let k = ev.arcade_input;
        let mut reactions: Vec<InputReaction> = Vec::new();
        if !ev.pressed {
            if k == ArcadeInput::ButtonFront2 {
                self.reset = ResetState(false);
                self.reset_timer.active = false;
            }
            return SimonStep { reactions, save_and_exit: false };
        }
        if k == ArcadeInput::ButtonFront1 {
            reactions.push(InputReaction { key: k, feedback: FeedbackType::Fun });
            proof {
                assert(reactions@ =~= seq![InputReaction { key: k, feedback: FeedbackType::Fun }]);
            }
            return SimonStep { reactions, save_and_exit: false };
        }
        if k == ArcadeInput::ButtonLeftSide {
            reactions.push(InputReaction { key: k, feedback: FeedbackType::Menu });
            proof {
                assert(reactions@ =~= seq![InputReaction { key: k, feedback: FeedbackType::Menu }]);
            }
            return SimonStep { reactions, save_and_exit: true };
        }
        if k == ArcadeInput::ButtonFront2 {
            if self.reset.0 {
                reactions.push(InputReaction { key: k, feedback: FeedbackType::Cheat });
                proof {
                    assert(reactions@ =~= seq![InputReaction { key: k, feedback: FeedbackType::Cheat }]);
                }
                return SimonStep { reactions, save_and_exit: false };
            }
            self.reset = ResetState(true);
            self.reset_timer.active = true;
            self.reset_timer.start_time = now;
            reactions.push(InputReaction { key: k, feedback: FeedbackType::Menu });
            proof {
                assert(reactions@ =~= seq![InputReaction { key: k, feedback: FeedbackType::Menu }]);
            }
            return SimonStep { reactions, save_and_exit: false };
        }
        if k == ArcadeInput::ButtonRightSide {
            self.cheat = match self.cheat {
                CheatState::Disabled => CheatState::ShowNextPlay(
                    ShowNextPlay { next_play: now, delta_between_displays: HINT_INTERVAL },
                ),
                CheatState::ShowNextPlay(_) => CheatState::Disabled,
            };
            reactions.push(InputReaction { key: k, feedback: FeedbackType::Menu });
            proof {
                assert(reactions@ =~= seq![InputReaction { key: k, feedback: FeedbackType::Menu }]);
            }
            return SimonStep { reactions, save_and_exit: false };
        }
        self.cheat = match self.cheat {
            CheatState::Disabled => CheatState::Disabled,
            CheatState::ShowNextPlay(sh) => CheatState::ShowNextPlay(
                ShowNextPlay {
                    next_play: add_capped(now, HINT_DELAY_AFTER_INPUT),
                    delta_between_displays: sh.delta_between_displays,
                },
            ),
        };
        let reactions = self.validate_input(k);
        SimonStep { reactions, save_and_exit: false }
    }

    /// Advances the memory game to `now` (see `tick_model`).
    pub fn tick(&mut self, now: u64) -> (r: SimonTick)
        requires
            old(self).wf(),
        ensures
            final(self).wf(),
            ({
                let (m, f, wipe) = tick_model(old(self)@, now);
                &&& final(self)@ == m
                &&& r.reactions@ == f
                &&& r.wipe_saved == wipe
            }),
    {
        let mut reactions: Vec<InputReaction> = Vec::new();
        let due = self.reset_timer.is_complete(now);
        if due {
            self.sequence = UserSequence { sequence: Vec::new() };
            self.progress = UserProgress { index: 0 };
            self.reset = ResetState(false);
            self.reset_timer.active = false;
        }
        if let CheatState::ShowNextPlay(sh) = self.cheat {
            if self.progress.index < self.sequence.sequence.len() && sh.next_play <= now {
                let key = self.sequence.sequence[self.progress.index];
                reactions.push(InputReaction { key, feedback: FeedbackType::Cheat });
                self.cheat = CheatState::ShowNextPlay(
                    ShowNextPlay {
                        next_play: add_capped(now, sh.delta_between_displays),
                        delta_between_displays: sh.delta_between_displays,
                    },
                );
                proof {
                    assert(reactions@ =~= seq![InputReaction { key, feedback: FeedbackType::Cheat }]);
                }
            }
        }
        SimonTick { reactions, wipe_saved: due }
    }
}

} // verus!
