//! Logical button identities, raw input events and the feedback that the
//! engines hand to the presentation layer.

use vstd::prelude::*;

verus! {

/// A logical button of the arcade cabinet, independent of how it is wired.
#[derive(Clone, Copy, Debug, PartialEq, Eq, Structural, Hash)]
pub enum ArcadeInput {
    JoyUp,
    JoyDown,
    JoyLeft,
    JoyRight,
    JoyButton,
    ButtonTop1,
    ButtonTop2,
    ButtonTop3,
    ButtonTop4,
    ButtonTop5,
    ButtonTop6,
    ButtonLeftSide,
    ButtonRightSide,
    ButtonFront1,
    ButtonFront2,
}

/// A press (`pressed == true`) or release of one logical button.
#[derive(Clone, Copy, Debug, PartialEq, Eq, Structural)]
pub struct ArcadeInputEvent {
    pub arcade_input: ArcadeInput,
    pub pressed: bool,
}

/// The outcome that the presentation layer renders for a button.
#[derive(Clone, Copy, Debug, PartialEq, Eq, Structural)]
pub enum FeedbackType {
    Good,
    Bad,
    Last,
    New,
    Cheat,
    Menu,
    Fun,
}

/// One feedback event: which button to highlight, and how.
#[derive(Clone, Copy, Debug, PartialEq, Eq, Structural)]
pub struct InputReaction {
    pub key: ArcadeInput,
    pub feedback: FeedbackType,
}

/// A position on screen that can receive spawned targets, bound to a button.
#[derive(Clone, Copy, Debug, PartialEq, Eq, Structural)]
pub struct Reactable {
    pub key: ArcadeInput,
}

impl Reactable {
    pub fn new(key: ArcadeInput) -> (r: Self)
        ensures
            r.key == key,
    {
        Reactable { key }
    }
}

impl Default for Reactable {
    fn default() -> (r: Self)
        ensures
            r.key == ArcadeInput::ButtonFront1,
    {
        Reactable { key: ArcadeInput::ButtonFront1 }
    }
}

/// The buttons of the cabinet that are shown on screen, in layout order:
/// the four menu buttons, the stick button, the six top buttons and the four
/// stick directions.
pub open spec fn cabinet_layout() -> Seq<ArcadeInput> {
    seq![
        ArcadeInput::ButtonLeftSide,
        ArcadeInput::ButtonFront1,
        ArcadeInput::ButtonFront2,
        ArcadeInput::ButtonRightSide,
        ArcadeInput::JoyButton,
        ArcadeInput::ButtonTop1,
        ArcadeInput::ButtonTop4,
        ArcadeInput::ButtonTop2,
        ArcadeInput::ButtonTop5,
        ArcadeInput::ButtonTop3,
        ArcadeInput::ButtonTop6,
        ArcadeInput::JoyRight,
        ArcadeInput::JoyLeft,
        ArcadeInput::JoyDown,
        ArcadeInput::JoyUp,
    ]
}

/// One slot per button of the cabinet layout.
pub fn cabinet_reactables() -> (r: Vec<Reactable>)
    ensures
        r@.len() == cabinet_layout().len(),
        forall|i: int| 0 <= i < r@.len() ==> #[trigger] r@[i].key == cabinet_layout()[i],
{
    let r = vec![
        Reactable::new(ArcadeInput::ButtonLeftSide),
        Reactable::new(ArcadeInput::ButtonFront1),
        Reactable::new(ArcadeInput::ButtonFront2),
        Reactable::new(ArcadeInput::ButtonRightSide),
        Reactable::new(ArcadeInput::JoyButton),
        Reactable::new(ArcadeInput::ButtonTop1),
        Reactable::new(ArcadeInput::ButtonTop4),
        Reactable::new(ArcadeInput::ButtonTop2),
        Reactable::new(ArcadeInput::ButtonTop5),
        Reactable::new(ArcadeInput::ButtonTop3),
        Reactable::new(ArcadeInput::ButtonTop6),
        Reactable::new(ArcadeInput::JoyRight),
        Reactable::new(ArcadeInput::JoyLeft),
        Reactable::new(ArcadeInput::JoyDown),
        Reactable::new(ArcadeInput::JoyUp),
    ];
    r
}

/// Keyboard keys of the fallback input that stand in for the cabinet.
#[derive(Clone, Copy, Debug, PartialEq, Eq, Structural, Hash)]
pub enum KeyCode {
    Up,
    Down,
    Left,
    Right,
    RShift,
    Key1,
    Key2,
    Key3,
    Key4,
    Key5,
    Key6,
    LControl,
    RControl,
    LAlt,
    Space,
    Other,
}

/// One keyboard event; `key_code` is `None` for keys without a code.
#[derive(Clone, Copy, Debug, PartialEq, Eq, Structural)]
pub struct KeyboardInput {
    pub key_code: Option<KeyCode>,
    pub pressed: bool,
}

/// A keyboard layout: which cabinet button each key stands for.  Each key
/// appears at most once.
#[derive(Debug)]
pub struct KeyToArcade {
    pub mappings: Vec<(KeyCode, ArcadeInput)>,
}

/// The button bound to `k` in `m`, if any.
pub open spec fn lookup(m: Seq<(KeyCode, ArcadeInput)>, k: KeyCode) -> Option<ArcadeInput>
    decreases m.len(),
{
    if m.len() == 0 {
        None
    } else if m[0].0 == k {
        Some(m[0].1)
    } else {
        lookup(m.drop_first(), k)
    }
}

/// The cabinet layout of the keyboard fallback.
pub open spec fn default_layout() -> Seq<(KeyCode, ArcadeInput)> {
    seq![
        (KeyCode::Up, ArcadeInput::JoyUp),
        (KeyCode::Down, ArcadeInput::JoyDown),
        (KeyCode::Left, ArcadeInput::JoyLeft),
        (KeyCode::Right, ArcadeInput::JoyRight),
        (KeyCode::RShift, ArcadeInput::JoyButton),
        (KeyCode::Key1, ArcadeInput::ButtonTop1),
        (KeyCode::Key2, ArcadeInput::ButtonTop2),
        (KeyCode::Key3, ArcadeInput::ButtonTop3),
        (KeyCode::Key4, ArcadeInput::ButtonTop4),
        (KeyCode::Key5, ArcadeInput::ButtonTop5),
        (KeyCode::Key6, ArcadeInput::ButtonTop6),
        (KeyCode::LControl, ArcadeInput::ButtonLeftSide),
        (KeyCode::RControl, ArcadeInput::ButtonRightSide),
        (KeyCode::LAlt, ArcadeInput::ButtonFront1),
        (KeyCode::Space, ArcadeInput::ButtonFront2),
    ]
}

impl KeyToArcade {
    pub open spec fn wf(&self) -> bool {
        forall|i: int, j: int|
            0 <= i < j < self.mappings@.len() ==> self.mappings@[i].0 != self.mappings@[j].0
    }

    /// The button bound to `k`, if any.
    pub fn get(&self, k: KeyCode) -> (r: Option<ArcadeInput>)
        ensures
            r == lookup(self.mappings@, k),
    {
        let mut i: usize = 0;
        proof {
            assert(self.mappings@.subrange(0, self.mappings@.len() as int) =~= self.mappings@);
        }
        while i < self.mappings.len()
            invariant
                i <= self.mappings@.len(),
                lookup(self.mappings@, k) == lookup(
                    self.mappings@.subrange(i as int, self.mappings@.len() as int),
                    k,
                ),
            decreases self.mappings@.len() - i,
        {
            let (code, input) = self.mappings[i];
            proof {
                let rest = self.mappings@.subrange(i as int, self.mappings@.len() as int);
                assert(rest[0] == self.mappings@[i as int]);
                assert(rest.drop_first() =~= self.mappings@.subrange(i as int + 1, self.mappings@.len() as int));
            }
            if code == k {
                return Some(input);
            }
            i = i + 1;
        }
        None
    }
}

impl Default for KeyToArcade {
    fn default() -> (r: Self)
        ensures
            r.wf(),
            r.mappings@ == default_layout(),
    {
        let r = KeyToArcade {
            mappings: vec![
                (KeyCode::Up, ArcadeInput::JoyUp),
                (KeyCode::Down, ArcadeInput::JoyDown),
                (KeyCode::Left, ArcadeInput::JoyLeft),
                (KeyCode::Right, ArcadeInput::JoyRight),
                (KeyCode::RShift, ArcadeInput::JoyButton),
                (KeyCode::Key1, ArcadeInput::ButtonTop1),
                (KeyCode::Key2, ArcadeInput::ButtonTop2),
                (KeyCode::Key3, ArcadeInput::ButtonTop3),
                (KeyCode::Key4, ArcadeInput::ButtonTop4),
                (KeyCode::Key5, ArcadeInput::ButtonTop5),
                (KeyCode::Key6, ArcadeInput::ButtonTop6),
                (KeyCode::LControl, ArcadeInput::ButtonLeftSide),
                (KeyCode::RControl, ArcadeInput::ButtonRightSide),
                (KeyCode::LAlt, ArcadeInput::ButtonFront1),
                (KeyCode::Space, ArcadeInput::ButtonFront2),
            ],
        };
        proof {
            assert(r.mappings@ =~= default_layout());
        }
        r
    }
}

/// The cabinet event that a keyboard event stands for under layout `m`.
pub open spec fn spec_cabinet_event(m: Seq<(KeyCode, ArcadeInput)>, ev: KeyboardInput) -> Option<ArcadeInputEvent> {
    match ev.key_code {
        Some(k) => match lookup(m, k) {
            Some(a) => Some(ArcadeInputEvent { arcade_input: a, pressed: ev.pressed }),
            None => None,
        },
        None => None,
    }
}

/// The cabinet events of a run of keyboard events, in order; keys without a
/// code or without a binding are skipped.
pub open spec fn spec_cabinet_events(m: Seq<(KeyCode, ArcadeInput)>, evs: Seq<KeyboardInput>) -> Seq<ArcadeInputEvent>
    decreases evs.len(),
{
    if evs.len() == 0 {
        Seq::empty()
    } else {
        let rest = spec_cabinet_events(m, evs.drop_last());
        match spec_cabinet_event(m, evs.last()) {
            Some(a) => rest.push(a),
            None => rest,
        }
    }
}

/// Turns keyboard events into cabinet events through a layout.
pub fn input_system(mappings: &KeyToArcade, key_evr: &Vec<KeyboardInput>) -> (r: Vec<ArcadeInputEvent>)
    ensures
        r@ == spec_cabinet_events(mappings.mappings@, key_evr@),
{
    let mut out: Vec<ArcadeInputEvent> = Vec::new();
    let mut i: usize = 0;
    while i < key_evr.len()
        invariant
            i <= key_evr@.len(),
            out@ == spec_cabinet_events(mappings.mappings@, key_evr@.take(i as int)),
        decreases key_evr@.len() - i,
    {
        let ev = key_evr[i];
        proof {
            assert(key_evr@.take(i as int + 1).drop_last() =~= key_evr@.take(i as int));
        }
        if let Some(k) = ev.key_code {
            if let Some(a) = mappings.get(k) {
                out.push(ArcadeInputEvent { arcade_input: a, pressed: ev.pressed });
            }
        }
        i = i + 1;
    }
    proof {
        assert(key_evr@.take(i as int) =~= key_evr@);
    }
    out
}

} // verus!
