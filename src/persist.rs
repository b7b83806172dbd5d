//! The saved form of a sequence: a JSON array of button names.

use vstd::prelude::*;
use crate::input::ArcadeInput;
use crate::simon::SimonGame;

verus! {

/// The name under which a button is saved.
pub open spec fn spec_name(k: ArcadeInput) -> Seq<char> {
    match k {
        ArcadeInput::JoyUp => "JoyUp"@,
        ArcadeInput::JoyDown => "JoyDown"@,
        ArcadeInput::JoyLeft => "JoyLeft"@,
        ArcadeInput::JoyRight => "JoyRight"@,
        ArcadeInput::JoyButton => "JoyButton"@,
        ArcadeInput::ButtonTop1 => "ButtonTop1"@,
        ArcadeInput::ButtonTop2 => "ButtonTop2"@,
        ArcadeInput::ButtonTop3 => "ButtonTop3"@,
        ArcadeInput::ButtonTop4 => "ButtonTop4"@,
        ArcadeInput::ButtonTop5 => "ButtonTop5"@,
        ArcadeInput::ButtonTop6 => "ButtonTop6"@,
        ArcadeInput::ButtonLeftSide => "ButtonLeftSide"@,
        ArcadeInput::ButtonRightSide => "ButtonRightSide"@,
        ArcadeInput::ButtonFront1 => "ButtonFront1"@,
        ArcadeInput::ButtonFront2 => "ButtonFront2"@,
    }
}

/// The button saved under `n`, if any.
pub open spec fn spec_from_name(n: Seq<char>) -> Option<ArcadeInput> {
    if exists|k: ArcadeInput| spec_name(k) == n {
        Some(choose|k: ArcadeInput| spec_name(k) == n)
    } else {
        None
    }
}

/// Every button has a name of its own.
pub proof fn lemma_names_distinct(a: ArcadeInput, b: ArcadeInput)
    ensures
        spec_name(a) == spec_name(b) ==> a == b,
{
    reveal_strlit("JoyUp");
    reveal_strlit("JoyDown");
    reveal_strlit("JoyLeft");
    reveal_strlit("JoyRight");
    reveal_strlit("JoyButton");
    reveal_strlit("ButtonTop1");
    reveal_strlit("ButtonTop2");
    reveal_strlit("ButtonTop3");
    reveal_strlit("ButtonTop4");
    reveal_strlit("ButtonTop5");
    reveal_strlit("ButtonTop6");
    reveal_strlit("ButtonLeftSide");
    reveal_strlit("ButtonRightSide");
    reveal_strlit("ButtonFront1");
    reveal_strlit("ButtonFront2");
    if spec_name(a) == spec_name(b) {
        let n = spec_name(a);
        if n.len() > 4 {
            assert(spec_name(a)[3] == spec_name(b)[3]);
            assert(spec_name(a)[4] == spec_name(b)[4]);
        }
        if n.len() > 9 {
            assert(spec_name(a)[9] == spec_name(b)[9]);
        }
        if n.len() > 11 {
            assert(spec_name(a)[6] == spec_name(b)[6]);
            assert(spec_name(a)[11] == spec_name(b)[11]);
        }
    }
}

/// Reading a button's name gives the button back.
pub proof fn lemma_name_round_trip(k: ArcadeInput)
    ensures
        spec_from_name(spec_name(k)) == Some(k),
{
    let n = spec_name(k);
    assert(exists|j: ArcadeInput| spec_name(j) == n);
    let c = choose|j: ArcadeInput| spec_name(j) == n;
    lemma_names_distinct(c, k);
}

pub fn input_name(k: ArcadeInput) -> (r: &'static str)
    ensures
        r@ == spec_name(k),
{
    match k {
        ArcadeInput::JoyUp => "JoyUp",
        ArcadeInput::JoyDown => "JoyDown",
        ArcadeInput::JoyLeft => "JoyLeft",
        ArcadeInput::JoyRight => "JoyRight",
        ArcadeInput::JoyButton => "JoyButton",
        ArcadeInput::ButtonTop1 => "ButtonTop1",
        ArcadeInput::ButtonTop2 => "ButtonTop2",
        ArcadeInput::ButtonTop3 => "ButtonTop3",
        ArcadeInput::ButtonTop4 => "ButtonTop4",
        ArcadeInput::ButtonTop5 => "ButtonTop5",
        ArcadeInput::ButtonTop6 => "ButtonTop6",
        ArcadeInput::ButtonLeftSide => "ButtonLeftSide",
        ArcadeInput::ButtonRightSide => "ButtonRightSide",
        ArcadeInput::ButtonFront1 => "ButtonFront1",
        ArcadeInput::ButtonFront2 => "ButtonFront2",
    }
}

/// Every button, in declaration order.
pub fn all_inputs() -> (r: Vec<ArcadeInput>)
    ensures
        r@ == seq![
            ArcadeInput::JoyUp,
            ArcadeInput::JoyDown,
            ArcadeInput::JoyLeft,
            ArcadeInput::JoyRight,
            ArcadeInput::JoyButton,
            ArcadeInput::ButtonTop1,
            ArcadeInput::ButtonTop2,
            ArcadeInput::ButtonTop3,
            ArcadeInput::ButtonTop4,
            ArcadeInput::ButtonTop5,
            ArcadeInput::ButtonTop6,
            ArcadeInput::ButtonLeftSide,
            ArcadeInput::ButtonRightSide,
            ArcadeInput::ButtonFront1,
            ArcadeInput::ButtonFront2,
        ],
        forall|k: ArcadeInput| r@.contains(k),
{
    let r = vec![
        ArcadeInput::JoyUp,
        ArcadeInput::JoyDown,
        ArcadeInput::JoyLeft,
        ArcadeInput::JoyRight,
        ArcadeInput::JoyButton,
        ArcadeInput::ButtonTop1,
        ArcadeInput::ButtonTop2,
        ArcadeInput::ButtonTop3,
        ArcadeInput::ButtonTop4,
        ArcadeInput::ButtonTop5,
        ArcadeInput::ButtonTop6,
        ArcadeInput::ButtonLeftSide,
        ArcadeInput::ButtonRightSide,
        ArcadeInput::ButtonFront1,
        ArcadeInput::ButtonFront2,
    ];
    proof {
        assert forall|k: ArcadeInput| r@.contains(k) by {
            let i: int = match k {
                ArcadeInput::JoyUp => 0,
                ArcadeInput::JoyDown => 1,
                ArcadeInput::JoyLeft => 2,
                ArcadeInput::JoyRight => 3,
                ArcadeInput::JoyButton => 4,
                ArcadeInput::ButtonTop1 => 5,
                ArcadeInput::ButtonTop2 => 6,
                ArcadeInput::ButtonTop3 => 7,
                ArcadeInput::ButtonTop4 => 8,
                ArcadeInput::ButtonTop5 => 9,
                ArcadeInput::ButtonTop6 => 10,
                ArcadeInput::ButtonLeftSide => 11,
                ArcadeInput::ButtonRightSide => 12,
                ArcadeInput::ButtonFront1 => 13,
                ArcadeInput::ButtonFront2 => 14,
            };
            assert(r@[i] == k);
        }
        assert(r@ =~= seq![
            ArcadeInput::JoyUp,
            ArcadeInput::JoyDown,
            ArcadeInput::JoyLeft,
            ArcadeInput::JoyRight,
            ArcadeInput::JoyButton,
            ArcadeInput::ButtonTop1,
            ArcadeInput::ButtonTop2,
            ArcadeInput::ButtonTop3,
            ArcadeInput::ButtonTop4,
            ArcadeInput::ButtonTop5,
            ArcadeInput::ButtonTop6,
            ArcadeInput::ButtonLeftSide,
            ArcadeInput::ButtonRightSide,
            ArcadeInput::ButtonFront1,
            ArcadeInput::ButtonFront2,
        ]);
    }
    r
}

/// The button saved under `n`, if any.
pub fn input_from_name(n: &String) -> (r: Option<ArcadeInput>)
    ensures
        r == spec_from_name(n@),
{
    let all = all_inputs();
    let mut i: usize = 0;
    while i < all.len()
        invariant
            i <= all@.len(),
            forall|k: ArcadeInput| all@.contains(k),
            forall|j: int| 0 <= j < i ==> spec_name(all@[j]) != n@,
        decreases all@.len() - i,
    {
        let k = all[i];
        let name = input_name(k).to_owned();
        if *n == name {
            proof {
                lemma_name_round_trip(k);
            }
            return Some(k);
        }
        i = i + 1;
    }
    proof {
        assert forall|k: ArcadeInput| spec_name(k) != n@ by {
            assert(all@.contains(k));
            let j = choose|j: int| 0 <= j < all@.len() && all@[j] == k;
            assert(spec_name(all@[j]) != n@);
        }
    }
    None
}

/// The names of a list of strings.
pub open spec fn names_view(v: Seq<String>) -> Seq<Seq<char>> {
    v.map_values(|s: String| s@)
}

/// The saved names of a sequence.
pub open spec fn names_of(s: Seq<ArcadeInput>) -> Seq<Seq<char>> {
    s.map_values(|k: ArcadeInput| spec_name(k))
}

/// The sequence saved under a list of names; `None` if one is unknown.
pub open spec fn inputs_of_names(ns: Seq<Seq<char>>) -> Option<Seq<ArcadeInput>>
    decreases ns.len(),
{
    if ns.len() == 0 {
        Some(Seq::empty())
    } else {
        match (inputs_of_names(ns.drop_last()), spec_from_name(ns.last())) {
            (Some(s), Some(k)) => Some(s.push(k)),
            _ => None,
        }
    }
}

/// Naming a sequence and reading the names back gives the same sequence, in
/// the same order.
pub proof fn lemma_names_round_trip(s: Seq<ArcadeInput>)
    ensures
        inputs_of_names(names_of(s)) == Some(s),
    decreases s.len(),
{
    if s.len() > 0 {
        lemma_names_round_trip(s.drop_last());
        assert(names_of(s).drop_last() =~= names_of(s.drop_last()));
        lemma_name_round_trip(s.last());
        assert(s.drop_last().push(s.last()) =~= s);
    } else {
        assert(names_of(s) =~= Seq::<Seq<char>>::empty());
        assert(s =~= Seq::<ArcadeInput>::empty());
    }
}

/// Names each button of a sequence.
pub fn sequence_names(s: &Vec<ArcadeInput>) -> (r: Vec<String>)
    ensures
        names_view(r@) == names_of(s@),
{
    let mut out: Vec<String> = Vec::new();
    let mut i: usize = 0;
    while i < s.len()
        invariant
            i <= s@.len(),
            out@.len() == i,
            names_view(out@) == names_of(s@.take(i as int)),
        decreases s@.len() - i,
    {
        let name = input_name(s[i]).to_owned();
        let ghost before = out@;
        out.push(name);
        proof {
            let a = names_view(out@);
            let b = names_of(s@.take(i as int + 1));
            assert forall|j: int| 0 <= j < a.len() implies a[j] == b[j] by {
                if j < i {
                    assert(out@[j] == before[j]);
                    assert(names_view(before)[j] == names_of(s@.take(i as int))[j]);
                }
            }
            assert(a =~= b);
        }
        i = i + 1;
    }
    proof {
        assert(s@.take(i as int) =~= s@);
    }
    out
}

/// Reads a sequence back from its names; `None` if one is unknown.
pub fn sequence_from_names(ns: &Vec<String>) -> (r: Option<Vec<ArcadeInput>>)
    ensures
        match r {
            Some(v) => inputs_of_names(names_view(ns@)) == Some(v@),
            None => inputs_of_names(names_view(ns@)) is None,
        },
{
    let mut out: Vec<ArcadeInput> = Vec::new();
    let mut i: usize = 0;
    while i < ns.len()
        invariant
            i <= ns@.len(),
            inputs_of_names(names_view(ns@.take(i as int))) == Some(out@),
        decreases ns@.len() - i,
    {
        proof {
            assert(names_view(ns@.take(i as int + 1)).drop_last() =~= names_view(ns@.take(i as int)));
            assert(names_view(ns@.take(i as int + 1)).last() == ns@[i as int]@);
        }
        match input_from_name(&ns[i]) {
            Some(k) => {
                out.push(k);
            },
            None => {
                proof {
                    lemma_unknown_name_spoils(ns@, i as int + 1);
                }
                return None;
            },
        }
        i = i + 1;
    }
    proof {
        assert(ns@.take(i as int) =~= ns@);
    }
    Some(out)
}

/// One unknown name among the first `n` spoils the whole list.
proof fn lemma_unknown_name_spoils(ns: Seq<String>, n: int)
    requires
        0 < n <= ns.len(),
        inputs_of_names(names_view(ns.take(n))) is None,
    ensures
        inputs_of_names(names_view(ns)) is None,
    decreases ns.len() - n,
{
    if n < ns.len() {
        assert(names_view(ns.take(n + 1)).drop_last() =~= names_view(ns.take(n)));
        lemma_unknown_name_spoils(ns, n + 1);
    } else {
        assert(ns.take(n) =~= ns);
    }
}


/// serde_json's error type, carried without looking inside.
#[verifier::external_type_specification]
#[verifier::external_body]
pub struct ExJsonError(serde_json::Error);

/// The JSON text that serde_json writes for a list of strings.
pub uninterp spec fn json_of_names(names: Seq<Seq<char>>) -> Seq<char>;

/// A string that JSON writes as it is: no quote, backslash or control
/// character.
pub open spec fn plain(s: Seq<char>) -> bool {
    forall|i: int| 0 <= i < s.len() ==> s[i] != '"' && s[i] != '\\' && s[i] as u32 >= 0x20
}

/// The items of a JSON array of plain strings, each quoted, separated by commas.
pub open spec fn quoted_items(ns: Seq<Seq<char>>) -> Seq<char>
    decreases ns.len(),
{
    if ns.len() == 0 {
        Seq::empty()
    } else if ns.len() == 1 {
        seq!['"'] + ns[0] + seq!['"']
    } else {
        quoted_items(ns.drop_last()) + seq![','] + seq!['"'] + ns.last() + seq!['"']
    }
}

/// The compact JSON array of plain strings.
pub open spec fn json_array(ns: Seq<Seq<char>>) -> Seq<char> {
    seq!['['] + quoted_items(ns) + seq![']']
}

/// The list of strings that serde_json reads from a JSON text, or `None`
/// where it reports an error.
pub uninterp spec fn names_of_json(text: Seq<char>) -> Option<Seq<Seq<char>>>;

/// Relies on serde_json::to_string on a `Vec<String>`: writing strings into
/// a byte buffer does not fail; the text depends on the strings alone and is
/// `[`, the quoted strings joined by `,`, then `]`, with no escape needed when
/// every string is plain.
#[verifier::external_body]
fn names_to_json(names: &Vec<String>) -> (r: Result<String, serde_json::Error>)
    ensures
        r is Ok,
        r is Ok ==> r->Ok_0@ == json_of_names(names_view(names@)),
        r is Ok && (forall|i: int| 0 <= i < names@.len() ==> plain(#[trigger] names@[i]@)) ==> r->Ok_0@
            == json_array(names_view(names@)),
{
    serde_json::to_string(names)
}

/// Relies on serde_json::from_str read as a `Vec<String>`: the strings of
/// a JSON array, which depend on the text alone; a compact array of plain
/// strings reads back as those strings, unescaped characters being taken as
/// they are.
#[verifier::external_body]
fn json_to_names(text: &str) -> (r: Result<Vec<String>, serde_json::Error>)
    ensures
        match r {
            Ok(v) => names_of_json(text@) == Some(names_view(v@)),
            Err(_) => names_of_json(text@) is None,
        },
        forall|ns: Seq<Seq<char>>|
            (forall|i: int| 0 <= i < ns.len() ==> plain(#[trigger] ns[i])) && text@ == #[trigger] json_array(ns)
                ==> r is Ok && names_view(r->Ok_0@) == ns,
{
    serde_json::from_str(text)
}

/// Why a sequence could not be saved or read back.
#[derive(Clone, Copy, Debug, PartialEq, Eq, Structural)]
pub enum PersistError {
    /// The JSON layer refused the text.
    Json,
    /// A name in the list is no button's name.
    UnknownButton,
}

/// The saved text of a sequence: a compact JSON array of button names.
pub open spec fn spec_encode(s: Seq<ArcadeInput>) -> Seq<char> {
    json_array(names_of(s))
}

/// Button names are written as they are.
pub proof fn lemma_names_plain(k: ArcadeInput)
    ensures
        plain(spec_name(k)),
{
    reveal_strlit("JoyUp");
    reveal_strlit("JoyDown");
    reveal_strlit("JoyLeft");
    reveal_strlit("JoyRight");
    reveal_strlit("JoyButton");
    reveal_strlit("ButtonTop1");
    reveal_strlit("ButtonTop2");
    reveal_strlit("ButtonTop3");
    reveal_strlit("ButtonTop4");
    reveal_strlit("ButtonTop5");
    reveal_strlit("ButtonTop6");
    reveal_strlit("ButtonLeftSide");
    reveal_strlit("ButtonRightSide");
    reveal_strlit("ButtonFront1");
    reveal_strlit("ButtonFront2");
}

/// The sequence read back from a saved text.
pub open spec fn spec_decode(text: Seq<char>) -> Result<Seq<ArcadeInput>, PersistError> {
    match names_of_json(text) {
        Some(ns) => match inputs_of_names(ns) {
            Some(s) => Ok(s),
            None => Err(PersistError::UnknownButton),
        },
        None => Err(PersistError::Json),
    }
}

/// The names of a sequence are all plain.
proof fn lemma_names_of_plain(s: Seq<ArcadeInput>)
    ensures
        forall|i: int| 0 <= i < names_of(s).len() ==> plain(#[trigger] names_of(s)[i]),
{
    assert forall|i: int| 0 <= i < names_of(s).len() implies plain(#[trigger] names_of(s)[i]) by {
        lemma_names_plain(s[i]);
    }
}

/// Writes a sequence as a JSON array of button names.
pub fn encode_sequence(s: &Vec<ArcadeInput>) -> (r: String)
    ensures
        r@ == spec_encode(s@),
{
    let names = sequence_names(s);
    proof {
        assert forall|i: int| 0 <= i < names@.len() implies plain(#[trigger] names@[i]@) by {
            assert(names_view(names@).len() == names@.len());
            assert(names_view(names@)[i] == names@[i]@);
            assert(names_of(s@)[i] == spec_name(s@[i]));
            lemma_names_plain(s@[i]);
        }
    }
    match names_to_json(&names) {
        Ok(t) => t,
        Err(_) => String::new(),
    }
}

/// Reads a sequence from a JSON array of button names.
pub fn decode_sequence(text: &str) -> (r: Result<Vec<ArcadeInput>, PersistError>)
    ensures
        match r {
            Ok(v) => spec_decode(text@) == Ok::<Seq<ArcadeInput>, PersistError>(v@),
            Err(e) => spec_decode(text@) == Err::<Seq<ArcadeInput>, PersistError>(e),
        },
        forall|s: Seq<ArcadeInput>| text@ == #[trigger] spec_encode(s) ==> r is Ok && r->Ok_0@ == s,
{
    let parsed = json_to_names(text);
    proof {
        assert forall|s: Seq<ArcadeInput>| text@ == #[trigger] spec_encode(s) implies parsed is Ok && names_view(
            parsed->Ok_0@,
        ) == names_of(s) && inputs_of_names(names_of(s)) == Some(s) by {
            lemma_names_of_plain(s);
            lemma_names_round_trip(s);
        }
    }
    match parsed {
        Ok(names) => match sequence_from_names(&names) {
            Some(v) => Ok(v),
            None => Err(PersistError::UnknownButton),
        },
        Err(_) => Err(PersistError::Json),
    }
}

impl SimonGame {
    /// The text to save: the recorded sequence as a JSON array of names.
    pub fn save_text(&self) -> (r: String)
        ensures
            r@ == spec_encode(self@.sequence),
    {
        encode_sequence(&self.sequence.sequence)
    }

    /// A game resuming the sequence saved in `text`; a text that cannot be
    /// read gives an empty game.
    pub fn load(text: &str) -> (r: SimonGame)
        ensures
            r.wf(),
            r@.index == 0,
            !r@.armed,
            r@.sequence == match spec_decode(text@) {
                Ok(s) => s,
                Err(_) => Seq::<ArcadeInput>::empty(),
            },
            forall|s: Seq<ArcadeInput>| text@ == #[trigger] spec_encode(s) ==> r@.sequence == s,
    {
        match decode_sequence(text) {
            Ok(v) => SimonGame::with_sequence(v),
            Err(_) => SimonGame::new(),
        }
    }
}

} // verus!
