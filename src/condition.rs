use vstd::prelude::*;
use vstd::string::StringSliceAdditionalSpecFns;
use crate::error::ConfigError;

verus! {

/// Number of distinct condition values.
pub const CONDITION_COUNT: usize = 29;

/// One boolean flag that an item's activation rules can ask about.
///
/// The first sixteen variants are the buttons, in the order of the bits of a
/// controller's button mask.
#[derive(Debug, Clone, Copy, PartialEq, Eq, Structural)]
pub enum ConditionValue {
    ButtonA,
    ButtonB,
    ButtonX,
    ButtonY,
    ButtonStickLeft,
    ButtonStickRight,
    ButtonL,
    ButtonR,
    ButtonZL,
    ButtonZR,
    ButtonPlus,
    ButtonMinus,
    ButtonDpadLeft,
    ButtonDpadUp,
    ButtonDpadRight,
    ButtonDpadDown,
    ButtonCapture,
    ButtonHome,
    StickLeftActive,
    StickRightActive,
    Connected,
    Connected0,
    Connected1,
    Connected2,
    Connected3,
    Connected4,
    Connected5,
    Connected6,
    Connected7,
}

/// The name under which a condition value is written in a configuration.
pub open spec fn name_of(v: ConditionValue) -> &'static str {
    match v {
        ConditionValue::ButtonA => "ButtonA",
        ConditionValue::ButtonB => "ButtonB",
        ConditionValue::ButtonX => "ButtonX",
        ConditionValue::ButtonY => "ButtonY",
        ConditionValue::ButtonStickLeft => "ButtonStickLeft",
        ConditionValue::ButtonStickRight => "ButtonStickRight",
        ConditionValue::ButtonL => "ButtonL",
        ConditionValue::ButtonR => "ButtonR",
        ConditionValue::ButtonZL => "ButtonZL",
        ConditionValue::ButtonZR => "ButtonZR",
        ConditionValue::ButtonPlus => "ButtonPlus",
        ConditionValue::ButtonMinus => "ButtonMinus",
        ConditionValue::ButtonDpadLeft => "ButtonDpadLeft",
        ConditionValue::ButtonDpadUp => "ButtonDpadUp",
        ConditionValue::ButtonDpadRight => "ButtonDpadRight",
        ConditionValue::ButtonDpadDown => "ButtonDpadDown",
        ConditionValue::ButtonCapture => "ButtonCapture",
        ConditionValue::ButtonHome => "ButtonHome",
        ConditionValue::StickLeftActive => "StickLeftActive",
        ConditionValue::StickRightActive => "StickRightActive",
        ConditionValue::Connected => "Connected",
        ConditionValue::Connected0 => "Connected0",
        ConditionValue::Connected1 => "Connected1",
        ConditionValue::Connected2 => "Connected2",
        ConditionValue::Connected3 => "Connected3",
        ConditionValue::Connected4 => "Connected4",
        ConditionValue::Connected5 => "Connected5",
        ConditionValue::Connected6 => "Connected6",
        ConditionValue::Connected7 => "Connected7",
    }
}

/// The condition value at position `i` of the fixed ordering of all values.
pub open spec fn value_at(i: int) -> ConditionValue {
    if i == 0 {
        ConditionValue::ButtonA
    } else if i == 1 {
        ConditionValue::ButtonB
    } else if i == 2 {
        ConditionValue::ButtonX
    } else if i == 3 {
        ConditionValue::ButtonY
    } else if i == 4 {
        ConditionValue::ButtonStickLeft
    } else if i == 5 {
        ConditionValue::ButtonStickRight
    } else if i == 6 {
        ConditionValue::ButtonL
    } else if i == 7 {
        ConditionValue::ButtonR
    } else if i == 8 {
        ConditionValue::ButtonZL
    } else if i == 9 {
        ConditionValue::ButtonZR
    } else if i == 10 {
        ConditionValue::ButtonPlus
    } else if i == 11 {
        ConditionValue::ButtonMinus
    } else if i == 12 {
        ConditionValue::ButtonDpadLeft
    } else if i == 13 {
        ConditionValue::ButtonDpadUp
    } else if i == 14 {
        ConditionValue::ButtonDpadRight
    } else if i == 15 {
        ConditionValue::ButtonDpadDown
    } else if i == 16 {
        ConditionValue::ButtonCapture
    } else if i == 17 {
        ConditionValue::ButtonHome
    } else if i == 18 {
        ConditionValue::StickLeftActive
    } else if i == 19 {
        ConditionValue::StickRightActive
    } else if i == 20 {
        ConditionValue::Connected
    } else if i == 21 {
        ConditionValue::Connected0
    } else if i == 22 {
        ConditionValue::Connected1
    } else if i == 23 {
        ConditionValue::Connected2
    } else if i == 24 {
        ConditionValue::Connected3
    } else if i == 25 {
        ConditionValue::Connected4
    } else if i == 26 {
        ConditionValue::Connected5
    } else if i == 27 {
        ConditionValue::Connected6
    } else {
        ConditionValue::Connected7
    }
}

/// The position of a condition value in the fixed ordering of all values.
pub open spec fn index_of(v: ConditionValue) -> int {
    match v {
        ConditionValue::ButtonA => 0,
        ConditionValue::ButtonB => 1,
        ConditionValue::ButtonX => 2,
        ConditionValue::ButtonY => 3,
        ConditionValue::ButtonStickLeft => 4,
        ConditionValue::ButtonStickRight => 5,
        ConditionValue::ButtonL => 6,
        ConditionValue::ButtonR => 7,
        ConditionValue::ButtonZL => 8,
        ConditionValue::ButtonZR => 9,
        ConditionValue::ButtonPlus => 10,
        ConditionValue::ButtonMinus => 11,
        ConditionValue::ButtonDpadLeft => 12,
        ConditionValue::ButtonDpadUp => 13,
        ConditionValue::ButtonDpadRight => 14,
        ConditionValue::ButtonDpadDown => 15,
        ConditionValue::ButtonCapture => 16,
        ConditionValue::ButtonHome => 17,
        ConditionValue::StickLeftActive => 18,
        ConditionValue::StickRightActive => 19,
        ConditionValue::Connected => 20,
        ConditionValue::Connected0 => 21,
        ConditionValue::Connected1 => 22,
        ConditionValue::Connected2 => 23,
        ConditionValue::Connected3 => 24,
        ConditionValue::Connected4 => 25,
        ConditionValue::Connected5 => 26,
        ConditionValue::Connected6 => 27,
        ConditionValue::Connected7 => 28,
    }
}

/// Every value sits at its own position of the ordering.
pub proof fn lemma_index_of(v: ConditionValue)
    ensures
        0 <= index_of(v) < CONDITION_COUNT,
        value_at(index_of(v)) == v,
{
}

/// Every position of the ordering holds the value that has that position.
pub proof fn lemma_value_at(i: int)
    requires
        0 <= i < CONDITION_COUNT,
    ensures
        index_of(value_at(i)) == i,
{
}

/// A sequence with one more element contains exactly what it contained
/// before, and that element.
pub proof fn lemma_push_contains<A>(s: Seq<A>, a: A, x: A)
    ensures
        s.push(a).contains(x) == (s.contains(x) || x == a),
{
    if s.contains(x) {
        let i = choose|i: int| 0 <= i < s.len() && s[i] == x;
        assert(s.push(a)[i] == x);
    }
    if x == a {
        assert(s.push(a)[s.len() as int] == a);
    }
    if s.push(a).contains(x) && x != a {
        let i = choose|i: int| 0 <= i < s.len() + 1 && s.push(a)[i] == x;
        assert(s[i] == x);
    }
}

impl ConditionValue {
    /// The name of this value in a configuration.
    pub fn name(&self) -> (r: &'static str)
        ensures
            r == name_of(*self),
    {
        match self {
            ConditionValue::ButtonA => "ButtonA",
            ConditionValue::ButtonB => "ButtonB",
            ConditionValue::ButtonX => "ButtonX",
            ConditionValue::ButtonY => "ButtonY",
            ConditionValue::ButtonStickLeft => "ButtonStickLeft",
            ConditionValue::ButtonStickRight => "ButtonStickRight",
            ConditionValue::ButtonL => "ButtonL",
            ConditionValue::ButtonR => "ButtonR",
            ConditionValue::ButtonZL => "ButtonZL",
            ConditionValue::ButtonZR => "ButtonZR",
            ConditionValue::ButtonPlus => "ButtonPlus",
            ConditionValue::ButtonMinus => "ButtonMinus",
            ConditionValue::ButtonDpadLeft => "ButtonDpadLeft",
            ConditionValue::ButtonDpadUp => "ButtonDpadUp",
            ConditionValue::ButtonDpadRight => "ButtonDpadRight",
            ConditionValue::ButtonDpadDown => "ButtonDpadDown",
            ConditionValue::ButtonCapture => "ButtonCapture",
            ConditionValue::ButtonHome => "ButtonHome",
            ConditionValue::StickLeftActive => "StickLeftActive",
            ConditionValue::StickRightActive => "StickRightActive",
            ConditionValue::Connected => "Connected",
            ConditionValue::Connected0 => "Connected0",
            ConditionValue::Connected1 => "Connected1",
            ConditionValue::Connected2 => "Connected2",
            ConditionValue::Connected3 => "Connected3",
            ConditionValue::Connected4 => "Connected4",
            ConditionValue::Connected5 => "Connected5",
            ConditionValue::Connected6 => "Connected6",
            ConditionValue::Connected7 => "Connected7",
        }
    }

    /// The value at position `i` of the fixed ordering.
    pub fn at(i: usize) -> (r: ConditionValue)
        requires
            i < CONDITION_COUNT,
        ensures
            r == value_at(i as int),
    {
        match i {
            0 => ConditionValue::ButtonA,
            1 => ConditionValue::ButtonB,
            2 => ConditionValue::ButtonX,
            3 => ConditionValue::ButtonY,
            4 => ConditionValue::ButtonStickLeft,
            5 => ConditionValue::ButtonStickRight,
            6 => ConditionValue::ButtonL,
            7 => ConditionValue::ButtonR,
            8 => ConditionValue::ButtonZL,
            9 => ConditionValue::ButtonZR,
            10 => ConditionValue::ButtonPlus,
            11 => ConditionValue::ButtonMinus,
            12 => ConditionValue::ButtonDpadLeft,
            13 => ConditionValue::ButtonDpadUp,
            14 => ConditionValue::ButtonDpadRight,
            15 => ConditionValue::ButtonDpadDown,
            16 => ConditionValue::ButtonCapture,
            17 => ConditionValue::ButtonHome,
            18 => ConditionValue::StickLeftActive,
            19 => ConditionValue::StickRightActive,
            20 => ConditionValue::Connected,
            21 => ConditionValue::Connected0,
            22 => ConditionValue::Connected1,
            23 => ConditionValue::Connected2,
            24 => ConditionValue::Connected3,
            25 => ConditionValue::Connected4,
            26 => ConditionValue::Connected5,
            27 => ConditionValue::Connected6,
            _ => ConditionValue::Connected7,
        }
    }
}

} // verus!

verus! {

/// Whether `text[start..]` is exactly `name`.
pub fn tail_equals(text: &[u8], start: usize, name: &[u8]) -> (r: bool)
    requires
        start <= text@.len(),
    ensures
        r == (text@.subrange(start as int, text@.len() as int) == name@),
{
    if text.len() - start != name.len() {
        return false;
    }
    let mut i: usize = 0;
    while i < name.len()
        invariant
            start + name.len() == text.len(),
            i <= name@.len(),
            forall|j: int| 0 <= j < i ==> text@[start + j] == name@[j],
        decreases name.len() - i,
    {
        if text[start + i] != name[i] {
            assert(text@.subrange(start as int, text@.len() as int)[i as int] != name@[i as int]);
            return false;
        }
        i += 1;
    }
    assert(text@.subrange(start as int, text@.len() as int) =~= name@);
    true
}

/// The value whose name is `text[start..]`, if there is one.
fn value_named(text: &[u8], start: usize) -> (r: Option<ConditionValue>)
    requires
        start <= text@.len(),
    ensures
        match r {
            Some(v) => name_of(v).spec_bytes() == text@.subrange(start as int, text@.len() as int),
            None => forall|v: ConditionValue|
                name_of(v).spec_bytes() != text@.subrange(start as int, text@.len() as int),
        },
{
    let mut i: usize = 0;
    while i < CONDITION_COUNT
        invariant
            start <= text@.len(),
            forall|j: int|
                0 <= j < i ==> name_of(value_at(j)).spec_bytes() != text@.subrange(
                    start as int,
                    text@.len() as int,
                ),
        decreases CONDITION_COUNT - i,
    {
        let v = ConditionValue::at(i);
        if tail_equals(text, start, v.name().as_bytes()) {
            return Some(v);
        }
        i += 1;
    }
    assert forall|v: ConditionValue|
        name_of(v).spec_bytes() != text@.subrange(start as int, text@.len() as int) by {
        lemma_index_of(v);
    }
    None
}

impl ConditionValue {
    /// The value whose name is `s`, if there is one.
    pub fn from_name(s: &str) -> (r: Option<ConditionValue>)
        ensures
            match r {
                Some(v) => name_of(v).spec_bytes() == s.spec_bytes(),
                None => forall|v: ConditionValue| name_of(v).spec_bytes() != s.spec_bytes(),
            },
    {
        let b = s.as_bytes();
        assert(b@.subrange(0, b@.len() as int) =~= b@);
        value_named(b, 0)
    }
}

/// One activation rule of an item: the value must be present, or, when `not`
/// is set, absent.
#[derive(Debug, Clone, Copy, PartialEq, Eq, Structural)]
pub struct Condition {
    pub not: bool,
    pub value: ConditionValue,
}

/// Whether the written form of a condition starts with the negation mark `!`.
pub open spec fn is_negated_text(b: Seq<u8>) -> bool {
    b.len() > 0 && b[0] == 33u8
}

/// The written form of a condition without its negation mark.
pub open spec fn value_text(b: Seq<u8>) -> Seq<u8> {
    if is_negated_text(b) {
        b.subrange(1, b.len() as int)
    } else {
        b
    }
}

impl Condition {
    /// Reads a condition written as a value name, optionally preceded by `!`.
    pub fn parse(s: &str) -> (r: Result<Condition, ConfigError>)
        ensures
            match r {
                Ok(c) => c.not == is_negated_text(s.spec_bytes()) && name_of(c.value).spec_bytes()
                    == value_text(s.spec_bytes()),
                Err(e) => e == ConfigError::UnknownCondition && forall|v: ConditionValue|
                    name_of(v).spec_bytes() != value_text(s.spec_bytes()),
            },
    {
        let b = s.as_bytes();
        let not = b.len() > 0 && b[0] == 33u8;
        let start: usize = if not { 1 } else { 0 };
        assert(b@.subrange(0, b@.len() as int) =~= b@);
        match value_named(b, start) {
            Some(value) => Ok(Condition { not, value }),
            None => Err(ConfigError::UnknownCondition),
        }
    }
}

} // verus!
