use vstd::prelude::*;
use crate::condition::{
    ConditionValue,
    value_at,
    index_of,
    lemma_index_of,
    lemma_value_at,
    lemma_push_contains,
};

verus! {

/// Position of `Connected0` in the ordering of condition values; the flags
/// of ids 1 to 7 follow it.
pub const FIRST_ID_FLAG: usize = 21;

/// Number of buttons that a button mask can report.
pub const BUTTON_COUNT: u32 = 16;

/// One reading of one controller. The stick readings are carried as given and
/// never inspected here.
#[derive(Debug, Clone)]
pub struct ControllerState<S> {
    pub id: u8,
    /// `1` when the controller is connected.
    pub connection: u8,
    /// Bit `i` is set while the `i`-th button is held.
    pub buttons: u32,
    pub left_stick: S,
    pub right_stick: S,
}

/// Which stick drives an item's displacement.
#[derive(Debug, Clone, Copy, PartialEq, Eq, Structural)]
pub enum StickSide {
    Left,
    Right,
}

/// Whether bit `i` of `mask` is set.
pub open spec fn bit_set(mask: u32, i: u32) -> bool {
    mask & (1u32 << i) != 0
}

/// Whether `v` holds for one controller: the generic connection flag, and
/// each button whose bit among the low sixteen of the mask is set.
pub open spec fn controller_flag<S>(state: ControllerState<S>, v: ConditionValue) -> bool {
    (v == ConditionValue::Connected && state.connection == 1) || (0 <= index_of(v) < BUTTON_COUNT
        && bit_set(state.buttons, index_of(v) as u32))
}

/// The per-id connection flag for a controller id, for ids `0` to `7`.
pub open spec fn connected_flag(id: u8) -> Option<ConditionValue> {
    if id < 8 {
        Some(value_at(index_of(ConditionValue::Connected0) + id))
    } else {
        None
    }
}

/// Whether `v` holds across all controllers: the per-id connection flag of
/// each connected controller.
pub open spec fn global_flag<S>(states: Seq<ControllerState<S>>, v: ConditionValue) -> bool {
    exists|k: int|
        0 <= k < states.len() && (#[trigger] states[k]).connection == 1 && connected_flag(
            states[k].id,
        ) == Some(v)
}

impl<S> ControllerState<S> {
    /// The reading of the given stick.
    pub fn stick(&self, side: StickSide) -> (r: &S)
        ensures
            side == StickSide::Left ==> r == &self.left_stick,
            side == StickSide::Right ==> r == &self.right_stick,
    {
        match side {
            StickSide::Left => &self.left_stick,
            StickSide::Right => &self.right_stick,
        }
    }

    /// The condition values that hold for this controller.
    pub fn active_set(&self) -> (r: Vec<ConditionValue>)
        ensures
            forall|v: ConditionValue| r@.contains(v) == controller_flag(*self, v),
    {
        let mut r: Vec<ConditionValue> = Vec::new();
        if self.connection == 1 {
            r.push(ConditionValue::Connected);
            proof {
                assert forall|x: ConditionValue| r@.contains(x) == (x == ConditionValue::Connected) by {
                    lemma_push_contains(Seq::<ConditionValue>::empty(), ConditionValue::Connected, x);
                }
            }
        }
        let mut bit: u32 = 0;
        while bit < BUTTON_COUNT
            invariant
                bit <= BUTTON_COUNT,
                forall|v: ConditionValue|
                    r@.contains(v) == ((v == ConditionValue::Connected && self.connection == 1) || (
                    0 <= index_of(v) < bit && bit_set(self.buttons, index_of(v) as u32))),
            decreases BUTTON_COUNT - bit,
        {
            let ghost before = r@;
            let set = self.buttons & (1u32 << bit) != 0;
            if set {
                let v = ConditionValue::at(bit as usize);
                r.push(v);
            }
            assert forall|v: ConditionValue|
                r@.contains(v) == ((v == ConditionValue::Connected && self.connection == 1) || (0
                    <= index_of(v) < bit + 1 && bit_set(self.buttons, index_of(v) as u32))) by {
                lemma_index_of(v);
                lemma_value_at(bit as int);
                if set {
                    lemma_push_contains(before, value_at(bit as int), v);
                }
            }
            bit += 1;
        }
        r
    }
}

/// The per-id connection flag for a controller id, for ids `0` to `7`.
pub fn connected_flag_of(id: u8) -> (r: Option<ConditionValue>)
    ensures
        r == connected_flag(id),
{
    if id < 8 {
        Some(ConditionValue::at(FIRST_ID_FLAG + id as usize))
    } else {
        None
    }
}

/// The condition values that hold across all controllers.
pub fn global_active_set<S>(states: &[ControllerState<S>]) -> (r: Vec<ConditionValue>)
    ensures
        forall|v: ConditionValue| r@.contains(v) == global_flag(states@, v),
{
    let mut r: Vec<ConditionValue> = Vec::new();
    let mut k: usize = 0;
    while k < states.len()
        invariant
            k <= states@.len(),
            forall|v: ConditionValue| r@.contains(v) == global_flag(states@.subrange(0, k as int), v),
        decreases states.len() - k,
    {
        let ghost before = r@;
        let state = &states[k];
        let ghost prev = states@.subrange(0, k as int);
        let ghost next = states@.subrange(0, k + 1);
        let flag = if state.connection == 1 {
            connected_flag_of(state.id)
        } else {
            None
        };
        assert(next[k as int] == states@[k as int]);
        assert(flag == (if next[k as int].connection == 1 {
            connected_flag(next[k as int].id)
        } else {
            None
        }));
        match flag {
            Some(v) => {
                r.push(v);
                proof {
                    assert forall|x: ConditionValue| r@.contains(x) == (before.contains(x) || x == v) by {
                        lemma_push_contains(before, v, x);
                    }
                    assert(global_flag(next, v));
                    assert(forall|x: ConditionValue| r@.contains(x) == (before.contains(x) || flag == Some(x)));
                }
            },
            None => {
                assert(r@ == before);
                assert(forall|x: ConditionValue| r@.contains(x) == (before.contains(x) || flag == Some(x)));
            },
        }
        assert(forall|x: ConditionValue| r@.contains(x) == (before.contains(x) || flag == Some(x)));
        assert forall|v: ConditionValue| r@.contains(v) == global_flag(next, v) by {
            if before.contains(v) {
                assert(global_flag(prev, v));
                let w = choose|j: int|
                    0 <= j < prev.len() && (#[trigger] prev[j]).connection == 1 && connected_flag(
                        prev[j].id,
                    ) == Some(v);
                assert(next[w] == prev[w]);
                assert(global_flag(next, v));
            } else if flag == Some(v) {
                assert(next[k as int].connection == 1);
                assert(connected_flag(next[k as int].id) == Some(v));
                assert(global_flag(next, v));
            } else {
                assert(!r@.contains(v));
                assert(!global_flag(prev, v));
                if global_flag(next, v) {
                    let w = choose|j: int|
                        0 <= j < next.len() && (#[trigger] next[j]).connection == 1 && connected_flag(
                            next[j].id,
                        ) == Some(v);
                    if w < k {
                        assert(prev[w] == next[w]);
                        assert(global_flag(prev, v));
                    } else {
                        assert(w == k);
                        assert(flag == Some(v));
                    }
                }
            }
        }
        k += 1;
    }
    assert(states@.subrange(0, states@.len() as int) =~= states@);
    r
}

} // verus!

verus! {

/// Bit 0 of the mask reports the A button and bit 15 the down direction of
/// the pad; the sixteen high bits report nothing, so two readings that agree
/// on the connection and on the low sixteen bits make the same values true.
pub proof fn lemma_button_bits<S>(a: ControllerState<S>, b: ControllerState<S>)
    ensures
        controller_flag(a, ConditionValue::ButtonA) == (a.buttons & 1u32 != 0),
        controller_flag(a, ConditionValue::ButtonDpadDown) == (a.buttons & 0x8000u32 != 0),
        a.connection == b.connection && a.buttons & 0xffffu32 == b.buttons & 0xffffu32 ==> forall|
            v: ConditionValue,
        | controller_flag(a, v) == controller_flag(b, v),
{
    assert(1u32 << 0u32 == 1u32) by (bit_vector);
    assert(1u32 << 15u32 == 0x8000u32) by (bit_vector);
    if a.connection == b.connection && a.buttons & 0xffffu32 == b.buttons & 0xffffu32 {
        let x = a.buttons;
        let y = b.buttons;
        assert(forall|i: u32|
            i < 16 && #[trigger] (x & 0xffffu32) == y & 0xffffu32 ==> (x & (1u32 << i) != 0) == (y & (1u32
                << i) != 0)) by (bit_vector);
        assert forall|v: ConditionValue| controller_flag(a, v) == controller_flag(b, v) by {
            lemma_index_of(v);
        }
    }
}

} // verus!
