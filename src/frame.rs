use vstd::prelude::*;
use crate::activation::{all_satisfied, is_active};
use crate::condition::ConditionValue;
use crate::config::{Config, Item};
use crate::state::{ControllerState, controller_flag, global_active_set, global_flag};

verus! {

/// One item to draw this frame.
#[derive(Debug, Clone, Copy, PartialEq, Eq, Structural)]
pub enum Draw {
    /// The global item at position `item`.
    Global { item: usize },
    /// The item at position `item` of the layout of binding `controller`,
    /// driven by the reading at position `state`.
    Controller { controller: usize, state: usize, item: usize },
}

/// The set of values true across all controllers.
pub open spec fn global_set<S>(states: Seq<ControllerState<S>>) -> Set<ConditionValue> {
    Set::new(|v: ConditionValue| global_flag(states, v))
}

/// The set of values true for one controller.
pub open spec fn controller_set<S>(state: ControllerState<S>) -> Set<ConditionValue> {
    Set::new(|v: ConditionValue| controller_flag(state, v))
}

/// Whether `i` is the first position of a reading for controller `id`.
pub open spec fn first_state_of<S>(states: Seq<ControllerState<S>>, id: u8, i: int) -> bool {
    &&& 0 <= i < states.len()
    &&& states[i].id == id
    &&& forall|j: int| 0 <= j < i ==> (#[trigger] states[j]).id != id
}

/// Whether some reading is for controller `id`.
pub open spec fn has_state<S>(states: Seq<ControllerState<S>>, id: u8) -> bool {
    exists|i: int| 0 <= i < states.len() && (#[trigger] states[i]).id == id
}

/// The position of the first reading for controller `id`.
pub open spec fn state_of<S>(states: Seq<ControllerState<S>>, id: u8) -> int {
    choose|i: int| first_state_of(states, id, i)
}

/// The global draws among the first `n` items, in order.
pub open spec fn global_draws<P>(items: Seq<Item<P>>, active: Set<ConditionValue>, n: nat) -> Seq<Draw>
    decreases n,
{
    if n == 0 {
        Seq::empty()
    } else {
        let prev = global_draws(items, active, (n - 1) as nat);
        if all_satisfied(active, items[n - 1].conditions@) {
            prev.push(Draw::Global { item: (n - 1) as usize })
        } else {
            prev
        }
    }
}

/// The draws among the first `n` items of a layout, for binding `controller`
/// and reading `state`, in order.
pub open spec fn layout_draws<P>(
    items: Seq<Item<P>>,
    active: Set<ConditionValue>,
    controller: usize,
    state: usize,
    n: nat,
) -> Seq<Draw>
    decreases n,
{
    if n == 0 {
        Seq::empty()
    } else {
        let prev = layout_draws(items, active, controller, state, (n - 1) as nat);
        if all_satisfied(active, items[n - 1].conditions@) {
            prev.push(Draw::Controller { controller, state, item: (n - 1) as usize })
        } else {
            prev
        }
    }
}

/// The draws of binding `k`: none when no reading is for its controller.
pub open spec fn binding_draws<P, A, S>(
    config: Config<P, A>,
    states: Seq<ControllerState<S>>,
    k: int,
) -> Seq<Draw> {
    let id = config.controllers@[k].id;
    if has_state(states, id) {
        let s = state_of(states, id);
        let items = config.layouts@[config.controller_layouts@[k] as int].items@;
        layout_draws(items, controller_set(states[s]), k as usize, s as usize, items.len())
    } else {
        Seq::empty()
    }
}

/// The draws of the first `n` bindings, in order.
pub open spec fn bindings_draws<P, A, S>(
    config: Config<P, A>,
    states: Seq<ControllerState<S>>,
    n: nat,
) -> Seq<Draw>
    decreases n,
{
    if n == 0 {
        Seq::empty()
    } else {
        bindings_draws(config, states, (n - 1) as nat) + binding_draws(config, states, n - 1)
    }
}

/// Everything drawn in one frame: the active global items, then for each
/// binding the active items of its layout.
pub open spec fn frame_draws<P, A, S>(config: Config<P, A>, states: Seq<ControllerState<S>>) -> Seq<
    Draw,
> {
    global_draws(config.items@, global_set(states), config.items@.len())
        + bindings_draws(config, states, config.controllers@.len())
}

/// The position of the first reading for controller `id`, if there is one.
pub fn find_state<S>(states: &[ControllerState<S>], id: u8) -> (r: Option<usize>)
    ensures
        match r {
            Some(i) => first_state_of(states@, id, i as int) && i as int == state_of(states@, id),
            None => !has_state(states@, id),
        },
{
    let mut i: usize = 0;
    while i < states.len()
        invariant
            i <= states@.len(),
            forall|j: int| 0 <= j < i ==> (#[trigger] states@[j]).id != id,
        decreases states.len() - i,
    {
        if states[i].id == id {
            proof {
                assert(first_state_of(states@, id, i as int));
                let c = state_of(states@, id);
                if c < i {
                    assert(states@[c].id != id);
                }
                if c > i {
                    assert(states@[i as int].id == id);
                }
            }
            return Some(i);
        }
        i += 1;
    }
    None
}

/// Decides what one frame draws, given the latest controller readings.
pub fn plan_frame<P, A, S>(config: &Config<P, A>, states: &[ControllerState<S>]) -> (r: Vec<Draw>)
    requires
        config.wf(),
    ensures
        r@ == frame_draws(*config, states@),
{
    let mut r: Vec<Draw> = Vec::new();
    let global = global_active_set(states);
    assert(global@.to_set() =~= global_set(states@));
    let mut i: usize = 0;
    while i < config.items.len()
        invariant
            i <= config.items@.len(),
            global@.to_set() == global_set(states@),
            r@ == global_draws(config.items@, global_set(states@), i as nat),
        decreases config.items.len() - i,
    {
        if is_active(global.as_slice(), config.items[i].conditions.as_slice()) {
            r.push(Draw::Global { item: i });
        }
        i += 1;
    }
    let ghost global_part = r@;
    let mut k: usize = 0;
    while k < config.controllers.len()
        invariant
            config.wf(),
            k <= config.controllers@.len(),
            global_part == global_draws(config.items@, global_set(states@), config.items@.len()),
            r@ == global_part + bindings_draws(*config, states@, k as nat),
        decreases config.controllers.len() - k,
    {
        let ghost before = r@;
        let binding = &config.controllers[k];
        let layout = &config.layouts[config.controller_layouts[k]];
        match find_state(states, binding.id) {
            None => {
                assert(binding_draws(*config, states@, k as int) =~= Seq::<Draw>::empty());
            },
            Some(s) => {
                let active = states[s].active_set();
                assert(active@.to_set() =~= controller_set(states@[s as int]));
                let mut j: usize = 0;
                while j < layout.items.len()
                    invariant
                        j <= layout.items@.len(),
                        active@.to_set() == controller_set(states@[s as int]),
                        r@ == before + layout_draws(
                            layout.items@,
                            controller_set(states@[s as int]),
                            k,
                            s,
                            j as nat,
                        ),
                    decreases layout.items.len() - j,
                {
                    if is_active(active.as_slice(), layout.items[j].conditions.as_slice()) {
                        r.push(Draw::Controller { controller: k, state: s, item: j });
                    }
                    j += 1;
                }
            },
        }
        assert(r@ =~= global_part + bindings_draws(*config, states@, (k + 1) as nat));
        k += 1;
    }
    r
}

} // verus!

verus! {

/// The binding that a draw belongs to; none for a global item.
pub open spec fn draw_binding(d: Draw) -> Option<usize> {
    match d {
        Draw::Global { .. } => None,
        Draw::Controller { controller, .. } => Some(controller),
    }
}

/// Every draw of a layout belongs to the binding it was made for.
proof fn lemma_layout_draws_binding<P>(
    items: Seq<Item<P>>,
    active: Set<ConditionValue>,
    controller: usize,
    state: usize,
    n: nat,
)
    ensures
        forall|i: int|
            0 <= i < layout_draws(items, active, controller, state, n).len() ==> draw_binding(
                #[trigger] layout_draws(items, active, controller, state, n)[i],
            ) == Some(controller),
    decreases n,
{
    if n > 0 {
        lemma_layout_draws_binding(items, active, controller, state, (n - 1) as nat);
    }
}

/// No global draw belongs to a binding.
proof fn lemma_global_draws_unbound<P>(items: Seq<Item<P>>, active: Set<ConditionValue>, n: nat)
    ensures
        forall|i: int|
            0 <= i < global_draws(items, active, n).len() ==> draw_binding(
                #[trigger] global_draws(items, active, n)[i],
            ) is None,
    decreases n,
{
    if n > 0 {
        lemma_global_draws_unbound(items, active, (n - 1) as nat);
    }
}

/// A draw of the first `n` bindings belongs to one of them whose controller
/// has a reading.
proof fn lemma_bindings_draws_bound<P, A, S>(
    config: Config<P, A>,
    states: Seq<ControllerState<S>>,
    n: nat,
)
    requires
        n <= config.controllers@.len() <= usize::MAX,
    ensures
        forall|i: int|
            0 <= i < bindings_draws(config, states, n).len() ==> {
                let b = draw_binding(#[trigger] bindings_draws(config, states, n)[i]);
                b is Some && b->0 < n && has_state(states, config.controllers@[b->0 as int].id)
            },
    decreases n,
{
    if n > 0 {
        let m = (n - 1) as nat;
        lemma_bindings_draws_bound(config, states, m);
        let prev = bindings_draws(config, states, m);
        let last = binding_draws(config, states, m as int);
        let id = config.controllers@[m as int].id;
        if has_state(states, id) {
            let s = state_of(states, id);
            let items = config.layouts@[config.controller_layouts@[m as int] as int].items@;
            lemma_layout_draws_binding(
                items,
                controller_set(states[s]),
                m as usize,
                s as usize,
                items.len(),
            );
        }
        assert forall|i: int| 0 <= i < bindings_draws(config, states, n).len() implies {
            let b = draw_binding(#[trigger] bindings_draws(config, states, n)[i]);
            b is Some && b->0 < n && has_state(states, config.controllers@[b->0 as int].id)
        } by {
            if i < prev.len() {
                assert(bindings_draws(config, states, n)[i] == prev[i]);
            } else {
                assert(bindings_draws(config, states, n)[i] == last[i - prev.len()]);
                assert(has_state(states, id));
                let s = state_of(states, id);
                let items = config.layouts@[config.controller_layouts@[m as int] as int].items@;
                assert(last[i - prev.len()] == layout_draws(
                    items,
                    controller_set(states[s]),
                    m as usize,
                    s as usize,
                    items.len(),
                )[i - prev.len()]);
            }
        }
    }
}

/// A binding whose controller has no reading draws nothing in the frame.
pub proof fn lemma_missing_state_draws_nothing<P, A, S>(
    config: Config<P, A>,
    states: Seq<ControllerState<S>>,
    k: int,
)
    requires
        config.wf(),
        0 <= k < config.controllers@.len(),
        !has_state(states, config.controllers@[k].id),
    ensures
        binding_draws(config, states, k) == Seq::<Draw>::empty(),
        forall|i: int|
            0 <= i < frame_draws(config, states).len() ==> draw_binding(
                #[trigger] frame_draws(config, states)[i],
            ) != Some(k as usize),
{
    let g = global_draws(config.items@, global_set(states), config.items@.len());
    let b = bindings_draws(config, states, config.controllers@.len());
    lemma_global_draws_unbound(config.items@, global_set(states), config.items@.len());
    lemma_bindings_draws_bound(config, states, config.controllers@.len());
    assert forall|i: int| 0 <= i < frame_draws(config, states).len() implies draw_binding(
        #[trigger] frame_draws(config, states)[i],
    ) != Some(k as usize) by {
        if i < g.len() {
            assert(frame_draws(config, states)[i] == g[i]);
        } else {
            assert(frame_draws(config, states)[i] == b[i - g.len()]);
        }
    }
}

} // verus!
