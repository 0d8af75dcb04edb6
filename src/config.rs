use vstd::prelude::*;
use crate::condition::Condition;
use crate::error::ConfigError;

verus! {

/// A drawable element: what it looks like and where it goes (`look`, never
/// inspected here), and the conditions under which it is drawn.
pub struct Item<P> {
    pub look: P,
    pub conditions: Vec<Condition>,
}

/// A named list of items, drawn for each controller bound to it.
pub struct Layout<P> {
    pub name: String,
    pub items: Vec<Item<P>>,
}

/// Binds the controller with the given id to the layout with the given name,
/// placed at `position`.
pub struct ControllerBinding<A> {
    pub id: u8,
    pub layout: String,
    pub position: A,
}

/// A whole overlay: the global items, the layouts, the controller bindings,
/// and for each binding the index of the layout it resolves to.
pub struct Config<P, A> {
    pub items: Vec<Item<P>>,
    pub layouts: Vec<Layout<P>>,
    pub controllers: Vec<ControllerBinding<A>>,
    pub controller_layouts: Vec<usize>,
}

/// Whether `i` is the first position of a layout named `name`.
pub open spec fn first_layout_named<P>(layouts: Seq<Layout<P>>, name: Seq<char>, i: int) -> bool {
    &&& 0 <= i < layouts.len()
    &&& layouts[i].name@ == name
    &&& forall|j: int| 0 <= j < i ==> (#[trigger] layouts[j]).name@ != name
}

/// Whether some layout is named `name`.
pub open spec fn has_layout<P>(layouts: Seq<Layout<P>>, name: Seq<char>) -> bool {
    exists|i: int| 0 <= i < layouts.len() && (#[trigger] layouts[i]).name@ == name
}

/// Whether every binding names an existing layout.
pub open spec fn all_layouts_exist<P, A>(
    layouts: Seq<Layout<P>>,
    controllers: Seq<ControllerBinding<A>>,
) -> bool {
    forall|k: int| 0 <= k < controllers.len() ==> has_layout(layouts, (#[trigger] controllers[k]).layout@)
}

impl<P, A> Config<P, A> {
    /// Each binding is resolved to the first layout of its name.
    pub open spec fn wf(&self) -> bool {
        &&& self.controller_layouts@.len() == self.controllers@.len()
        &&& self.controllers@.len() <= usize::MAX
        &&& forall|k: int|
            0 <= k < self.controllers@.len() ==> first_layout_named(
                self.layouts@,
                (#[trigger] self.controllers@[k]).layout@,
                self.controller_layouts@[k] as int,
            )
    }

    /// Builds a configuration, resolving each binding's layout by name. Fails
    /// when some binding names no layout.
    pub fn new(
        items: Vec<Item<P>>,
        layouts: Vec<Layout<P>>,
        controllers: Vec<ControllerBinding<A>>,
    ) -> (r: Result<Self, ConfigError>)
        ensures
            r is Ok <==> all_layouts_exist(layouts@, controllers@),
            match r {
                Ok(c) => c.wf() && c.items == items && c.layouts == layouts && c.controllers
                    == controllers,
                Err(e) => e == ConfigError::UnknownLayout,
            },
    {
        let mut controller_layouts: Vec<usize> = Vec::new();
        let mut k: usize = 0;
        while k < controllers.len()
            invariant
                k <= controllers@.len(),
                controller_layouts@.len() == k,
                forall|j: int|
                    0 <= j < k ==> first_layout_named(
                        layouts@,
                        (#[trigger] controllers@[j]).layout@,
                        controller_layouts@[j] as int,
                    ),
            decreases controllers.len() - k,
        {
            match find_layout(layouts.as_slice(), &controllers[k].layout) {
                Some(i) => controller_layouts.push(i),
                None => {
                    assert(!all_layouts_exist(layouts@, controllers@));
                    return Err(ConfigError::UnknownLayout);
                },
            }
            k += 1;
        }
        assert(all_layouts_exist(layouts@, controllers@)) by {
            assert forall|k: int| 0 <= k < controllers@.len() implies has_layout(
                layouts@,
                (#[trigger] controllers@[k]).layout@,
            ) by {
                assert(layouts@[controller_layouts@[k] as int].name@ == controllers@[k].layout@);
            }
        }
        assert(controllers@.len() == controllers.len());
        Ok(Config { items, layouts, controllers, controller_layouts })
    }
}

/// The position of the first layout named `name`, if there is one.
pub fn find_layout<P>(layouts: &[Layout<P>], name: &String) -> (r: Option<usize>)
    ensures
        match r {
            Some(i) => first_layout_named(layouts@, name@, i as int),
            None => !has_layout(layouts@, name@),
        },
{
    let mut i: usize = 0;
    while i < layouts.len()
        invariant
            i <= layouts@.len(),
            forall|j: int| 0 <= j < i ==> (#[trigger] layouts@[j]).name@ != name@,
        decreases layouts.len() - i,
    {
        if layouts[i].name == *name {
            return Some(i);
        }
        i += 1;
    }
    None
}

} // verus!
