//! The table of globals that every client is told about.

use crate::object::Interface;
use vstd::prelude::*;

verus! {

/// One advertised global: its name, its interface, the highest version served.
pub type Global = (u32, Interface, u32);

/// The globals on offer, in the order in which they are announced.
#[derive(Debug)]
pub struct CompositorGlobalState {
    pub globals: Vec<Global>,
}

/// The first global called `name`, if there is one.
pub open spec fn find_global(globals: Seq<Global>, name: u32) -> Option<Global>
    decreases globals.len(),
{
    if globals.len() == 0 {
        None
    } else if globals[0].0 == name {
        Some(globals[0])
    } else {
        find_global(globals.subrange(1, globals.len() as int), name)
    }
}

/// The table that a server starts with.
pub open spec fn default_globals() -> Seq<Global> {
    seq![(1u32, Interface::WlShm, 1u32), (2u32, Interface::WlCompositor, 6u32), (3u32, Interface::XdgWmBase, 7u32)]
}

/// `find_global` finds an entry of the table that carries the name, and
/// finds one whenever the table has one.
pub proof fn lemma_find_global(globals: Seq<Global>, name: u32)
    ensures
        match find_global(globals, name) {
            Some(global) => global.0 == name && globals.contains(global),
            None => forall|i: int| 0 <= i < globals.len() ==> (#[trigger] globals[i]).0 != name,
        },
    decreases globals.len(),
{
    if globals.len() == 0 {
    } else if globals[0].0 == name {
    } else {
        let rest = globals.subrange(1, globals.len() as int);
        lemma_find_global(rest, name);
        match find_global(rest, name) {
            Some(global) => {
                let i = choose|i: int| 0 <= i < rest.len() && rest[i] == global;
                assert(globals[i + 1] == global);
            },
            None => {
                assert forall|i: int| 0 <= i < globals.len() implies (#[trigger] globals[i]).0
                    != name by {
                    if i > 0 {
                        assert(rest[i - 1] == globals[i]);
                    }
                }
            },
        }
    }
}

impl CompositorGlobalState {
    /// The first global called `name`, if there is one.
    pub fn find(&self, name: u32) -> (found: Option<Global>)
        ensures
            found == find_global(self.globals@, name),
    {
        let mut i: usize = 0;
        assert(self.globals@.subrange(0, self.globals@.len() as int) =~= self.globals@);
        while i < self.globals.len()
            invariant
                i <= self.globals@.len(),
                find_global(self.globals@, name) == find_global(
                    self.globals@.subrange(i as int, self.globals@.len() as int),
                    name,
                ),
            decreases self.globals@.len() - i,
        {
            let global = self.globals[i];
            let ghost rest = self.globals@.subrange(i as int, self.globals@.len() as int);
            assert(rest[0] == global);
            if global.0 == name {
                return Some(global);
            }
            assert(rest.subrange(1, rest.len() as int) =~= self.globals@.subrange(
                i + 1,
                self.globals@.len() as int,
            ));
            i += 1;
        }
        None
    }
}

impl Default for CompositorGlobalState {
    fn default() -> (state: CompositorGlobalState)
        ensures
            state.globals@ == default_globals(),
    {
        let mut globals: Vec<Global> = Vec::new();
        globals.push((1, Interface::WlShm, 1));
        globals.push((2, Interface::WlCompositor, 6));
        globals.push((3, Interface::XdgWmBase, 7));
        assert(globals@ =~= default_globals());
        CompositorGlobalState { globals }
    }
}

} // verus!
