//! What the hook does when the runtime dispatches a function.

use vstd::prelude::*;
use crate::hook::cached_function_indexes::CachedFunctionIndexes;

verus! {

/// What the caller of `process_event` does before it hands the call on to the
/// runtime.
#[derive(Clone, Copy, Debug, PartialEq, Eq, Structural)]
pub enum Action {
    /// Draw onto the canvas that the parameters hold.
    Draw,
    /// Nothing.
    Pass,
}

/// The player controller that the hook follows, once the dispatch of
/// `method_index` on the object at `this` is seen: the first controller that
/// ticks is followed until a controller is destroyed.
pub open spec fn followed(
    indexes: CachedFunctionIndexes,
    controller: Option<usize>,
    this: usize,
    method_index: u32,
) -> Option<usize> {
    if method_index == indexes.post_render {
        controller
    } else if method_index == indexes.player_tick {
        if controller is None {
            Some(this)
        } else {
            controller
        }
    } else if method_index == indexes.player_destroyed {
        None
    } else {
        controller
    }
}

/// Takes note of the dispatch of the function with the index `method_index`
/// on the object at `this`.
pub fn process_event(
    indexes: &CachedFunctionIndexes,
    controller: &mut Option<usize>,
    this: usize,
    method_index: u32,
) -> (action: Action)
    ensures
        *final(controller) == followed(*indexes, *old(controller), this, method_index),
        action == if method_index == indexes.post_render {
            Action::Draw
        } else {
            Action::Pass
        },
{
    if method_index == indexes.post_render {
        Action::Draw
    } else if method_index == indexes.player_tick {
        if controller.is_none() {
            *controller = Some(this);
        }
        Action::Pass
    } else if method_index == indexes.player_destroyed {
        *controller = None;
        Action::Pass
    } else {
        Action::Pass
    }
}

} // verus!
