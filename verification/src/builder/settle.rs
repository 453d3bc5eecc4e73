use crate::builder::buffer::BuilderView;
use crate::builder::component::DesignatedComponent;
use crate::builder::tree::spec_points_to;
use vstd::prelude::*;

verus! {

/// The byte at `x` belongs to an offset that waits to be written.
pub open spec fn spec_pending(queue: Seq<DesignatedComponent>, x: int) -> bool {
    exists|i: int|
        0 <= i < queue.len() && (#[trigger] queue[i]).offset_position <= x
            < queue[i].offset_position + 4
}

/// The buffer `f` holds at least what the state holds, and every byte of the state that
/// belongs to no offset that waits to be written stands in `f` as it stands in the state.
pub open spec fn spec_settled(f: Seq<u8>, view: BuilderView) -> bool {
    &&& f.len() >= view.buffer.len()
    &&& forall|x: int|
        0 <= x < view.buffer.len() && !spec_pending(view.components, x) ==> #[trigger] f[x]
            == view.buffer[x]
}

/// Every offset that waits to be written in the state points in `f` to the component that
/// waits for it, which lies there with everything that it points to.
pub open spec fn spec_all_point(f: Seq<u8>, queue: Seq<DesignatedComponent>) -> bool {
    forall|i: int|
        0 <= i < queue.len() ==> spec_points_to(
            f,
            (#[trigger] queue[i]).offset_position as int,
            queue[i].component,
        )
}

/// A stretch of the state in which no offset waits to be written stands in `f` as it
/// stands in the state.
pub(crate) proof fn lemma_settled_region(f: Seq<u8>, view: BuilderView, from: int, to: int)
    requires
        spec_settled(f, view),
        0 <= from <= to <= view.buffer.len(),
        forall|i: int|
            0 <= i < view.components.len() ==> (#[trigger] view.components[i]).offset_position + 4
                <= from || to <= view.components[i].offset_position,
    ensures
        f.subrange(from, to) == view.buffer.subrange(from, to),
{
    assert forall|x: int| from <= x < to implies f[x] == view.buffer[x] by {
        if spec_pending(view.components, x) {
            let i = choose|i: int|
                0 <= i < view.components.len() && (#[trigger] view.components[i]).offset_position
                    <= x < view.components[i].offset_position + 4;
            assert(view.components[i].offset_position + 4 <= from || to
                <= view.components[i].offset_position);
        }
    }
    assert(f.subrange(from, to) =~= view.buffer.subrange(from, to));
}

} // verus!
