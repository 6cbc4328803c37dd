//! The stacks of declarations that a walk has open.
use vstd::prelude::*;

use crate::source::DeclarationId;

verus! {

/// How many declarations of `world` are not on `stack`.
pub open spec fn unvisited(world: Set<DeclarationId>, stack: Seq<DeclarationId>) -> nat {
    world.difference(stack.to_set()).len()
}

/// Opening a declaration of `world` that is not open yet leaves fewer to open;
/// opening any other declaration leaves as many.
pub proof fn lemma_unvisited_push(
    world: Set<DeclarationId>,
    stack: Seq<DeclarationId>,
    id: DeclarationId,
)
    requires
        world.finite(),
    ensures
        world.contains(id) && !stack.contains(id) ==> unvisited(world, stack.push(id)) < unvisited(
            world,
            stack,
        ),
        !world.contains(id) || stack.contains(id) ==> unvisited(world, stack.push(id))
            == unvisited(world, stack),
{
    let before = world.difference(stack.to_set());
    let after = world.difference(stack.push(id).to_set());
    assert forall|other: DeclarationId| after.contains(other) <==> before.contains(other)
        && other != id by {
        if stack.contains(other) {
            let at = choose|at: int| 0 <= at < stack.len() && stack[at] == other;
            assert(stack.push(id)[at] == other);
        }
        if other == id {
            assert(stack.push(id)[stack.len() as int] == other);
        }
    }
    assert(after =~= before.remove(id));
}

/// Whether no declaration of `opened` repeats or is on `stack`.
pub open spec fn fresh(stack: Seq<DeclarationId>, opened: Seq<DeclarationId>) -> bool {
    &&& opened.no_duplicates()
    &&& forall|id: DeclarationId| #[trigger] opened.contains(id) ==> !stack.contains(id)
}

/// What is fresh on top of one fresh declaration is fresh together with it.
pub proof fn lemma_fresh(
    stack: Seq<DeclarationId>,
    here: Seq<DeclarationId>,
    after: Seq<DeclarationId>,
)
    requires
        here.len() <= 1,
        fresh(stack, here),
        fresh(stack + here, after),
    ensures
        fresh(stack, here + after),
{
    let opened = here + after;
    assert forall|id: DeclarationId| #[trigger] opened.contains(id) implies !stack.contains(id) by {
        let at = choose|at: int| 0 <= at < opened.len() && opened[at] == id;
        if at < here.len() {
            assert(here.contains(id));
        } else {
            assert(after[at - here.len()] == id);
            assert(after.contains(id));
            if stack.contains(id) {
                let early = choose|early: int| 0 <= early < stack.len() && stack[early] == id;
                assert((stack + here)[early] == id);
            }
        }
    }
    assert forall|i: int, j: int| 0 <= i < j < opened.len() implies opened[i] != opened[j] by {
        if i < here.len() {
            assert(j >= here.len());
            assert(after.contains(after[j - here.len()]));
            assert((stack + here)[stack.len() as int] == here[0]);
        }
    }
}

/// Whether `stack` holds `id`.
pub fn stack_contains(stack: &Vec<DeclarationId>, id: DeclarationId) -> (result: bool)
    ensures
        result == stack@.contains(id),
{
    for index in 0..stack.len()
        invariant
            forall|earlier: int| 0 <= earlier < index ==> stack@[earlier] != id,
    {
        if stack[index] == id {
            return true;
        }
    }
    false
}

} // verus!
