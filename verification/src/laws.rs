//! General laws of the gateway, stated over the models its contracts use.
//!
//! The round trip of the codec itself is stated in `codec`
//! (`lemma_foo_round_trip`, `lemma_thing_round_trip`); the laws here relate
//! the resolver operations: what an insert leaves for the listing, what a
//! delete removes from it, and what an append does to an aggregate.

use crate::store::appended;
use crate::types::{FooInputModel, FooModel, ObjectId, ThingModel};
use vstd::prelude::*;

verus! {

/// After inserting an input under a store-assigned identifier, the listing
/// contains an aggregate with that identifier whose other fields equal the
/// input: an insert's identifier subsequently appears when listing.
pub proof fn lemma_inserted_id_listed(pre: Seq<FooModel>, id: ObjectId, input: FooInputModel)
    ensures
        ({
            let post = pre.push(FooModel::of_input(id, input));
            exists|i: int|
                0 <= i < post.len() && (#[trigger] post[i]).id == id && post[i].foo_string
                    == input.foo_string && post[i].things == input.things
        }),
{
    let post = pre.push(FooModel::of_input(id, input));
    assert(post[pre.len() as int] == FooModel::of_input(id, input));
}

/// After deleting the aggregate at the index carrying an identifier, no
/// listed aggregate carries it any more, provided identifiers were
/// pairwise distinct: a delete removes exactly that document.
pub proof fn lemma_deleted_id_unlisted(foos: Seq<FooModel>, i: int)
    requires
        0 <= i < foos.len(),
        forall|a: int, b: int|
            0 <= a < b < foos.len() ==> (#[trigger] foos[a]).id != (#[trigger] foos[b]).id,
    ensures
        forall|j: int|
            0 <= j < foos.remove(i).len() ==> (#[trigger] foos.remove(i)[j]).id != foos[i].id,
{
    assert forall|j: int|
        0 <= j < foos.remove(i).len() implies (#[trigger] foos.remove(i)[j]).id != foos[i].id by {
        if j < i {
            assert(foos.remove(i)[j] == foos[j]);
            assert(foos[j].id != foos[i].id);
        } else {
            assert(foos.remove(i)[j] == foos[j + 1]);
            assert(foos[i].id != foos[j + 1].id);
        }
    }
}

/// Appending a child to an aggregate grows its embedded sequence by
/// exactly one, keeps every prior element at its place, puts the new
/// element at the tail, and changes nothing else of the aggregate.
pub proof fn lemma_append_child_shape(f: FooModel, t: ThingModel)
    ensures
        appended(f, t).id == f.id,
        appended(f, t).foo_string == f.foo_string,
        appended(f, t).things.len() == f.things.len() + 1,
        forall|j: int| 0 <= j < f.things.len() ==> appended(f, t).things[j] == f.things[j],
        appended(f, t).things[f.things.len() as int] == t,
{
}

} // verus!
