//! The write-side resolvers: insert-one, insert-many, delete-one and
//! append-child, each issuing exactly one logical store operation, plus
//! the interpretation of the store's result descriptors.
//!
//! Each interpretation function is total over descriptor values, so it
//! says what comes back for every reply a store could give: an identifier,
//! a write exception, counts, or an invariant-violating reply (neither an
//! identifier nor an exception), which surfaces as an error rather than a
//! placeholder value.

use crate::codec::{decode_foo_doc, encode_foo, encode_thing, foo_input_to_doc,
    lemma_foo_round_trip, lemma_thing_round_trip, with_id};
use crate::document::{Scalar, ScalarModel, Value, ValueModel};
use crate::error::Error;
use crate::store::{appended, assigned_id, Collection, DeleteResult, InsertManyResult,
    InsertOneResult, UpdateResult};
use crate::types::{FooInput, FooModel, ObjectId, ThingInput, UpdateStats};
use vstd::prelude::*;
use vstd::string::StringExecFns;

verus! {

/// The mutation root: one field per write operation.
pub struct Mutation;

impl Mutation {
    /// Inserts a new `Foo` document: encodes the input, issues one
    /// single-document insert, and returns the store-assigned identifier.
    /// The stored sequence grows by exactly the encoded input at its tail.
    pub fn add_foo(&self, state: &mut Collection, input: &FooInput) -> (r: Result<
        ObjectId,
        Error,
    >)
        requires
            old(state).wf(),
            old(state).counter() < u64::MAX,
        ensures
            final(state).wf(),
            r == Ok::<ObjectId, Error>(old(state).fresh_id()),
            !old(state).has_id(old(state).fresh_id()),
            final(state).has_id(old(state).fresh_id()),
            final(state).foos() == old(state).foos().push(
                FooModel::of_input(old(state).fresh_id(), input@),
            ),
            final(state).counter() == old(state).counter() + 1,
    {
        let doc = encode_foo(input);
        proof {
            assert forall|id: ObjectId| decode_foo_doc(#[trigger] with_id(id, doc@)) is Some by {
                lemma_foo_round_trip(id, input@);
            }
        }
        let ghost fresh = old(state).fresh_id();
        let res = state.insert_one(doc);
        proof {
            lemma_foo_round_trip(fresh, input@);
            assert(state.foos()[old(state).foos().len() as int].id == fresh);
        }
        interpret_insert_one(res)
    }

    /// Inserts a batch of `Foo` documents with one batched insert: encodes
    /// every input first, and returns one store-assigned identifier per
    /// input, in input order. Encoding is total, so the batch never fails
    /// part-way: either every input is inserted or none is.
    pub fn add_foos(&self, state: &mut Collection, input: &Vec<FooInput>) -> (r: Result<
        Vec<ObjectId>,
        Error,
    >)
        requires
            old(state).wf(),
            old(state).counter() + input@.len() <= u64::MAX,
        ensures
            final(state).wf(),
            r matches Ok(ids) && ids@.len() == input@.len() && forall|k: int|
                0 <= k < ids@.len() ==> ids@[k] == assigned_id(old(state).counter(), k),
            final(state).foos() == old(state).foos() + Seq::new(
                input@.len(),
                |k: int| FooModel::of_input(
                    assigned_id(old(state).counter(), k),
                    input.deep_view()[k],
                ),
            ),
            final(state).counter() == old(state).counter() + input@.len(),
    {
        let n = input.len();
        let mut docs: Vec<crate::document::Document> = Vec::new();
        for i in 0..n
            invariant
                n == input@.len(),
                docs.len() == i,
                forall|j: int|
                    0 <= j < i ==> docs.deep_view()[j] == foo_input_to_doc(input.deep_view()[j]),
        {
            let ghost prev = docs@;
            let ghost prevd = docs.deep_view();
            docs.push(encode_foo(&input[i]));
            proof {
                assert forall|j: int| 0 <= j < i + 1 implies docs.deep_view()[j] == foo_input_to_doc(
                    input.deep_view()[j],
                ) by {
                    assert(docs.deep_view()[j] == docs@[j].deep_view());
                    if j < i {
                        assert(docs@[j] == prev[j]);
                        assert(prevd[j] == prev[j].deep_view());
                    } else {
                        assert(input.deep_view()[j] == input@[j].deep_view());
                    }
                }
            }
        }
        let ghost dsm = docs.deep_view();
        proof {
            assert forall|k: int, id: ObjectId|
                0 <= k < dsm.len() implies decode_foo_doc(#[trigger] with_id(id, dsm[k])) is Some by {
                lemma_foo_round_trip(id, input.deep_view()[k]);
            }
        }
        let ghost base = old(state).counter();
        let res = state.insert_many(docs);
        let ghost gvs = res.inserted_ids->Some_0;
        proof {
            assert forall|k: int| 0 <= k < dsm.len() implies decode_foo_doc(
                with_id(assigned_id(base, k), dsm[k]),
            )->Some_0 == FooModel::of_input(assigned_id(base, k), input.deep_view()[k]) by {
                lemma_foo_round_trip(assigned_id(base, k), input.deep_view()[k]);
            }
            assert(crate::store::inserted_models(base, dsm) =~= Seq::new(
                input@.len(),
                |k: int| FooModel::of_input(assigned_id(base, k), input.deep_view()[k]),
            ));
        }
        let out = interpret_insert_many(res);
        proof {
            assert forall|k: int|
                0 <= k < gvs.deep_view().len() implies (#[trigger] gvs.deep_view()[k]) matches
                ValueModel::Scal(ScalarModel::Id(_)) by {
                assert(gvs.deep_view()[k] == ValueModel::Scal(
                    ScalarModel::Id(assigned_id(base, k)),
                ));
            }
            assert(out is Ok);
            let ids = out->Ok_0;
            assert(ids@.len() == input@.len());
            assert forall|k: int| 0 <= k < ids@.len() implies ids@[k] == assigned_id(base, k) by {
                assert(gvs.deep_view()[k] == ValueModel::Scal(
                    ScalarModel::Id(assigned_id(base, k)),
                ));
                assert(gvs.deep_view()[k] == ValueModel::Scal(ScalarModel::Id(ids@[k])));
            }
        }
        out
    }

    /// Deletes the `Foo` document carrying the identifier: looks the
    /// document up first and, when present, issues a delete restricted to
    /// that exact document. Deleting an absent identifier is not an error:
    /// it reports "not deleted" and leaves the collection unchanged.
    pub fn delete_foos(&self, state: &mut Collection, foo_id: ObjectId) -> (r: Result<bool, Error>)
        requires
            old(state).wf(),
        ensures
            final(state).wf(),
            final(state).counter() == old(state).counter(),
            old(state).has_id(foo_id) ==> r == Ok::<bool, Error>(true) && final(state).foos()
                == old(state).foos().remove(old(state).index_of_id(foo_id))
                && !final(state).has_id(foo_id),
            !old(state).has_id(foo_id) ==> r == Ok::<bool, Error>(false) && final(state).foos()
                == old(state).foos(),
    {
        let found = state.find_one_by_id(foo_id);
        match found {
            Some(doc) => {
                proof {
                    assert(crate::store::doc_id(doc@) == foo_id);
                }
                let res = state.delete_one(&doc);
                interpret_delete(res)
            },
            None => Ok(false),
        }
    }

    /// Appends a `Thing` at the tail of an existing `Foo`'s embedded
    /// sequence with one atomic update scoped to the parent's identifier,
    /// and reports the store's matched and modified counts. A nonexistent
    /// parent is not an error: both counts come back zero.
    pub fn add_thing(&self, state: &mut Collection, foo_id: ObjectId, input: &ThingInput) -> (r:
        Result<UpdateStats, Error>)
        requires
            old(state).wf(),
        ensures
            final(state).wf(),
            final(state).counter() == old(state).counter(),
            old(state).has_id(foo_id) ==> r == Ok::<UpdateStats, Error>(
                UpdateStats { id: None, matched_count: 1, modified_count: 1 },
            ) && final(state).foos() == old(state).foos().update(
                old(state).index_of_id(foo_id),
                appended(old(state).foos()[old(state).index_of_id(foo_id)], input@),
            ) && final(state).has_id(foo_id),
            !old(state).has_id(foo_id) ==> r == Ok::<UpdateStats, Error>(
                UpdateStats { id: None, matched_count: 0, modified_count: 0 },
            ) && final(state).foos() == old(state).foos(),
    {
        let doc = encode_thing(input);
        proof {
            lemma_thing_round_trip(input@);
        }
        let res = state.update_one_push(foo_id, doc);
        proof {
            if old(state).has_id(foo_id) {
                let k = old(state).index_of_id(foo_id);
                assert(state.foos()[k].id == foo_id);
            }
        }
        interpret_update(res)
    }
}

/// Interprets a single-document insert reply: the assigned identifier on
/// success; the write exception as an error; a reply carrying neither as a
/// missing-value error; a non-identifier value as a decode error.
pub fn interpret_insert_one(res: InsertOneResult) -> (r: Result<ObjectId, Error>)
    ensures
        match res.inserted_id {
            Some(v) => match v@ {
                ValueModel::Scal(ScalarModel::Id(i)) => r == Ok::<ObjectId, Error>(i),
                _ => r matches Err(e) && e matches Error::Decode(_),
            },
            None => match res.write_exception {
                Some(w) => r == Err::<ObjectId, Error>(Error::WriteException(w)),
                None => r matches Err(e) && e matches Error::Missing(_),
            },
        },
{
    match res.inserted_id {
        Some(v) => match v {
            Value::Scal(Scalar::Id(i)) => Ok(i),
            _ => Err(
                Error::Decode(String::from_str("insert reply carried a non-identifier value")),
            ),
        },
        None => match res.write_exception {
            Some(w) => Err(Error::WriteException(w)),
            None => Err(
                Error::Missing(
                    String::from_str("insert reply carried neither an identifier nor an exception"),
                ),
            ),
        },
    }
}

/// Interprets a batched insert reply: one identifier per inserted
/// document, in the reply's order; the bulk write exception as an error; a
/// reply carrying neither as a missing-value error; any non-identifier
/// value as a decode error.
pub fn interpret_insert_many(res: InsertManyResult) -> (r: Result<Vec<ObjectId>, Error>)
    ensures
        match res.inserted_ids {
            Some(vs) => if forall|k: int|
                0 <= k < vs.deep_view().len() ==> (#[trigger] vs.deep_view()[k]) matches
                    ValueModel::Scal(ScalarModel::Id(_)) {
                r matches Ok(ids) && ids@.len() == vs@.len() && forall|k: int|
                    0 <= k < ids@.len() ==> vs.deep_view()[k] == ValueModel::Scal(
                        ScalarModel::Id(ids@[k]),
                    )
            } else {
                r matches Err(e) && e matches Error::Decode(_)
            },
            None => match res.bulk_write_exception {
                Some(w) => r == Err::<Vec<ObjectId>, Error>(Error::WriteException(w)),
                None => r matches Err(e) && e matches Error::Missing(_),
            },
        },
{
    let vs: &Vec<Value> = match &res.inserted_ids {
        Some(vs) => vs,
        None => {
            return match res.bulk_write_exception {
                Some(w) => Err(Error::WriteException(w)),
                None => Err(
                    Error::Missing(
                        String::from_str(
                            "batched insert reply carried neither identifiers nor an exception",
                        ),
                    ),
                ),
            };
        },
    };
    let n = vs.len();
    let mut out: Vec<ObjectId> = Vec::new();
    for i in 0..n
        invariant
            res.inserted_ids == Some(*vs),
            n == vs@.len(),
            out.len() == i,
            forall|j: int|
                0 <= j < i ==> vs.deep_view()[j] == ValueModel::Scal(ScalarModel::Id(out@[j])),
    {
        proof {
            assert(vs.deep_view()[i as int] == vs@[i as int].deep_view());
        }
        match &vs[i] {
            Value::Scal(Scalar::Id(oid)) => {
                out.push(*oid);
            },
            _ => {
                proof {
                    assert(!(vs.deep_view()[i as int] matches ValueModel::Scal(
                        ScalarModel::Id(_),
                    )));
                }
                return Err(
                    Error::Decode(
                        String::from_str("batched insert reply carried a non-identifier value"),
                    ),
                );
            },
        }
    }
    Ok(out)
}

/// Interprets a delete reply: a positive deleted count is success; a zero
/// count with a write exception surfaces the exception; a zero count with
/// none reports "not deleted", tolerating the lookup-to-delete race.
pub fn interpret_delete(res: DeleteResult) -> (r: Result<bool, Error>)
    ensures
        res.deleted_count > 0 ==> r == Ok::<bool, Error>(true),
        res.deleted_count <= 0 ==> match res.write_exception {
            Some(w) => r == Err::<bool, Error>(Error::WriteException(w)),
            None => r == Ok::<bool, Error>(false),
        },
{
    if res.deleted_count > 0 {
        Ok(true)
    } else {
        match res.write_exception {
            Some(w) => Err(Error::WriteException(w)),
            None => Ok(false),
        }
    }
}

/// Interprets an update reply: the write exception as an error; otherwise
/// the matched and modified counts, together with the identifier of an
/// implicitly created document when the store reports one; a
/// non-identifier value there is a decode error.
pub fn interpret_update(res: UpdateResult) -> (r: Result<UpdateStats, Error>)
    ensures
        match res.write_exception {
            Some(w) => r == Err::<UpdateStats, Error>(Error::WriteException(w)),
            None => match res.upserted_id {
                Some(v) => match v@ {
                    ValueModel::Scal(ScalarModel::Id(i)) => r == Ok::<UpdateStats, Error>(
                        UpdateStats {
                            id: Some(i),
                            matched_count: res.matched_count,
                            modified_count: res.modified_count,
                        },
                    ),
                    _ => r matches Err(e) && e matches Error::Decode(_),
                },
                None => r == Ok::<UpdateStats, Error>(
                    UpdateStats {
                        id: None,
                        matched_count: res.matched_count,
                        modified_count: res.modified_count,
                    },
                ),
            },
        },
{
    match res.write_exception {
        Some(w) => Err(Error::WriteException(w)),
        None => {
            let id = match res.upserted_id {
                Some(v) => match v {
                    Value::Scal(Scalar::Id(i)) => Some(i),
                    _ => {
                        return Err(
                            Error::Decode(
                                String::from_str("update reply carried a non-identifier value"),
                            ),
                        );
                    },
                },
                None => None,
            };
            Ok(
                UpdateStats {
                    id,
                    matched_count: res.matched_count,
                    modified_count: res.modified_count,
                },
            )
        },
    }
}

} // verus!
