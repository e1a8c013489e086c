//! An in-memory model of the store collaborator: a schemaless collection
//! of documents holding `Foo` aggregates, with the operations the
//! resolvers need: find-all, find-by-identifier, insert-one, insert-many,
//! delete-one and an atomic append-to-embedded-array update.
//!
//! Write-style operations return result descriptors mirroring the store's
//! wire shapes, so the resolvers interpret a descriptor exactly as they
//! would interpret a real store's reply; the model itself never reports a
//! write exception. The collection assigns identifiers from a counter that
//! never repeats, so an identifier is unique within the collection and
//! never reused. The append update rewrites the stored document as the
//! encoding of the updated aggregate.

use crate::codec::{decode_foo, decode_foo_doc, decode_thing, decode_thing_doc, encode_foo_payload,
    id_key, id_key_string, lemma_foo_round_trip, with_id};
use crate::document::{doc_get, document_get, lemma_vec_deep_view_insert, lemma_vec_deep_view_push,
    lemma_vec_deep_view_remove, DocModel, Document, FlatDoc, Scalar, ScalarModel, Value,
    ValueModel};
use crate::types::{FooInputModel, FooModel, ObjectId, ThingModel};
use vstd::pervasive::unreached;
use vstd::prelude::*;

verus! {

/// Result descriptor of a single-document insert: the identifier the store
/// assigned, or the write exception it reported.
pub struct InsertOneResult {
    pub inserted_id: Option<Value>,
    pub write_exception: Option<String>,
}

/// Result descriptor of a batched insert: the assigned identifiers in
/// input order, or the bulk write exception the store reported.
pub struct InsertManyResult {
    pub inserted_ids: Option<Vec<Value>>,
    pub bulk_write_exception: Option<String>,
}

/// Result descriptor of a delete.
pub struct DeleteResult {
    pub deleted_count: i32,
    pub write_exception: Option<String>,
}

/// Result descriptor of an update: the counts of matched and modified
/// documents, and an identifier only when the update created a document.
pub struct UpdateResult {
    pub matched_count: i32,
    pub modified_count: i32,
    pub upserted_id: Option<Value>,
    pub write_exception: Option<String>,
}

/// The identifier a document carries under the reserved key, when it
/// carries one.
pub open spec fn doc_id(d: DocModel) -> ObjectId {
    match doc_get(d, id_key()) {
        Some(ValueModel::Scal(ScalarModel::Id(i))) => i,
        _ => ObjectId { hi: 0, lo: 0 },
    }
}

/// The identifier assigned to the `k`-th document of a batch inserted when
/// the counter stood at `base`.
pub open spec fn assigned_id(base: u64, k: int) -> ObjectId {
    ObjectId { hi: (base + k) as u64, lo: 0 }
}

/// The aggregates a batch of identifier-less documents becomes once the
/// store has assigned identifiers starting from `base`.
pub open spec fn inserted_models(base: u64, ds: Seq<DocModel>) -> Seq<FooModel> {
    Seq::new(ds.len(), |k: int| decode_foo_doc(with_id(assigned_id(base, k), ds[k]))->Some_0)
}

/// A `Foo` aggregate with one more `Thing` at the tail of its sequence and
/// everything else unchanged.
pub open spec fn appended(f: FooModel, t: ThingModel) -> FooModel {
    FooModel { id: f.id, foo_string: f.foo_string, things: f.things.push(t) }
}

/// The in-memory collection: stored documents plus the identifier counter.
pub struct Collection {
    docs: Vec<Document>,
    next_id: u64,
}

impl Collection {
    /// The models of the stored documents.
    pub closed spec fn docs_model(&self) -> Seq<DocModel> {
        self.docs.deep_view()
    }

    /// The identifier counter; the next assigned identifier is built from
    /// it.
    pub closed spec fn counter(&self) -> u64 {
        self.next_id
    }

    /// The identifier the next single-document insert will assign.
    pub open spec fn fresh_id(&self) -> ObjectId {
        ObjectId { hi: self.counter(), lo: 0 }
    }

    /// The stored aggregates, in storage order.
    pub closed spec fn foos(&self) -> Seq<FooModel> {
        Seq::new(self.docs_model().len(), |i: int| decode_foo_doc(self.docs_model()[i])->Some_0)
    }

    /// Well-formedness: every stored document decodes to an aggregate,
    /// every stored identifier was assigned from an earlier counter state,
    /// and identifiers are pairwise distinct.
    pub closed spec fn wf(&self) -> bool {
        &&& forall|i: int|
            0 <= i < self.docs_model().len() ==> decode_foo_doc(#[trigger] self.docs_model()[i])
                is Some
        &&& forall|i: int|
            0 <= i < self.foos().len() ==> (#[trigger] self.foos()[i].id).lo == 0
                && self.foos()[i].id.hi < self.counter()
        &&& forall|i: int, j: int|
            0 <= i < j < self.foos().len() ==> (#[trigger] self.foos()[i]).id != (
            #[trigger] self.foos()[j]).id
    }

    /// Whether some stored aggregate carries the identifier.
    pub open spec fn has_id(&self, id: ObjectId) -> bool {
        exists|i: int| 0 <= i < self.foos().len() && (#[trigger] self.foos()[i]).id == id
    }

    /// The index of the stored aggregate carrying the identifier.
    pub open spec fn index_of_id(&self, id: ObjectId) -> int {
        choose|i: int| 0 <= i < self.foos().len() && (#[trigger] self.foos()[i]).id == id
    }

    /// Under well-formedness, the full scan decodes element-wise to the
    /// stored aggregates.
    pub proof fn lemma_foos_decode(&self)
        requires
            self.wf(),
        ensures
            crate::codec::decode_foo_docs(self.docs_model()) == Some(self.foos()),
    {
        crate::codec::lemma_decode_foo_docs_pointwise(self.docs_model());
        assert(self.foos() =~= Seq::new(
            self.docs_model().len(),
            |i: int| decode_foo_doc(self.docs_model()[i])->Some_0,
        ));
    }

    /// An empty collection.
    pub fn new() -> (r: Collection)
        ensures
            r.wf(),
            r.foos() == Seq::<FooModel>::empty(),
            r.counter() == 0,
    {
        let r = Collection { docs: Vec::new(), next_id: 0 };
        proof {
            assert(r.docs_model() =~= Seq::<DocModel>::empty());
            assert(r.foos() =~= Seq::<FooModel>::empty());
        }
        r
    }

    /// Full-collection scan: every stored document, in storage order.
    pub fn find_all(&self) -> (r: Vec<Document>)
        ensures
            r.deep_view() == self.docs_model(),
    {
        let n = self.docs.len();
        let mut out: Vec<Document> = Vec::new();
        for i in 0..n
            invariant
                n == self.docs@.len(),
                out.len() == i,
                forall|j: int| 0 <= j < i ==> out.deep_view()[j] == self.docs_model()[j],
        {
            let ghost prev = out@;
            let ghost prevd = out.deep_view();
            out.push(self.docs[i].clone());
            proof {
                assert forall|j: int| 0 <= j < i + 1 implies out.deep_view()[j]
                    == self.docs_model()[j] by {
                    assert(out.deep_view()[j] == out@[j].deep_view());
                    if j < i {
                        assert(out@[j] == prev[j]);
                        assert(prevd[j] == prev[j].deep_view());
                    } else {
                        assert(self.docs_model()[j] == self.docs@[j].deep_view());
                    }
                }
            }
        }
        proof {
            assert(out.deep_view() =~= self.docs_model());
        }
        out
    }

    /// Find-by-filter on the reserved identifier key: the stored document
    /// carrying the identifier, or nothing.
    pub fn find_one_by_id(&self, id: ObjectId) -> (r: Option<Document>)
        requires
            self.wf(),
        ensures
            match r {
                Some(d) => self.has_id(id) && d@ == self.docs_model()[self.index_of_id(id)]
                    && doc_get(d@, id_key()) == Some(ValueModel::Scal(ScalarModel::Id(id))),
                None => !self.has_id(id),
            },
    {
        let key = id_key_string();
        let n = self.docs.len();
        for i in 0..n
            invariant
                self.wf(),
                key@ == id_key(),
                n == self.docs@.len(),
                forall|j: int| 0 <= j < i ==> (#[trigger] self.foos()[j]).id != id,
        {
            proof {
                assert(self.docs_model()[i as int] == self.docs@[i as int].deep_view());
                assert(self.foos()[i as int] == decode_foo_doc(
                    self.docs_model()[i as int],
                )->Some_0);
            }
            match document_get(&self.docs[i], &key) {
                Some(Value::Scal(Scalar::Id(oid))) => {
                    if *oid == id {
                        proof {
                            assert(self.foos()[i as int].id == id);
                            self.lemma_unique_index(id, i as int);
                            assert(doc_get(self.docs_model()[i as int], id_key()) == Some(
                                ValueModel::Scal(ScalarModel::Id(id)),
                            ));
                        }
                        return Some(self.docs[i].clone());
                    }
                },
                _ => {
                    return unreached();
                },
            }
        }
        None
    }

    /// Under well-formedness, an index whose aggregate carries `id` is the
    /// one `index_of_id` names.
    proof fn lemma_unique_index(&self, id: ObjectId, i: int)
        requires
            self.wf(),
            0 <= i < self.foos().len(),
            self.foos()[i].id == id,
        ensures
            self.has_id(id),
            self.index_of_id(id) == i,
    {
        assert(self.has_id(id));
        let k = self.index_of_id(id);
        assert(0 <= k < self.foos().len() && self.foos()[k].id == id);
        if k < i {
            assert(self.foos()[k].id != self.foos()[i].id);
        } else if i < k {
            assert(self.foos()[i].id != self.foos()[k].id);
        }
    }

    /// Single-document insert: assigns the next identifier, stores the
    /// document with it under the reserved key in front, and reports the
    /// assigned identifier; the model never reports a write exception.
    pub fn insert_one(&mut self, d: Document) -> (r: InsertOneResult)
        requires
            old(self).wf(),
            forall|id: ObjectId| decode_foo_doc(#[trigger] with_id(id, d@)) is Some,
            old(self).counter() < u64::MAX,
        ensures
            final(self).wf(),
            r.write_exception is None,
            r.inserted_id matches Some(v) && v@ == ValueModel::Scal(
                ScalarModel::Id(old(self).fresh_id()),
            ),
            !old(self).has_id(old(self).fresh_id()),
            final(self).foos() == old(self).foos().push(
                decode_foo_doc(with_id(old(self).fresh_id(), d@))->Some_0,
            ),
            final(self).counter() == old(self).counter() + 1,
    {
        let ghost pre = *self;
        let ghost dm = d@;
        let id = ObjectId { hi: self.next_id, lo: 0 };
        let mut entries: Vec<(String, Value)> = vec![
            (id_key_string(), Value::Scal(Scalar::Id(id))),
        ];
        let mut rest = d;
        entries.append(&mut rest.entries);
        let newdoc = Document { entries };
        proof {
            assert(newdoc@ =~= with_id(id, dm));
        }
        let ghost predocs = self.docs;
        self.docs.push(newdoc);
        self.next_id = self.next_id + 1;
        let ghost m = decode_foo_doc(with_id(id, dm))->Some_0;
        proof {
            lemma_vec_deep_view_push(predocs, self.docs, newdoc);
            assert(self.docs_model() == pre.docs_model().push(with_id(id, dm)));
            assert((seq![(id_key(), ValueModel::Scal(ScalarModel::Id(id)))] + dm)[0] == (
                id_key(),
                ValueModel::Scal(ScalarModel::Id(id)),
            ));
            assert(doc_get(with_id(id, dm), id_key()) == Some(
                ValueModel::Scal(ScalarModel::Id(id)),
            ));
            assert(m.id == id);
            assert forall|i: int| 0 <= i < pre.foos().len() implies self.foos()[i] == pre.foos()[i]
                by {
                assert(self.docs_model()[i] == pre.docs_model()[i]);
            }
            assert(self.foos() =~= pre.foos().push(m));
            assert forall|i: int| 0 <= i < pre.foos().len() implies (
            #[trigger] pre.foos()[i]).id != id by {
                assert(pre.foos()[i].id.hi < pre.counter());
            }
            assert(!pre.has_id(id));
            assert(self.wf());
        }
        InsertOneResult {
            inserted_id: Some(Value::Scal(Scalar::Id(id))),
            write_exception: None,
        }
    }

    /// Batched insert: one logical operation that stores every document,
    /// assigning consecutive identifiers in input order, and reports them
    /// in that order; the model never reports a bulk write exception.
    pub fn insert_many(&mut self, ds: Vec<Document>) -> (r: InsertManyResult)
        requires
            old(self).wf(),
            forall|k: int, id: ObjectId|
                0 <= k < ds.deep_view().len() ==> decode_foo_doc(
                    #[trigger] with_id(id, ds.deep_view()[k]),
                ) is Some,
            old(self).counter() + ds@.len() <= u64::MAX,
        ensures
            final(self).wf(),
            r.bulk_write_exception is None,
            r.inserted_ids matches Some(ids) && ids@.len() == ds@.len() && forall|k: int|
                0 <= k < ids@.len() ==> ids.deep_view()[k] == ValueModel::Scal(
                    ScalarModel::Id(assigned_id(old(self).counter(), k)),
                ),
            final(self).foos() == old(self).foos() + inserted_models(
                old(self).counter(),
                ds.deep_view(),
            ),
            final(self).counter() == old(self).counter() + ds@.len(),
    {
        let ghost pre = *self;
        let ghost dsm = ds.deep_view();
        let n = ds.len();
        let mut ds = ds;
        let mut ids: Vec<Value> = Vec::new();
        proof {
            assert(ds.deep_view() =~= dsm.skip(0));
        }
        for i in 0..n
            invariant
                self.wf(),
                n == dsm.len(),
                ds@.len() == n - i,
                ds.deep_view() =~= dsm.skip(i as int),
                forall|k: int, id: ObjectId|
                    0 <= k < dsm.len() ==> decode_foo_doc(#[trigger] with_id(id, dsm[k])) is Some,
                pre.counter() + n <= u64::MAX,
                self.counter() == pre.counter() + i,
                self.foos() =~= pre.foos() + inserted_models(pre.counter(), dsm.take(i as int)),
                ids@.len() == i,
                forall|k: int|
                    0 <= k < i ==> ids.deep_view()[k] == ValueModel::Scal(
                        ScalarModel::Id(assigned_id(pre.counter(), k)),
                    ),
        {
            let ghost preds = ds;
            let doc = ds.remove(0);
            proof {
                lemma_vec_deep_view_remove(preds, ds, 0);
                assert(preds.deep_view()[0] == preds@[0].deep_view());
                assert(doc@ == dsm[i as int]);
                assert(ds.deep_view() =~= dsm.skip(i + 1));
            }
            let res = self.insert_one(doc);
            let v = match res.inserted_id {
                Some(v) => v,
                None => unreached(),
            };
            let ghost preids = ids;
            let ghost previds = ids.deep_view();
            ids.push(v);
            proof {
                lemma_vec_deep_view_push(preids, ids, v);
                assert forall|k: int| 0 <= k < i + 1 implies ids.deep_view()[k]
                    == ValueModel::Scal(ScalarModel::Id(assigned_id(pre.counter(), k))) by {
                    if k < i {
                        assert(ids.deep_view()[k] == previds[k]);
                    }
                }
                assert(inserted_models(pre.counter(), dsm.take(i + 1)) =~= inserted_models(
                    pre.counter(),
                    dsm.take(i as int),
                ).push(decode_foo_doc(with_id(assigned_id(pre.counter(), i as int), dsm[i as int]))->Some_0));
                assert(self.foos() =~= pre.foos() + inserted_models(
                    pre.counter(),
                    dsm.take(i + 1),
                ));
            }
        }
        proof {
            assert(dsm.take(n as int) =~= dsm);
            assert(ids.deep_view().len() == ids@.len());
        }
        InsertManyResult { inserted_ids: Some(ids), bulk_write_exception: None }
    }

    /// Delete restricted to one exact document, named by the identifier it
    /// carries: removes the stored document with that identifier, if any;
    /// the model never reports a write exception.
    pub fn delete_one(&mut self, d: &Document) -> (r: DeleteResult)
        requires
            old(self).wf(),
            doc_get(d@, id_key()) matches Some(ValueModel::Scal(ScalarModel::Id(_))),
        ensures
            final(self).wf(),
            r.write_exception is None,
            final(self).counter() == old(self).counter(),
            old(self).has_id(doc_id(d@)) ==> r.deleted_count == 1 && final(self).foos() == old(self).foos().remove(old(self).index_of_id(doc_id(d@))) && !final(self).has_id(doc_id(d@)),
            !old(self).has_id(doc_id(d@)) ==> r.deleted_count == 0 && final(self).foos() == old(self).foos(),
    {
        let ghost pre = *self;
        let key = id_key_string();
        let target = match document_get(d, &key) {
            Some(Value::Scal(Scalar::Id(oid))) => *oid,
            _ => unreached(),
        };
        proof {
            assert(target == doc_id(d@));
        }
        let n = self.docs.len();
        for i in 0..n
            invariant
                *self == pre,
                pre == *old(self),
                self.wf(),
                key@ == id_key(),
                target == doc_id(d@),
                doc_get(d@, id_key()) matches Some(ValueModel::Scal(ScalarModel::Id(_))),
                n == self.docs@.len(),
                forall|j: int| 0 <= j < i ==> (#[trigger] self.foos()[j]).id != target,
        {
            proof {
                assert(self.docs_model()[i as int] == self.docs@[i as int].deep_view());
                assert(self.foos()[i as int] == decode_foo_doc(
                    self.docs_model()[i as int],
                )->Some_0);
            }
            match document_get(&self.docs[i], &key) {
                Some(Value::Scal(Scalar::Id(oid))) => {
                    if *oid == target {
                        proof {
                            self.lemma_unique_index(target, i as int);
                        }
                        let ghost predocs = self.docs;
                        self.docs.remove(i);
                        proof {
                            lemma_vec_deep_view_remove(predocs, self.docs, i as int);
                            assert(self.foos() =~= pre.foos().remove(i as int));
                            assert forall|j: int|
                                0 <= j < self.foos().len() implies (#[trigger] self.foos()[j]).id
                                != target by {
                                if j < i {
                                    pre.lemma_unique_index(target, i as int);
                                    assert(self.foos()[j] == pre.foos()[j]);
                                    if pre.foos()[j].id == target {
                                        pre.lemma_unique_index(target, j);
                                    }
                                } else {
                                    assert(self.foos()[j] == pre.foos()[j + 1]);
                                    if pre.foos()[j + 1].id == target {
                                        pre.lemma_unique_index(target, j + 1);
                                    }
                                }
                            }
                            assert(!self.has_id(target));
                            assert forall|a: int, b: int|
                                0 <= a < b < self.foos().len() implies (
                            #[trigger] self.foos()[a]).id != (#[trigger] self.foos()[b]).id by {
                                let pa = if a < i {
                                    a
                                } else {
                                    a + 1
                                };
                                let pb = if b < i {
                                    b
                                } else {
                                    b + 1
                                };
                                assert(self.foos()[a] == pre.foos()[pa]);
                                assert(self.foos()[b] == pre.foos()[pb]);
                            }
                            assert(self.wf());
                        }
                        return DeleteResult { deleted_count: 1, write_exception: None };
                    }
                },
                _ => {
                    return unreached();
                },
            }
        }
        proof {
            assert(!self.has_id(target));
        }
        DeleteResult { deleted_count: 0, write_exception: None }
    }

    /// Atomic append-to-embedded-sequence update scoped to the aggregate
    /// carrying `id`: appends the embedded document at the tail of that
    /// aggregate's `Thing` sequence and reports matched and modified
    /// counts of one; with no such aggregate it reports counts of zero.
    /// The model never upserts and never reports a write exception.
    pub fn update_one_push(&mut self, id: ObjectId, t: FlatDoc) -> (r: UpdateResult)
        requires
            old(self).wf(),
            decode_thing_doc(t@) is Some,
        ensures
            final(self).wf(),
            r.write_exception is None,
            r.upserted_id is None,
            final(self).counter() == old(self).counter(),
            old(self).has_id(id) ==> r.matched_count == 1 && r.modified_count == 1 && final(self).foos() == old(self).foos().update(
                old(self).index_of_id(id),
                appended(old(self).foos()[old(self).index_of_id(id)], decode_thing_doc(t@)->Some_0),
            ),
            !old(self).has_id(id) ==> r.matched_count == 0 && r.modified_count == 0 && final(self).foos() == old(self).foos(),
    {
        let ghost pre = *self;
        let key = id_key_string();
        let n = self.docs.len();
        for i in 0..n
            invariant
                *self == pre,
                pre == *old(self),
                self.wf(),
                key@ == id_key(),
                n == self.docs@.len(),
                decode_thing_doc(t@) is Some,
                forall|j: int| 0 <= j < i ==> (#[trigger] self.foos()[j]).id != id,
        {
            proof {
                assert(self.docs_model()[i as int] == self.docs@[i as int].deep_view());
                assert(self.foos()[i as int] == decode_foo_doc(
                    self.docs_model()[i as int],
                )->Some_0);
            }
            match document_get(&self.docs[i], &key) {
                Some(Value::Scal(Scalar::Id(oid))) => {
                    if *oid == id {
                        proof {
                            self.lemma_unique_index(id, i as int);
                        }
                        let ghost predocs = self.docs;
                        let doc = self.docs.remove(i);
                        let mut payload = match decode_foo(&doc) {
                            Ok(p) => p,
                            Err(_) => unreached(),
                        };
                        let thing = match decode_thing(&t) {
                            Ok(x) => x,
                            Err(_) => unreached(),
                        };
                        proof {
                            assert(payload@ == pre.foos()[i as int]);
                            assert(thing@ == decode_thing_doc(t@)->Some_0);
                        }
                        let ghost prething = payload.things;
                        let ghost prem = payload@;
                        payload.things.push(thing);
                        proof {
                            lemma_vec_deep_view_push(prething, payload.things, thing);
                            assert(payload@ == appended(prem, thing@));
                        }
                        let new_doc = encode_foo_payload(&payload);
                        let ghost middocs = self.docs;
                        self.docs.insert(i, new_doc);
                        proof {
                            lemma_foo_round_trip(
                                payload@.id,
                                FooInputModel {
                                    foo_string: payload@.foo_string,
                                    things: payload@.things,
                                },
                            );
                            assert(decode_foo_doc(new_doc@) == Some(payload@));
                            lemma_vec_deep_view_remove(predocs, middocs, i as int);
                            lemma_vec_deep_view_insert(middocs, self.docs, i as int, new_doc);
                            assert(self.docs_model() =~= pre.docs_model().update(
                                i as int,
                                new_doc@,
                            ));
                            assert(self.foos() =~= pre.foos().update(i as int, payload@));
                            assert(payload@.id == pre.foos()[i as int].id);
                            assert forall|a: int, b: int|
                                0 <= a < b < self.foos().len() implies (
                            #[trigger] self.foos()[a]).id != (#[trigger] self.foos()[b]).id by {
                                assert(self.foos()[a].id == pre.foos()[a].id);
                                assert(self.foos()[b].id == pre.foos()[b].id);
                            }
                            assert(self.wf());
                        }
                        return UpdateResult {
                            matched_count: 1,
                            modified_count: 1,
                            upserted_id: None,
                            write_exception: None,
                        };
                    }
                },
                _ => {
                    return unreached();
                },
            }
        }
        proof {
            assert(!self.has_id(id));
        }
        UpdateResult {
            matched_count: 0,
            modified_count: 0,
            upserted_id: None,
            write_exception: None,
        }
    }
}

} // verus!
