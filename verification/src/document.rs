//! The store's native value format: tree-structured documents of key/value
//! entries, where a value is a string, an identifier, or an array of
//! embedded documents whose own entries are scalars.
//!
//! A document may hold any keys in any order, as the store is schemaless;
//! when a key occurs twice the first occurrence is the one read, as lookup
//! scans front to back.

use crate::types::ObjectId;
use vstd::prelude::*;

verus! {

/// A leaf value of a document: a string or an identifier.
#[derive(Debug, PartialEq)]
pub enum Scalar {
    Str(String),
    Id(ObjectId),
}

/// Mathematical model of a leaf value.
pub enum ScalarModel {
    Str(Seq<char>),
    Id(ObjectId),
}

impl View for Scalar {
    type V = ScalarModel;

    open spec fn view(&self) -> ScalarModel {
        match self {
            Scalar::Str(s) => ScalarModel::Str(s@),
            Scalar::Id(i) => ScalarModel::Id(*i),
        }
    }
}

impl DeepView for Scalar {
    type V = ScalarModel;

    open spec fn deep_view(&self) -> ScalarModel {
        self.view()
    }
}

/// An embedded document: key/value entries whose values are scalars.
#[derive(Debug, PartialEq)]
pub struct FlatDoc {
    pub entries: Vec<(String, Scalar)>,
}

/// Mathematical model of an embedded document.
pub type FlatDocModel = Seq<(Seq<char>, ScalarModel)>;

impl View for FlatDoc {
    type V = FlatDocModel;

    open spec fn view(&self) -> FlatDocModel {
        self.entries.deep_view()
    }
}

impl DeepView for FlatDoc {
    type V = FlatDocModel;

    open spec fn deep_view(&self) -> FlatDocModel {
        self.view()
    }
}

/// A value of a top-level document: a scalar or an array of embedded
/// documents.
#[derive(Debug, PartialEq)]
pub enum Value {
    Scal(Scalar),
    Docs(Vec<FlatDoc>),
}

/// Mathematical model of a top-level value.
pub enum ValueModel {
    Scal(ScalarModel),
    Docs(Seq<FlatDocModel>),
}

impl View for Value {
    type V = ValueModel;

    open spec fn view(&self) -> ValueModel {
        match self {
            Value::Scal(s) => ValueModel::Scal(s@),
            Value::Docs(ds) => ValueModel::Docs(ds.deep_view()),
        }
    }
}

impl DeepView for Value {
    type V = ValueModel;

    open spec fn deep_view(&self) -> ValueModel {
        self.view()
    }
}

/// A top-level document.
#[derive(Debug, PartialEq)]
pub struct Document {
    pub entries: Vec<(String, Value)>,
}

/// Mathematical model of a top-level document.
pub type DocModel = Seq<(Seq<char>, ValueModel)>;

impl View for Document {
    type V = DocModel;

    open spec fn view(&self) -> DocModel {
        self.entries.deep_view()
    }
}

impl DeepView for Document {
    type V = DocModel;

    open spec fn deep_view(&self) -> DocModel {
        self.view()
    }
}

impl Clone for Scalar {
    /// Cloning keeps the modelled value.
    fn clone(&self) -> (r: Self)
        ensures
            r@ == self@,
    {
        match self {
            Scalar::Str(s) => Scalar::Str(s.clone()),
            Scalar::Id(i) => Scalar::Id(*i),
        }
    }
}

impl Clone for FlatDoc {
    /// Cloning keeps the modelled entries.
    fn clone(&self) -> (r: Self)
        ensures
            r@ == self@,
    {
        let n = self.entries.len();
        let mut entries: Vec<(String, Scalar)> = Vec::new();
        for i in 0..n
            invariant
                n == self.entries.len(),
                entries.len() == i,
                forall|j: int| 0 <= j < i ==> entries.deep_view()[j] == self@[j],
        {
            let ghost prev = entries@;
            let ghost prevd = entries.deep_view();
            let e = &self.entries[i];
            entries.push((e.0.clone(), e.1.clone()));
            proof {
                assert forall|j: int| 0 <= j < i + 1 implies entries.deep_view()[j] == self@[j] by {
                    assert(entries.deep_view()[j] == entries@[j].deep_view());
                    if j < i {
                        assert(entries@[j] == prev[j]);
                        assert(prevd[j] == prev[j].deep_view());
                    } else {
                        assert(self@[j] == self.entries@[j].deep_view());
                    }
                }
            }
        }
        let r = FlatDoc { entries };
        proof {
            assert(r@ =~= self@);
        }
        r
    }
}

impl Clone for Value {
    /// Cloning keeps the modelled value.
    fn clone(&self) -> (r: Self)
        ensures
            r@ == self@,
    {
        match self {
            Value::Scal(s) => Value::Scal(s.clone()),
            Value::Docs(ds) => {
                let n = ds.len();
                let mut out: Vec<FlatDoc> = Vec::new();
                for i in 0..n
                    invariant
                        n == ds.len(),
                        out.len() == i,
                        forall|j: int| 0 <= j < i ==> out.deep_view()[j] == ds.deep_view()[j],
                {
                    let ghost prev = out@;
                    let ghost prevd = out.deep_view();
                    out.push(ds[i].clone());
                    proof {
                        assert forall|j: int| 0 <= j < i + 1 implies out.deep_view()[j]
                            == ds.deep_view()[j] by {
                            assert(out.deep_view()[j] == out@[j].deep_view());
                            if j < i {
                                assert(out@[j] == prev[j]);
                                assert(prevd[j] == prev[j].deep_view());
                            } else {
                                assert(ds.deep_view()[j] == ds@[j].deep_view());
                            }
                        }
                    }
                }
                proof {
                    assert(out.deep_view() =~= ds.deep_view());
                }
                Value::Docs(out)
            },
        }
    }
}

impl Clone for Document {
    /// Cloning keeps the modelled entries.
    fn clone(&self) -> (r: Self)
        ensures
            r@ == self@,
    {
        let n = self.entries.len();
        let mut entries: Vec<(String, Value)> = Vec::new();
        for i in 0..n
            invariant
                n == self.entries.len(),
                entries.len() == i,
                forall|j: int| 0 <= j < i ==> entries.deep_view()[j] == self@[j],
        {
            let ghost prev = entries@;
            let ghost prevd = entries.deep_view();
            let e = &self.entries[i];
            entries.push((e.0.clone(), e.1.clone()));
            proof {
                assert forall|j: int| 0 <= j < i + 1 implies entries.deep_view()[j] == self@[j] by {
                    assert(entries.deep_view()[j] == entries@[j].deep_view());
                    if j < i {
                        assert(entries@[j] == prev[j]);
                        assert(prevd[j] == prev[j].deep_view());
                    } else {
                        assert(self@[j] == self.entries@[j].deep_view());
                    }
                }
            }
        }
        let r = Document { entries };
        proof {
            assert(r@ =~= self@);
        }
        r
    }
}

/// The value under `key` in a document model: the first entry with that
/// key, or nothing when the key is absent.
pub open spec fn doc_get(d: DocModel, key: Seq<char>) -> Option<ValueModel>
    decreases d.len(),
{
    if d.len() == 0 {
        None
    } else if d[0].0 == key {
        Some(d[0].1)
    } else {
        doc_get(d.drop_first(), key)
    }
}

/// The value under `key` in an embedded-document model.
pub open spec fn flat_get(d: FlatDocModel, key: Seq<char>) -> Option<ScalarModel>
    decreases d.len(),
{
    if d.len() == 0 {
        None
    } else if d[0].0 == key {
        Some(d[0].1)
    } else {
        flat_get(d.drop_first(), key)
    }
}

/// Pushing onto a vector pushes the element's model onto the vector's
/// model.
pub proof fn lemma_vec_deep_view_push<T: DeepView>(pre: Vec<T>, post: Vec<T>, x: T)
    requires
        post@ == pre@.push(x),
    ensures
        post.deep_view() == pre.deep_view().push(x.deep_view()),
{
    assert(post.deep_view() =~= pre.deep_view().push(x.deep_view()));
}

/// Removing from a vector removes the element's model from the vector's
/// model.
pub proof fn lemma_vec_deep_view_remove<T: DeepView>(pre: Vec<T>, post: Vec<T>, i: int)
    requires
        0 <= i < pre@.len(),
        post@ == pre@.remove(i),
    ensures
        post.deep_view() == pre.deep_view().remove(i),
{
    assert(post.deep_view() =~= pre.deep_view().remove(i));
}

/// Inserting into a vector inserts the element's model into the vector's
/// model.
pub proof fn lemma_vec_deep_view_insert<T: DeepView>(pre: Vec<T>, post: Vec<T>, i: int, x: T)
    requires
        0 <= i <= pre@.len(),
        post@ == pre@.insert(i, x),
    ensures
        post.deep_view() == pre.deep_view().insert(i, x.deep_view()),
{
    assert(post.deep_view() =~= pre.deep_view().insert(i, x.deep_view()));
}

/// Looks a key up in a top-level document, front to back.
pub fn document_get<'a>(d: &'a Document, key: &String) -> (r: Option<&'a Value>)
    ensures
        match r {
            Some(v) => doc_get(d@, key@) == Some(v.deep_view()),
            None => doc_get(d@, key@) is None,
        },
{
    let n = d.entries.len();
    proof {
        assert(d@.skip(0) =~= d@);
    }
    for i in 0..n
        invariant
            n == d.entries.len(),
            doc_get(d@, key@) == doc_get(d@.skip(i as int), key@),
    {
        proof {
            assert(d@.skip(i as int)[0] == d@[i as int]);
            assert(d@.skip(i as int).drop_first() =~= d@.skip(i + 1));
        }
        if d.entries[i].0 == *key {
            return Some(&d.entries[i].1);
        }
    }
    proof {
        assert(d@.skip(n as int) =~= Seq::<(Seq<char>, ValueModel)>::empty());
    }
    None
}

/// Looks a key up in an embedded document, front to back.
pub fn flat_doc_get<'a>(d: &'a FlatDoc, key: &String) -> (r: Option<&'a Scalar>)
    ensures
        match r {
            Some(v) => flat_get(d@, key@) == Some(v@),
            None => flat_get(d@, key@) is None,
        },
{
    let n = d.entries.len();
    proof {
        assert(d@.skip(0) =~= d@);
    }
    for i in 0..n
        invariant
            n == d.entries.len(),
            flat_get(d@, key@) == flat_get(d@.skip(i as int), key@),
    {
        proof {
            assert(d@.skip(i as int)[0] == d@[i as int]);
            assert(d@.skip(i as int).drop_first() =~= d@.skip(i + 1));
        }
        if d.entries[i].0 == *key {
            return Some(&d.entries[i].1);
        }
    }
    proof {
        assert(d@.skip(n as int) =~= Seq::<(Seq<char>, ScalarModel)>::empty());
    }
    None
}

} // verus!
