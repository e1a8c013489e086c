//! The document codec: the bidirectional, lossless mapping between the
//! typed object model and the store's document representation.
//!
//! The typed side names fields in snake case; the document side carries
//! them in camel case, with the identifier always under the reserved key
//! `_id`. Encoding is total: every typed value of this model has a document
//! representation. Decoding is strict: a required key that is absent or has
//! the wrong shape fails with a decode error rather than being coerced, and
//! decoding a sequence halts at the first failing element.

use crate::document::{
    doc_get, flat_get, DocModel, Document, FlatDoc, FlatDocModel, Scalar, ScalarModel, Value,
    ValueModel,
};
use crate::error::Error;
use crate::types::{
    FooInput, FooInputModel, FooModel, FooPayload, ObjectId, ThingInput, ThingModel,
};
use vstd::prelude::*;
use vstd::string::StringExecFns;

verus! {

/// The reserved document key that carries an identifier.
pub open spec fn id_key() -> Seq<char> {
    "_id"@
}

/// The document key of a `Foo`'s string attribute.
pub open spec fn foo_string_key() -> Seq<char> {
    "fooString"@
}

/// The document key of a `Foo`'s embedded `Thing` array.
pub open spec fn things_key() -> Seq<char> {
    "things"@
}

/// The document key of a `Thing`'s string attribute.
pub open spec fn thing_info_key() -> Seq<char> {
    "thingInfo"@
}

/// The reserved identifier key, as an executable string.
pub fn id_key_string() -> (r: String)
    ensures
        r@ == id_key(),
{
    String::from_str("_id")
}

/// The `Foo` string-attribute key, as an executable string.
pub fn foo_string_key_string() -> (r: String)
    ensures
        r@ == foo_string_key(),
{
    String::from_str("fooString")
}

/// The embedded-array key, as an executable string.
pub fn things_key_string() -> (r: String)
    ensures
        r@ == things_key(),
{
    String::from_str("things")
}

/// The `Thing` string-attribute key, as an executable string.
pub fn thing_info_key_string() -> (r: String)
    ensures
        r@ == thing_info_key(),
{
    String::from_str("thingInfo")
}

/// The document a `Thing` encodes to.
pub open spec fn thing_to_doc(t: ThingModel) -> FlatDocModel {
    seq![
        (id_key(), ScalarModel::Id(t.id)),
        (thing_info_key(), ScalarModel::Str(t.thing_info)),
    ]
}

/// The embedded-document array a sequence of `Thing`s encodes to.
pub open spec fn things_to_docs(ts: Seq<ThingModel>) -> Seq<FlatDocModel> {
    ts.map_values(|t: ThingModel| thing_to_doc(t))
}

/// The document a `Foo`-creation input encodes to: no identifier, the
/// string attribute, and the embedded array.
pub open spec fn foo_input_to_doc(f: FooInputModel) -> DocModel {
    seq![
        (foo_string_key(), ValueModel::Scal(ScalarModel::Str(f.foo_string))),
        (things_key(), ValueModel::Docs(things_to_docs(f.things))),
    ]
}

/// A document extended with a store-assigned identifier under the reserved
/// key, in front of the existing entries.
pub open spec fn with_id(id: ObjectId, d: DocModel) -> DocModel {
    seq![(id_key(), ValueModel::Scal(ScalarModel::Id(id)))] + d
}

/// The document a stored `Foo` encodes to.
pub open spec fn foo_to_doc(f: FooModel) -> DocModel {
    with_id(f.id, foo_input_to_doc(FooInputModel { foo_string: f.foo_string, things: f.things }))
}

/// The `Thing` an embedded document decodes to, when it has the required
/// shape: an identifier under `_id` and a string under `thingInfo`.
pub open spec fn decode_thing_doc(d: FlatDocModel) -> Option<ThingModel> {
    match flat_get(d, id_key()) {
        Some(ScalarModel::Id(i)) => match flat_get(d, thing_info_key()) {
            Some(ScalarModel::Str(s)) => Some(ThingModel { id: i, thing_info: s }),
            _ => None,
        },
        _ => None,
    }
}

/// The `Thing` sequence an embedded-document array decodes to; it fails as
/// a whole as soon as one element fails.
pub open spec fn decode_thing_docs(ds: Seq<FlatDocModel>) -> Option<Seq<ThingModel>>
    decreases ds.len(),
{
    if ds.len() == 0 {
        Some(Seq::empty())
    } else {
        match decode_thing_docs(ds.drop_last()) {
            Some(ts) => match decode_thing_doc(ds.last()) {
                Some(t) => Some(ts.push(t)),
                None => None,
            },
            None => None,
        }
    }
}

/// The stored `Foo` a document decodes to, when it has the required shape:
/// an identifier under `_id`, a string under `fooString`, and a decodable
/// embedded array under `things`.
pub open spec fn decode_foo_doc(d: DocModel) -> Option<FooModel> {
    match doc_get(d, id_key()) {
        Some(ValueModel::Scal(ScalarModel::Id(i))) => match doc_get(d, foo_string_key()) {
            Some(ValueModel::Scal(ScalarModel::Str(s))) => match doc_get(d, things_key()) {
                Some(ValueModel::Docs(ds)) => match decode_thing_docs(ds) {
                    Some(ts) => Some(FooModel { id: i, foo_string: s, things: ts }),
                    None => None,
                },
                _ => None,
            },
            _ => None,
        },
        _ => None,
    }
}

/// The stored-`Foo` sequence a document sequence decodes to; it fails as a
/// whole as soon as one element fails.
pub open spec fn decode_foo_docs(ds: Seq<DocModel>) -> Option<Seq<FooModel>>
    decreases ds.len(),
{
    if ds.len() == 0 {
        Some(Seq::empty())
    } else {
        match decode_foo_docs(ds.drop_last()) {
            Some(fs) => match decode_foo_doc(ds.last()) {
                Some(f) => Some(fs.push(f)),
                None => None,
            },
            None => None,
        }
    }
}

/// Encodes a `Thing` as an embedded document.
pub fn encode_thing(t: &ThingInput) -> (r: FlatDoc)
    ensures
        r@ == thing_to_doc(t@),
{
    let entries: Vec<(String, Scalar)> = vec![
        (id_key_string(), Scalar::Id(t.id)),
        (thing_info_key_string(), Scalar::Str(t.thing_info.clone())),
    ];
    let r = FlatDoc { entries };
    proof {
        assert(r@ =~= thing_to_doc(t@));
    }
    r
}

/// Encodes a sequence of `Thing`s as an embedded-document array.
pub fn encode_things(ts: &Vec<ThingInput>) -> (r: Vec<FlatDoc>)
    ensures
        r.deep_view() == things_to_docs(ts.deep_view()),
{
    let n = ts.len();
    let mut docs: Vec<FlatDoc> = Vec::new();
    for i in 0..n
        invariant
            n == ts.len(),
            docs.len() == i,
            forall|j: int| 0 <= j < i ==> docs.deep_view()[j] == thing_to_doc(ts.deep_view()[j]),
    {
        let ghost prev = docs@;
        let ghost prevd = docs.deep_view();
        docs.push(encode_thing(&ts[i]));
        proof {
            assert forall|j: int| 0 <= j < i + 1 implies docs.deep_view()[j] == thing_to_doc(
                ts.deep_view()[j],
            ) by {
                assert(docs.deep_view()[j] == docs@[j].deep_view());
                if j < i {
                    assert(docs@[j] == prev[j]);
                    assert(prevd[j] == prev[j].deep_view());
                }
            }
        }
    }
    proof {
        assert(docs.deep_view() =~= things_to_docs(ts.deep_view()));
    }
    docs
}

/// Encodes a `Foo`-creation input as a document, without an identifier:
/// the store assigns one on insertion.
pub fn encode_foo(f: &FooInput) -> (r: Document)
    ensures
        r@ == foo_input_to_doc(f@),
{
    let docs = encode_things(&f.things);
    let entries: Vec<(String, Value)> = vec![
        (foo_string_key_string(), Value::Scal(Scalar::Str(f.foo_string.clone()))),
        (things_key_string(), Value::Docs(docs)),
    ];
    let r = Document { entries };
    proof {
        assert(r@ =~= foo_input_to_doc(f@));
    }
    r
}

/// Encodes a stored `Foo` as a document, its identifier under the reserved
/// key in front.
pub fn encode_foo_payload(p: &FooPayload) -> (r: Document)
    ensures
        r@ == foo_to_doc(p@),
{
    let docs = encode_things(&p.things);
    let entries: Vec<(String, Value)> = vec![
        (id_key_string(), Value::Scal(Scalar::Id(p.id))),
        (foo_string_key_string(), Value::Scal(Scalar::Str(p.foo_string.clone()))),
        (things_key_string(), Value::Docs(docs)),
    ];
    let r = Document { entries };
    proof {
        assert(r@ =~= foo_to_doc(p@));
    }
    r
}

/// Decodes an embedded document into a `Thing`; fails with a decode error
/// when a required key is absent or has the wrong shape.
pub fn decode_thing(d: &FlatDoc) -> (r: Result<ThingInput, Error>)
    ensures
        match r {
            Ok(t) => decode_thing_doc(d@) == Some(t@),
            Err(e) => decode_thing_doc(d@) is None && e matches Error::Decode(_),
        },
{
    let id = match flat_doc_get_id(d) {
        Some(i) => i,
        None => {
            return Err(Error::Decode(String::from_str("thing document lacks an _id identifier")));
        },
    };
    let info = match flat_doc_get_str(d) {
        Some(s) => s,
        None => {
            return Err(Error::Decode(String::from_str("thing document lacks a thingInfo string")));
        },
    };
    Ok(ThingInput { id, thing_info: info })
}

/// Reads the identifier under `_id` from an embedded document.
fn flat_doc_get_id(d: &FlatDoc) -> (r: Option<ObjectId>)
    ensures
        match r {
            Some(i) => flat_get(d@, id_key()) == Some(ScalarModel::Id(i)),
            None => !(flat_get(d@, id_key()) matches Some(ScalarModel::Id(_))),
        },
{
    let key = id_key_string();
    match crate::document::flat_doc_get(d, &key) {
        Some(Scalar::Id(i)) => Some(*i),
        _ => None,
    }
}

/// Reads the string under `thingInfo` from an embedded document.
fn flat_doc_get_str(d: &FlatDoc) -> (r: Option<String>)
    ensures
        match r {
            Some(s) => flat_get(d@, thing_info_key()) == Some(ScalarModel::Str(s@)),
            None => !(flat_get(d@, thing_info_key()) matches Some(ScalarModel::Str(_))),
        },
{
    let key = thing_info_key_string();
    match crate::document::flat_doc_get(d, &key) {
        Some(Scalar::Str(s)) => Some(s.clone()),
        _ => None,
    }
}

/// Decodes a document into a stored `Foo`; fails with a decode error when a
/// required key is absent or has the wrong shape, or when any element of
/// the embedded array does.
pub fn decode_foo(d: &Document) -> (r: Result<FooPayload, Error>)
    ensures
        match r {
            Ok(f) => decode_foo_doc(d@) == Some(f@),
            Err(e) => decode_foo_doc(d@) is None && e matches Error::Decode(_),
        },
{
    let id_k = id_key_string();
    let id = match crate::document::document_get(d, &id_k) {
        Some(Value::Scal(Scalar::Id(i))) => *i,
        _ => {
            return Err(Error::Decode(String::from_str("foo document lacks an _id identifier")));
        },
    };
    let s_k = foo_string_key_string();
    let foo_string = match crate::document::document_get(d, &s_k) {
        Some(Value::Scal(Scalar::Str(s))) => s.clone(),
        _ => {
            return Err(Error::Decode(String::from_str("foo document lacks a fooString string")));
        },
    };
    let t_k = things_key_string();
    let things = match crate::document::document_get(d, &t_k) {
        Some(Value::Docs(ds)) => match decode_things(ds) {
            Ok(ts) => ts,
            Err(e) => {
                return Err(e);
            },
        },
        _ => {
            return Err(Error::Decode(String::from_str("foo document lacks a things array")));
        },
    };
    Ok(FooPayload { id, foo_string, things })
}

/// Decodes every element of an embedded-document array, halting at the
/// first element that fails and propagating its error.
pub fn decode_things(ds: &Vec<FlatDoc>) -> (r: Result<Vec<ThingInput>, Error>)
    ensures
        match r {
            Ok(ts) => decode_thing_docs(ds.deep_view()) == Some(ts.deep_view()),
            Err(e) => decode_thing_docs(ds.deep_view()) is None && e matches Error::Decode(_),
        },
{
    let n = ds.len();
    let mut out: Vec<ThingInput> = Vec::new();
    for i in 0..n
        invariant
            n == ds.len(),
            decode_thing_docs(ds.deep_view().take(i as int)) == Some(out.deep_view()),
    {
        proof {
            assert(ds.deep_view().take(i + 1).drop_last() =~= ds.deep_view().take(i as int));
        }
        match decode_thing(&ds[i]) {
            Ok(t) => {
                out.push(t);
                proof {
                    assert(decode_thing_docs(ds.deep_view().take(i + 1)) == Some(out.deep_view()));
                }
            },
            Err(e) => {
                proof {
                    lemma_decode_thing_docs_elem_none(ds.deep_view(), i as int);
                }
                return Err(e);
            },
        }
    }
    proof {
        assert(ds.deep_view().take(n as int) =~= ds.deep_view());
    }
    Ok(out)
}

/// An embedded-document array with one undecodable element is undecodable
/// as a whole.
proof fn lemma_decode_thing_docs_elem_none(ds: Seq<FlatDocModel>, i: int)
    requires
        0 <= i < ds.len(),
        decode_thing_doc(ds[i]) is None,
    ensures
        decode_thing_docs(ds) is None,
    decreases ds.len(),
{
    if i < ds.len() - 1 {
        lemma_decode_thing_docs_elem_none(ds.drop_last(), i);
    }
}

/// Decodes every document of a collection scan, halting at the first
/// document that fails and propagating its error.
pub fn decode_foos(ds: &Vec<Document>) -> (r: Result<Vec<FooPayload>, Error>)
    ensures
        match r {
            Ok(fs) => decode_foo_docs(ds.deep_view()) == Some(fs.deep_view()),
            Err(e) => decode_foo_docs(ds.deep_view()) is None && e matches Error::Decode(_),
        },
{
    let n = ds.len();
    let mut out: Vec<FooPayload> = Vec::new();
    for i in 0..n
        invariant
            n == ds.len(),
            decode_foo_docs(ds.deep_view().take(i as int)) == Some(out.deep_view()),
    {
        proof {
            assert(ds.deep_view().take(i + 1).drop_last() =~= ds.deep_view().take(i as int));
        }
        match decode_foo(&ds[i]) {
            Ok(f) => {
                out.push(f);
                proof {
                    assert(decode_foo_docs(ds.deep_view().take(i + 1)) == Some(out.deep_view()));
                }
            },
            Err(e) => {
                proof {
                    lemma_decode_foo_docs_elem_none(ds.deep_view(), i as int);
                }
                return Err(e);
            },
        }
    }
    proof {
        assert(ds.deep_view().take(n as int) =~= ds.deep_view());
    }
    Ok(out)
}

/// A document sequence with one undecodable element is undecodable as a
/// whole.
proof fn lemma_decode_foo_docs_elem_none(ds: Seq<DocModel>, i: int)
    requires
        0 <= i < ds.len(),
        decode_foo_doc(ds[i]) is None,
    ensures
        decode_foo_docs(ds) is None,
    decreases ds.len(),
{
    if i < ds.len() - 1 {
        lemma_decode_foo_docs_elem_none(ds.drop_last(), i);
    }
}

/// A document sequence whose every element decodes, decodes element-wise.
pub proof fn lemma_decode_foo_docs_pointwise(ds: Seq<DocModel>)
    requires
        forall|i: int| 0 <= i < ds.len() ==> decode_foo_doc(#[trigger] ds[i]) is Some,
    ensures
        decode_foo_docs(ds) == Some(
            Seq::new(ds.len(), |i: int| decode_foo_doc(ds[i])->Some_0),
        ),
    decreases ds.len(),
{
    let out = Seq::new(ds.len(), |i: int| decode_foo_doc(ds[i])->Some_0);
    if ds.len() == 0 {
        assert(out =~= Seq::<FooModel>::empty());
    } else {
        lemma_decode_foo_docs_pointwise(ds.drop_last());
        let prefix = Seq::new(
            ds.drop_last().len(),
            |i: int| decode_foo_doc(ds.drop_last()[i])->Some_0,
        );
        assert(out =~= prefix.push(decode_foo_doc(ds.last())->Some_0));
    }
}

/// The reserved identifier key differs from every other key in use.
proof fn lemma_keys_distinct()
    ensures
        id_key() != foo_string_key(),
        id_key() != things_key(),
        id_key() != thing_info_key(),
        foo_string_key() != things_key(),
{
    reveal_strlit("_id");
    reveal_strlit("fooString");
    reveal_strlit("things");
    reveal_strlit("thingInfo");
    assert(id_key().len() == 3);
    assert(foo_string_key().len() == 9);
    assert(things_key().len() == 6);
    assert(thing_info_key().len() == 9);
    assert(foo_string_key()[0] == 'f');
    assert(thing_info_key()[0] == 't');
}

/// Round trip of one `Thing`: the document it encodes to decodes back to
/// the same value.
pub proof fn lemma_thing_round_trip(t: ThingModel)
    ensures
        decode_thing_doc(thing_to_doc(t)) == Some(t),
{
    lemma_keys_distinct();
    let d = thing_to_doc(t);
    assert(flat_get(d, id_key()) == Some(ScalarModel::Id(t.id)));
    let d1 = d.drop_first();
    assert(d1 =~= seq![(thing_info_key(), ScalarModel::Str(t.thing_info))]);
    assert(flat_get(d1, thing_info_key()) == Some(ScalarModel::Str(t.thing_info)));
    assert(flat_get(d, thing_info_key()) == flat_get(d1, thing_info_key()));
}

/// Round trip of a `Thing` sequence.
pub proof fn lemma_things_round_trip(ts: Seq<ThingModel>)
    ensures
        decode_thing_docs(things_to_docs(ts)) == Some(ts),
    decreases ts.len(),
{
    let ds = things_to_docs(ts);
    if ts.len() == 0 {
        assert(ds =~= Seq::<FlatDocModel>::empty());
    } else {
        lemma_things_round_trip(ts.drop_last());
        lemma_thing_round_trip(ts.last());
        assert(ds.drop_last() =~= things_to_docs(ts.drop_last()));
        assert(ds.last() == thing_to_doc(ts.last()));
        assert(ts.drop_last().push(ts.last()) =~= ts);
    }
}

/// Round trip of a `Foo`-creation input (the general law behind the codec):
/// encoding an input and adjoining any store-assigned identifier decodes to
/// the stored aggregate that equals the input in every field except the
/// identifier.
pub proof fn lemma_foo_round_trip(id: ObjectId, f: FooInputModel)
    ensures
        decode_foo_doc(with_id(id, foo_input_to_doc(f))) == Some(FooModel::of_input(id, f)),
{
    lemma_keys_distinct();
    let d = with_id(id, foo_input_to_doc(f));
    assert(doc_get(d, id_key()) == Some(ValueModel::Scal(ScalarModel::Id(id))));
    let d1 = d.drop_first();
    assert(d1 =~= foo_input_to_doc(f));
    assert(doc_get(d, foo_string_key()) == doc_get(d1, foo_string_key()));
    assert(doc_get(d1, foo_string_key()) == Some(
        ValueModel::Scal(ScalarModel::Str(f.foo_string)),
    ));
    let d2 = d1.drop_first();
    assert(d2 =~= seq![(things_key(), ValueModel::Docs(things_to_docs(f.things)))]);
    assert(doc_get(d2, things_key()) == Some(ValueModel::Docs(things_to_docs(f.things))));
    assert(doc_get(d1, things_key()) == doc_get(d2, things_key()));
    assert(doc_get(d, things_key()) == doc_get(d1, things_key()));
    lemma_things_round_trip(f.things);
}

} // verus!
