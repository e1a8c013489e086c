//! The document codec on concrete values: exact encodings, the round
//! trip, strict decoding, and halting on the first failing element.

use mongotest::codec::{decode_foo, decode_foos, decode_thing, encode_foo, encode_thing};
use mongotest::document::{Document, FlatDoc, Scalar, Value};
use mongotest::error::Error;
use mongotest::types::{FooInput, ObjectId, ThingInput};

fn oid(hi: u64, lo: u32) -> ObjectId {
    ObjectId { hi, lo }
}

fn with_id(id: ObjectId, d: Document) -> Document {
    let mut entries = vec![("_id".to_string(), Value::Scal(Scalar::Id(id)))];
    entries.extend(d.entries);
    Document { entries }
}

#[test]
fn encode_thing_exact_document() {
    let t = ThingInput { id: oid(3, 4), thing_info: "info".to_string() };
    let d = encode_thing(&t);
    assert_eq!(
        d,
        FlatDoc {
            entries: vec![
                ("_id".to_string(), Scalar::Id(oid(3, 4))),
                ("thingInfo".to_string(), Scalar::Str("info".to_string())),
            ],
        }
    );
}

#[test]
fn encode_foo_exact_document() {
    let f = FooInput {
        foo_string: "hello".to_string(),
        things: vec![ThingInput { id: oid(1, 2), thing_info: "t".to_string() }],
    };
    let d = encode_foo(&f);
    assert_eq!(d.entries.len(), 2);
    assert_eq!(d.entries[0].0, "fooString");
    assert_eq!(d.entries[0].1, Value::Scal(Scalar::Str("hello".to_string())));
    assert_eq!(d.entries[1].0, "things");
    assert_eq!(
        d.entries[1].1,
        Value::Docs(vec![FlatDoc {
            entries: vec![
                ("_id".to_string(), Scalar::Id(oid(1, 2))),
                ("thingInfo".to_string(), Scalar::Str("t".to_string())),
            ],
        }])
    );
}

#[test]
fn foo_round_trip_equal_in_every_field_but_identifier() {
    let f = FooInput {
        foo_string: "abc".to_string(),
        things: vec![
            ThingInput { id: oid(8, 9), thing_info: "x".to_string() },
            ThingInput { id: oid(10, 11), thing_info: "y".to_string() },
        ],
    };
    let id = oid(200, 0);
    let p = decode_foo(&with_id(id, encode_foo(&f))).unwrap();
    assert_eq!(p.id, id);
    assert_eq!(p.foo_string, f.foo_string);
    assert_eq!(p.things, f.things);
}

#[test]
fn thing_round_trip() {
    let t = ThingInput { id: oid(5, 6), thing_info: "z".to_string() };
    assert_eq!(decode_thing(&encode_thing(&t)).unwrap(), t);
}

#[test]
fn decode_foo_missing_id_fails() {
    let f = FooInput { foo_string: "abc".to_string(), things: vec![] };
    let r = decode_foo(&encode_foo(&f));
    assert!(matches!(r, Err(Error::Decode(_))));
}

#[test]
fn decode_foo_wrong_shape_fails() {
    let d = Document {
        entries: vec![
            ("_id".to_string(), Value::Scal(Scalar::Id(oid(1, 0)))),
            ("fooString".to_string(), Value::Scal(Scalar::Id(oid(2, 0)))),
            ("things".to_string(), Value::Docs(vec![])),
        ],
    };
    assert!(matches!(decode_foo(&d), Err(Error::Decode(_))));
}

#[test]
fn decode_foo_missing_things_fails() {
    let d = Document {
        entries: vec![
            ("_id".to_string(), Value::Scal(Scalar::Id(oid(1, 0)))),
            ("fooString".to_string(), Value::Scal(Scalar::Str("s".to_string()))),
        ],
    };
    assert!(matches!(decode_foo(&d), Err(Error::Decode(_))));
}

#[test]
fn decode_thing_missing_info_fails() {
    let d = FlatDoc { entries: vec![("_id".to_string(), Scalar::Id(oid(1, 0)))] };
    assert!(matches!(decode_thing(&d), Err(Error::Decode(_))));
}

#[test]
fn decode_sequence_halts_on_first_failure() {
    let good = with_id(
        oid(1, 0),
        encode_foo(&FooInput { foo_string: "ok".to_string(), things: vec![] }),
    );
    let bad = Document { entries: vec![] };
    let r = decode_foos(&vec![good, bad]);
    assert!(matches!(r, Err(Error::Decode(_))));
}

#[test]
fn first_matching_key_wins() {
    let mut d = with_id(
        oid(1, 0),
        encode_foo(&FooInput { foo_string: "kept".to_string(), things: vec![] }),
    );
    d.entries.push(("fooString".to_string(), Value::Scal(Scalar::Str("shadowed".to_string()))));
    let p = decode_foo(&d).unwrap();
    assert_eq!(p.foo_string, "kept");
}
