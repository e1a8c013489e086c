//! The unified error channel: every variant renders with its source named
//! in front of the diagnostic payload, and every reply shape a store could
//! give is interpreted into the right variant.

use mongotest::document::{Scalar, Value};
use mongotest::error::Error;
use mongotest::mutation::{
    interpret_delete, interpret_insert_many, interpret_insert_one, interpret_update,
};
use mongotest::store::{DeleteResult, InsertManyResult, InsertOneResult, UpdateResult};
use mongotest::types::{ObjectId, UpdateStats};

fn oid(hi: u64, lo: u32) -> ObjectId {
    ObjectId { hi, lo }
}

#[test]
fn every_variant_renders_with_its_source() {
    assert_eq!(Error::Io("a".to_string()).message(), "i/o error: a");
    assert_eq!(Error::Missing("b".to_string()).message(), "missing value: b");
    assert_eq!(Error::Decode("c".to_string()).message(), "decode error: c");
    assert_eq!(Error::Encode("d".to_string()).message(), "encode error: d");
    assert_eq!(Error::Store("e".to_string()).message(), "store error: e");
    assert_eq!(
        Error::WriteException("f".to_string()).message(),
        "write exception: f"
    );
}

#[test]
fn insert_reply_with_identifier_succeeds() {
    let r = interpret_insert_one(InsertOneResult {
        inserted_id: Some(Value::Scal(Scalar::Id(oid(4, 2)))),
        write_exception: None,
    });
    assert_eq!(r.unwrap(), oid(4, 2));
}

#[test]
fn insert_reply_with_write_exception_surfaces_it() {
    let r = interpret_insert_one(InsertOneResult {
        inserted_id: None,
        write_exception: Some("duplicate key".to_string()),
    });
    assert_eq!(r.unwrap_err(), Error::WriteException("duplicate key".to_string()));
}

#[test]
fn insert_reply_with_neither_is_a_missing_value_error() {
    let r = interpret_insert_one(InsertOneResult { inserted_id: None, write_exception: None });
    assert!(matches!(r, Err(Error::Missing(_))));
}

#[test]
fn insert_reply_with_non_identifier_is_a_decode_error() {
    let r = interpret_insert_one(InsertOneResult {
        inserted_id: Some(Value::Scal(Scalar::Str("oops".to_string()))),
        write_exception: None,
    });
    assert!(matches!(r, Err(Error::Decode(_))));
}

#[test]
fn batched_reply_yields_identifiers_in_reply_order() {
    let r = interpret_insert_many(InsertManyResult {
        inserted_ids: Some(vec![
            Value::Scal(Scalar::Id(oid(1, 0))),
            Value::Scal(Scalar::Id(oid(2, 0))),
        ]),
        bulk_write_exception: None,
    });
    assert_eq!(r.unwrap(), vec![oid(1, 0), oid(2, 0)]);
}

#[test]
fn batched_reply_with_bulk_exception_surfaces_it() {
    let r = interpret_insert_many(InsertManyResult {
        inserted_ids: None,
        bulk_write_exception: Some("batch failed".to_string()),
    });
    assert_eq!(r.unwrap_err(), Error::WriteException("batch failed".to_string()));
}

#[test]
fn batched_reply_with_neither_is_a_missing_value_error() {
    let r = interpret_insert_many(InsertManyResult {
        inserted_ids: None,
        bulk_write_exception: None,
    });
    assert!(matches!(r, Err(Error::Missing(_))));
}

#[test]
fn batched_reply_with_non_identifier_is_a_decode_error() {
    let r = interpret_insert_many(InsertManyResult {
        inserted_ids: Some(vec![Value::Scal(Scalar::Str("oops".to_string()))]),
        bulk_write_exception: None,
    });
    assert!(matches!(r, Err(Error::Decode(_))));
}

#[test]
fn delete_reply_tolerates_the_vanished_document_race() {
    let r = interpret_delete(DeleteResult { deleted_count: 0, write_exception: None });
    assert_eq!(r.unwrap(), false);
}

#[test]
fn delete_reply_with_write_exception_surfaces_it() {
    let r = interpret_delete(DeleteResult {
        deleted_count: 0,
        write_exception: Some("locked".to_string()),
    });
    assert_eq!(r.unwrap_err(), Error::WriteException("locked".to_string()));
}

#[test]
fn delete_reply_with_positive_count_succeeds() {
    let r = interpret_delete(DeleteResult { deleted_count: 1, write_exception: None });
    assert_eq!(r.unwrap(), true);
}

#[test]
fn update_reply_with_write_exception_surfaces_it() {
    let r = interpret_update(UpdateResult {
        matched_count: 0,
        modified_count: 0,
        upserted_id: None,
        write_exception: Some("rejected".to_string()),
    });
    assert_eq!(r.unwrap_err(), Error::WriteException("rejected".to_string()));
}

#[test]
fn update_reply_exposes_an_implicitly_created_identifier() {
    let r = interpret_update(UpdateResult {
        matched_count: 0,
        modified_count: 0,
        upserted_id: Some(Value::Scal(Scalar::Id(oid(9, 9)))),
        write_exception: None,
    });
    assert_eq!(
        r.unwrap(),
        UpdateStats { id: Some(oid(9, 9)), matched_count: 0, modified_count: 0 }
    );
}

#[test]
fn update_reply_with_non_identifier_is_a_decode_error() {
    let r = interpret_update(UpdateResult {
        matched_count: 1,
        modified_count: 1,
        upserted_id: Some(Value::Scal(Scalar::Str("oops".to_string()))),
        write_exception: None,
    });
    assert!(matches!(r, Err(Error::Decode(_))));
}
