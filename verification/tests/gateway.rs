//! End-to-end behaviour of the resolver set against the in-memory
//! collection: the full scenario, each tolerated edge case, and each
//! failure variant.

use mongotest::mutation::Mutation;
use mongotest::query::Query;
use mongotest::store::Collection;
use mongotest::types::{FooInput, ObjectId, ThingInput, UpdateStats};

fn oid(hi: u64, lo: u32) -> ObjectId {
    ObjectId { hi, lo }
}

fn foo_input(s: &str, things: Vec<ThingInput>) -> FooInput {
    FooInput { foo_string: s.to_string(), things }
}

fn thing(hi: u64, info: &str) -> ThingInput {
    ThingInput { id: oid(hi, 7), thing_info: info.to_string() }
}

#[test]
fn scenario_insert_list_append_delete() {
    let mut state = Collection::new();
    let q = Query;
    let m = Mutation;

    let x = m.add_foo(&mut state, &foo_input("A", vec![])).unwrap();

    let listed = q.foo_payloads(&state).unwrap();
    assert_eq!(listed.len(), 1);
    assert_eq!(listed[0].id, x);
    assert_eq!(listed[0].foo_string, "A");
    assert!(listed[0].things.is_empty());

    let y = thing(42, "t1");
    let stats = m.add_thing(&mut state, x, &y).unwrap();
    assert_eq!(
        stats,
        UpdateStats { id: None, matched_count: 1, modified_count: 1 }
    );

    let listed = q.foo_payloads(&state).unwrap();
    assert_eq!(listed.len(), 1);
    assert_eq!(listed[0].things, vec![y]);

    let deleted = m.delete_foos(&mut state, x).unwrap();
    assert!(deleted);
    let listed = q.foo_payloads(&state).unwrap();
    assert!(listed.is_empty());
}

#[test]
fn insert_one_id_appears_in_listing() {
    let mut state = Collection::new();
    let id = Mutation
        .add_foo(&mut state, &foo_input("first", vec![thing(1, "a")]))
        .unwrap();
    let listed = Query.foo_payloads(&state).unwrap();
    assert!(listed.iter().any(|f| f.id == id));
}

#[test]
fn insert_many_returns_one_id_per_input() {
    let mut state = Collection::new();
    let inputs = vec![
        foo_input("a", vec![]),
        foo_input("b", vec![thing(5, "x")]),
        foo_input("c", vec![]),
    ];
    let ids = Mutation.add_foos(&mut state, &inputs).unwrap();
    assert_eq!(ids.len(), 3);
    assert!(ids[0] != ids[1] && ids[1] != ids[2] && ids[0] != ids[2]);
    let listed = Query.foo_payloads(&state).unwrap();
    assert_eq!(listed.len(), 3);
    for (k, id) in ids.iter().enumerate() {
        assert_eq!(listed[k].id, *id);
    }
    assert_eq!(listed[1].things, vec![thing(5, "x")]);
}

#[test]
fn insert_many_empty_batch() {
    let mut state = Collection::new();
    let ids = Mutation.add_foos(&mut state, &vec![]).unwrap();
    assert!(ids.is_empty());
    assert!(Query.foo_payloads(&state).unwrap().is_empty());
}

#[test]
fn delete_absent_id_is_not_deleted_without_error() {
    let mut state = Collection::new();
    Mutation.add_foo(&mut state, &foo_input("keep", vec![])).unwrap();
    let r = Mutation.delete_foos(&mut state, oid(999, 1)).unwrap();
    assert!(!r);
    assert_eq!(Query.foo_payloads(&state).unwrap().len(), 1);
}

#[test]
fn delete_removes_exactly_that_document() {
    let mut state = Collection::new();
    let a = Mutation.add_foo(&mut state, &foo_input("a", vec![])).unwrap();
    let b = Mutation.add_foo(&mut state, &foo_input("b", vec![])).unwrap();
    let c = Mutation.add_foo(&mut state, &foo_input("c", vec![])).unwrap();
    assert!(Mutation.delete_foos(&mut state, b).unwrap());
    let listed = Query.foo_payloads(&state).unwrap();
    assert_eq!(listed.len(), 2);
    assert!(listed.iter().all(|f| f.id != b));
    assert_eq!(listed[0].id, a);
    assert_eq!(listed[1].id, c);
}

#[test]
fn append_child_grows_sequence_by_one_preserving_order() {
    let mut state = Collection::new();
    let id = Mutation
        .add_foo(&mut state, &foo_input("parent", vec![thing(1, "one"), thing(2, "two")]))
        .unwrap();
    let stats = Mutation.add_thing(&mut state, id, &thing(3, "three")).unwrap();
    assert_eq!(stats.matched_count, 1);
    assert_eq!(stats.modified_count, 1);
    assert_eq!(stats.id, None);
    let listed = Query.foo_payloads(&state).unwrap();
    assert_eq!(
        listed[0].things,
        vec![thing(1, "one"), thing(2, "two"), thing(3, "three")]
    );
}

#[test]
fn append_child_on_nonexistent_parent_reports_zero_counts() {
    let mut state = Collection::new();
    Mutation.add_foo(&mut state, &foo_input("parent", vec![])).unwrap();
    let stats = Mutation.add_thing(&mut state, oid(77, 0), &thing(9, "lost")).unwrap();
    assert_eq!(
        stats,
        UpdateStats { id: None, matched_count: 0, modified_count: 0 }
    );
    let listed = Query.foo_payloads(&state).unwrap();
    assert!(listed[0].things.is_empty());
}

#[test]
fn identifiers_are_never_reused() {
    let mut state = Collection::new();
    let a = Mutation.add_foo(&mut state, &foo_input("a", vec![])).unwrap();
    assert!(Mutation.delete_foos(&mut state, a).unwrap());
    let b = Mutation.add_foo(&mut state, &foo_input("b", vec![])).unwrap();
    assert_ne!(a, b);
    let more = Mutation
        .add_foos(&mut state, &vec![foo_input("c", vec![]), foo_input("d", vec![])])
        .unwrap();
    assert!(more.iter().all(|id| *id != a && *id != b));
}

#[test]
fn other_documents_keep_their_things_on_append() {
    let mut state = Collection::new();
    let a = Mutation.add_foo(&mut state, &foo_input("a", vec![thing(1, "a1")])).unwrap();
    let b = Mutation.add_foo(&mut state, &foo_input("b", vec![])).unwrap();
    Mutation.add_thing(&mut state, b, &thing(2, "b1")).unwrap();
    let listed = Query.foo_payloads(&state).unwrap();
    let fa = listed.iter().find(|f| f.id == a).unwrap();
    let fb = listed.iter().find(|f| f.id == b).unwrap();
    assert_eq!(fa.things, vec![thing(1, "a1")]);
    assert_eq!(fb.things, vec![thing(2, "b1")]);
}
