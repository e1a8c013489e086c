//! The typed object model of the gateway: identifiers, `Foo` aggregates,
//! embedded `Thing` values, and the result value of a mutating update.
//!
//! Each executable type has a mathematical model (`*Model`) used by every
//! contract in the crate; the model replaces strings with `Seq<char>` and
//! vectors with `Seq`.

use vstd::prelude::*;

verus! {

/// An opaque document identifier: a 12-byte token, held as a 64-bit and a
/// 32-bit word. The store model assigns fresh identifiers from a counter;
/// clients supply identifiers for embedded `Thing` values.
#[derive(Clone, Copy, Debug, PartialEq, Eq, Structural, Hash)]
pub struct ObjectId {
    pub hi: u64,
    pub lo: u32,
}

/// Input shape for an embedded `Thing`: a client-supplied identifier and a
/// string attribute.
#[derive(Clone, Debug, PartialEq)]
pub struct ThingInput {
    pub id: ObjectId,
    pub thing_info: String,
}

/// Mathematical model of a `Thing`.
pub struct ThingModel {
    pub id: ObjectId,
    pub thing_info: Seq<char>,
}

impl View for ThingInput {
    type V = ThingModel;

    open spec fn view(&self) -> ThingModel {
        ThingModel { id: self.id, thing_info: self.thing_info@ }
    }
}

impl DeepView for ThingInput {
    type V = ThingModel;

    open spec fn deep_view(&self) -> ThingModel {
        self.view()
    }
}

/// Input shape for creating a `Foo`: no identifier (the store assigns one),
/// a string attribute, and the initial sequence of embedded things.
#[derive(Clone, Debug, PartialEq)]
pub struct FooInput {
    pub foo_string: String,
    pub things: Vec<ThingInput>,
}

/// Mathematical model of a `Foo`-creation input.
pub struct FooInputModel {
    pub foo_string: Seq<char>,
    pub things: Seq<ThingModel>,
}

impl View for FooInput {
    type V = FooInputModel;

    open spec fn view(&self) -> FooInputModel {
        FooInputModel { foo_string: self.foo_string@, things: self.things.deep_view() }
    }
}

impl DeepView for FooInput {
    type V = FooInputModel;

    open spec fn deep_view(&self) -> FooInputModel {
        self.view()
    }
}

/// Output shape of a stored `Foo`: the store-assigned identifier together
/// with the attribute and the embedded things.
#[derive(Clone, Debug, PartialEq)]
pub struct FooPayload {
    pub id: ObjectId,
    pub foo_string: String,
    pub things: Vec<ThingInput>,
}

/// Mathematical model of a stored `Foo`.
pub struct FooModel {
    pub id: ObjectId,
    pub foo_string: Seq<char>,
    pub things: Seq<ThingModel>,
}

impl View for FooPayload {
    type V = FooModel;

    open spec fn view(&self) -> FooModel {
        FooModel {
            id: self.id,
            foo_string: self.foo_string@,
            things: self.things.deep_view(),
        }
    }
}

impl DeepView for FooPayload {
    type V = FooModel;

    open spec fn deep_view(&self) -> FooModel {
        self.view()
    }
}

impl FooModel {
    /// The stored aggregate that a creation input becomes once the store has
    /// assigned it an identifier.
    pub open spec fn of_input(id: ObjectId, input: FooInputModel) -> FooModel {
        FooModel { id, foo_string: input.foo_string, things: input.things }
    }
}

/// The effect of a mutating operation: an identifier when the operation
/// created a new document as a side effect, and the matched and modified
/// document counts reported by the store.
#[derive(Clone, Copy, Debug, PartialEq)]
pub struct UpdateStats {
    pub id: Option<ObjectId>,
    pub matched_count: i32,
    pub modified_count: i32,
}

} // verus!
