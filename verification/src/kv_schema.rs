//! The schema of a table of keys and values.

use vstd::prelude::*;
use crate::schema::FieldView;
use crate::schema::Schema;

verus! {

/// A table's schema, kept with the table.
#[derive(Debug, PartialEq, Eq)]
pub struct KVSchema {
    sch: Schema,
}

impl View for KVSchema {
    type V = Seq<FieldView>;

    closed spec fn view(&self) -> Seq<FieldView> {
        self.sch@
    }
}

impl KVSchema {
    /// Keeps a schema.
    pub fn new(schema: Schema) -> (r: KVSchema)
        ensures
            r@ == schema@,
    {
        KVSchema { sch: schema }
    }

    /// The schema.
    pub fn schema(&self) -> (r: &Schema)
        ensures
            r@ == self@,
    {
        &self.sch
    }
}

} // verus!
