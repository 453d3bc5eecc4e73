//! What a template helper looks up in a schema: the tables and enums by index.

use crate::schema::model::{DeepClone, Enum, Object, Schema};
use vstd::prelude::*;

verus! {

/// The objects and enums of one schema, as the helpers of a template see them.
pub struct SchemaContext<'a> {
    objects: &'a Vec<Object>,
    enums: &'a Vec<Enum>,
}

impl<'a> SchemaContext<'a> {
    /// The objects that the context looks names up in.
    pub closed spec fn spec_objects(&self) -> Seq<Object> {
        self.objects@
    }

    /// The enums that the context looks names and values up in.
    pub closed spec fn spec_enums(&self) -> Seq<Enum> {
        self.enums@
    }

    /// A context over the objects and enums of `schema`.
    pub fn new(schema: &'a Schema) -> (context: Self)
        ensures
            context.spec_objects() == schema.objects@,
            context.spec_enums() == schema.enums@,
    {
        SchemaContext { objects: &schema.objects, enums: &schema.enums }
    }

    /// The name of the object at `index`.
    pub fn object_name(&self, index: usize) -> (name: &str)
        requires
            index < self.spec_objects().len(),
        ensures
            name@ == self.spec_objects()[index as int].name@,
    {
        self.objects[index].name.as_str()
    }

    /// A copy of the enum at `index`.
    pub fn enum_at(&self, index: usize) -> (found: Enum)
        requires
            index < self.spec_enums().len(),
        ensures
            found.deep_view() == self.spec_enums()[index as int].deep_view(),
    {
        self.enums[index].deep_clone()
    }

    /// The name of the enum at `index`.
    pub fn enum_name(&self, index: usize) -> (name: &str)
        requires
            index < self.spec_enums().len(),
        ensures
            name@ == self.spec_enums()[index as int].name@,
    {
        self.enums[index].name.as_str()
    }
}

} // verus!
