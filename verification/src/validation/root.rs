use crate::schema::model::{Schema, Type};
use crate::types::SIZE_OF_UOFFSET;
use crate::validation::offsets::{
    read_uoffset, spec_read_uoffset, spec_try_follow_uoffset, try_follow_uoffset, Error,
};
use crate::validation::string::{spec_verify_string, StringVerifier};
use crate::validation::table::{
    spec_verifiable, spec_verify_reference_elements, spec_verify_scalar_elements,
    spec_verify_table, verify_reference_elements, verify_scalar_elements, verify_table,
};
use vstd::prelude::*;

verus! {

/// The size of the length that a size-prefixed buffer starts with.
pub const SIZE_OF_SIZE_PREFIX: usize = 4;

/// Something stored in a buffer that can be checked.
pub trait Verify {
    fn verify(&self) -> (r: Result<(), Error>);
}

impl<'a> Verify for StringVerifier<'a> {
    fn verify(&self) -> (r: Result<(), Error>)
        ensures
            r == spec_verify_string(self.spec_buf(), self.spec_loc()),
    {
        StringVerifier::verify(self)
    }
}

/// Checks a vector where it is stored.
pub struct VectorVerifier<'a> {
    buf: &'a [u8],
    loc: usize,
}

impl<'a> VectorVerifier<'a> {
    /// The buffer that is looked at.
    pub closed spec fn spec_buf(&self) -> Seq<u8> {
        self.buf@
    }

    /// The place that is looked at.
    pub closed spec fn spec_loc(&self) -> usize {
        self.loc
    }

    /// What checks the vector that starts at `loc`.
    pub fn follow(buf: &'a [u8], loc: usize) -> (r: Self)
        ensures
            r.spec_buf() == buf@,
            r.spec_loc() == loc,
    {
        VectorVerifier { buf, loc }
    }

    /// Checks the vector as one of inline elements of the given size.
    pub fn verify_scalar_elements(&self, scalar_size: usize) -> (r: Result<(), Error>)
        ensures
            r == spec_verify_scalar_elements(self.spec_buf(), self.spec_loc(), scalar_size),
    {
        verify_scalar_elements(self.buf, self.loc, scalar_size)
    }

    /// Checks the vector as one of references to strings or to tables of the schema.
    pub fn verify_reference_elements(&self, schema: &Schema, element: &Type) -> (r: Result<
        (),
        Error,
    >)
        requires
            spec_verifiable(schema.deep_view()),
            element.spec_resolvable(schema.objects@.len(), schema.enums@.len()),
        ensures
            r == spec_verify_reference_elements(
                self.spec_buf(),
                schema.deep_view(),
                *element,
                self.spec_loc(),
            ),
    {
        verify_reference_elements(self.buf, schema, element, self.loc)
    }
}

/// Checks a table where it is stored, against one object of a schema.
pub struct TableVerifier<'a> {
    buf: &'a [u8],
    loc: usize,
    schema: &'a Schema,
    object: usize,
}

impl<'a> TableVerifier<'a> {
    #[verifier::type_invariant]
    spec fn well_formed(&self) -> bool {
        &&& spec_verifiable(self.schema.deep_view())
        &&& self.object < self.schema.objects@.len()
    }

    /// The buffer that is looked at.
    pub closed spec fn spec_buf(&self) -> Seq<u8> {
        self.buf@
    }

    /// The place that is looked at.
    pub closed spec fn spec_loc(&self) -> usize {
        self.loc
    }

    /// The schema that the table is checked against.
    pub closed spec fn spec_schema(&self) -> Schema {
        *self.schema
    }

    /// The object that the table is checked against.
    pub closed spec fn spec_object(&self) -> usize {
        self.object
    }

    /// What checks the table that starts at `loc`.
    pub fn follow(buf: &'a [u8], loc: usize, schema: &'a Schema, object: usize) -> (r: Self)
        requires
            spec_verifiable(schema.deep_view()),
            object < schema.objects@.len(),
        ensures
            r.spec_buf() == buf@,
            r.spec_loc() == loc,
            r.spec_schema() == *schema,
            r.spec_object() == object,
    {
        TableVerifier { buf, loc, schema, object }
    }
}

impl<'a> Verify for TableVerifier<'a> {
    fn verify(&self) -> (r: Result<(), Error>)
        ensures
            r == spec_verify_table(
                self.spec_buf(),
                self.spec_schema().deep_view(),
                self.spec_object(),
                self.spec_loc(),
            ),
    {
        proof {
            use_type_invariant(self);
        }
        verify_table(self.buf, self.schema, self.object, self.loc)
    }
}

/// What the check of a whole buffer gives: the place of the root table, where the buffer
/// holds the offset to it and the table passes as the object `object`.
pub open spec fn spec_get_root(
    buf: Seq<u8>,
    schema: crate::schema::model::SchemaView,
    object: usize,
) -> Result<usize, Error> {
    if buf.len() < SIZE_OF_UOFFSET {
        Err(Error::OutOfBounds)
    } else {
        let root = spec_read_uoffset(buf, 0);
        match spec_verify_table(buf, schema, object, root) {
            Ok(_) => Ok(root),
            Err(e) => Err(e),
        }
    }
}

/// What the check of a buffer that starts with its size gives: as `spec_get_root`, with the
/// offset to the root behind the size.
pub open spec fn spec_get_size_prefixed_root(
    buf: Seq<u8>,
    schema: crate::schema::model::SchemaView,
    object: usize,
) -> Result<usize, Error> {
    if buf.len() < SIZE_OF_SIZE_PREFIX + SIZE_OF_UOFFSET {
        Err(Error::OutOfBounds)
    } else {
        match spec_try_follow_uoffset(buf, SIZE_OF_SIZE_PREFIX) {
            Err(e) => Err(e),
            Ok(root) => match spec_verify_table(buf, schema, object, root) {
                Ok(_) => Ok(root),
                Err(e) => Err(e),
            },
        }
    }
}

/// The outcome of a check without the place of the root.
pub open spec fn spec_without_place(outcome: Result<usize, Error>) -> Result<(), Error> {
    match outcome {
        Ok(_) => Ok(()),
        Err(e) => Err(e),
    }
}

/// Checks a buffer whose root table is of the object `object`, and gives the place of the
/// root table.
pub fn get_root(data: &[u8], schema: &Schema, object: usize) -> (r: Result<usize, Error>)
    requires
        spec_verifiable(schema.deep_view()),
        object < schema.objects@.len(),
    ensures
        r == spec_get_root(data@, schema.deep_view(), object),
{
    if data.len() < SIZE_OF_UOFFSET {
        return Err(Error::OutOfBounds);
    }
    let root = read_uoffset(data, 0);
    match TableVerifier::follow(data, root, schema, object).verify() {
        Ok(_) => Ok(root),
        Err(e) => Err(e),
    }
}

/// Checks a buffer that starts with its size, and gives the place of the root table.
pub fn get_size_prefixed_root(data: &[u8], schema: &Schema, object: usize) -> (r: Result<
    usize,
    Error,
>)
    requires
        spec_verifiable(schema.deep_view()),
        object < schema.objects@.len(),
    ensures
        r == spec_get_size_prefixed_root(data@, schema.deep_view(), object),
{
    if data.len() < SIZE_OF_SIZE_PREFIX + SIZE_OF_UOFFSET {
        return Err(Error::OutOfBounds);
    }
    let root = match try_follow_uoffset(data, SIZE_OF_SIZE_PREFIX) {
        Ok(root) => root,
        Err(e) => {
            return Err(e);
        },
    };
    match TableVerifier::follow(data, root, schema, object).verify() {
        Ok(_) => Ok(root),
        Err(e) => Err(e),
    }
}

/// Checks a buffer and tells only whether it passed.
pub fn verify_root(data: &[u8], schema: &Schema, object: usize) -> (r: Result<(), Error>)
    requires
        spec_verifiable(schema.deep_view()),
        object < schema.objects@.len(),
    ensures
        r == spec_without_place(spec_get_root(data@, schema.deep_view(), object)),
{
    match get_root(data, schema, object) {
        Ok(_) => Ok(()),
        Err(e) => Err(e),
    }
}

/// Checks a buffer that starts with its size and tells only whether it passed.
pub fn verify_size_prefixed_root(data: &[u8], schema: &Schema, object: usize) -> (r: Result<
    (),
    Error,
>)
    requires
        spec_verifiable(schema.deep_view()),
        object < schema.objects@.len(),
    ensures
        r == spec_without_place(spec_get_size_prefixed_root(data@, schema.deep_view(), object)),
{
    match get_size_prefixed_root(data, schema, object) {
        Ok(_) => Ok(()),
        Err(e) => Err(e),
    }
}

} // verus!
