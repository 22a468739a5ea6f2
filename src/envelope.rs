use vstd::prelude::*;

use crate::error::{DecodeError, Fault};

verus! {

/// The one version of the binary format that this codec reads and writes.
pub const SUPPORTED_VERSION: u8 = 1;

/// The type that the database names for a value: its schema and its name.
pub struct TypeDescriptor {
    pub schema: String,
    pub name: String,
}

/// Whether a type descriptor names the graph value type `ag_catalog.agtype`.
pub open spec fn is_agtype(schema: Seq<char>, name: Seq<char>) -> bool {
    schema == "ag_catalog"@ && name == "agtype"@
}

/// The content of an envelope: the bytes after the version byte, once the type
/// descriptor and the version are checked.
pub open spec fn envelope_content(ty: &TypeDescriptor, raw: Seq<u8>) -> Result<Seq<u8>, Fault> {
    if !is_agtype(ty.schema@, ty.name@) {
        Err(Fault::TypeMismatch)
    } else if raw.len() == 0 {
        Err(Fault::Empty)
    } else if raw[0] != SUPPORTED_VERSION {
        Err(Fault::UnsupportedVersion)
    } else {
        Ok(raw.drop_first())
    }
}

impl TypeDescriptor {
    /// A descriptor of the type `schema.name`.
    pub fn new(schema: &str, name: &str) -> (r: TypeDescriptor)
        ensures
            r.schema@ == schema@,
            r.name@ == name@,
    {
        TypeDescriptor { schema: String::from_str(schema), name: String::from_str(name) }
    }

    /// The descriptor of `ag_catalog.agtype`.
    pub fn agtype() -> (r: TypeDescriptor)
        ensures
            is_agtype(r.schema@, r.name@),
    {
        TypeDescriptor::new("ag_catalog", "agtype")
    }
}

/// Tells whether the codec handles values of the type `ty`.
pub fn accepts(ty: &TypeDescriptor) -> (r: bool)
    ensures
        r == is_agtype(ty.schema@, ty.name@),
{
    ty.schema == String::from_str("ag_catalog") && ty.name == String::from_str("agtype")
}

/// Checks the type descriptor and the version byte, and gives the bytes that
/// follow the version byte.
pub fn open_envelope<'a>(ty: &TypeDescriptor, raw: &'a [u8]) -> (r: Result<&'a [u8], DecodeError>)
    ensures
        r matches Ok(c) ==> envelope_content(ty, raw@) == Ok::<Seq<u8>, Fault>(c@),
        r matches Err(e) ==> envelope_content(ty, raw@) == Err::<Seq<u8>, Fault>(e.fault()),
{
    if !accepts(ty) {
        return Err(DecodeError::TypeMismatch);
    }
    if raw.len() == 0 {
        return Err(DecodeError::Empty);
    }
    if raw[0] != SUPPORTED_VERSION {
        return Err(DecodeError::UnsupportedVersion);
    }
    let c = vstd::slice::slice_subrange(raw, 1, raw.len());
    assert(c@ =~= raw@.drop_first());
    Ok(c)
}

} // verus!
