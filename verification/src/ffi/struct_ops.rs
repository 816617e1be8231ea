//! The checks made before a foreign struct is built or one of its fields is
//! read or written: every field must be given, and a field must exist.  The
//! memory work itself happens outside the library.

use vstd::prelude::*;
use crate::error::GraphoidError;
use crate::ffi::types::{FfiStructDef, FfiStructField};
use crate::text::str_eq;

verus! {

/// Some name of `names` is `n`.
pub open spec fn named(names: Seq<String>, n: Seq<char>) -> bool {
    exists|k: int| 0 <= k < names.len() && #[trigger] names[k]@ == n
}

/// The message of the error for a field that was not given.
pub open spec fn missing_field_message(field: Seq<char>, strukt: Seq<char>) -> Seq<char> {
    "Missing field '"@ + field + "' for struct '"@ + strukt + "'"@
}

/// The message of the error for a field that a struct does not have.
pub open spec fn unknown_field_message(strukt: Seq<char>, field: Seq<char>) -> Seq<char> {
    "Struct '"@ + strukt + "' has no field '"@ + field + "'"@
}

fn contains_name(names: &Vec<String>, n: &str) -> (r: bool)
    ensures
        r == named(names@, n@),
{
    let mut k: usize = 0;
    while k < names.len()
        invariant
            k <= names@.len(),
            forall|j: int| 0 <= j < k ==> names@[j]@ != n@,
        decreases names@.len() - k,
    {
        if str_eq(names[k].as_str(), n) {
            return true;
        }
        k = k + 1;
    }
    false
}

/// Before a struct is built from the values given under `given` names:
/// every field of the definition must be among them.  The error names the
/// first field, in declaration order, that is missing.
pub fn check_struct_fields(def: &FfiStructDef, given: &Vec<String>) -> (r: Result<(), GraphoidError>)
    ensures
        r is Ok <==> forall|i: int| 0 <= i < def.fields@.len() ==> named(given@, #[trigger] def.fields@[i].name@),
        r matches Err(e) ==> exists|i: int| 0 <= i < def.fields@.len()
            && !named(given@, #[trigger] def.fields@[i].name@)
            && (forall|j: int| 0 <= j < i ==> named(given@, def.fields@[j].name@))
            && (e matches GraphoidError::RuntimeError { message }
                && message@ == missing_field_message(def.fields@[i].name@, def.name@)),
{
    let mut i: usize = 0;
    while i < def.fields.len()
        invariant
            i <= def.fields@.len(),
            forall|j: int| 0 <= j < i ==> named(given@, #[trigger] def.fields@[j].name@),
        decreases def.fields@.len() - i,
    {
        if !contains_name(given, def.fields[i].name.as_str()) {
            let mut message = String::from_str("Missing field '");
            message.append(def.fields[i].name.as_str());
            message.append("' for struct '");
            message.append(def.name.as_str());
            message.append("'");
            return Err(GraphoidError::runtime(message));
        }
        i = i + 1;
    }
    Ok(())
}

/// The field of the definition that a read or write names, or the error
/// that the struct has no such field.
pub fn field_for<'a>(def: &'a FfiStructDef, field_name: &str) -> (r: Result<&'a FfiStructField, GraphoidError>)
    ensures
        match r {
            Ok(f) => exists|i: int| 0 <= i < def.fields@.len() && f == &def.fields@[i]
                && def.fields@[i].name@ == field_name@
                && forall|j: int| 0 <= j < i ==> def.fields@[j].name@ != field_name@,
            Err(e) => (forall|j: int| 0 <= j < def.fields@.len() ==> def.fields@[j].name@ != field_name@)
                && (e matches GraphoidError::RuntimeError { message }
                    && message@ == unknown_field_message(def.name@, field_name@)),
        },
{
    match def.get_field(field_name) {
        Some(f) => Ok(f),
        None => {
            let mut message = String::from_str("Struct '");
            message.append(def.name.as_str());
            message.append("' has no field '");
            message.append(field_name);
            message.append("'");
            Err(GraphoidError::runtime(message))
        },
    }
}

} // verus!
