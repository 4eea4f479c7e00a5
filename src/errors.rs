//! The error enumeration of a service: one variant per exception shape and a
//! fixed set of fallback variants.

use vstd::prelude::*;
use crate::declare::{indices_where, lemma_indices_where_bounds};
use crate::model::{Service, Shape};
use crate::names::{error_type_name, type_name_of};
use crate::protocol::ErrorFamily;

verus! {

/// A variant of the service error enumeration.
pub enum ErrorVariant {
    /// Raised for an exception shape; holds the variant's identifier.
    Exception(String),
    /// The request could not be dispatched.
    HttpDispatch,
    /// No credentials could be obtained.
    Credentials,
    /// The response status was not recognized.
    Unknown,
}

/// The service error enumeration.
pub struct ErrorEnum {
    pub name: String,
    /// How error responses are parsed into variants.
    pub family: ErrorFamily,
    pub variants: Vec<ErrorVariant>,
}

/// The error enumeration of a service under an error family.
pub open spec fn error_enum_matches(s: &Service, family: ErrorFamily, e: ErrorEnum) -> bool {
    let exc = indices_where(s.shapes@, true);
    &&& e.name@ == type_name_of(s.client_type_name@) + "Error"@
    &&& e.family == family
    &&& e.variants@.len() == exc.len() + 3
    &&& forall|k: int|
        0 <= k < exc.len() ==> (#[trigger] e.variants@[k]) is Exception && e.variants@[k]->Exception_0@
            == type_name_of(s.shapes@[exc[k]].name@) + "Error"@
    &&& e.variants@[exc.len() as int] is HttpDispatch
    &&& e.variants@[exc.len() as int + 1] is Credentials
    &&& e.variants@[exc.len() as int + 2] is Unknown
}

/// Builds the error enumeration from the exception shapes, in shape order.
pub fn generate_error_types(service: &Service, family: ErrorFamily) -> (r: ErrorEnum)
    ensures
        error_enum_matches(service, family, r),
{
    let mut variants: Vec<ErrorVariant> = Vec::new();
    let mut i: usize = 0;
    assert(service.shapes@.take(0) =~= Seq::<Shape>::empty());
    while i < service.shapes.len()
        invariant
            i <= service.shapes@.len(),
            variants@.len() == indices_where(service.shapes@.take(i as int), true).len(),
            forall|k: int|
                0 <= k < variants@.len() ==> (#[trigger] variants@[k]) is Exception
                    && variants@[k]->Exception_0@ == type_name_of(
                    service.shapes@[indices_where(service.shapes@.take(i as int), true)[k]].name@,
                ) + "Error"@,
        decreases service.shapes@.len() - i,
    {
        let ghost prefix = service.shapes@.take(i as int);
        assert(service.shapes@.take(i + 1).drop_last() =~= prefix);
        if service.shapes[i].exception {
            variants.push(ErrorVariant::Exception(error_type_name(service.shapes[i].name.as_str())));
        }
        i += 1;
    }
    assert(service.shapes@.take(i as int) =~= service.shapes@);
    variants.push(ErrorVariant::HttpDispatch);
    variants.push(ErrorVariant::Credentials);
    variants.push(ErrorVariant::Unknown);
    let name = error_type_name(service.client_type_name.as_str());
    ErrorEnum { name, family, variants }
}

/// A service without exception shapes gets the three fallback variants alone.
pub proof fn lemma_only_fallbacks(s: &Service, e: ErrorEnum, family: ErrorFamily)
    requires
        error_enum_matches(s, family, e),
        forall|i: int| 0 <= i < s.shapes@.len() ==> !(#[trigger] s.shapes@[i]).exception,
    ensures
        e.variants@.len() == 3,
        e.variants@[0] is HttpDispatch,
        e.variants@[1] is Credentials,
        e.variants@[2] is Unknown,
{
    lemma_indices_where_bounds(s.shapes@, true);
    let exc = indices_where(s.shapes@, true);
    if exc.len() > 0 {
        assert(s.shapes@[exc[0]].exception);
    }
}

} // verus!
