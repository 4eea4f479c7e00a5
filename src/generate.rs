//! The whole generation run: protocol selection, declarations, error
//! enumeration and client type, in output order.

use vstd::prelude::*;
use crate::declare::{Declaration, generate_types, types_match};
use crate::errors::{ErrorEnum, error_enum_matches, generate_error_types};
use crate::model::Service;
use crate::protocol::{Protocol, protocol_pair, select_protocol};

verus! {

/// A field of the generated client type, also used for the constructor's parameters.
#[derive(PartialEq, Eq, Structural, Clone, Copy, Debug)]
pub enum ClientField {
    CredentialsProvider,
    Region,
    Dispatcher,
}

/// The generated client type.
pub struct ClientDecl {
    pub name: String,
    /// The name the client's documentation gives the service.
    pub service_name: String,
    pub fields: Vec<ClientField>,
    pub constructor_params: Vec<ClientField>,
}

/// Everything a run emits after the fixed prelude, in output order.
pub struct GeneratedModule {
    pub protocol: Protocol,
    pub declarations: Vec<Declaration>,
    pub errors: ErrorEnum,
    pub client: ClientDecl,
}

pub open spec fn client_matches(s: &Service, c: ClientDecl) -> bool {
    &&& c.name@ == s.client_type_name@
    &&& c.service_name@ == match s.service_abbreviation {
        Some(a) => a@,
        None => s.service_full_name@,
    }
    &&& c.fields@ == seq![ClientField::CredentialsProvider, ClientField::Region, ClientField::Dispatcher]
    &&& c.constructor_params@ == seq![
        ClientField::Dispatcher,
        ClientField::CredentialsProvider,
        ClientField::Region,
    ]
}

/// The client type: credentials provider, region and dispatcher, built from a
/// dispatcher, a provider and a region in that order.
pub fn generate_client(service: &Service) -> (r: ClientDecl)
    ensures
        client_matches(service, r),
{
    let service_name = match &service.service_abbreviation {
        Some(a) => a.clone(),
        None => service.service_full_name.clone(),
    };
    let fields = vec![ClientField::CredentialsProvider, ClientField::Region, ClientField::Dispatcher];
    let constructor_params = vec![
        ClientField::Dispatcher,
        ClientField::CredentialsProvider,
        ClientField::Region,
    ];
    assert(fields@ =~= seq![ClientField::CredentialsProvider, ClientField::Region, ClientField::Dispatcher]);
    assert(constructor_params@ =~= seq![
        ClientField::Dispatcher,
        ClientField::CredentialsProvider,
        ClientField::Region,
    ]);
    ClientDecl { name: service.client_type_name.clone(), service_name, fields, constructor_params }
}

/// Generates the module for a service; `None` when its protocol name is not
/// one of the five known ones.
pub fn generate(service: &Service) -> (r: Option<GeneratedModule>)
    requires
        service.wf(),
    ensures
        r is None <==> protocol_pair(service.protocol@) is None,
        r is Some ==> ({
            let (p, family) = protocol_pair(service.protocol@)->0;
            &&& r->0.protocol == p
            &&& types_match(service, p, r->0.declarations@)
            &&& error_enum_matches(service, family, r->0.errors)
            &&& client_matches(service, r->0.client)
        }),
{
    match select_protocol(service.protocol.as_str()) {
        None => None,
        Some((protocol, family)) => {
            let declarations = generate_types(service, protocol);
            let errors = generate_error_types(service, family);
            let client = generate_client(service);
            Some(GeneratedModule { protocol, declarations, errors, client })
        },
    }
}

} // verus!
